//! Cluster health, derived from successive statistics samples and gossip
//! reports.
//!
//! Decimal measurements are held as whole thousandths of their unit.

use vstd::prelude::*;

verus! {

/// Identity of a cluster node, carried through as the store reports it.
#[verifier::external_type_specification]
#[verifier::external_body]
pub struct ExUuid(uuid::Uuid);

/// Number of time units that the charts look back, and the greatest number
/// of samples that a rolling window holds: one sample more, and the oldest
/// leaves.
pub const GRAPH_TIME_LIMIT: usize = 20;

/// Time units that pass between two polls.
pub const POLL_PERIOD: usize = 2;

/// Role of a node in the replication topology, as far as the engine tells
/// roles apart.
#[derive(Debug, Clone, Copy, PartialEq, Eq, Structural)]
pub enum NodeRole {
    Leader,
    Follower,
    Other,
}

/// One node of a gossip report.
#[derive(Debug, Clone, Copy)]
pub struct Member {
    pub instance_id: uuid::Uuid,
    pub epoch_number: i64,
    pub writer_checkpoint: i64,
    pub role: NodeRole,
    pub is_alive: bool,
}

/// The node that leads the cluster, as last seen.
#[derive(Debug, Clone, Copy)]
pub struct Leader {
    pub instance_id: uuid::Uuid,
    pub epoch_number: i64,
    pub writer_checkpoint: i64,
}

/// Usage of the drive that holds the database.
#[derive(Debug, Clone)]
pub struct Drive {
    pub path: String,
    pub available_bytes: usize,
    pub total_bytes: usize,
    pub usage: String,
    pub used_bytes: usize,
}

/// Version of the server, as three numbers.
#[derive(Debug, Clone, Copy, PartialEq, Eq, Structural)]
pub struct ServerVersion {
    pub major: u64,
    pub minor: u64,
    pub patch: u64,
}

/// What one poll of the statistics endpoint contributes to cluster health.
#[derive(Debug, Clone)]
pub struct Sample {
    /// Processor load in thousandths of a percent.
    pub cpu: i64,
    /// Free memory in bytes.
    pub free_mem: usize,
    /// Bytes written to disk since the server started.
    pub written_bytes: i64,
    pub drive: Option<Drive>,
}

/// Cluster health over the lifetime of a session.
pub struct Monitoring {
    /// Logical time: advances by `POLL_PERIOD` with every poll.
    pub increment: usize,
    pub last_epoch_number: Option<i64>,
    pub last_writer_checkpoint: Option<i64>,
    /// Writer checkpoints by logical time.
    pub writer_checkpoints: Vec<(usize, i64)>,
    /// Processor load, in thousandths of a percent, by logical time.
    pub cpu_load: Vec<(usize, i64)>,
    /// Bytes written between two polls, by logical time.
    pub bytes_written: Vec<(usize, i128)>,
    pub leader: Option<Leader>,
    pub out_of_sync_cluster_counter: usize,
    pub truncation_counter: usize,
    pub elections: usize,
    pub no_leader_counter: usize,
    /// Free memory in bytes.
    pub free_mem: usize,
    pub unresponsive_nodes: usize,
    pub drive: Option<Drive>,
    pub server_version: ServerVersion,
    pub last_bytes_written: Option<i64>,
}

/// The mathematical content of a `Monitoring`.
pub ghost struct MonitoringContent {
    pub increment: nat,
    pub last_epoch_number: Option<i64>,
    pub last_writer_checkpoint: Option<i64>,
    pub writer_checkpoints: Seq<(usize, i64)>,
    pub cpu_load: Seq<(usize, i64)>,
    pub bytes_written: Seq<(usize, i128)>,
    pub leader: Option<Leader>,
    pub out_of_sync_cluster_counter: nat,
    pub truncation_counter: nat,
    pub elections: nat,
    pub no_leader_counter: nat,
    pub free_mem: usize,
    pub unresponsive_nodes: nat,
    pub drive: Option<Drive>,
    pub server_version: ServerVersion,
    pub last_bytes_written: Option<i64>,
}

/// How many items of a sequence meet a condition.
pub open spec fn count_where<T>(s: Seq<T>, pred: spec_fn(T) -> bool) -> nat
    decreases s.len(),
{
    if s.len() == 0 {
        0
    } else {
        count_where(s.drop_last(), pred) + if pred(s.last()) {
            1nat
        } else {
            0nat
        }
    }
}

/// The first member that reports itself as leader.
pub open spec fn leader_of(gossip: Seq<Member>) -> Option<Member>
    decreases gossip.len(),
{
    if gossip.len() == 0 {
        None
    } else if gossip[0].role == NodeRole::Leader {
        Some(gossip[0])
    } else {
        leader_of(gossip.drop_first())
    }
}

/// A rolling window after one more sample: it holds `GRAPH_TIME_LIMIT`
/// samples at most, and the oldest leaves where the new one is one too many.
pub open spec fn slide<T>(window: Seq<T>, sample: T) -> Seq<T> {
    let grown = window.push(sample);
    if grown.len() > GRAPH_TIME_LIMIT {
        grown.drop_first()
    } else {
        grown
    }
}

/// Bytes written since the poll before; zero on the first poll.
pub open spec fn written_since(last: Option<i64>, now: i64) -> int {
    match last {
        Some(before) => now - before,
        None => 0,
    }
}

/// Whether a member is a follower whose log ends before the checkpoint.
pub open spec fn lags_behind(checkpoint: i64) -> spec_fn(Member) -> bool {
    |m: Member| m.role == NodeRole::Follower && m.writer_checkpoint < checkpoint
}

/// Whether a member does not answer.
pub open spec fn is_unresponsive() -> spec_fn(Member) -> bool {
    |m: Member| !m.is_alive
}

/// A poll that found this leader counts as an election when an earlier poll
/// recorded another epoch.
pub open spec fn election_seen(last_epoch: Option<i64>, leader: Member) -> bool {
    last_epoch is Some && last_epoch->0 != leader.epoch_number
}

/// A poll counts as out of sync when more than one follower is behind the
/// checkpoint that the leader had at the poll before.
pub open spec fn out_of_sync_seen(last_checkpoint: Option<i64>, gossip: Seq<Member>) -> bool {
    last_checkpoint is Some && count_where(gossip, lags_behind(last_checkpoint->0)) > 1
}

/// A poll counts as a truncation when the leader's log ends before the
/// checkpoint that the leader had at the poll before.
pub open spec fn truncation_seen(last_checkpoint: Option<i64>, leader: Member) -> bool {
    last_checkpoint is Some && last_checkpoint->0 > leader.writer_checkpoint
}

/// One if the condition holds, else zero.
pub open spec fn one_if(b: bool) -> nat {
    if b {
        1
    } else {
        0
    }
}

/// Cluster health after one more poll.
pub open spec fn after_poll(m: MonitoringContent, sample: Sample, gossip: Seq<Member>) -> MonitoringContent {
    let polled = MonitoringContent {
        increment: m.increment + POLL_PERIOD as nat,
        cpu_load: slide(m.cpu_load, (m.increment as usize, sample.cpu)),
        bytes_written: slide(
            m.bytes_written,
            (m.increment as usize, written_since(m.last_bytes_written, sample.written_bytes) as i128),
        ),
        last_bytes_written: Some(sample.written_bytes),
        free_mem: sample.free_mem,
        unresponsive_nodes: count_where(gossip, is_unresponsive()),
        drive: sample.drive,
        ..m
    };
    match leader_of(gossip) {
        Some(leader) => MonitoringContent {
            leader: Some(
                Leader {
                    instance_id: leader.instance_id,
                    epoch_number: leader.epoch_number,
                    writer_checkpoint: leader.writer_checkpoint,
                },
            ),
            elections: m.elections + one_if(election_seen(m.last_epoch_number, leader)),
            out_of_sync_cluster_counter: m.out_of_sync_cluster_counter + one_if(
                out_of_sync_seen(m.last_writer_checkpoint, gossip),
            ),
            truncation_counter: m.truncation_counter + one_if(
                truncation_seen(m.last_writer_checkpoint, leader),
            ),
            last_epoch_number: Some(leader.epoch_number),
            last_writer_checkpoint: Some(leader.writer_checkpoint),
            ..polled
        },
        None => MonitoringContent { no_leader_counter: m.no_leader_counter + 1nat, ..polled },
    }
}

/// Cluster health after a run of polls, the first of them first.
pub open spec fn after_polls(m: MonitoringContent, polls: Seq<(Sample, Seq<Member>)>) -> MonitoringContent
    decreases polls.len(),
{
    if polls.len() == 0 {
        m
    } else {
        after_poll(after_polls(m, polls.drop_last()), polls.last().0, polls.last().1)
    }
}

/// Cluster health before the first poll.
pub open spec fn initial() -> MonitoringContent {
    MonitoringContent {
        increment: 0,
        last_epoch_number: None,
        last_writer_checkpoint: None,
        writer_checkpoints: Seq::empty(),
        cpu_load: Seq::empty(),
        bytes_written: Seq::empty(),
        leader: None,
        out_of_sync_cluster_counter: 0,
        truncation_counter: 0,
        elections: 0,
        no_leader_counter: 0,
        free_mem: 0,
        unresponsive_nodes: 0,
        drive: None,
        server_version: ServerVersion { major: 0, minor: 0, patch: 0 },
        last_bytes_written: None,
    }
}

/// The least of the values, or the greatest number there is where there are
/// none.
pub open spec fn lowest(values: Seq<(usize, i128)>) -> int
    decreases values.len(),
{
    if values.len() == 0 {
        i128::MAX as int
    } else {
        let rest = lowest(values.drop_last());
        if values.last().1 < rest {
            values.last().1 as int
        } else {
            rest
        }
    }
}

/// The greatest of the values, or the least number there is where there are
/// none.
pub open spec fn highest(values: Seq<(usize, i128)>) -> int
    decreases values.len(),
{
    if values.len() == 0 {
        i128::MIN as int
    } else {
        let rest = highest(values.drop_last());
        if values.last().1 > rest {
            values.last().1 as int
        } else {
            rest
        }
    }
}

/// The least of `from`, ten times `from`, a hundred times `from` and so on
/// that is greater than `diff`.
pub open spec fn power_above(diff: int, from: int) -> int
    decreases
            (if diff >= from {
                diff - from + 1
            } else {
                0
            }),
    when from > 0
{
    if diff < from {
        from
    } else {
        power_above(diff, from * 10)
    }
}

/// The margin of a value axis for values that spread over `diff`: half of
/// the least power of ten, ten at least, that is greater than `diff`.
pub open spec fn axis_margin(diff: int) -> int {
    power_above(diff, 10) / 2
}

/// The greatest magnitude of a value for which an axis gets a margin.
pub const AXIS_LIMIT: i128 = 0x1_0000_0000_0000_0000_0000_0000;

/// Start and end of the value axis for values from `low` to `high`: the
/// margin is added on both sides, unless that would take the start below
/// zero; then the axis runs from zero to `high`.
pub open spec fn value_axis(low: int, high: int) -> (int, int) {
    let margin = axis_margin(high - low);
    if low - margin < 0 {
        (0, high)
    } else {
        (low - margin, high + margin)
    }
}

/// Start and end of the value axis of the bytes-written chart: from zero to
/// zero without samples, the least and the greatest sample themselves where
/// one of them is beyond `AXIS_LIMIT`, and else the axis with its margin.
pub open spec fn bytes_written_axis(values: Seq<(usize, i128)>) -> (int, int) {
    if values.len() == 0 {
        (0, 0)
    } else if lowest(values) < -AXIS_LIMIT || highest(values) > AXIS_LIMIT {
        (lowest(values), highest(values))
    } else {
        value_axis(lowest(values), highest(values))
    }
}

/// The least value is no greater than the greatest, where there are values.
pub proof fn lemma_lowest_below_highest(values: Seq<(usize, i128)>)
    requires
        values.len() > 0,
    ensures
        lowest(values) <= highest(values),
        i128::MIN <= lowest(values) <= i128::MAX,
        i128::MIN <= highest(values) <= i128::MAX,
    decreases values.len(),
{
    if values.len() > 1 {
        lemma_lowest_below_highest(values.drop_last());
    } else {
        assert(values.drop_last().len() == 0);
        assert(lowest(values.drop_last()) == i128::MAX);
        assert(highest(values.drop_last()) == i128::MIN);
    }
}

/// Start and end of the time axis at a logical time: the last
/// `GRAPH_TIME_LIMIT` units, and never starting below zero.
pub open spec fn time_window(increment: nat) -> (int, int) {
    if increment <= GRAPH_TIME_LIMIT {
        (0, GRAPH_TIME_LIMIT as int)
    } else {
        (increment - GRAPH_TIME_LIMIT, increment as int)
    }
}

/// The rolling windows hold at most `GRAPH_TIME_LIMIT` samples.
pub open spec fn windows_bounded(m: MonitoringContent) -> bool {
    &&& m.cpu_load.len() <= GRAPH_TIME_LIMIT
    &&& m.bytes_written.len() <= GRAPH_TIME_LIMIT
    &&& m.writer_checkpoints.len() <= GRAPH_TIME_LIMIT
}

/// A rolling window is first in, first out: after one more sample it holds
/// the newest samples in the order in which they came, the new one last, and
/// the one oldest sample has left exactly when the window was full.
pub proof fn lemma_slide_is_fifo<T>(window: Seq<T>, sample: T)
    ensures
        slide(window, sample).len() >= 1,
        slide(window, sample).last() == sample,
        window.len() + 1 - slide(window, sample).len() == one_if(
            window.len() >= GRAPH_TIME_LIMIT,
        ),
        slide(window, sample) == window.push(sample).skip(
            window.len() + 1 - slide(window, sample).len(),
        ),
        window.len() <= GRAPH_TIME_LIMIT ==> slide(window, sample).len() <= GRAPH_TIME_LIMIT,
        window.len() < GRAPH_TIME_LIMIT ==> slide(window, sample) == window.push(sample),
{
    let grown = window.push(sample);
    assert(grown.skip(0) =~= grown);
    assert(grown.skip(1) =~= grown.drop_first());
}

/// The lesser of two numbers.
pub open spec fn least(a: int, b: int) -> int {
    if a <= b {
        a
    } else {
        b
    }
}

/// After `n` polls from the start the windows of the processor load and of
/// the bytes written hold `n` samples, and `GRAPH_TIME_LIMIT` once there
/// were that many polls: the newest samples are all kept, up to the limit.
pub proof fn lemma_windows_hold_the_newest(polls: Seq<(Sample, Seq<Member>)>)
    ensures
        after_polls(initial(), polls).cpu_load.len() == least(
            polls.len() as int,
            GRAPH_TIME_LIMIT as int,
        ),
        after_polls(initial(), polls).bytes_written.len() == least(
            polls.len() as int,
            GRAPH_TIME_LIMIT as int,
        ),
    decreases polls.len(),
{
    if polls.len() > 0 {
        lemma_windows_hold_the_newest(polls.drop_last());
    }
}

/// The samples of a window were taken at ascending logical times, all of
/// them before `clock`.
pub open spec fn ascending_before<T>(window: Seq<(usize, T)>, clock: nat) -> bool {
    &&& forall|i: int, j: int|
        0 <= i < j < window.len() ==> (#[trigger] window[i]).0 < (#[trigger] window[j]).0
    &&& forall|i: int| 0 <= i < window.len() ==> (#[trigger] window[i]).0 < clock
}

/// The windows of the processor load and of the bytes written are in the
/// order of the logical times at which their samples were taken, and every
/// sample was taken before the logical time of the model.
pub open spec fn windows_in_time_order(m: MonitoringContent) -> bool {
    &&& ascending_before(m.cpu_load, m.increment)
    &&& ascending_before(m.bytes_written, m.increment)
}

/// A sample taken at the clock keeps a window in the order of time.
pub proof fn lemma_slide_keeps_time_order<T>(window: Seq<(usize, T)>, clock: nat, value: T)
    requires
        ascending_before(window, clock),
        clock + POLL_PERIOD <= usize::MAX,
    ensures
        ascending_before(slide(window, (clock as usize, value)), clock + POLL_PERIOD as nat),
{
    let grown = window.push((clock as usize, value));
    let kept = slide(window, (clock as usize, value));
    lemma_slide_is_fifo(window, (clock as usize, value));
    let dropped = window.len() + 1 - kept.len();
    assert forall|i: int, j: int| 0 <= i < j < kept.len() implies (#[trigger] kept[i]).0 < (
    #[trigger] kept[j]).0 by {
        assert(kept[i] == grown[i + dropped] && kept[j] == grown[j + dropped]);
        if j + dropped < window.len() {
            assert(grown[i + dropped] == window[i + dropped]);
            assert(grown[j + dropped] == window[j + dropped]);
        } else {
            assert(grown[i + dropped] == window[i + dropped]);
        }
    }
    assert forall|i: int| 0 <= i < kept.len() implies (#[trigger] kept[i]).0 < clock
        + POLL_PERIOD as nat by {
        assert(kept[i] == grown[i + dropped]);
        if i + dropped < window.len() {
            assert(grown[i + dropped] == window[i + dropped]);
        }
    }
}

/// A poll keeps the windows in the order of time: the new sample comes
/// last, with the greatest logical time.
pub proof fn lemma_poll_keeps_time_order(m: MonitoringContent, sample: Sample, gossip: Seq<Member>)
    requires
        windows_in_time_order(m),
        m.increment + POLL_PERIOD <= usize::MAX,
    ensures
        windows_in_time_order(after_poll(m, sample, gossip)),
{
    lemma_slide_keeps_time_order(m.cpu_load, m.increment, sample.cpu);
    lemma_slide_keeps_time_order(
        m.bytes_written,
        m.increment,
        written_since(m.last_bytes_written, sample.written_bytes) as i128,
    );
}

/// After any number of polls that the logical time can count, the windows
/// are in the order of time.
pub proof fn lemma_windows_stay_in_time_order(polls: Seq<(Sample, Seq<Member>)>)
    requires
        POLL_PERIOD * polls.len() <= usize::MAX,
    ensures
        windows_in_time_order(after_polls(initial(), polls)),
    decreases polls.len(),
{
    if polls.len() > 0 {
        lemma_windows_stay_in_time_order(polls.drop_last());
        lemma_time_advances(polls.drop_last());
        lemma_poll_keeps_time_order(
            after_polls(initial(), polls.drop_last()),
            polls.last().0,
            polls.last().1,
        );
    }
}

/// A poll keeps the rolling windows within `GRAPH_TIME_LIMIT` samples.
pub proof fn lemma_poll_keeps_windows_bounded(m: MonitoringContent, sample: Sample, gossip: Seq<Member>)
    requires
        windows_bounded(m),
    ensures
        windows_bounded(after_poll(m, sample, gossip)),
{
}

/// After any number of polls, none of the rolling windows holds more than
/// `GRAPH_TIME_LIMIT` samples.
pub proof fn lemma_windows_never_exceed_limit(polls: Seq<(Sample, Seq<Member>)>)
    ensures
        windows_bounded(after_polls(initial(), polls)),
    decreases polls.len(),
{
    if polls.len() > 0 {
        lemma_windows_never_exceed_limit(polls.drop_last());
        lemma_poll_keeps_windows_bounded(
            after_polls(initial(), polls.drop_last()),
            polls.last().0,
            polls.last().1,
        );
    }
}

/// A poll adds one to the election counter exactly when it finds a leader
/// whose epoch differs from the epoch that an earlier poll recorded, and
/// leaves the counter as it is otherwise.
pub proof fn lemma_election_counted_once(m: MonitoringContent, sample: Sample, gossip: Seq<Member>)
    ensures
        after_poll(m, sample, gossip).elections == m.elections + one_if(
            leader_of(gossip) is Some && m.last_epoch_number is Some && m.last_epoch_number->0
                != leader_of(gossip)->0.epoch_number,
        ),
{
}

/// Until a poll has found a leader there is no epoch to compare with, so no
/// election is counted: not on the first poll, and not on the first poll
/// that finds a leader.
pub proof fn lemma_no_election_without_earlier_epoch(
    m: MonitoringContent,
    sample: Sample,
    gossip: Seq<Member>,
)
    requires
        m.last_epoch_number is None,
    ensures
        after_poll(m, sample, gossip).elections == m.elections,
        after_poll(initial(), sample, gossip).elections == 0,
{
}

/// The logical time after a run of polls is `POLL_PERIOD` times their number.
pub proof fn lemma_time_advances(polls: Seq<(Sample, Seq<Member>)>)
    ensures
        after_polls(initial(), polls).increment == POLL_PERIOD * polls.len(),
    decreases polls.len(),
{
    if polls.len() > 0 {
        lemma_time_advances(polls.drop_last());
    }
}

impl View for Monitoring {
    type V = MonitoringContent;

    open spec fn view(&self) -> MonitoringContent {
        MonitoringContent {
            increment: self.increment as nat,
            last_epoch_number: self.last_epoch_number,
            last_writer_checkpoint: self.last_writer_checkpoint,
            writer_checkpoints: self.writer_checkpoints@,
            cpu_load: self.cpu_load@,
            bytes_written: self.bytes_written@,
            leader: self.leader,
            out_of_sync_cluster_counter: self.out_of_sync_cluster_counter as nat,
            truncation_counter: self.truncation_counter as nat,
            elections: self.elections as nat,
            no_leader_counter: self.no_leader_counter as nat,
            free_mem: self.free_mem,
            unresponsive_nodes: self.unresponsive_nodes as nat,
            drive: self.drive,
            server_version: self.server_version,
            last_bytes_written: self.last_bytes_written,
        }
    }
}

/// The first member of a gossip report that reports itself as leader.
pub fn find_leader(members: &Vec<Member>) -> (found: Option<&Member>)
    ensures
        found is Some <==> leader_of(members@) is Some,
        found is Some ==> *found->0 == leader_of(members@)->0,
{
    let mut i: usize = 0;
    assert(members@.skip(0) =~= members@);
    while i < members.len()
        invariant
            i <= members.len(),
            leader_of(members@) == leader_of(members@.skip(i as int)),
        decreases members.len() - i,
    {
        let ghost rest = members@.skip(i as int);
        assert(rest[0] == members@[i as int]);
        assert(rest.drop_first() =~= members@.skip(i + 1));
        if members[i].role == NodeRole::Leader {
            return Some(&members[i]);
        }
        i = i + 1;
    }
    assert(members@.skip(i as int).len() == 0);
    None
}

/// Number of members that do not answer.
fn count_unresponsive(members: &Vec<Member>) -> (n: usize)
    ensures
        n == count_where(members@, is_unresponsive()),
{
    let mut n: usize = 0;
    let mut i: usize = 0;
    while i < members.len()
        invariant
            i <= members.len(),
            n <= i,
            n == count_where(members@.take(i as int), is_unresponsive()),
        decreases members.len() - i,
    {
        assert(members@.take(i + 1).drop_last() =~= members@.take(i as int));
        if !members[i].is_alive {
            n = n + 1;
        }
        i = i + 1;
    }
    assert(members@.take(i as int) =~= members@);
    n
}

/// Number of followers whose log ends before the checkpoint.
fn count_lagging(members: &Vec<Member>, checkpoint: i64) -> (n: usize)
    ensures
        n == count_where(members@, lags_behind(checkpoint)),
{
    let mut n: usize = 0;
    let mut i: usize = 0;
    while i < members.len()
        invariant
            i <= members.len(),
            n <= i,
            n == count_where(members@.take(i as int), lags_behind(checkpoint)),
        decreases members.len() - i,
    {
        assert(members@.take(i + 1).drop_last() =~= members@.take(i as int));
        if members[i].role == NodeRole::Follower && members[i].writer_checkpoint < checkpoint {
            n = n + 1;
        }
        i = i + 1;
    }
    assert(members@.take(i as int) =~= members@);
    n
}

/// Adds a sample to a rolling window and lets the oldest go where the window
/// would hold more than `GRAPH_TIME_LIMIT` samples.
fn slide_window<T>(window: &mut Vec<T>, sample: T)
    ensures
        final(window)@ == slide(old(window)@, sample),
{
    window.push(sample);
    if window.len() > GRAPH_TIME_LIMIT {
        let _ = window.remove(0);
        assert(window@ =~= old(window)@.push(sample).drop_first());
    }
}

impl Monitoring {
    /// Cluster health before the first poll.
    pub fn new() -> (m: Self)
        ensures
            m@ == initial(),
            m.has_room(),
    {
        Monitoring {
            increment: 0,
            last_epoch_number: None,
            last_writer_checkpoint: None,
            writer_checkpoints: Vec::new(),
            cpu_load: Vec::new(),
            bytes_written: Vec::new(),
            leader: None,
            out_of_sync_cluster_counter: 0,
            truncation_counter: 0,
            elections: 0,
            no_leader_counter: 0,
            free_mem: 0,
            unresponsive_nodes: 0,
            drive: None,
            server_version: ServerVersion { major: 0, minor: 0, patch: 0 },
            last_bytes_written: None,
        }
    }

    /// The counters and the logical time can take one more poll without
    /// leaving the range of their type.
    pub open spec fn has_room(&self) -> bool {
        &&& self.increment <= usize::MAX - POLL_PERIOD
        &&& self.elections < usize::MAX
        &&& self.out_of_sync_cluster_counter < usize::MAX
        &&& self.truncation_counter < usize::MAX
        &&& self.no_leader_counter < usize::MAX
    }

    /// Whether the counters and the logical time can take one more poll.
    pub fn check_room(&self) -> (ok: bool)
        ensures
            ok == self.has_room(),
    {
        self.increment <= usize::MAX - POLL_PERIOD && self.elections < usize::MAX
            && self.out_of_sync_cluster_counter < usize::MAX && self.truncation_counter
            < usize::MAX && self.no_leader_counter < usize::MAX
    }

    /// Takes in one poll: a statistics sample and the gossip report that came
    /// with it.
    pub fn update(&mut self, stats: Sample, gossip: Vec<Member>)
        requires
            old(self).has_room(),
        ensures
            final(self)@ == after_poll(old(self)@, stats, gossip@),
    {
        let at = self.increment;
        slide_window(&mut self.cpu_load, (at, stats.cpu));
        self.free_mem = stats.free_mem;
        self.unresponsive_nodes = count_unresponsive(&gossip);
        self.drive = stats.drive;

        let diff: i128 = match self.last_bytes_written {
            Some(last) => stats.written_bytes as i128 - last as i128,
            None => 0,
        };
        slide_window(&mut self.bytes_written, (at, diff));
        self.last_bytes_written = Some(stats.written_bytes);

        match find_leader(&gossip) {
            Some(leader) => {
                self.leader = Some(
                    Leader {
                        instance_id: leader.instance_id,
                        epoch_number: leader.epoch_number,
                        writer_checkpoint: leader.writer_checkpoint,
                    },
                );
                if let Some(last_epoch) = self.last_epoch_number {
                    if last_epoch != leader.epoch_number {
                        self.elections = self.elections + 1;
                    }
                }
                if let Some(last_chk) = self.last_writer_checkpoint {
                    if count_lagging(&gossip, last_chk) > 1 {
                        self.out_of_sync_cluster_counter = self.out_of_sync_cluster_counter + 1;
                    }
                    if last_chk > leader.writer_checkpoint {
                        self.truncation_counter = self.truncation_counter + 1;
                    }
                }
                self.last_writer_checkpoint = Some(leader.writer_checkpoint);
                self.last_epoch_number = Some(leader.epoch_number);
            },
            None => {
                self.no_leader_counter = self.no_leader_counter + 1;
            },
        }

        self.increment = self.increment + POLL_PERIOD;
    }

    /// The least and the greatest of the bytes-written samples in the window.
    /// An empty window gives the greatest number as the least and the least
    /// as the greatest.
    pub fn bytes_written_value_bounds(&self) -> (bounds: [i128; 2])
        ensures
            bounds[0] == lowest(self.bytes_written@),
            bounds[1] == highest(self.bytes_written@),
    {
        let mut low: i128 = i128::MAX;
        let mut high: i128 = i128::MIN;
        let mut i: usize = 0;
        while i < self.bytes_written.len()
            invariant
                i <= self.bytes_written.len(),
                low == lowest(self.bytes_written@.take(i as int)),
                high == highest(self.bytes_written@.take(i as int)),
            decreases self.bytes_written.len() - i,
        {
            assert(self.bytes_written@.take(i + 1).drop_last() =~= self.bytes_written@.take(
                i as int,
            ));
            let value = self.bytes_written[i].1;
            if value < low {
                low = value;
            }
            if value > high {
                high = value;
            }
            i = i + 1;
        }
        assert(self.bytes_written@.take(i as int) =~= self.bytes_written@);
        [low, high]
    }

    /// Start and end of the value axis of the bytes-written chart.
    pub fn bytes_written_value_axis(&self) -> (axis: [i128; 2])
        ensures
            axis[0] == bytes_written_axis(self.bytes_written@).0,
            axis[1] == bytes_written_axis(self.bytes_written@).1,
    {
        if self.bytes_written.len() == 0 {
            return [0, 0];
        }
        proof {
            lemma_lowest_below_highest(self.bytes_written@);
        }
        let bounds = self.bytes_written_value_bounds();
        let low = bounds[0];
        let high = bounds[1];
        if low < -AXIS_LIMIT || high > AXIS_LIMIT {
            return [low, high];
        }
        let diff: i128 = high - low;
        let mut incr: i128 = 10;
        while diff >= incr
            invariant
                0 <= diff <= 2 * AXIS_LIMIT,
                10 <= incr <= 10 * diff || incr == 10,
                power_above(diff as int, 10) == power_above(diff as int, incr as int),
            decreases
                    (if diff >= incr {
                        diff - incr + 1
                    } else {
                        0
                    }),
        {
            incr = incr * 10;
        }
        let margin: i128 = incr / 2;
        if low - margin < 0 {
            [0, high]
        } else {
            [low - margin, high + margin]
        }
    }

    /// Start and end of the time axis of the charts.
    pub fn time_bounds(&self) -> (bounds: [usize; 2])
        ensures
            bounds[0] == time_window(self.increment as nat).0,
            bounds[1] == time_window(self.increment as nat).1,
    {
        if self.increment <= GRAPH_TIME_LIMIT {
            return [0usize, GRAPH_TIME_LIMIT];
        }
        let low = self.increment - GRAPH_TIME_LIMIT;
        let high = self.increment;
        [low, high]
    }
}

impl Default for Monitoring {
    /// Cluster health before the first poll.
    fn default() -> (m: Self)
        ensures
            m@ == initial(),
            m.has_room(),
    {
        Monitoring::new()
    }
}

} // verus!
