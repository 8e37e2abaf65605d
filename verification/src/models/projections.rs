//! Projections and the rate at which each processes events.
//!
//! A rate is kept as what was measured: the events processed between two
//! polls and the session times of those polls. Progress is held in
//! thousandths of a percent.

use vstd::prelude::*;
use vstd::string::*;
use crate::catalog::{
    has_name, lemma_map_at, lemma_text_less_irreflexive, lemma_update, text_less, Catalog, Entry,
};
use crate::text::same_text;
use crate::fixed::{round_div, rounded_quotient, ROUND_LIMIT};

verus! {

/// A point in time of the machine's monotonic clock.
#[verifier::external_type_specification]
#[verifier::external_body]
pub struct ExInstant(std::time::Instant);

/// One projection as one poll reports it.
#[derive(Debug, Clone)]
pub struct ProjectionStatus {
    pub name: String,
    pub events_processed_after_restart: i64,
    pub partitions_cached: i32,
    pub reads_in_progress: i32,
    pub writes_in_progress: i32,
    pub write_pending_events_before_checkpoint: i32,
    pub write_pending_events_after_checkpoint: i32,
    pub checkpoint_status: String,
    pub position: String,
    pub last_checkpoint: String,
    pub buffered_events: i64,
    pub status: String,
    pub mode: String,
    /// In thousandths of a percent.
    pub progress: i64,
}

/// Events processed between two polls: the rate is `events` over the time
/// from `since` to `until`, both in nanoseconds of session time.
#[derive(Debug, Clone, Copy, PartialEq, Eq, Structural)]
pub struct Rate {
    pub events: i128,
    pub since: u128,
    pub until: u128,
}

/// The greatest count of events, up or down, that a rate is worked out for.
pub const MAX_EVENTS: i128 = 0x1_0000_0000_0000_0000;

/// Nanoseconds in a second, times ten.
pub const TENTHS_PER_NANO: i128 = 10_000_000_000;

impl Rate {
    /// Nanoseconds over which the events were counted. Zero where both
    /// polls fell on the same instant: the rate is then not a number.
    pub open spec fn elapsed(self) -> int {
        self.until - self.since
    }

    /// The rate in tenths of an event per second, rounded; `None` where no
    /// time has passed or a figure is beyond what can be worked out.
    pub open spec fn spec_tenths_per_second(self) -> Option<int> {
        if self.since < self.until && self.until - self.since <= ROUND_LIMIT && -MAX_EVENTS
            <= self.events <= MAX_EVENTS {
            Some(rounded_quotient(self.events * TENTHS_PER_NANO, self.until - self.since))
        } else {
            None
        }
    }

    /// The rate in tenths of an event per second, rounded; `None` where no
    /// time has passed or a figure is beyond what can be worked out.
    pub fn tenths_per_second(&self) -> (rate: Option<i128>)
        ensures
            match rate {
                Some(r) => self.spec_tenths_per_second() == Some(r as int),
                None => self.spec_tenths_per_second() is None,
            },
    {
        if self.since < self.until && self.until - self.since <= ROUND_LIMIT as u128
            && -MAX_EVENTS <= self.events && self.events <= MAX_EVENTS {
            let elapsed: i128 = (self.until - self.since) as i128;
            Some(round_div(self.events * TENTHS_PER_NANO, elapsed))
        } else {
            None
        }
    }
}

/// One projection as the catalog keeps it.
#[derive(Debug, Clone)]
pub struct Projection {
    pub name: String,
    pub events_processed: i64,
    /// `None` until two reports of the projection have been seen.
    pub rate: Option<Rate>,
    pub partitions_cached: i32,
    pub reads_in_progress: i32,
    pub writes_in_progress: i32,
    pub write_queue: i32,
    pub write_queue_checkpoint: i32,
    pub checkpoint_status: String,
    pub position: String,
    pub last_checkpoint: String,
    pub result: String,
    pub state: String,
    pub query: String,
    pub buffered_events: i64,
    pub status: String,
    pub mode: String,
    /// In thousandths of a percent.
    pub progress: i64,
}

/// The mathematical content of a `Projection`.
pub ghost struct ProjectionContent {
    pub name: Seq<char>,
    pub events_processed: i64,
    pub rate: Option<Rate>,
    pub partitions_cached: i32,
    pub reads_in_progress: i32,
    pub writes_in_progress: i32,
    pub write_queue: i32,
    pub write_queue_checkpoint: i32,
    pub checkpoint_status: Seq<char>,
    pub position: Seq<char>,
    pub last_checkpoint: Seq<char>,
    pub result: Seq<char>,
    pub state: Seq<char>,
    pub query: Seq<char>,
    pub buffered_events: i64,
    pub status: Seq<char>,
    pub mode: Seq<char>,
    pub progress: i64,
}

impl View for Projection {
    type V = ProjectionContent;

    open spec fn view(&self) -> ProjectionContent {
        ProjectionContent {
            name: self.name@,
            events_processed: self.events_processed,
            rate: self.rate,
            partitions_cached: self.partitions_cached,
            reads_in_progress: self.reads_in_progress,
            writes_in_progress: self.writes_in_progress,
            write_queue: self.write_queue,
            write_queue_checkpoint: self.write_queue_checkpoint,
            checkpoint_status: self.checkpoint_status@,
            position: self.position@,
            last_checkpoint: self.last_checkpoint@,
            result: self.result@,
            state: self.state@,
            query: self.query@,
            buffered_events: self.buffered_events,
            status: self.status@,
            mode: self.mode@,
            progress: self.progress,
        }
    }
}

/// A projection of which nothing is known yet.
pub open spec fn blank() -> ProjectionContent {
    ProjectionContent {
        name: Seq::empty(),
        events_processed: 0,
        rate: None,
        partitions_cached: 0,
        reads_in_progress: 0,
        writes_in_progress: 0,
        write_queue: 0,
        write_queue_checkpoint: 0,
        checkpoint_status: Seq::empty(),
        position: Seq::empty(),
        last_checkpoint: Seq::empty(),
        result: Seq::empty(),
        state: Seq::empty(),
        query: Seq::empty(),
        buffered_events: 0,
        status: Seq::empty(),
        mode: Seq::empty(),
        progress: 0,
    }
}

/// The projections of the store with what is needed to measure their rates.
pub struct Projections {
    pub clock: std::time::Instant,
    pub inner: Catalog<Projection>,
    /// Session time of the poll before, in nanoseconds.
    pub last_time: Option<u128>,
    /// The count of processed events that the last report of each projection
    /// gave.
    pub previous: Catalog<i64>,
}

/// The mathematical content of a `Projections`.
pub ghost struct ProjectionsContent {
    pub entries: Map<Seq<char>, ProjectionContent>,
    pub previous: Map<Seq<char>, i64>,
    pub last_time: Option<u128>,
}

/// The catalog entry after one report, given the entry before it, the count
/// of the report before it if there was one, and the session times of the
/// poll before and of this poll.
pub open spec fn observed(
    before: ProjectionContent,
    previous: Option<i64>,
    report: ProjectionStatus,
    last: u128,
    now: u128,
) -> ProjectionContent {
    ProjectionContent {
        name: report.name@,
        events_processed: report.events_processed_after_restart,
        rate: match previous {
            Some(count) => Some(
                Rate {
                    events: (report.events_processed_after_restart - count) as i128,
                    since: last,
                    until: now,
                },
            ),
            None => before.rate,
        },
        partitions_cached: report.partitions_cached,
        reads_in_progress: report.reads_in_progress,
        writes_in_progress: report.writes_in_progress,
        write_queue: report.write_pending_events_before_checkpoint,
        write_queue_checkpoint: report.write_pending_events_after_checkpoint,
        checkpoint_status: report.checkpoint_status@,
        position: report.position@,
        last_checkpoint: report.last_checkpoint@,
        buffered_events: report.buffered_events,
        status: report.status@,
        mode: report.mode@,
        progress: report.progress,
        ..before
    }
}

/// The engine after one report.
pub open spec fn after_report(
    s: ProjectionsContent,
    report: ProjectionStatus,
    last: u128,
    now: u128,
) -> ProjectionsContent {
    let name = report.name@;
    let before = if s.entries.contains_key(name) {
        s.entries[name]
    } else {
        blank()
    };
    let previous = if s.previous.contains_key(name) {
        Some(s.previous[name])
    } else {
        None
    };
    ProjectionsContent {
        entries: s.entries.insert(name, observed(before, previous, report, last, now)),
        previous: s.previous.insert(name, report.events_processed_after_restart),
        last_time: s.last_time,
    }
}

/// The engine after the reports of one poll, the first of them first, all
/// measured against the same two session times.
pub open spec fn after_reports(
    s: ProjectionsContent,
    reports: Seq<ProjectionStatus>,
    last: u128,
    now: u128,
) -> ProjectionsContent
    decreases reports.len(),
{
    if reports.len() == 0 {
        s
    } else {
        after_report(after_reports(s, reports.drop_last(), last, now), reports.last(), last, now)
    }
}

/// The session time against which a poll at `now` measures: that of the poll
/// before, or `now` itself on the first poll.
pub open spec fn measured_from(s: ProjectionsContent, now: u128) -> u128 {
    match s.last_time {
        Some(last) => last,
        None => now,
    }
}

/// The engine after one poll at session time `now`.
pub open spec fn after_poll(s: ProjectionsContent, reports: Seq<ProjectionStatus>, now: u128) -> ProjectionsContent {
    ProjectionsContent {
        last_time: Some(now),
        ..after_reports(s, reports, measured_from(s, now), now)
    }
}

/// The engine before the first poll.
pub open spec fn initial() -> ProjectionsContent {
    ProjectionsContent { entries: Map::empty(), previous: Map::empty(), last_time: None }
}

/// The first report of a projection gives no rate: the entry keeps the rate
/// it had, and a new entry has none.
pub proof fn lemma_first_report_gives_no_rate(
    s: ProjectionsContent,
    report: ProjectionStatus,
    last: u128,
    now: u128,
)
    requires
        !s.previous.contains_key(report.name@),
    ensures
        s.entries.contains_key(report.name@) ==> after_report(s, report, last, now).entries[report.name@].rate
            == s.entries[report.name@].rate,
        !s.entries.contains_key(report.name@) ==> after_report(s, report, last, now).entries[report.name@].rate
            is None,
{
}

/// A report of a projection that was reported before gives the rate: the
/// events processed since the report before, over the time since the poll
/// before.
pub proof fn lemma_later_report_gives_rate(
    s: ProjectionsContent,
    report: ProjectionStatus,
    last: u128,
    now: u128,
)
    requires
        s.previous.contains_key(report.name@),
    ensures
        after_report(s, report, last, now).entries[report.name@].rate == Some(
            Rate {
                events: (report.events_processed_after_restart - s.previous[report.name@]) as i128,
                since: last,
                until: now,
            },
        ),
        after_report(s, report, last, now).entries[report.name@].rate->0.events
            == report.events_processed_after_restart - s.previous[report.name@],
{
}

/// Of two polls that each report the same projection once, the first leaves
/// its rate undefined and the second defines it as the difference of the two
/// counts over the time between the two polls.
pub proof fn lemma_rate_of_second_report(
    first: ProjectionStatus,
    second: ProjectionStatus,
    t1: u128,
    t2: u128,
)
    requires
        first.name@ == second.name@,
    ensures
        after_poll(initial(), seq![first], t1).entries[first.name@].rate is None,
        after_poll(after_poll(initial(), seq![first], t1), seq![second], t2).entries[first.name@].rate
            == Some(
            Rate {
                events: (second.events_processed_after_restart
                    - first.events_processed_after_restart) as i128,
                since: t1,
                until: t2,
            },
        ),
        after_poll(after_poll(initial(), seq![first], t1), seq![second], t2).entries[first.name@].rate->0.elapsed()
            == t2 - t1,
{
    let s0 = initial();
    let r1 = seq![first];
    assert(r1.drop_last() =~= Seq::<ProjectionStatus>::empty());
    assert(r1.last() == first);
    assert(after_reports(s0, r1.drop_last(), t1, t1) == s0);
    assert(after_reports(s0, r1, t1, t1) == after_report(s0, first, t1, t1));
    let s1 = after_poll(s0, r1, t1);
    let r2 = seq![second];
    assert(r2.drop_last() =~= Seq::<ProjectionStatus>::empty());
    assert(r2.last() == second);
    assert(after_reports(s1, r2.drop_last(), t1, t2) == s1);
    assert(after_reports(s1, r2, t1, t2) == after_report(s1, second, t1, t2));
}

/// The time at which the session clock is started.
///
/// Trusted: wraps `Instant::now`. Nothing is claimed of the instant.
#[verifier::external_body]
fn start_clock() -> std::time::Instant {
    std::time::Instant::now()
}

/// Time that has passed on the session clock.
///
/// Trusted: wraps `Instant::elapsed`. Nothing is claimed of the duration.
#[verifier::external_body]
fn elapsed_on(clock: &std::time::Instant) -> std::time::Duration {
    clock.elapsed()
}

/// A duration in whole nanoseconds.
///
/// Trusted: wraps `Duration::as_nanos`. Nothing is claimed of the number.
#[verifier::external_body]
fn nanos_of(d: &std::time::Duration) -> u128 {
    d.as_nanos()
}

impl View for Projections {
    type V = ProjectionsContent;

    open spec fn view(&self) -> ProjectionsContent {
        ProjectionsContent {
            entries: self.inner.map().map_values(|p: Projection| p@),
            previous: self.previous.map(),
            last_time: self.last_time,
        }
    }
}

/// Every entry is kept under the name that it bears.
pub open spec fn named_by_key(entries: Seq<(Seq<char>, Projection)>) -> bool {
    forall|i: int| 0 <= i < entries.len() ==> (#[trigger] entries[i]).1.name@ == entries[i].0
}

/// Entries that are kept in order under the names that they bear are in
/// ascending order of those names, so no two of them bear the same name.
pub proof fn lemma_listing_in_order_of_name(p: Projections, i: int, j: int)
    requires
        p.wf(),
        0 <= i < j < p.inner@.len(),
    ensures
        text_less(p.inner@[i].1.name@, p.inner@[j].1.name@),
        p.inner@[i].1.name@ != p.inner@[j].1.name@,
{
    lemma_text_less_irreflexive(p.inner@[i].1.name@);
}

impl Projections {
    /// Both catalogs are in order, and every projection is kept under the
    /// name that it bears.
    pub open spec fn wf(&self) -> bool {
        self.inner.wf() && self.previous.wf() && named_by_key(self.inner@)
    }

    /// Whether both catalogs are in order and every projection is kept
    /// under the name that it bears.
    pub fn check_wf(&self) -> (ok: bool)
        ensures
            ok == self.wf(),
    {
        if !self.inner.check_wf() || !self.previous.check_wf() {
            return false;
        }
        let mut i: usize = 0;
        while i < self.inner.entries.len()
            invariant
                i <= self.inner.entries.len(),
                forall|k: int| 0 <= k < i ==> (#[trigger] self.inner@[k]).1.name@ == self.inner@[k].0,
            decreases self.inner.entries.len() - i,
        {
            let entry = &self.inner.entries[i];
            assert(entry.key@ == self.inner@[i as int].0 && entry.value == self.inner@[i as int].1);
            if !same_text(entry.key.as_str(), entry.value.name.as_str()) {
                return false;
            }
            i = i + 1;
        }
        true
    }

    /// An engine that has seen no poll, with its session clock started now.
    pub fn new() -> (p: Self)
        ensures
            p.wf(),
            p@ == initial(),
            p.inner@.len() == 0,
    {
        let p = Projections {
            clock: start_clock(),
            inner: Catalog::new(),
            last_time: None,
            previous: Catalog::new(),
        };
        assert(p@.entries =~= Map::<Seq<char>, ProjectionContent>::empty());
        p
    }

    /// Takes in the reports of one poll, measured at the session time that
    /// the clock shows.
    pub fn update(&mut self, updates: Vec<ProjectionStatus>)
        requires
            old(self).wf(),
        ensures
            final(self).wf(),
            final(self).clock == old(self).clock,
            exists|now: u128| final(self)@ == after_poll(old(self)@, updates@, now),
    {
        let passed = elapsed_on(&self.clock);
        let now = nanos_of(&passed);
        self.update_at(updates, now);
    }

    /// Takes in the reports of one poll made at session time `now`, in
    /// nanoseconds.
    pub fn update_at(&mut self, updates: Vec<ProjectionStatus>, now: u128)
        requires
            old(self).wf(),
        ensures
            final(self).wf(),
            final(self).clock == old(self).clock,
            final(self)@ == after_poll(old(self)@, updates@, now),
    {
        let last = match self.last_time {
            Some(t) => t,
            None => now,
        };
        let ghost reports = updates@;
        let ghost start = self@;
        for update in iter: updates
            invariant
                iter.seq() == reports,
                self.wf(),
                self.clock == old(self).clock,
                self.last_time == start.last_time,
                self@ == after_reports(start, reports.take(iter.index() as int), last, now),
        {
            proof {
                assert(reports.take(iter.index() + 1).drop_last() =~= reports.take(
                    iter.index() as int,
                ));
                assert(reports.take(iter.index() + 1).last() == update);
            }
            self.observe(update, last, now);
        }
        assert(reports.take(reports.len() as int) =~= reports);
        self.last_time = Some(now);
    }

    /// Takes in one report.
    fn observe(&mut self, update: ProjectionStatus, last: u128, now: u128)
        requires
            old(self).wf(),
        ensures
            final(self).wf(),
            final(self).clock == old(self).clock,
            final(self).last_time == old(self).last_time,
            final(self)@ == after_report(old(self)@, update, last, now),
    {
        let ghost name = update.name@;
        let ghost entries0 = self.inner@;
        let ghost had_entry = has_name(entries0, name);
        let fresh = blank_projection();
        let idx = self.inner.entry(update.name.as_str(), fresh);
        let ghost entries1 = self.inner@;
        assert(had_entry ==> entries1 == entries0);
        assert(!had_entry ==> entries1 == entries0.insert(idx as int, (name, fresh)));
        let ghost before = entries1[idx as int].1;
        proof {
            lemma_map_at(entries1, idx as int);
            if had_entry {
                assert(self.inner.map().contains_key(name));
            } else {
                assert(!old(self).inner.map().contains_key(name));
            }
        }
        let (seen, at) = self.previous.locate(update.name.as_str());
        let ghost previous = if seen {
            Some(self.previous@[at as int].1)
        } else {
            None::<i64>
        };
        proof {
            if seen {
                lemma_map_at(self.previous@, at as int);
            }
        }
        if seen {
            let count = self.previous.entries[at].value;
            let events: i128 = update.events_processed_after_restart as i128 - count as i128;
            self.inner.entries[idx].value.rate = Some(Rate { events, since: last, until: now });
        }
        self.inner.entries[idx].value.name = update.name.clone();
        self.inner.entries[idx].value.events_processed = update.events_processed_after_restart;
        self.inner.entries[idx].value.partitions_cached = update.partitions_cached;
        self.inner.entries[idx].value.reads_in_progress = update.reads_in_progress;
        self.inner.entries[idx].value.writes_in_progress = update.writes_in_progress;
        self.inner.entries[idx].value.write_queue = update.write_pending_events_before_checkpoint;
        self.inner.entries[idx].value.write_queue_checkpoint =
            update.write_pending_events_after_checkpoint;
        self.inner.entries[idx].value.checkpoint_status = update.checkpoint_status;
        self.inner.entries[idx].value.position = update.position;
        self.inner.entries[idx].value.last_checkpoint = update.last_checkpoint;
        self.inner.entries[idx].value.buffered_events = update.buffered_events;
        self.inner.entries[idx].value.status = update.status;
        self.inner.entries[idx].value.mode = update.mode;
        self.inner.entries[idx].value.progress = update.progress;
        let ghost after = self.inner@[idx as int].1;
        proof {
            assert(self.inner@ =~= entries1.update(idx as int, (entries1[idx as int].0, after)));
            lemma_update(entries1, idx as int, after);
            assert(after@ == observed(before@, previous, update, last, now));
            assert(self.inner.map() == old(self).inner.map().insert(name, after));
            assert(self.inner.map().map_values(|p: Projection| p@) =~= old(
                self,
            ).inner.map().map_values(|p: Projection| p@).insert(name, after@));
            assert(named_by_key(self.inner@)) by {
                assert forall|k: int| 0 <= k < self.inner@.len() implies (
                #[trigger] self.inner@[k]).1.name@ == self.inner@[k].0 by {
                    if k != idx {
                        assert(self.inner@[k] == entries1[k]);
                        if had_entry {
                            assert(entries1[k] == entries0[k]);
                        } else if k < idx {
                            assert(entries1[k] == entries0[k]);
                        } else {
                            assert(entries1[k] == entries0[k - 1]);
                        }
                    }
                }
            }
        }
        self.previous.put(update.name.as_str(), update.events_processed_after_restart);
    }

    /// The projections in ascending order of their names.
    pub fn list(&self) -> (entries: &Vec<Entry<Projection>>)
        ensures
            entries@.len() == self.inner@.len(),
            forall|i: int|
                0 <= i < self.inner@.len() ==> (#[trigger] entries@[i]).key@ == self.inner@[i].0
                    && entries@[i].value == self.inner@[i].1,
            self.wf() ==> forall|i: int, j: int|
                0 <= i < j < entries@.len() ==> text_less(
                    (#[trigger] entries@[i]).value.name@,
                    (#[trigger] entries@[j]).value.name@,
                ),
    {
        let entries = self.inner.list();
        proof {
            if self.wf() {
                assert forall|i: int, j: int| 0 <= i < j < entries@.len() implies text_less(
                    (#[trigger] entries@[i]).value.name@,
                    (#[trigger] entries@[j]).value.name@,
                ) by {
                    lemma_listing_in_order_of_name(*self, i, j);
                }
            }
        }
        entries
    }

    /// The projection at a row of the listing, if there is one. The rows
    /// are in ascending order of the projections' names.
    pub fn by_idx(&self, idx: usize) -> (found: Option<&Projection>)
        ensures
            idx < self.inner@.len() ==> found == Some(&self.inner@[idx as int].1),
            idx >= self.inner@.len() ==> found is None,
            self.wf() && idx < self.inner@.len() ==> found->0.name@ == self.inner@[idx as int].0,
            self.wf() ==> forall|i: int, j: int|
                0 <= i < j < self.inner@.len() ==> text_less(
                    (#[trigger] self.inner@[i]).1.name@,
                    (#[trigger] self.inner@[j]).1.name@,
                ),
    {
        proof {
            if self.wf() {
                assert forall|i: int, j: int| 0 <= i < j < self.inner@.len() implies text_less(
                    (#[trigger] self.inner@[i]).1.name@,
                    (#[trigger] self.inner@[j]).1.name@,
                ) by {
                    lemma_listing_in_order_of_name(*self, i, j);
                }
            }
        }
        self.inner.get(idx)
    }

    /// The projection at a row of the listing, to be changed in place, if
    /// there is one. The listing keeps its keys and its order; it stays in
    /// order of the names as long as the projection keeps its name.
    pub fn by_idx_mut(&mut self, idx: usize) -> (found: Option<&mut Projection>)
        ensures
            idx < old(self).inner@.len() ==> found is Some && *found->0 == old(self).inner@[idx as int].1
                && final(self).inner@ == old(self).inner@.update(
                idx as int,
                (old(self).inner@[idx as int].0, *final(found->0)),
            ),
            idx >= old(self).inner@.len() ==> found is None && final(self).inner@ == old(
                self,
            ).inner@,
            final(self).previous == old(self).previous,
            final(self).last_time == old(self).last_time,
            final(self).clock == old(self).clock,
    {
        self.inner.get_mut(idx)
    }

    /// Number of projections.
    pub fn count(&self) -> (n: usize)
        ensures
            n == self.inner@.len(),
    {
        self.inner.len()
    }
}

/// A projection of which nothing is known yet.
pub fn blank_projection() -> (p: Projection)
    ensures
        p@ == blank(),
{
    Projection {
        name: String::new(),
        events_processed: 0,
        rate: None,
        partitions_cached: 0,
        reads_in_progress: 0,
        writes_in_progress: 0,
        write_queue: 0,
        write_queue_checkpoint: 0,
        checkpoint_status: String::new(),
        position: String::new(),
        last_checkpoint: String::new(),
        result: String::new(),
        state: String::new(),
        query: String::new(),
        buffered_events: 0,
        status: String::new(),
        mode: String::new(),
        progress: 0,
    }
}

impl Default for Projection {
    /// A projection of which nothing is known yet.
    fn default() -> (p: Self)
        ensures
            p@ == blank(),
    {
        blank_projection()
    }
}

impl Default for Projections {
    /// An engine that has seen no poll, with its session clock started now.
    fn default() -> (p: Self)
        ensures
            p.wf(),
            p@ == initial(),
            p.inner@.len() == 0,
    {
        Projections::new()
    }
}

/// What a report says of a projection's count is remembered for the next
/// report of that projection.
pub proof fn lemma_report_is_remembered(
    s: ProjectionsContent,
    report: ProjectionStatus,
    last: u128,
    now: u128,
)
    ensures
        after_report(s, report, last, now).previous.contains_key(report.name@),
        after_report(s, report, last, now).previous[report.name@]
            == report.events_processed_after_restart,
{
}

} // verus!
