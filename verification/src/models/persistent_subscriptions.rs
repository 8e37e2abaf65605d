//! Persistent subscriptions and how far each is behind.
//!
//! Rates are held in thousandths of an item per second, catch-up times in
//! hundredths of a second.

use vstd::prelude::*;
use vstd::string::*;
use crate::catalog::{Catalog, Entry};
use crate::fixed::{lemma_rounded_quotient_bounded, round_div, rounded_quotient};
use crate::text::same_text;

verus! {

/// A place in the transaction log of the store.
#[derive(Debug, Clone, Copy, PartialEq, Eq, Structural)]
pub struct Position {
    pub commit: u64,
    pub prepare: u64,
}

/// A place in a stream: an event number for a named stream, a log position
/// for the stream of all events.
#[derive(Debug, Clone, Copy, PartialEq, Eq, Structural)]
pub enum RevisionOrPosition {
    Revision(u64),
    Position(Position),
}

/// Where a subscription starts to read.
#[derive(Debug, Clone, Copy, PartialEq, Eq, Structural)]
pub enum StreamPosition {
    Start,
    End,
    Position(RevisionOrPosition),
}

/// How a subscription was set up.
#[derive(Debug, Clone)]
pub struct SubscriptionSettings {
    pub resolve_link_tos: bool,
    pub start_from: StreamPosition,
    pub extra_statistics: bool,
    /// In milliseconds.
    pub message_timeout: u128,
    pub max_retry_count: i32,
    pub live_buffer_size: i32,
    pub read_batch_size: i32,
    pub history_buffer_size: i32,
    /// In milliseconds.
    pub checkpoint_after: u128,
    pub checkpoint_lower_bound: i32,
    pub checkpoint_upper_bound: i32,
    pub max_subscriber_count: i32,
    pub consumer_strategy_name: String,
}

/// One subscription as one poll reports it.
#[derive(Debug, Clone)]
pub struct SubscriptionInfo {
    pub event_source: String,
    pub group_name: String,
    pub status: String,
    pub connection_count: usize,
    pub settings: Option<SubscriptionSettings>,
    /// In thousandths of an item per second.
    pub average_per_second: i64,
    pub total_items: usize,
    pub last_checkpointed_event_revision: Option<u64>,
    pub last_known_event_revision: Option<u64>,
    pub last_checkpointed_position: Option<Position>,
    pub last_known_position: Option<Position>,
    pub total_in_flight_messages: usize,
}

/// One subscription as the catalog keeps it.
#[derive(Debug, Clone)]
pub struct PersistentSubscription {
    pub stream_name: String,
    pub group_name: String,
    pub total_items_processed: usize,
    pub connection_count: usize,
    pub last_known_event_position: Option<RevisionOrPosition>,
    pub last_checkpointed_event_position: Option<RevisionOrPosition>,
    pub in_flight_messages: usize,
    pub status: String,
    /// Messages between the checkpoint and the last known event; on the
    /// stream of all events `0` when there are none and `-1` otherwise.
    pub behind_by_messages: i128,
    /// Estimated time to catch up, in hundredths of a second; `-100`, that is
    /// minus one second, on the stream of all events.
    pub behind_by_time: i128,
    /// In thousandths of an item per second.
    pub average_items_per_second: i64,
    pub settings: Option<SubscriptionSettings>,
}

/// The subscriptions of the store, by `stream/group`.
pub struct PersistentSubscriptions {
    pub inner: Catalog<PersistentSubscription>,
}

/// Name of the stream of all events.
pub open spec fn all_stream() -> Seq<char> {
    "$all"@
}

/// Catch-up time that stands for "not known": minus one second.
pub const UNKNOWN_TIME: i128 = -100;

/// The name under which a subscription is kept: stream, a slash, group.
pub open spec fn subscription_key(stream: Seq<char>, group: Seq<char>) -> Seq<char> {
    stream + seq!['/'] + group
}

/// The event number, or zero where none is known.
pub open spec fn revision_or_zero(revision: Option<u64>) -> int {
    match revision {
        Some(r) => r as int,
        None => 0,
    }
}

/// Messages that a subscription is behind by.
pub open spec fn behind_by_messages(info: SubscriptionInfo) -> int {
    if info.event_source@ == all_stream() {
        if info.last_known_position == info.last_checkpointed_position {
            0
        } else {
            -1
        }
    } else {
        revision_or_zero(info.last_known_event_revision) - revision_or_zero(
            info.last_checkpointed_event_revision,
        ) + 1
    }
}

/// Estimated time to catch up in hundredths of a second: the messages behind
/// divided by the rate and rounded to two decimals; zero at rate zero; not
/// known on the stream of all events.
pub open spec fn behind_by_time(info: SubscriptionInfo) -> int {
    if info.event_source@ == all_stream() {
        UNKNOWN_TIME as int
    } else if info.average_per_second == 0 {
        0
    } else {
        rounded_quotient(behind_by_messages(info) * 100_000, info.average_per_second as int)
    }
}

/// The last known place of a subscription in its stream.
pub open spec fn last_known(info: SubscriptionInfo) -> Option<RevisionOrPosition> {
    if info.event_source@ == all_stream() {
        match info.last_known_position {
            Some(p) => Some(RevisionOrPosition::Position(p)),
            None => None,
        }
    } else {
        match info.last_known_event_revision {
            Some(r) => Some(RevisionOrPosition::Revision(r)),
            None => None,
        }
    }
}

/// The last checkpointed place of a subscription in its stream.
pub open spec fn last_checkpointed(info: SubscriptionInfo) -> Option<RevisionOrPosition> {
    if info.event_source@ == all_stream() {
        match info.last_checkpointed_position {
            Some(p) => Some(RevisionOrPosition::Position(p)),
            None => None,
        }
    } else {
        match info.last_checkpointed_event_revision {
            Some(r) => Some(RevisionOrPosition::Revision(r)),
            None => None,
        }
    }
}

/// The catalog entry that a report gives.
pub open spec fn refreshed(info: SubscriptionInfo) -> PersistentSubscription {
    PersistentSubscription {
        stream_name: info.event_source,
        group_name: info.group_name,
        total_items_processed: info.total_items,
        connection_count: info.connection_count,
        last_known_event_position: last_known(info),
        last_checkpointed_event_position: last_checkpointed(info),
        in_flight_messages: info.total_in_flight_messages,
        status: info.status,
        behind_by_messages: behind_by_messages(info) as i128,
        behind_by_time: behind_by_time(info) as i128,
        average_items_per_second: info.average_per_second,
        settings: info.settings,
    }
}

/// The subscriptions after a poll's reports were taken in, the first report
/// first.
pub open spec fn after_reports(
    known: Map<Seq<char>, PersistentSubscription>,
    reports: Seq<SubscriptionInfo>,
) -> Map<Seq<char>, PersistentSubscription>
    decreases reports.len(),
{
    if reports.len() == 0 {
        known
    } else {
        let report = reports.last();
        after_reports(known, reports.drop_last()).insert(
            subscription_key(report.event_source@, report.group_name@),
            refreshed(report),
        )
    }
}

/// On the stream of all events the catch-up time is never known, whatever
/// the report says; on a named stream the messages behind are the distance
/// from the checkpoint to the last known event, both counted, and the
/// catch-up time at rate zero is zero.
pub proof fn lemma_behind_by(info: SubscriptionInfo)
    ensures
        info.event_source@ == all_stream() ==> refreshed(info).behind_by_time == -100,
        info.event_source@ == all_stream() ==> refreshed(info).behind_by_messages == 0
            || refreshed(info).behind_by_messages == -1,
        info.event_source@ != all_stream() ==> refreshed(info).behind_by_messages
            == revision_or_zero(info.last_known_event_revision) - revision_or_zero(
            info.last_checkpointed_event_revision,
        ) + 1,
        info.event_source@ != all_stream() && info.average_per_second == 0 ==> refreshed(
            info,
        ).behind_by_time == 0,
{
    lemma_behind_in_range(info);
}

/// What a report is behind by fits the fields that hold it.
pub proof fn lemma_behind_in_range(info: SubscriptionInfo)
    ensures
        -0x1_0000_0000_0000_0000 <= behind_by_messages(info) <= 0x1_0000_0000_0000_0000,
        -0x1_0000_0000_0000_0000 * 100_000 <= behind_by_time(info) <= 0x1_0000_0000_0000_0000
            * 100_000,
{
    if info.event_source@ != all_stream() && info.average_per_second != 0 {
        let p = behind_by_messages(info) * 100_000;
        let q = info.average_per_second as int;
        lemma_rounded_quotient_bounded(p, q);
    }
}

/// Messages behind and catch-up time of a report.
pub fn compute_behind_metrics(info: &SubscriptionInfo) -> (behind: (i128, i128))
    ensures
        behind.0 == behind_by_messages(*info),
        behind.1 == behind_by_time(*info),
{
    proof {
        lemma_behind_in_range(*info);
    }
    if same_text(info.event_source.as_str(), "$all") {
        let messages: i128 = if opt_position_eq(
            &info.last_known_position,
            &info.last_checkpointed_position,
        ) {
            0
        } else {
            -1
        };
        (messages, UNKNOWN_TIME)
    } else {
        let known: i128 = match info.last_known_event_revision {
            Some(r) => r as i128,
            None => 0,
        };
        let checkpointed: i128 = match info.last_checkpointed_event_revision {
            Some(r) => r as i128,
            None => 0,
        };
        let messages: i128 = known - checkpointed + 1;
        let time: i128 = if info.average_per_second == 0 {
            0
        } else {
            round_div(messages * 100_000, info.average_per_second as i128)
        };
        (messages, time)
    }
}

/// Whether two optional positions agree.
fn opt_position_eq(a: &Option<Position>, b: &Option<Position>) -> (r: bool)
    ensures
        r == (*a == *b),
{
    match (a, b) {
        (Some(x), Some(y)) => x.commit == y.commit && x.prepare == y.prepare,
        (None, None) => true,
        _ => false,
    }
}

impl PersistentSubscriptions {
    /// No subscriptions yet.
    pub fn new() -> (s: Self)
        ensures
            s.inner.wf(),
            s.inner@.len() == 0,
            s.inner.map() == Map::<Seq<char>, PersistentSubscription>::empty(),
    {
        PersistentSubscriptions { inner: Catalog::new() }
    }

    /// Takes in the reports of one poll: each report replaces what the
    /// catalog held under its `stream/group`, or adds an entry.
    pub fn update(&mut self, ps: Vec<SubscriptionInfo>)
        requires
            old(self).inner.wf(),
        ensures
            final(self).inner.wf(),
            final(self).inner.map() == after_reports(old(self).inner.map(), ps@),
    {
        let ghost reports = ps@;
        for p in iter: ps
            invariant
                iter.seq() == reports,
                self.inner.wf(),
                self.inner.map() == after_reports(
                    old(self).inner.map(),
                    reports.take(iter.index() as int),
                ),
        {
            proof {
                reveal_strlit("/");
                assert(reports.take(iter.index() + 1).drop_last() =~= reports.take(
                    iter.index() as int,
                ));
                assert(reports.take(iter.index() + 1).last() == p);
            }
            let mut key = p.event_source.clone();
            key.append("/");
            key.append(p.group_name.as_str());
            assert(key@ =~= subscription_key(p.event_source@, p.group_name@));
            let (messages, time) = compute_behind_metrics(&p);
            let known = match_place(&p, true);
            let checkpointed = match_place(&p, false);
            let entry = PersistentSubscription {
                stream_name: p.event_source,
                group_name: p.group_name,
                total_items_processed: p.total_items,
                connection_count: p.connection_count,
                last_known_event_position: known,
                last_checkpointed_event_position: checkpointed,
                in_flight_messages: p.total_in_flight_messages,
                status: p.status,
                behind_by_messages: messages,
                behind_by_time: time,
                average_items_per_second: p.average_per_second,
                settings: p.settings,
            };
            self.inner.put(key.as_str(), entry);
        }
        assert(reports.take(reports.len() as int) =~= reports);
    }

    /// The subscriptions in ascending order of `stream/group`.
    pub fn list(&self) -> (entries: &Vec<Entry<PersistentSubscription>>)
        ensures
            entries@.len() == self.inner@.len(),
            forall|i: int|
                0 <= i < self.inner@.len() ==> (#[trigger] entries@[i]).key@ == self.inner@[i].0
                    && entries@[i].value == self.inner@[i].1,
    {
        self.inner.list()
    }

    /// The subscription at a row of the listing, if there is one.
    pub fn get(&self, idx: u16) -> (found: Option<&PersistentSubscription>)
        ensures
            idx < self.inner@.len() ==> found == Some(&self.inner@[idx as int].1),
            idx >= self.inner@.len() ==> found is None,
    {
        self.inner.get(idx as usize)
    }
}

/// The last known place, or the last checkpointed one, of a report.
fn match_place(info: &SubscriptionInfo, known: bool) -> (place: Option<RevisionOrPosition>)
    ensures
        known ==> place == last_known(*info),
        !known ==> place == last_checkpointed(*info),
{
    if same_text(info.event_source.as_str(), "$all") {
        let position = if known {
            info.last_known_position
        } else {
            info.last_checkpointed_position
        };
        match position {
            Some(p) => Some(RevisionOrPosition::Position(p)),
            None => None,
        }
    } else {
        let revision = if known {
            info.last_known_event_revision
        } else {
            info.last_checkpointed_event_revision
        };
        match revision {
            Some(r) => Some(RevisionOrPosition::Revision(r)),
            None => None,
        }
    }
}

impl Default for PersistentSubscriptions {
    /// No subscriptions yet.
    fn default() -> (s: Self)
        ensures
            s.inner.wf(),
            s.inner@.len() == 0,
            s.inner.map() == Map::<Seq<char>, PersistentSubscription>::empty(),
    {
        PersistentSubscriptions::new()
    }
}

} // verus!
