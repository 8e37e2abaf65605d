//! The projections tab: the list of projections, and one projection with
//! its query.

use vstd::prelude::*;
use vstd::string::*;
use crate::fixed::{
    integer_string, integer_text, round_div, rounded_quotient, tenths_string, tenths_text,
};
use crate::keys::KeyCode;
use crate::models::projections::{
    after_poll, Projection, ProjectionStatus, ProjectionContent, Projections, Rate,
};
use crate::request::Request;
use crate::text::same_text;
use crate::views::layout::pairs_of;
use crate::views::stream_browser::RecordedEvent;

verus! {

/// The sub-screens of the projections tab.
#[derive(Debug, Clone, Copy, PartialEq, Eq, Structural)]
pub enum Stage {
    /// The list of projections.
    Main,
    /// One projection.
    Detail,
}

/// The projections tab.
pub struct ProjectionsViews {
    pub model: Projections,
    /// The selected row of the list.
    pub selected: usize,
    pub stage: Stage,
    pub scroll: u16,
}

/// What the tab has to fetch to refresh itself.
pub enum ProjectionsFetch {
    /// The status of all projections.
    List,
    /// The query of the projection of this name.
    Query(String),
}

/// Stage and selected row after a key, and what the key asks of the session,
/// in a list of `count` projections. Enter opens the selected projection,
/// if there is one, and asks for its query to be fetched.
pub open spec fn after_key(stage: Stage, selected: usize, count: nat, key: KeyCode) -> (
    Stage,
    usize,
    Request,
) {
    if key.is_quit() {
        if stage == Stage::Detail {
            (Stage::Main, 0, Request::Noop)
        } else {
            (stage, selected, Request::Exit)
        }
    } else {
        match key {
            KeyCode::Up => (
                stage,
                if selected > 0 {
                    (selected - 1) as usize
                } else {
                    selected
                },
                Request::Noop,
            ),
            KeyCode::Down => (
                stage,
                if selected + 1 < count {
                    (selected + 1) as usize
                } else {
                    selected
                },
                Request::Noop,
            ),
            KeyCode::Enter => if selected < count {
                (Stage::Detail, selected, Request::Refresh)
            } else {
                (stage, selected, Request::Noop)
            },
            _ => (stage, selected, Request::Noop),
        }
    }
}

/// The detail opens only on a row that shows a projection, and the key that
/// opens it asks for a refresh: the query is fetched before it is painted.
pub proof fn lemma_detail_asks_for_refresh(stage: Stage, selected: usize, count: nat, key: KeyCode)
    requires
        stage == Stage::Main,
        after_key(stage, selected, count, key).0 == Stage::Detail,
    ensures
        after_key(stage, selected, count, key).2 == Request::Refresh,
        selected < count,
{
}

/// The keys that a stage of the tab reacts to, with what they do.
pub open spec fn bindings_of(stage: Stage) -> Seq<(&'static str, &'static str)> {
    match stage {
        Stage::Main => seq![("↑", "Scroll up"), ("↓", "Scroll down"), ("Enter", "Select")],
        Stage::Detail => seq![
            ("↑", "Scroll up"),
            ("↓", "Scroll down"),
            ("Enter", "Select"),
            ("q", "Close"),
        ],
    }
}

/// Name of the stream that holds what is known about a projection.
pub open spec fn metadata_stream(name: Seq<char>) -> Seq<char> {
    "$projections-"@ + name
}

/// The kind of event that records a change of a projection.
pub open spec fn update_event_type() -> Seq<char> {
    "$ProjectionUpdated"@
}

/// Position of the first event that records a change of a projection.
pub open spec fn first_update(events: Seq<RecordedEvent>) -> Option<int>
    decreases events.len(),
{
    if events.len() == 0 {
        None
    } else if events[0].event_type@ == update_event_type() {
        Some(0)
    } else {
        match first_update(events.drop_first()) {
            Some(i) => Some(i + 1),
            None => None,
        }
    }
}

/// Name of the stream that holds what is known about a projection.
pub fn metadata_stream_name(name: &str) -> (stream: String)
    ensures
        stream@ == metadata_stream(name@),
{
    let mut stream = "$projections-".to_owned();
    stream.append(name);
    stream
}

/// Among the events of a projection's metadata stream, read from the newest
/// back, the first that records a change of the projection: its most recent
/// change. `None` where no event does.
pub fn latest_update(events: &Vec<RecordedEvent>) -> (found: Option<usize>)
    ensures
        match found {
            Some(i) => first_update(events@) == Some(i as int) && i < events.len(),
            None => first_update(events@) is None,
        },
{
    let mut i: usize = 0;
    assert(events@.skip(0) =~= events@);
    while i < events.len()
        invariant
            i <= events.len(),
            match first_update(events@.skip(i as int)) {
                Some(k) => first_update(events@) == Some(k + i),
                None => first_update(events@) is None,
            },
        decreases events.len() - i,
    {
        let ghost rest = events@.skip(i as int);
        assert(rest[0] == events@[i as int]);
        assert(rest.drop_first() =~= events@.skip(i + 1));
        if same_text(events[i].event_type.as_str(), "$ProjectionUpdated") {
            return Some(i);
        }
        i = i + 1;
    }
    assert(events@.skip(i as int).len() == 0);
    None
}

impl ProjectionsViews {
    /// The model is in order.
    pub open spec fn wf(&self) -> bool {
        self.model.wf()
    }

    /// A tab that has seen no poll.
    pub fn new() -> (v: Self)
        ensures
            v.wf(),
            v.stage == Stage::Main,
            v.selected == 0,
            v.scroll == 0,
            v.model.inner@.len() == 0,
    {
        ProjectionsViews { model: Projections::new(), selected: 0, stage: Stage::Main, scroll: 0 }
    }

    /// Leaves the tab. The tab keeps what it shows.
    pub fn unload(&mut self)
        ensures
            *final(self) == *old(self),
    {
    }

    /// What the tab has to fetch to refresh itself: in the list, the status
    /// of all projections; in the detail, the query of the selected one.
    pub fn refresh_plan(&self) -> (plan: ProjectionsFetch)
        ensures
            match plan {
                ProjectionsFetch::Query(name) => self.stage == Stage::Detail && self.selected
                    < self.model.inner@.len() && name@
                    == self.model.inner@[self.selected as int].1.name@,
                ProjectionsFetch::List => !(self.stage == Stage::Detail && self.selected
                    < self.model.inner@.len()),
            },
    {
        if self.stage == Stage::Detail {
            match self.model.by_idx(self.selected) {
                Some(proj) => {
                    return ProjectionsFetch::Query(proj.name.clone());
                },
                None => {},
            }
        }
        ProjectionsFetch::List
    }

    /// Takes in the status of all projections, as one poll reports it.
    pub fn refresh(&mut self, projections: Vec<ProjectionStatus>)
        requires
            old(self).wf(),
        ensures
            final(self).wf(),
            exists|now: u128| final(self).model@ == after_poll(old(self).model@, projections@, now),
            final(self).model.clock == old(self).model.clock,
            final(self).stage == old(self).stage,
            final(self).selected == old(self).selected,
            final(self).scroll == old(self).scroll,
    {
        self.model.update(projections);
    }

    /// Takes in the query of the selected projection. Without a selected
    /// projection nothing changes.
    pub fn refresh_query(&mut self, query: String)
        ensures
            final(self).stage == old(self).stage,
            final(self).selected == old(self).selected,
            final(self).scroll == old(self).scroll,
            old(self).selected >= old(self).model.inner@.len() ==> final(self).model.inner@ == old(
                self,
            ).model.inner@,
            old(self).selected < old(self).model.inner@.len() ==> final(self).model.inner@ == old(
                self,
            ).model.inner@.update(
                old(self).selected as int,
                (
                    old(self).model.inner@[old(self).selected as int].0,
                    Projection { query, ..old(self).model.inner@[old(self).selected as int].1 },
                ),
            ),
            final(self).model.previous == old(self).model.previous,
            final(self).model.last_time == old(self).model.last_time,
            final(self).model.clock == old(self).model.clock,
            old(self).wf() ==> final(self).wf(),
    {
        match self.model.by_idx_mut(self.selected) {
            Some(proj) => {
                proj.query = query;
            },
            None => {},
        }
    }

    /// How the tab reacts to a key: by `after_key`, and the projections
    /// stay as they are.
    pub open spec fn reacts(before: Self, after: Self, key: KeyCode, request: Request) -> bool {
        &&& (after.stage, after.selected, request) == after_key(
            before.stage,
            before.selected,
            before.model.inner@.len(),
            key,
        )
        &&& after.model == before.model
        &&& after.scroll == before.scroll
    }

    /// Reacts to a key.
    pub fn on_key_pressed(&mut self, key: KeyCode) -> (request: Request)
        ensures
            Self::reacts(*old(self), *final(self), key, request),
    {
        if key.quits() {
            if self.stage == Stage::Detail {
                self.stage = Stage::Main;
                self.selected = 0;
                return Request::Noop;
            }
            return Request::Exit;
        }
        match key {
            KeyCode::Up => {
                if self.selected > 0 {
                    self.selected = self.selected - 1;
                }
            },
            KeyCode::Down => {
                let count = self.model.count();
                if self.selected < count && self.selected + 1 < count {
                    self.selected = self.selected + 1;
                }
            },
            KeyCode::Enter => {
                if self.selected < self.model.count() {
                    self.stage = Stage::Detail;
                    return Request::Refresh;
                }
            },
            _ => {},
        }
        Request::Noop
    }

    /// The keys that the current stage reacts to, with what they do.
    pub fn keybindings(&self) -> (bindings: Vec<(&'static str, &'static str)>)
        ensures
            bindings@ == bindings_of(self.stage),
    {
        let bindings = match self.stage {
            Stage::Main => vec![("↑", "Scroll up"), ("↓", "Scroll down"), ("Enter", "Select")],
            Stage::Detail => vec![
                ("↑", "Scroll up"),
                ("↓", "Scroll down"),
                ("Enter", "Select"),
                ("q", "Close"),
            ],
        };
        assert(bindings@ =~= bindings_of(self.stage));
        bindings
    }
}

/// A rate as text: events per second with one decimal; `0.0` before two
/// reports were seen; a dash where the two reports came at the same instant.
pub open spec fn rate_text(rate: Option<Rate>) -> Seq<char> {
    match rate {
        None => tenths_text(0),
        Some(r) => match r.spec_tenths_per_second() {
            Some(tenths) => tenths_text(tenths),
            None => "-"@,
        },
    }
}

/// Progress, held in thousandths of a percent, as text with one decimal and
/// a percent sign.
pub open spec fn progress_text(progress: i64) -> Seq<char> {
    tenths_text(rounded_quotient(progress as int, 100)) + seq!['%']
}

/// The cells of a projection's row in the list.
pub open spec fn main_cells(p: ProjectionContent) -> Seq<Seq<char>> {
    seq![
        p.name,
        p.status,
        if p.checkpoint_status.len() == 0 {
            "-"@
        } else {
            p.checkpoint_status
        },
        p.mode,
        progress_text(p.progress),
        integer_text(p.reads_in_progress as int) + " / "@ + integer_text(
            p.writes_in_progress as int,
        ),
        integer_text(p.buffered_events as int),
        integer_text(p.partitions_cached as int),
        rate_text(p.rate),
        integer_text(p.events_processed as int),
    ]
}

/// The rows of a projection's detail: a label and a value each.
pub open spec fn detail_rows(p: ProjectionContent) -> Seq<(Seq<char>, Seq<char>)> {
    seq![
        ("Events/sec"@, rate_text(p.rate)),
        ("Buffered events"@, integer_text(p.buffered_events as int)),
        ("Events processed"@, integer_text(p.events_processed as int)),
        ("Partitions cached"@, integer_text(p.partitions_cached as int)),
        ("Reads in-progress"@, integer_text(p.reads_in_progress as int)),
        ("Writes in-progress"@, integer_text(p.writes_in_progress as int)),
        ("Write queue"@, integer_text(p.write_queue as int)),
        ("Write queue (chkp)"@, integer_text(p.write_queue_checkpoint as int)),
        ("Checkpoint status"@, p.checkpoint_status),
        ("Position"@, p.position),
        ("Last checkpoint"@, p.last_checkpoint),
        ("Results"@, p.result),
        ("State"@, p.state),
    ]
}

/// A rate as text.
pub fn rate_string(rate: &Option<Rate>) -> (text: String)
    ensures
        text@ == rate_text(*rate),
{
    match rate {
        None => tenths_string(0),
        Some(r) => match r.tenths_per_second() {
            Some(tenths) => tenths_string(tenths),
            None => "-".to_owned(),
        },
    }
}

/// Progress as text with one decimal and a percent sign.
pub fn progress_string(progress: i64) -> (text: String)
    ensures
        text@ == progress_text(progress),
{
    let mut text = tenths_string(round_div(progress as i128, 100));
    text.append("%");
    proof {
        reveal_strlit("%");
        assert(text@ =~= progress_text(progress));
    }
    text
}

/// The cells of a projection's row in the list.
pub fn main_proj_mapping(proj: &Projection) -> (cells: Vec<String>)
    ensures
        cells.deep_view() == main_cells(proj@),
{
    let checkpoint = if proj.checkpoint_status.as_str().unicode_len() == 0 {
        "-".to_owned()
    } else {
        proj.checkpoint_status.clone()
    };
    let mut in_progress = integer_string(proj.reads_in_progress as i128);
    in_progress.append(" / ");
    in_progress.append(integer_string(proj.writes_in_progress as i128).as_str());
    let cells = vec![
        proj.name.clone(),
        proj.status.clone(),
        checkpoint,
        proj.mode.clone(),
        progress_string(proj.progress),
        in_progress,
        integer_string(proj.buffered_events as i128),
        integer_string(proj.partitions_cached as i128),
        rate_string(&proj.rate),
        integer_string(proj.events_processed as i128),
    ];
    assert(cells.deep_view() =~= main_cells(proj@));
    cells
}

/// The rows of a projection's detail: a label and a value each.
pub fn detail_proj_mapping(proj: &Projection) -> (rows: Vec<(String, String)>)
    ensures
        pairs_of(rows@) == detail_rows(proj@),
{
    let rows = vec![
        ("Events/sec".to_owned(), rate_string(&proj.rate)),
        ("Buffered events".to_owned(), integer_string(proj.buffered_events as i128)),
        ("Events processed".to_owned(), integer_string(proj.events_processed as i128)),
        ("Partitions cached".to_owned(), integer_string(proj.partitions_cached as i128)),
        ("Reads in-progress".to_owned(), integer_string(proj.reads_in_progress as i128)),
        ("Writes in-progress".to_owned(), integer_string(proj.writes_in_progress as i128)),
        ("Write queue".to_owned(), integer_string(proj.write_queue as i128)),
        ("Write queue (chkp)".to_owned(), integer_string(proj.write_queue_checkpoint as i128)),
        ("Checkpoint status".to_owned(), proj.checkpoint_status.clone()),
        ("Position".to_owned(), proj.position.clone()),
        ("Last checkpoint".to_owned(), proj.last_checkpoint.clone()),
        ("Results".to_owned(), proj.result.clone()),
        ("State".to_owned(), proj.state.clone()),
    ];
    assert(pairs_of(rows@) =~= detail_rows(proj@));
    rows
}

impl Default for Stage {
    /// The list of projections.
    fn default() -> (s: Self)
        ensures
            s == Stage::Main,
    {
        Stage::Main
    }
}

impl Default for ProjectionsViews {
    /// A tab that has seen no poll.
    fn default() -> (v: Self)
        ensures
            v.wf(),
            v.stage == Stage::Main,
            v.selected == 0,
            v.scroll == 0,
            v.model.inner@.len() == 0,
    {
        ProjectionsViews::new()
    }
}

} // verus!
