//! The persistent subscriptions tab: the list of subscriptions, the actions
//! on one of them, and its settings.

use vstd::prelude::*;
use vstd::string::*;
use crate::keys::KeyCode;
use crate::models::persistent_subscriptions::{
    after_reports, PersistentSubscription, PersistentSubscriptions, Position, RevisionOrPosition,
    StreamPosition, SubscriptionInfo,
};
use crate::request::Request;
use crate::catalog::Entry;
use crate::fixed::{
    integer_string, integer_text, round_div, rounded_quotient, tenths_string, tenths_text,
    ROUND_LIMIT,
};
use crate::models::persistent_subscriptions::SubscriptionSettings;
use crate::text::{decimal, push_decimal};

verus! {

/// The sub-screens of the persistent subscriptions tab.
#[derive(Debug, Clone, Copy, PartialEq, Eq, Structural)]
pub enum Stage {
    /// The list of subscriptions.
    Main,
    /// The actions on the selected subscription, over the list.
    Choices,
    /// The settings of the selected subscription.
    Detail,
}

/// Number of actions that the tab offers on a subscription.
pub const CHOICE_COUNT: u16 = 5;

/// The action that shows the settings of a subscription.
pub const DETAIL_CHOICE: u16 = 2;

/// The persistent subscriptions tab.
pub struct PersistentSubscriptionView {
    pub stage: Stage,
    /// The selected row of the list.
    pub selected: u16,
    /// The selected action.
    pub selected_choices: u16,
    pub model: PersistentSubscriptions,
}

/// What of the tab decides how it reacts to a key.
pub ghost struct Selection {
    pub stage: Stage,
    pub selected: u16,
    pub selected_choices: u16,
}

/// One less, but not below zero.
pub open spec fn up(n: u16) -> u16 {
    if n > 0 {
        (n - 1) as u16
    } else {
        n
    }
}

/// One more, but not beyond the greatest number of the type.
pub open spec fn down(n: u16) -> u16 {
    if n < u16::MAX {
        (n + 1) as u16
    } else {
        n
    }
}

/// The tab after a key, and what the key asks of the session, in a list of
/// `count` subscriptions. The settings open only for a row that shows a
/// subscription.
pub open spec fn after_key(s: Selection, count: nat, key: KeyCode) -> (Selection, Request) {
    if key.is_quit() {
        if s.stage == Stage::Choices || s.stage == Stage::Detail {
            (Selection { stage: Stage::Main, selected: 0, selected_choices: 0 }, Request::Noop)
        } else {
            (s, Request::Exit)
        }
    } else {
        match key {
            KeyCode::Enter => match s.stage {
                Stage::Main => (Selection { stage: Stage::Choices, ..s }, Request::Noop),
                Stage::Choices => if s.selected_choices == DETAIL_CHOICE && s.selected < count {
                    (Selection { stage: Stage::Detail, ..s }, Request::Noop)
                } else {
                    (s, Request::Noop)
                },
                Stage::Detail => (s, Request::Noop),
            },
            KeyCode::Up => match s.stage {
                Stage::Main => (Selection { selected: up(s.selected), ..s }, Request::Noop),
                Stage::Choices => (
                    Selection { selected_choices: up(s.selected_choices), ..s },
                    Request::Noop,
                ),
                Stage::Detail => (s, Request::Noop),
            },
            KeyCode::Down => match s.stage {
                Stage::Main => (Selection { selected: down(s.selected), ..s }, Request::Noop),
                Stage::Choices => (
                    Selection { selected_choices: down(s.selected_choices), ..s },
                    Request::Noop,
                ),
                Stage::Detail => (s, Request::Noop),
            },
            _ => (s, Request::Noop),
        }
    }
}

/// The keys that a stage of the tab reacts to, with what they do.
pub open spec fn bindings_of(stage: Stage) -> Seq<(&'static str, &'static str)> {
    match stage {
        Stage::Main => seq![("↑", "Scroll up"), ("↓", "Scroll down"), ("Enter", "Select")],
        Stage::Detail => seq![("q", "Close")],
        Stage::Choices => seq![
            ("↑", "Scroll up"),
            ("↓", "Scroll down"),
            ("Enter", "Select"),
            ("q", "Close"),
        ],
    }
}

/// A log position as text: `C:` and the commit position, `/P:` and the
/// prepare position.
pub open spec fn position_text(p: Position) -> Seq<char> {
    "C:"@ + decimal(p.commit as nat) + "/P:"@ + decimal(p.prepare as nat)
}

/// A place in a stream as text; `0` where none is known.
pub open spec fn place_text(value: Option<RevisionOrPosition>) -> Seq<char> {
    match value {
        Some(RevisionOrPosition::Position(p)) => position_text(p),
        Some(RevisionOrPosition::Revision(r)) => decimal(r as nat),
        None => "0"@,
    }
}

/// Where a subscription starts to read, as text.
pub open spec fn start_text(value: StreamPosition) -> Seq<char> {
    match value {
        StreamPosition::Start => "beginning"@,
        StreamPosition::End => "end"@,
        StreamPosition::Position(p) => place_text(Some(p)),
    }
}

/// A place in a stream as text; `0` where none is known.
pub fn display_rev_or_pos(value: Option<&RevisionOrPosition>) -> (text: String)
    ensures
        text@ == place_text(
            match value {
                Some(v) => Some(*v),
                None => None,
            },
        ),
{
    match value {
        Some(RevisionOrPosition::Position(p)) => {
            let mut text = "C:".to_owned();
            push_decimal(&mut text, p.commit as u128);
            text.append("/P:");
            push_decimal(&mut text, p.prepare as u128);
            text
        },
        Some(RevisionOrPosition::Revision(rev)) => {
            let mut text = String::new();
            push_decimal(&mut text, *rev as u128);
            assert(text@ =~= decimal(*rev as nat));
            text
        },
        None => "0".to_owned(),
    }
}

/// Where a subscription starts to read, as text.
pub fn display_stream_position(value: &StreamPosition) -> (text: String)
    ensures
        text@ == start_text(*value),
{
    match value {
        StreamPosition::Start => "beginning".to_owned(),
        StreamPosition::End => "end".to_owned(),
        StreamPosition::Position(value) => display_rev_or_pos(Some(value)),
    }
}

impl View for PersistentSubscriptionView {
    type V = Selection;

    open spec fn view(&self) -> Selection {
        Selection {
            stage: self.stage,
            selected: self.selected,
            selected_choices: self.selected_choices,
        }
    }
}

impl PersistentSubscriptionView {
    /// The model is in order.
    pub open spec fn wf(&self) -> bool {
        self.model.inner.wf()
    }

    /// A tab that has seen no poll.
    pub fn new() -> (v: Self)
        ensures
            v.wf(),
            v@ == (Selection { stage: Stage::Main, selected: 0, selected_choices: 0 }),
            v.model.inner@.len() == 0,
    {
        PersistentSubscriptionView {
            stage: Stage::Main,
            selected: 0,
            selected_choices: 0,
            model: PersistentSubscriptions::new(),
        }
    }

    /// Leaves the tab. The tab keeps what it shows.
    pub fn unload(&mut self)
        ensures
            *final(self) == *old(self),
    {
    }

    /// Whether a refresh has to fetch the subscriptions: only the list is
    /// kept up to date.
    pub fn wants_refresh(&self) -> (wanted: bool)
        ensures
            wanted == (self.stage == Stage::Main),
    {
        self.stage == Stage::Main
    }

    /// Takes in the reports of one poll. Outside the list they are dropped.
    pub fn refresh(&mut self, subs: Vec<SubscriptionInfo>)
        requires
            old(self).wf(),
        ensures
            final(self).wf(),
            final(self)@ == old(self)@,
            old(self).stage == Stage::Main ==> final(self).model.inner.map() == after_reports(
                old(self).model.inner.map(),
                subs@,
            ),
            old(self).stage != Stage::Main ==> final(self).model == old(self).model,
    {
        if self.stage == Stage::Main {
            self.model.update(subs);
        }
    }

    /// Keeps the selected action among the actions that there are.
    pub fn clamp_choice(&mut self)
        ensures
            final(self).selected_choices == if old(self).selected_choices >= CHOICE_COUNT {
                (CHOICE_COUNT - 1) as u16
            } else {
                old(self).selected_choices
            },
            final(self).stage == old(self).stage,
            final(self).selected == old(self).selected,
            final(self).model == old(self).model,
    {
        if self.selected_choices >= CHOICE_COUNT {
            self.selected_choices = CHOICE_COUNT - 1;
        }
    }

    /// The subscription whose settings the detail shows, if the selected row
    /// shows one.
    pub fn detail(&self) -> (found: Option<&PersistentSubscription>)
        ensures
            self.selected < self.model.inner@.len() ==> found == Some(
                &self.model.inner@[self.selected as int].1,
            ),
            self.selected >= self.model.inner@.len() ==> found is None,
    {
        self.model.get(self.selected)
    }

    /// How the tab reacts to a key: by `after_key`, and the subscriptions
    /// stay as they are.
    pub open spec fn reacts(before: Self, after: Self, key: KeyCode, request: Request) -> bool {
        &&& (after@, request) == after_key(before@, before.model.inner@.len(), key)
        &&& after.model == before.model
    }

    /// Reacts to a key.
    pub fn on_key_pressed(&mut self, key: KeyCode) -> (request: Request)
        ensures
            Self::reacts(*old(self), *final(self), key, request),
    {
        if key.quits() {
            if self.stage == Stage::Choices || self.stage == Stage::Detail {
                self.stage = Stage::Main;
                self.selected = 0;
                self.selected_choices = 0;
                return Request::Noop;
            }
            return Request::Exit;
        }
        match key {
            KeyCode::Enter => {
                if self.stage == Stage::Main {
                    self.stage = Stage::Choices;
                } else if self.stage == Stage::Choices {
                    if self.selected_choices == DETAIL_CHOICE && (self.selected as usize)
                        < self.model.inner.len() {
                        self.stage = Stage::Detail;
                    }
                }
            },
            KeyCode::Up => {
                if self.stage == Stage::Main {
                    if self.selected > 0 {
                        self.selected = self.selected - 1;
                    }
                } else if self.stage == Stage::Choices {
                    if self.selected_choices > 0 {
                        self.selected_choices = self.selected_choices - 1;
                    }
                }
            },
            KeyCode::Down => {
                if self.stage == Stage::Main {
                    if self.selected < u16::MAX {
                        self.selected = self.selected + 1;
                    }
                } else if self.stage == Stage::Choices {
                    if self.selected_choices < u16::MAX {
                        self.selected_choices = self.selected_choices + 1;
                    }
                }
            },
            _ => {},
        }
        Request::Noop
    }

    /// The keys that the current stage reacts to, with what they do.
    pub fn keybindings(&self) -> (bindings: Vec<(&'static str, &'static str)>)
        ensures
            bindings@ == bindings_of(self.stage),
    {
        let bindings = match self.stage {
            Stage::Main => vec![("↑", "Scroll up"), ("↓", "Scroll down"), ("Enter", "Select")],
            Stage::Detail => vec![("q", "Close")],
            Stage::Choices => vec![
                ("↑", "Scroll up"),
                ("↓", "Scroll down"),
                ("Enter", "Select"),
                ("q", "Close"),
            ],
        };
        assert(bindings@ =~= bindings_of(self.stage));
        bindings
    }
}

/// A quantity held in thousandths as text with one decimal.
pub open spec fn thousandths_text(value: i64) -> Seq<char> {
    tenths_text(rounded_quotient(value as int, 100))
}

/// A time held in hundredths of a second as text with one decimal; a dash
/// where it is beyond what can be worked out.
pub open spec fn time_text(hundredths: i128) -> Seq<char> {
    if -ROUND_LIMIT <= hundredths <= ROUND_LIMIT {
        tenths_text(rounded_quotient(hundredths as int, 10))
    } else {
        "-"@
    }
}

/// The cells of a subscription's row: its `stream/group`, its rate, the
/// last known and the checkpointed place with the messages in flight, the
/// connections, and what it is behind by in messages and in seconds.
pub open spec fn row_cells(key: Seq<char>, sub: PersistentSubscription) -> Seq<Seq<char>> {
    seq![
        key,
        thousandths_text(sub.average_items_per_second),
        place_text(sub.last_known_event_position) + " | "@ + place_text(
            sub.last_checkpointed_event_position,
        ) + " | "@ + decimal(sub.in_flight_messages as nat),
        decimal(sub.connection_count as nat),
        integer_text(sub.behind_by_messages as int) + " / "@ + time_text(sub.behind_by_time),
    ]
}

/// `true` or `false`.
pub open spec fn flag_text(flag: bool) -> Seq<char> {
    if flag {
        "true"@
    } else {
        "false"@
    }
}

/// The cells of a subscription's settings.
pub open spec fn settings_cells(s: SubscriptionSettings) -> Seq<Seq<char>> {
    seq![
        integer_text(s.history_buffer_size as int),
        decimal(s.checkpoint_after as nat),
        flag_text(s.extra_statistics),
        integer_text(s.live_buffer_size as int),
        integer_text(s.checkpoint_upper_bound as int),
        integer_text(s.max_retry_count as int),
        decimal(s.message_timeout as nat),
        integer_text(s.checkpoint_lower_bound as int),
        s.consumer_strategy_name@,
        integer_text(s.read_batch_size as int),
        flag_text(s.resolve_link_tos),
        start_text(s.start_from),
    ]
}

/// The title of a subscription's detail.
pub open spec fn detail_title(sub: PersistentSubscription) -> Seq<char> {
    "Subscription - "@ + sub.stream_name@ + seq!['/'] + sub.group_name@
}

/// The decimal numeral of a number.
fn number_string(n: u128) -> (text: String)
    ensures
        text@ == decimal(n as nat),
{
    let mut text = String::new();
    push_decimal(&mut text, n);
    assert(text@ =~= decimal(n as nat));
    text
}

/// `true` or `false`.
fn flag_string(flag: bool) -> (text: String)
    ensures
        text@ == flag_text(flag),
{
    if flag {
        "true".to_owned()
    } else {
        "false".to_owned()
    }
}

/// A time held in hundredths of a second as text with one decimal.
pub fn time_string(hundredths: i128) -> (text: String)
    ensures
        text@ == time_text(hundredths),
{
    if -ROUND_LIMIT <= hundredths && hundredths <= ROUND_LIMIT {
        tenths_string(round_div(hundredths, 10))
    } else {
        "-".to_owned()
    }
}

/// The cells of a subscription's row.
pub fn subscription_cells(entry: &Entry<PersistentSubscription>) -> (cells: Vec<String>)
    ensures
        cells.deep_view() == row_cells(entry.key@, entry.value),
{
    let sub = &entry.value;
    let mut places = display_rev_or_pos(sub.last_known_event_position.as_ref());
    places.append(" | ");
    places.append(display_rev_or_pos(sub.last_checkpointed_event_position.as_ref()).as_str());
    places.append(" | ");
    places.append(number_string(sub.in_flight_messages as u128).as_str());
    let mut behind = integer_string(sub.behind_by_messages);
    behind.append(" / ");
    behind.append(time_string(sub.behind_by_time).as_str());
    let cells = vec![
        entry.key.clone(),
        tenths_string(round_div(sub.average_items_per_second as i128, 100)),
        places,
        number_string(sub.connection_count as u128),
        behind,
    ];
    assert(cells.deep_view() =~= row_cells(entry.key@, entry.value));
    cells
}

/// The cells of a subscription's settings.
pub fn settings_row(setts: &SubscriptionSettings) -> (cells: Vec<String>)
    ensures
        cells.deep_view() == settings_cells(*setts),
{
    let cells = vec![
        integer_string(setts.history_buffer_size as i128),
        number_string(setts.checkpoint_after),
        flag_string(setts.extra_statistics),
        integer_string(setts.live_buffer_size as i128),
        integer_string(setts.checkpoint_upper_bound as i128),
        integer_string(setts.max_retry_count as i128),
        number_string(setts.message_timeout),
        integer_string(setts.checkpoint_lower_bound as i128),
        setts.consumer_strategy_name.clone(),
        integer_string(setts.read_batch_size as i128),
        flag_string(setts.resolve_link_tos),
        display_stream_position(&setts.start_from),
    ];
    assert(cells.deep_view() =~= settings_cells(*setts));
    cells
}

/// The title of a subscription's detail.
pub fn subscription_title(sub: &PersistentSubscription) -> (title: String)
    ensures
        title@ == detail_title(*sub),
{
    let mut title = "Subscription - ".to_owned();
    title.append(sub.stream_name.as_str());
    title.append("/");
    title.append(sub.group_name.as_str());
    proof {
        reveal_strlit("/");
        assert(title@ =~= detail_title(*sub));
    }
    title
}

impl Default for Stage {
    /// The list of subscriptions.
    fn default() -> (s: Self)
        ensures
            s == Stage::Main,
    {
        Stage::Main
    }
}

impl Default for PersistentSubscriptionView {
    /// A tab that has seen no poll.
    fn default() -> (v: Self)
        ensures
            v.wf(),
            v@ == (Selection { stage: Stage::Main, selected: 0, selected_choices: 0 }),
            v.model.inner@.len() == 0,
    {
        PersistentSubscriptionView::new()
    }
}

} // verus!
