//! The stream browser: the recently created and the recently changed
//! streams, the events of one stream, and one event at a time.

use vstd::prelude::*;
use vstd::string::*;
use vstd::utf8::{decode_utf8, valid_utf8};
use crate::failure::{Failure, FailureKind};
use crate::keys::KeyCode;
use crate::request::Request;
use crate::text::{
    chars_of, decimal, pop_char, push_char, push_decimal, push_repeated, same_text, text_between,
};

verus! {

/// The sub-screens of the stream browser.
#[derive(Debug, Clone, Copy, PartialEq, Eq, Structural)]
pub enum Stage {
    /// The two lists of streams.
    Main,
    /// The events of the selected stream.
    Stream,
    /// One event of the selected stream.
    StreamPreview,
    /// The search box, over the two lists.
    Popup,
}

/// One event as it was written to a stream.
#[derive(Debug, Clone)]
pub struct RecordedEvent {
    pub stream_id: String,
    pub revision: u64,
    pub event_type: String,
    pub is_json: bool,
    pub data: Vec<u8>,
}

/// One event as a read returns it: the event itself and, where the read
/// went through a link, the link.
#[derive(Debug, Clone)]
pub struct ResolvedEvent {
    pub event: Option<RecordedEvent>,
    pub link: Option<RecordedEvent>,
}

impl ResolvedEvent {
    /// What was read from the stream itself: the link where there is one,
    /// else the event.
    pub open spec fn original(self) -> Option<RecordedEvent> {
        if self.link is Some {
            self.link
        } else {
            self.event
        }
    }

    /// What was read from the stream itself: the link where there is one,
    /// else the event.
    pub fn original_event(&self) -> (found: Option<&RecordedEvent>)
        ensures
            found is Some <==> self.original() is Some,
            found is Some ==> *found->0 == self.original()->0,
    {
        match &self.link {
            Some(link) => Some(link),
            None => match &self.event {
                Some(event) => Some(event),
                None => None,
            },
        }
    }
}

/// What the stream browser shows.
pub struct Model {
    pub last_created: Vec<String>,
    pub recently_changed: Vec<String>,
    pub selected_stream: Option<String>,
    pub selected_stream_events: Vec<ResolvedEvent>,
}

impl Model {
    /// A model that shows nothing.
    pub fn new() -> (m: Self)
        ensures
            m.last_created@.len() == 0,
            m.recently_changed@.len() == 0,
            m.selected_stream is None,
            m.selected_stream_events@.len() == 0,
    {
        Model {
            last_created: Vec::new(),
            recently_changed: Vec::new(),
            selected_stream: None,
            selected_stream_events: Vec::new(),
        }
    }

    /// Forgets everything.
    pub fn clear(&mut self)
        ensures
            final(self).last_created@.len() == 0,
            final(self).recently_changed@.len() == 0,
            final(self).selected_stream is None,
            final(self).selected_stream_events@.len() == 0,
    {
        self.last_created.clear();
        self.recently_changed.clear();
        self.selected_stream = None;
        self.selected_stream_events.clear();
    }
}

/// The stream browser.
pub struct StreamsView {
    /// Which of the two lists is active: `0` the created, `1` the changed.
    pub selected_tab: usize,
    /// The selected row of the active list, or of the events.
    pub selected: usize,
    pub model: Model,
    pub stage: Stage,
    pub scroll: u16,
    /// What was typed into the search box.
    pub buffer: String,
}

/// What of a stream browser decides how it reacts to a key.
pub ghost struct StreamsState {
    pub stage: Stage,
    pub selected_tab: usize,
    pub selected: usize,
    pub scroll: u16,
    pub buffer: Seq<char>,
    pub last_created: Seq<Seq<char>>,
    pub recently_changed: Seq<Seq<char>>,
    pub selected_stream: Option<Seq<char>>,
    pub events: nat,
}

/// The rows of the active list.
pub open spec fn active_rows(s: StreamsState) -> Seq<Seq<char>> {
    if s.selected_tab == 0 {
        s.last_created
    } else {
        s.recently_changed
    }
}

/// One less, but not below zero.
pub open spec fn step_up(n: int) -> int {
    if n > 0 {
        n - 1
    } else {
        n
    }
}

/// One more, as long as that is a row of `rows` rows.
pub open spec fn step_down(n: int, rows: int) -> int {
    if n + 1 < rows {
        n + 1
    } else {
        n
    }
}

/// One more, but not beyond the greatest number of the type.
pub open spec fn scroll_down(scroll: u16) -> u16 {
    if scroll < u16::MAX {
        (scroll + 1) as u16
    } else {
        scroll
    }
}

/// Whether a character is one of the first 128.
pub open spec fn is_ascii_char(c: char) -> bool {
    c <= '\x7f'
}

/// The search box after a key, and what it asks of the session. Escape
/// closes the box, Enter opens the stream whose name was typed, Backspace
/// takes the last character back, and an ASCII character is typed.
pub open spec fn popup_after_key(s: StreamsState, key: KeyCode) -> (StreamsState, Request) {
    match key {
        KeyCode::Esc => (StreamsState { stage: Stage::Main, ..s }, Request::Noop),
        KeyCode::Backspace => (
            StreamsState {
                buffer: if s.buffer.len() > 0 {
                    s.buffer.drop_last()
                } else {
                    s.buffer
                },
                ..s
            },
            Request::Noop,
        ),
        KeyCode::Enter => (
            StreamsState {
                stage: Stage::Stream,
                selected_stream: Some(s.buffer),
                buffer: Seq::empty(),
                ..s
            },
            Request::Refresh,
        ),
        KeyCode::Char(c) => if is_ascii_char(c) {
            (StreamsState { buffer: s.buffer.push(c), ..s }, Request::Noop)
        } else {
            (s, Request::Noop)
        },
        _ => (s, Request::Noop),
    }
}

/// The stream browser after a key, and what it asks of the session.
pub open spec fn after_key(s: StreamsState, key: KeyCode) -> (StreamsState, Request) {
    if s.stage == Stage::Popup {
        popup_after_key(s, key)
    } else if key.is_quit() {
        match s.stage {
            Stage::Main => (s, Request::Exit),
            Stage::Popup => (s, Request::Noop),
            Stage::Stream => (StreamsState { stage: Stage::Main, ..s }, Request::Noop),
            Stage::StreamPreview => (
                StreamsState { scroll: 0, stage: Stage::Stream, ..s },
                Request::Noop,
            ),
        }
    } else {
        match key {
            KeyCode::Char(c) => if c == '/' && s.stage == Stage::Main {
                (StreamsState { stage: Stage::Popup, ..s }, Request::Noop)
            } else {
                (s, Request::Noop)
            },
            KeyCode::Left | KeyCode::Right => (
                StreamsState {
                    selected_tab: ((s.selected_tab + 1) % 2) as usize,
                    selected: 0,
                    ..s
                },
                Request::Noop,
            ),
            KeyCode::Up => if s.stage == Stage::StreamPreview {
                (StreamsState { scroll: step_up(s.scroll as int) as u16, ..s }, Request::Noop)
            } else {
                (StreamsState { selected: step_up(s.selected as int) as usize, ..s }, Request::Noop)
            },
            KeyCode::Down => match s.stage {
                Stage::Main => (
                    StreamsState {
                        selected: step_down(s.selected as int, active_rows(s).len() as int) as usize,
                        ..s
                    },
                    Request::Noop,
                ),
                Stage::Stream => (
                    StreamsState {
                        selected: step_down(s.selected as int, s.events as int) as usize,
                        ..s
                    },
                    Request::Noop,
                ),
                Stage::StreamPreview => (
                    StreamsState { scroll: scroll_down(s.scroll), ..s },
                    Request::Noop,
                ),
                Stage::Popup => (s, Request::Noop),
            },
            KeyCode::Enter => if s.stage == Stage::Main && s.selected < active_rows(s).len() {
                (
                    StreamsState {
                        stage: Stage::Stream,
                        selected_stream: Some(active_rows(s)[s.selected as int]),
                        selected: 0,
                        ..s
                    },
                    Request::Refresh,
                )
            } else if s.stage == Stage::Stream && s.selected < s.events {
                (StreamsState { stage: Stage::StreamPreview, ..s }, Request::Refresh)
            } else {
                (s, Request::Noop)
            },
            _ => (s, Request::Noop),
        }
    }
}

/// A key that leads from the lists or the search box to the events of a
/// stream, or from the events to the preview of one, asks for a refresh: what
/// the stage shows is fetched before it is painted.
pub proof fn lemma_data_stages_ask_for_refresh(s: StreamsState, key: KeyCode)
    ensures
        (s.stage == Stage::Main || s.stage == Stage::Popup) && after_key(s, key).0.stage
            == Stage::Stream ==> after_key(s, key).1 == Request::Refresh,
        s.stage != Stage::StreamPreview && after_key(s, key).0.stage == Stage::StreamPreview
            ==> after_key(s, key).1 == Request::Refresh,
        after_key(s, key).0.stage == Stage::StreamPreview ==> s.stage == Stage::StreamPreview
            || s.selected < s.events,
{
}

/// While the search box is open no key asks to leave, and no key moves the
/// selection.
pub proof fn lemma_search_box_is_modal(s: StreamsState, key: KeyCode)
    requires
        s.stage == Stage::Popup,
    ensures
        after_key(s, key).1 != Request::Exit,
        after_key(s, key).0.selected == s.selected,
        after_key(s, key).0.selected_tab == s.selected_tab,
        after_key(s, key).0.stage == Stage::Popup || after_key(s, key).0.stage == Stage::Main
            || after_key(s, key).0.stage == Stage::Stream,
{
}

/// The keys that a stage of the stream browser reacts to, with what they do.
pub open spec fn bindings_of(stage: Stage) -> Seq<(&'static str, &'static str)> {
    match stage {
        Stage::StreamPreview => seq![("↑", "Scroll up"), ("↓", "Scroll down"), ("q", "Close")],
        Stage::Stream => seq![
            ("↑", "Scroll up"),
            ("↓", "Scroll down"),
            ("Enter", "Select"),
            ("q", "Close"),
        ],
        Stage::Main | Stage::Popup => seq![
            ("↑", "Scroll up"),
            ("↓", "Scroll down"),
            ("→", "Move right"),
            ("← ", "Move left"),
            ("/", "Search"),
            ("Enter", "Select"),
        ],
    }
}

impl View for StreamsView {
    type V = StreamsState;

    open spec fn view(&self) -> StreamsState {
        StreamsState {
            stage: self.stage,
            selected_tab: self.selected_tab,
            selected: self.selected,
            scroll: self.scroll,
            buffer: self.buffer@,
            last_created: self.model.last_created.deep_view(),
            recently_changed: self.model.recently_changed.deep_view(),
            selected_stream: match self.model.selected_stream {
                Some(name) => Some(name@),
                None => None,
            },
            events: self.model.selected_stream_events@.len(),
        }
    }
}

/// A stream browser that shows nothing yet.
pub open spec fn initial() -> StreamsState {
    StreamsState {
        stage: Stage::Main,
        selected_tab: 0,
        selected: 0,
        scroll: 0,
        buffer: Seq::empty(),
        last_created: Seq::empty(),
        recently_changed: Seq::empty(),
        selected_stream: None,
        events: 0,
    }
}

impl StreamsView {
    /// A stream browser that shows nothing yet.
    pub fn new() -> (v: Self)
        ensures
            v@ == initial(),
    {
        let v = StreamsView {
            selected_tab: 0,
            selected: 0,
            model: Model::new(),
            stage: Stage::Main,
            scroll: 0,
            buffer: String::new(),
        };
        assert(v.model.last_created.deep_view() =~= Seq::<Seq<char>>::empty());
        assert(v.model.recently_changed.deep_view() =~= Seq::<Seq<char>>::empty());
        v
    }

    /// Leaves the tab: back to the empty first screen, except that what was
    /// typed into the search box stays.
    pub fn unload(&mut self)
        ensures
            final(self)@ == (StreamsState { buffer: old(self)@.buffer, ..initial() }),
    {
        self.selected = 0;
        self.selected_tab = 0;
        self.scroll = 0;
        self.stage = Stage::Main;
        self.model.clear();
        assert(self.model.last_created.deep_view() =~= Seq::<Seq<char>>::empty());
        assert(self.model.recently_changed.deep_view() =~= Seq::<Seq<char>>::empty());
    }

    /// How the view reacts to a key: by `after_key`, and the lists and the
    /// events stay as they are.
    pub open spec fn reacts(before: Self, after: Self, key: KeyCode, request: Request) -> bool {
        &&& (after@, request) == after_key(before@, key)
        &&& after.model.selected_stream_events == before.model.selected_stream_events
        &&& after.model.last_created == before.model.last_created
        &&& after.model.recently_changed == before.model.recently_changed
    }

    /// Reacts to a key.
    pub fn on_key_pressed(&mut self, key: KeyCode) -> (request: Request)
        ensures
            Self::reacts(*old(self), *final(self), key, request),
    {
        if self.stage == Stage::Popup {
            match key {
                KeyCode::Esc => {
                    self.stage = Stage::Main;
                },
                KeyCode::Backspace => {
                    let _ = pop_char(&mut self.buffer);
                },
                KeyCode::Enter => {
                    self.stage = Stage::Stream;
                    let name = self.buffer.clone();
                    self.buffer = String::new();
                    self.model.selected_stream = Some(name);
                    return Request::Refresh;
                },
                KeyCode::Char(c) => {
                    if c <= '\x7f' {
                        push_char(&mut self.buffer, c);
                    }
                },
                _ => {},
            }
            return Request::Noop;
        }
        if key.quits() {
            return match self.stage {
                Stage::Main => Request::Exit,
                Stage::Popup => Request::Noop,
                Stage::Stream => {
                    self.stage = Stage::Main;
                    Request::Noop
                },
                Stage::StreamPreview => {
                    self.scroll = 0;
                    self.stage = Stage::Stream;
                    Request::Noop
                },
            };
        }
        match key {
            KeyCode::Char(c) => {
                if c == '/' && self.stage == Stage::Main {
                    self.stage = Stage::Popup;
                }
            },
            KeyCode::Left | KeyCode::Right => {
                self.selected_tab = if self.selected_tab % 2 == 0 {
                    1
                } else {
                    0
                };
                self.selected = 0;
            },
            KeyCode::Up => {
                if self.stage == Stage::StreamPreview {
                    if self.scroll > 0 {
                        self.scroll = self.scroll - 1;
                    }
                } else if self.selected > 0 {
                    self.selected = self.selected - 1;
                }
            },
            KeyCode::Down => match self.stage {
                Stage::Main => {
                    let len = if self.selected_tab == 0 {
                        self.model.last_created.len()
                    } else {
                        self.model.recently_changed.len()
                    };
                    if self.selected < len && self.selected + 1 < len {
                        self.selected = self.selected + 1;
                    }
                },
                Stage::Stream => {
                    let len = self.model.selected_stream_events.len();
                    if self.selected < len && self.selected + 1 < len {
                        self.selected = self.selected + 1;
                    }
                },
                Stage::StreamPreview => {
                    if self.scroll < u16::MAX {
                        self.scroll = self.scroll + 1;
                    }
                },
                Stage::Popup => {},
            },
            KeyCode::Enter => {
                if self.stage == Stage::Main {
                    let rows = if self.selected_tab == 0 {
                        &self.model.last_created
                    } else {
                        &self.model.recently_changed
                    };
                    if self.selected < rows.len() {
                        let name = rows[self.selected].clone();
                        self.stage = Stage::Stream;
                        self.model.selected_stream = Some(name);
                        self.selected = 0;
                        return Request::Refresh;
                    }
                } else if self.stage == Stage::Stream {
                    if self.selected < self.model.selected_stream_events.len() {
                        self.stage = Stage::StreamPreview;
                        return Request::Refresh;
                    }
                }
            },
            _ => {},
        }
        Request::Noop
    }

    /// The keys that the current stage reacts to, with what they do.
    pub fn keybindings(&self) -> (bindings: Vec<(&'static str, &'static str)>)
        ensures
            bindings@ == bindings_of(self.stage),
    {
        let bindings = match self.stage {
            Stage::StreamPreview => vec![("↑", "Scroll up"), ("↓", "Scroll down"), ("q", "Close")],
            Stage::Stream => vec![
                ("↑", "Scroll up"),
                ("↓", "Scroll down"),
                ("Enter", "Select"),
                ("q", "Close"),
            ],
            Stage::Main | Stage::Popup => vec![
                ("↑", "Scroll up"),
                ("↓", "Scroll down"),
                ("→", "Move right"),
                ("← ", "Move left"),
                ("/", "Search"),
                ("Enter", "Select"),
            ],
        };
        assert(bindings@ =~= bindings_of(self.stage));
        bindings
    }
}

/// Position of the last `@` of a text, or `-1` where it has none.
pub open spec fn last_at(text: Seq<char>) -> int
    decreases text.len(),
{
    if text.len() == 0 {
        -1
    } else if text.last() == '@' {
        text.len() - 1
    } else {
        last_at(text.drop_last())
    }
}

/// What follows the last `@` of a text; nothing where it has none.
pub open spec fn name_after_at(text: Seq<char>) -> Seq<char> {
    if last_at(text) < 0 {
        Seq::empty()
    } else {
        text.subrange(last_at(text) + 1, text.len() as int)
    }
}

/// The name of the stream that a record of the index of streams speaks of.
/// The record reads `number@name`; the name is what follows the last `@`.
pub fn stream_name_of(record: &str) -> (name: String)
    ensures
        name@ == name_after_at(record@),
{
    let chars = chars_of(record);
    let mut i: usize = chars.len();
    assert(chars@.take(i as int) =~= chars@);
    while i > 0
        invariant
            i <= chars.len(),
            chars@ == record@,
            last_at(chars@) == last_at(chars@.take(i as int)),
        decreases i,
    {
        assert(chars@.take(i as int).drop_last() =~= chars@.take(i - 1));
        if chars[i - 1] == '@' {
            assert(chars@.take(i as int).last() == chars@[i - 1]);
            assert(last_at(chars@) == i - 1);
            return text_between(&chars, i, chars.len());
        }
        i = i - 1;
    }
    String::new()
}

/// The text that bytes encode.
///
/// Trusted: wraps `std::str::from_utf8`, which checks that the bytes are
/// valid UTF-8 and then gives the same bytes as a string slice; `to_owned`
/// copies it.
#[verifier::external_body]
pub(crate) fn decode_text(bytes: &[u8]) -> (text: Option<String>)
    ensures
        text is Some <==> valid_utf8(bytes@),
        text is Some ==> text->0@ == decode_utf8(bytes@),
{
    match std::str::from_utf8(bytes) {
        Ok(s) => Some(s.to_owned()),
        Err(_) => None,
    }
}

/// The names in the order in which each occurs first.
pub open spec fn distinct(ids: Seq<Seq<char>>) -> Seq<Seq<char>>
    decreases ids.len(),
{
    if ids.len() == 0 {
        Seq::empty()
    } else {
        let rest = distinct(ids.drop_last());
        if rest.contains(ids.last()) {
            rest
        } else {
            rest.push(ids.last())
        }
    }
}

/// The names of the streams that the records of the index of streams speak
/// of.
pub open spec fn created_names(records: Seq<Vec<u8>>) -> Seq<Seq<char>> {
    Seq::new(records.len(), |i: int| name_after_at(decode_utf8(records[i]@)))
}

/// Every record is text.
pub open spec fn all_text(records: Seq<Vec<u8>>) -> bool {
    forall|i: int| 0 <= i < records.len() ==> valid_utf8(#[trigger] records[i]@)
}

/// Whether a list holds a name.
fn holds(list: &Vec<String>, name: &str) -> (r: bool)
    ensures
        r == list.deep_view().contains(name@),
{
    let mut i: usize = 0;
    while i < list.len()
        invariant
            i <= list.len(),
            forall|k: int| 0 <= k < i ==> list.deep_view()[k] != name@,
        decreases list.len() - i,
    {
        assert(list.deep_view()[i as int] == list@[i as int]@);
        if same_text(list[i].as_str(), name) {
            return true;
        }
        i = i + 1;
    }
    false
}

/// The names of a list in the order in which each occurs first.
pub fn distinct_names(ids: Vec<String>) -> (names: Vec<String>)
    ensures
        names.deep_view() == distinct(ids.deep_view()),
{
    let mut names: Vec<String> = Vec::new();
    let ghost all = ids.deep_view();
    let ghost given = ids@;
    assert(names.deep_view() =~= Seq::<Seq<char>>::empty());
    for id in iter: ids
        invariant
            iter.seq() == given,
            all.len() == given.len(),
            forall|k: int| 0 <= k < given.len() ==> all[k] == (#[trigger] given[k])@,
            names.deep_view() == distinct(all.take(iter.index() as int)),
    {
        proof {
            assert(all.take(iter.index() + 1).drop_last() =~= all.take(iter.index() as int));
            assert(all.take(iter.index() + 1).last() == id@);
        }
        if !holds(&names, id.as_str()) {
            let ghost before = names.deep_view();
            names.push(id);
            assert(names.deep_view() =~= before.push(id@));
        }
    }
    assert(all.take(all.len() as int) =~= all);
    names
}

/// The names of the streams that the records of the index of streams speak
/// of, or `None` where a record is no text.
pub fn names_of_records(records: Vec<Vec<u8>>) -> (names: Option<Vec<String>>)
    ensures
        names is Some <==> all_text(records@),
        names is Some ==> names->0.deep_view() == created_names(records@),
{
    let mut names: Vec<String> = Vec::new();
    let ghost given = records@;
    assert(names.deep_view() =~= created_names(given).take(0));
    for record in iter: records
        invariant
            iter.seq() == given,
            all_text(given.take(iter.index() as int)),
            names.deep_view() == created_names(given).take(iter.index() as int),
    {
        match decode_text(record.as_slice()) {
            Some(text) => {
                let ghost before = names.deep_view();
                let name = stream_name_of(text.as_str());
                names.push(name);
                proof {
                    assert(names.deep_view() =~= before.push(name@));
                    assert(names.deep_view() =~= created_names(given).take(iter.index() + 1));
                    assert forall|i: int| 0 <= i < iter.index() + 1 implies valid_utf8(
                        #[trigger] given.take(iter.index() + 1)[i]@,
                    ) by {
                        if i < iter.index() {
                            assert(given.take(iter.index() as int)[i] == given[i]);
                        }
                    }
                }
            },
            None => {
                assert(!valid_utf8(given[iter.index() as int]@));
                return None;
            },
        }
    }
    assert(given.take(given.len() as int) =~= given);
    assert(names.deep_view() =~= created_names(given));
    Some(names)
}

/// Whether bytes are a JSON document, as the JSON reader of the session
/// judges it.
pub uninterp spec fn is_json_text(data: Seq<u8>) -> bool;

/// A JSON document in memory.
#[verifier::external_type_specification]
#[verifier::external_body]
pub struct ExJsonValue(serde_json::Value);

/// Reads bytes as a JSON document.
///
/// Trusted: wraps `serde_json::from_slice`, which deserialises a value from
/// bytes of JSON text and fails where the bytes are no such text. Whether it
/// succeeds depends on the bytes alone: that is all the contract says.
#[verifier::external_body]
fn parse_json(data: &[u8]) -> (doc: Option<serde_json::Value>)
    ensures
        doc is Some <==> is_json_text(data@),
{
    serde_json::from_slice::<serde_json::Value>(data).ok()
}

/// Writes a JSON document out with line breaks and indentation.
///
/// Trusted: wraps `serde_json::to_string_pretty`. Writing fails only where
/// the value's own serialisation fails or a map has a key that is no
/// string; a document in memory does neither, and it is written to memory.
/// So the contract says that there is a text, and nothing of what it holds.
#[verifier::external_body]
fn pretty_json(doc: &serde_json::Value) -> (text: Option<String>)
    ensures
        text is Some,
{
    serde_json::to_string_pretty(doc).ok()
}

/// What stands for a payload that is not JSON.
pub open spec fn binary_placeholder() -> Seq<char> {
    "<BINARY>"@
}

/// A failure of the kind "malformed" with a message.
fn malformed(message: &str) -> (f: Failure)
    ensures
        f.kind == FailureKind::Malformed,
        f.message@ == message@,
{
    Failure { kind: FailureKind::Malformed, message: message.to_owned() }
}

/// Whether the preview has a text to show for an event: the read resolved
/// an event, and its payload is JSON where the event says so.
pub open spec fn previewable(event: ResolvedEvent) -> bool {
    event.event is Some && (event.event->0.is_json ==> is_json_text(event.event->0.data@))
}

/// The text that the preview shows for an event: the payload written out as
/// JSON where the event says that it is JSON, and a placeholder where it
/// does not. A read that resolved no event, and a payload that claims to be
/// JSON and is not, are malformed.
pub fn preview_content(event: &ResolvedEvent) -> (content: Result<String, Failure>)
    ensures
        content is Ok <==> previewable(*event),
        content is Ok && !event.event->0.is_json ==> content->Ok_0@ == binary_placeholder(),
        content is Err ==> content->Err_0.kind == FailureKind::Malformed,
{
    match &event.event {
        None => Err(malformed("the read resolved no event")),
        Some(target) => {
            if target.is_json {
                match parse_json(target.data.as_slice()) {
                    Some(doc) => match pretty_json(&doc) {
                        Some(text) => Ok(text),
                        None => Err(malformed("the payload cannot be written out as JSON")),
                    },
                    None => Err(malformed("the payload is not JSON")),
                }
            } else {
                Ok("<BINARY>".to_owned())
            }
        },
    }
}

/// Rows around the text of a preview.
pub const PREVIEW_FRAME_ROWS: u16 = 2;

/// Width of the search box in characters.
pub const SEARCH_WIDTH: usize = 100;

/// The scroll position that a preview of `height` rows allows for a text of
/// `lines` lines: none where everything fits, and else no further than to
/// the point where the last line is on the last row.
pub open spec fn clamped_preview_scroll(scroll: u16, height: u16, lines: nat) -> int {
    if height >= PREVIEW_FRAME_ROWS + lines {
        0
    } else if scroll > PREVIEW_FRAME_ROWS + lines - height {
        if PREVIEW_FRAME_ROWS + lines - height <= u16::MAX {
            PREVIEW_FRAME_ROWS + lines - height
        } else {
            u16::MAX as int
        }
    } else {
        scroll as int
    }
}

/// What the search box shows: what was typed, filled up with underscores to
/// the width of the box.
pub open spec fn search_text(buffer: Seq<char>) -> Seq<char> {
    buffer + Seq::new(
        if buffer.len() <= SEARCH_WIDTH {
            (SEARCH_WIDTH - buffer.len()) as nat
        } else {
            0
        },
        |i: int| '_',
    )
}

/// The cells of an event's row: its number, its number and stream joined by
/// an `@`, and its type.
pub open spec fn cells_of(event: RecordedEvent) -> Seq<Seq<char>> {
    seq![
        decimal(event.revision as nat),
        decimal(event.revision as nat) + seq!['@'] + event.stream_id@,
        event.event_type@,
    ]
}

/// The cells of an event's row.
pub fn event_cells(event: &RecordedEvent) -> (cells: Vec<String>)
    ensures
        cells.deep_view() == cells_of(*event),
{
    let mut number = String::new();
    push_decimal(&mut number, event.revision as u128);
    let mut name = String::new();
    push_decimal(&mut name, event.revision as u128);
    push_char(&mut name, '@');
    name.append(event.stream_id.as_str());
    assert(number@ =~= decimal(event.revision as nat));
    assert(name@ =~= decimal(event.revision as nat) + seq!['@'] + event.stream_id@);
    let cells = vec![number, name, event.event_type.clone()];
    assert(cells.deep_view() =~= cells_of(*event));
    cells
}

/// The cells of the row above a preview: number and name of what was read
/// from the stream itself, and the type of the event that the read resolved
/// to. Nothing where the read gave neither.
pub open spec fn preview_cells_of(event: ResolvedEvent) -> Seq<Seq<char>> {
    match (event.original(), event.event) {
        (Some(read), Some(target)) => seq![
            cells_of(read)[0],
            cells_of(read)[1],
            target.event_type@,
        ],
        (Some(read), None) => cells_of(read),
        _ => Seq::empty(),
    }
}

/// The cells of the row above a preview.
pub fn preview_cells(event: &ResolvedEvent) -> (cells: Vec<String>)
    ensures
        cells.deep_view() == preview_cells_of(*event),
{
    match event.original_event() {
        Some(read) => {
            let mut cells = event_cells(read);
            match &event.event {
                Some(target) => {
                    let ghost before = cells.deep_view();
                    assert(cells@.len() == before.len());
                    cells[2] = target.event_type.clone();
                    assert(cells.deep_view() =~= before.update(2, target.event_type@));
                    assert(cells.deep_view() =~= preview_cells_of(*event));
                },
                None => {},
            }
            cells
        },
        None => {
            let cells: Vec<String> = Vec::new();
            assert(cells.deep_view() =~= preview_cells_of(*event));
            cells
        },
    }
}

impl StreamsView {
    /// Enters the tab with what was read of the index of streams and of the
    /// stream of all events, both from the newest back: the recently created
    /// streams are those that the records of the index name, and the
    /// recently changed ones are the streams of the events, each once. Where
    /// a record is no text the load fails and the view stays as it is.
    pub fn load(&mut self, created: Vec<Vec<u8>>, changed: Vec<String>) -> (done: Result<(), Failure>)
        ensures
            done is Ok <==> all_text(created@),
            done is Err ==> *final(self) == *old(self) && done->Err_0.kind
                == FailureKind::Malformed,
            done is Ok ==> final(self)@ == (StreamsState {
                last_created: created_names(created@),
                recently_changed: distinct(changed.deep_view()),
                selected_stream: None,
                events: 0,
                ..old(self)@
            }),
    {
        match names_of_records(created) {
            Some(names) => {
                self.model =
                Model {
                    last_created: names,
                    recently_changed: distinct_names(changed),
                    selected_stream: None,
                    selected_stream_events: Vec::new(),
                };
                Ok(())
            },
            None => Err(malformed("UTF-8 formatted text")),
        }
    }

    /// The stream whose events a refresh has to read, if one is selected.
    pub fn refresh_plan(&self) -> (stream: Option<String>)
        ensures
            match (stream, self.model.selected_stream) {
                (Some(wanted), Some(selected)) => wanted@ == selected@,
                (None, None) => true,
                _ => false,
            },
    {
        match &self.model.selected_stream {
            Some(name) => Some(name.clone()),
            None => None,
        }
    }

    /// Takes in the events of the selected stream, newest first. Without a
    /// selected stream they are dropped.
    pub fn refresh(&mut self, events: Vec<ResolvedEvent>)
        ensures
            old(self).model.selected_stream is Some ==> final(self).model.selected_stream_events
                == events,
            old(self).model.selected_stream is None ==> final(self).model.selected_stream_events
                == old(self).model.selected_stream_events,
            final(self).model.last_created == old(self).model.last_created,
            final(self).model.recently_changed == old(self).model.recently_changed,
            final(self).model.selected_stream == old(self).model.selected_stream,
            final(self).stage == old(self).stage,
            final(self).selected == old(self).selected,
            final(self).selected_tab == old(self).selected_tab,
            final(self).scroll == old(self).scroll,
            final(self).buffer == old(self).buffer,
    {
        if self.model.selected_stream.is_some() {
            self.model.selected_stream_events = events;
        }
    }

    /// The event that the preview shows, if the selected row shows one.
    pub fn previewed(&self) -> (event: Option<&ResolvedEvent>)
        ensures
            self.selected < self.model.selected_stream_events@.len() ==> event == Some(
                &self.model.selected_stream_events@[self.selected as int],
            ),
            self.selected >= self.model.selected_stream_events@.len() ==> event is None,
    {
        if self.selected < self.model.selected_stream_events.len() {
            Some(&self.model.selected_stream_events[self.selected])
        } else {
            None
        }
    }

    /// Fits the scroll position of the preview to a window of `height` rows
    /// and a text of `lines` lines.
    pub fn clamp_preview_scroll(&mut self, height: u16, lines: usize)
        ensures
            final(self).scroll == clamped_preview_scroll(old(self).scroll, height, lines as nat),
            final(self).model == old(self).model,
            final(self).stage == old(self).stage,
            final(self).selected == old(self).selected,
            final(self).selected_tab == old(self).selected_tab,
            final(self).buffer == old(self).buffer,
    {
        let needed: u128 = PREVIEW_FRAME_ROWS as u128 + lines as u128;
        if height as u128 >= needed {
            self.scroll = 0;
        } else if self.scroll as u128 > needed - height as u128 {
            let target: u128 = needed - height as u128;
            self.scroll = if target <= u16::MAX as u128 {
                target as u16
            } else {
                u16::MAX
            };
        }
    }

    /// What the search box shows.
    pub fn search_line(&self) -> (line: String)
        ensures
            line@ == search_text(self.buffer@),
    {
        let typed = self.buffer.as_str().unicode_len();
        let mut line = self.buffer.clone();
        let fill: usize = if typed <= SEARCH_WIDTH {
            SEARCH_WIDTH - typed
        } else {
            0
        };
        push_repeated(&mut line, '_', fill);
        line
    }
}

impl Default for Model {
    /// A model that shows nothing.
    fn default() -> (m: Self)
        ensures
            m.last_created@.len() == 0,
            m.recently_changed@.len() == 0,
            m.selected_stream is None,
            m.selected_stream_events@.len() == 0,
    {
        Model::new()
    }
}

impl Default for StreamsView {
    /// A stream browser that shows nothing yet.
    fn default() -> (v: Self)
        ensures
            v@ == initial(),
    {
        StreamsView::new()
    }
}

} // verus!
