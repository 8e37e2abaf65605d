use esdb_admin::failure::FailureKind;
use esdb_admin::keys::KeyCode;
use esdb_admin::models::monitoring::{Drive, Member, NodeRole, Sample, ServerVersion};
use esdb_admin::models::persistent_subscriptions::{
    Position, RevisionOrPosition, StreamPosition, SubscriptionInfo, SubscriptionSettings,
};
use esdb_admin::models::projections::{ProjectionStatus, Rate};
use esdb_admin::request::Request;
use esdb_admin::views::dashboard::{queue_cells, DashboardView};
use esdb_admin::views::monitoring::{gigabytes_string, version_string, MonitoringView};
use esdb_admin::views::persistent_subscriptions::{
    display_rev_or_pos, display_stream_position, settings_row, subscription_cells,
    subscription_title, time_string, PersistentSubscriptionView,
};
use esdb_admin::views::projections::{
    detail_proj_mapping, latest_update, main_proj_mapping, metadata_stream_name, progress_string,
    rate_string, ProjectionsFetch, ProjectionsViews,
};
use esdb_admin::views::stream_browser::{
    distinct_names, event_cells, names_of_records, preview_cells, preview_content, stream_name_of,
    RecordedEvent,
    ResolvedEvent, Stage, StreamsView,
};

fn pair(key: &str, value: &str) -> (String, String) {
    (key.to_string(), value.to_string())
}

fn event(stream: &str, revision: u64, kind: &str, json: bool, data: &[u8]) -> RecordedEvent {
    RecordedEvent {
        stream_id: stream.to_string(),
        revision,
        event_type: kind.to_string(),
        is_json: json,
        data: data.to_vec(),
    }
}

fn resolved(e: RecordedEvent) -> ResolvedEvent {
    ResolvedEvent { event: Some(e), link: None }
}

fn projection(name: &str, events: i64) -> ProjectionStatus {
    ProjectionStatus {
        name: name.to_string(),
        events_processed_after_restart: events,
        partitions_cached: 1,
        reads_in_progress: 2,
        writes_in_progress: 3,
        write_pending_events_before_checkpoint: 4,
        write_pending_events_after_checkpoint: 5,
        checkpoint_status: "".to_string(),
        position: "C:1/P:1".to_string(),
        last_checkpoint: "C:0/P:0".to_string(),
        buffered_events: 6,
        status: "Running".to_string(),
        mode: "Continuous".to_string(),
        progress: 99_950,
    }
}

fn subscription(source: &str, group: &str) -> SubscriptionInfo {
    SubscriptionInfo {
        event_source: source.to_string(),
        group_name: group.to_string(),
        status: "Live".to_string(),
        connection_count: 2,
        settings: None,
        average_per_second: 5_000,
        total_items: 10,
        last_checkpointed_event_revision: Some(95),
        last_known_event_revision: Some(100),
        last_checkpointed_position: None,
        last_known_position: None,
        total_in_flight_messages: 3,
    }
}

fn loaded_streams() -> StreamsView {
    let mut view = StreamsView::new();
    let created = vec![b"0@orders".to_vec(), b"0@carts".to_vec(), b"17@a@b".to_vec()];
    let changed = vec!["carts".to_string(), "orders".to_string(), "carts".to_string()];
    assert!(view.load(created, changed).is_ok());
    view
}

#[test]
fn dashboard_scrolls_and_quits() {
    let mut view = DashboardView::new();
    assert_eq!(view.on_key_pressed(KeyCode::Up), Request::Noop);
    assert_eq!(view.scroll, 0);
    assert_eq!(view.on_key_pressed(KeyCode::Down), Request::Noop);
    assert_eq!(view.on_key_pressed(KeyCode::Down), Request::Noop);
    assert_eq!(view.scroll, 2);
    assert_eq!(view.on_key_pressed(KeyCode::Up), Request::Noop);
    assert_eq!(view.scroll, 1);
    assert_eq!(view.on_key_pressed(KeyCode::Enter), Request::Noop);
    assert_eq!(view.on_key_pressed(KeyCode::Char('x')), Request::Noop);
    assert_eq!(view.scroll, 1);
    assert_eq!(view.on_key_pressed(KeyCode::Char('q')), Request::Exit);
    assert_eq!(view.on_key_pressed(KeyCode::Char('Q')), Request::Exit);
    view.scroll = u16::MAX;
    assert_eq!(view.on_key_pressed(KeyCode::Down), Request::Noop);
    assert_eq!(view.scroll, u16::MAX);
    assert_eq!(view.keybindings(), vec![("↑", "Scroll up"), ("↓", "Scroll down")]);
}

#[test]
fn dashboard_is_rebuilt_on_every_refresh() {
    let mut view = DashboardView::new();
    view.refresh(vec![pair("es-queue-A-length", "1"), pair("es-queue-B-length", "1")]);
    assert_eq!(view.model.len(), 2);
    view.refresh(vec![pair("es-queue-C-totalItemsProcessed", "5")]);
    assert_eq!(view.model.len(), 1);
    assert_eq!(view.model.list()[0].key, "C");
    view.refresh(Vec::new());
    assert_eq!(view.model.len(), 0);
}

#[test]
fn dashboard_layout_clamps_the_scroll() {
    let mut view = DashboardView::new();
    let mut mapping = Vec::new();
    for i in 0..10 {
        mapping.push(pair(&format!("es-queue-q{}-totalItemsProcessed", i), "1"));
    }
    view.refresh(mapping);
    view.scroll = 9;
    // Everything fits into fourteen rows.
    assert_eq!(view.layout(14), (0, 10));
    assert_eq!(view.scroll, 0);
    view.scroll = 9;
    // Eight rows leave room to scroll by six.
    assert_eq!(view.layout(8), (6, 10));
    assert_eq!(view.scroll, 6);
    view.scroll = 2;
    assert_eq!(view.layout(8), (2, 10));
    assert_eq!(view.scroll, 2);
    view.scroll = 3;
    assert_eq!(view.layout(5), (3, 8));
    assert_eq!(view.layout(0), (3, 3));
}

#[test]
fn dashboard_cells() {
    let mut view = DashboardView::new();
    view.refresh(vec![
        pair("es-queue-Main-lengthCurrentTryPeak", "3"),
        pair("es-queue-Main-lengthLifetimePeak", "40"),
        pair("es-queue-Main-avgItemsPerSecond", "12"),
        pair("es-queue-Main-totalItemsProcessed", "9000"),
        pair("es-queue-Main-inProgressMessage", "<none>"),
        pair("es-queue-Main-lastProcessedMessage", "Tick"),
    ]);
    let cells = queue_cells(&view.model.list()[0].value);
    assert_eq!(cells, vec!["Main", "3 | 40", "12", "N/A", "9000", "<none> / Tick"]);
    view.refresh(vec![pair("es-queue-Main-currentIdleTime", "0:00:02")]);
    assert_eq!(queue_cells(&view.model.list()[0].value)[3], "0:00:02");
}

#[test]
fn stream_names_follow_the_last_at() {
    assert_eq!(stream_name_of("0@orders"), "orders");
    assert_eq!(stream_name_of("12@a@b"), "b");
    assert_eq!(stream_name_of("no-at"), "");
    assert_eq!(stream_name_of("trailing@"), "");
    assert_eq!(stream_name_of(""), "");
    assert_eq!(stream_name_of("@x"), "x");
}

#[test]
fn records_that_are_no_text_are_malformed() {
    assert_eq!(
        names_of_records(vec![b"0@a".to_vec(), "1@é".as_bytes().to_vec()]),
        Some(vec!["a".to_string(), "é".to_string()])
    );
    assert_eq!(names_of_records(vec![b"0@a".to_vec(), vec![0xff, 0xfe]]), None);
    assert_eq!(names_of_records(Vec::new()), Some(Vec::new()));
    let mut view = loaded_streams();
    view.selected = 1;
    let failure = view.load(vec![vec![0xc3]], vec!["x".to_string()]).unwrap_err();
    assert_eq!(failure.kind, FailureKind::Malformed);
    assert_eq!(view.model.last_created, vec!["orders", "carts", "b"]);
    assert_eq!(view.selected, 1);
}

#[test]
fn changed_streams_are_listed_once() {
    let ids = ["b", "a", "b", "c", "a", "a"].iter().map(|s| s.to_string()).collect();
    assert_eq!(distinct_names(ids), vec!["b", "a", "c"]);
    let view = loaded_streams();
    assert_eq!(view.model.last_created, vec!["orders", "carts", "b"]);
    assert_eq!(view.model.recently_changed, vec!["carts", "orders"]);
    assert_eq!(view.model.selected_stream, None);
}

#[test]
fn stream_browser_walks_through_its_stages() {
    let mut view = loaded_streams();
    assert_eq!(view.refresh_plan(), None);
    assert_eq!(view.on_key_pressed(KeyCode::Down), Request::Noop);
    assert_eq!(view.selected, 1);
    assert_eq!(view.on_key_pressed(KeyCode::Down), Request::Noop);
    assert_eq!(view.on_key_pressed(KeyCode::Down), Request::Noop);
    assert_eq!(view.selected, 2);
    assert_eq!(view.on_key_pressed(KeyCode::Right), Request::Noop);
    assert_eq!((view.selected_tab, view.selected), (1, 0));
    assert_eq!(view.on_key_pressed(KeyCode::Down), Request::Noop);
    assert_eq!(view.on_key_pressed(KeyCode::Down), Request::Noop);
    assert_eq!(view.selected, 1);
    assert_eq!(view.on_key_pressed(KeyCode::Enter), Request::Refresh);
    assert_eq!(view.stage, Stage::Stream);
    assert_eq!(view.selected, 0);
    assert_eq!(view.model.selected_stream, Some("orders".to_string()));
    assert_eq!(view.refresh_plan(), Some("orders".to_string()));

    // Without events there is nothing to preview.
    assert_eq!(view.on_key_pressed(KeyCode::Enter), Request::Noop);
    assert_eq!(view.stage, Stage::Stream);
    assert_eq!(view.on_key_pressed(KeyCode::Down), Request::Noop);
    assert_eq!(view.selected, 0);

    view.refresh(vec![
        resolved(event("orders", 2, "placed", true, b"{\"a\":1}")),
        resolved(event("orders", 1, "placed", false, b"\x00\x01")),
    ]);
    assert_eq!(view.on_key_pressed(KeyCode::Down), Request::Noop);
    assert_eq!(view.on_key_pressed(KeyCode::Down), Request::Noop);
    assert_eq!(view.selected, 1);
    assert_eq!(view.on_key_pressed(KeyCode::Up), Request::Noop);
    assert_eq!(view.selected, 0);
    assert_eq!(view.on_key_pressed(KeyCode::Enter), Request::Refresh);
    assert_eq!(view.stage, Stage::StreamPreview);
    assert_eq!(view.previewed().unwrap().event.as_ref().unwrap().revision, 2);
    assert_eq!(view.on_key_pressed(KeyCode::Down), Request::Noop);
    assert_eq!(view.on_key_pressed(KeyCode::Down), Request::Noop);
    assert_eq!(view.scroll, 2);
    assert_eq!(view.on_key_pressed(KeyCode::Up), Request::Noop);
    assert_eq!(view.scroll, 1);
    assert_eq!(view.on_key_pressed(KeyCode::Enter), Request::Noop);
    assert_eq!(view.on_key_pressed(KeyCode::Char('q')), Request::Noop);
    assert_eq!((view.stage, view.scroll), (Stage::Stream, 0));
    assert_eq!(view.on_key_pressed(KeyCode::Char('Q')), Request::Noop);
    assert_eq!(view.stage, Stage::Main);
    assert_eq!(view.on_key_pressed(KeyCode::Char('q')), Request::Exit);
}

#[test]
fn search_box_takes_ascii_and_opens_the_stream() {
    let mut view = loaded_streams();
    assert_eq!(view.on_key_pressed(KeyCode::Char('/')), Request::Noop);
    assert_eq!(view.stage, Stage::Popup);
    for key in [KeyCode::Char('o'), KeyCode::Char('é'), KeyCode::Char('q'), KeyCode::Char('x')] {
        assert_eq!(view.on_key_pressed(key), Request::Noop);
    }
    assert_eq!(view.buffer, "oqx");
    assert_eq!(view.on_key_pressed(KeyCode::Backspace), Request::Noop);
    assert_eq!(view.on_key_pressed(KeyCode::Tab), Request::Noop);
    assert_eq!(view.on_key_pressed(KeyCode::Down), Request::Noop);
    assert_eq!(view.buffer, "oq");
    assert_eq!(view.selected, 0);
    let line = view.search_line();
    assert_eq!(line.len(), 100);
    assert!(line.starts_with("oq_"));
    assert_eq!(view.on_key_pressed(KeyCode::Enter), Request::Refresh);
    assert_eq!(view.stage, Stage::Stream);
    assert_eq!(view.buffer, "");
    assert_eq!(view.model.selected_stream, Some("oq".to_string()));

    let mut view = loaded_streams();
    view.on_key_pressed(KeyCode::Char('/'));
    view.on_key_pressed(KeyCode::Backspace);
    view.on_key_pressed(KeyCode::Char('a'));
    assert_eq!(view.on_key_pressed(KeyCode::Esc), Request::Noop);
    assert_eq!(view.stage, Stage::Main);
    assert_eq!(view.buffer, "a");
    view.on_key_pressed(KeyCode::Enter);
    assert_eq!(view.stage, Stage::Stream);
    assert_eq!(view.on_key_pressed(KeyCode::Char('/')), Request::Noop);
    assert_eq!(view.stage, Stage::Stream);
}

#[test]
fn stream_browser_with_empty_lists_stays_put() {
    let mut view = StreamsView::new();
    assert_eq!(view.on_key_pressed(KeyCode::Down), Request::Noop);
    assert_eq!(view.on_key_pressed(KeyCode::Up), Request::Noop);
    assert_eq!(view.on_key_pressed(KeyCode::Enter), Request::Noop);
    assert_eq!((view.stage, view.selected), (Stage::Main, 0));
    assert_eq!(view.on_key_pressed(KeyCode::Left), Request::Noop);
    assert_eq!(view.selected_tab, 1);
    assert_eq!(view.on_key_pressed(KeyCode::Left), Request::Noop);
    assert_eq!(view.selected_tab, 0);
    view.refresh(vec![resolved(event("s", 0, "t", false, b""))]);
    assert_eq!(view.model.selected_stream_events.len(), 0);
}

#[test]
fn unload_resets_the_stream_browser() {
    let mut view = loaded_streams();
    view.on_key_pressed(KeyCode::Right);
    view.on_key_pressed(KeyCode::Down);
    view.on_key_pressed(KeyCode::Enter);
    view.refresh(vec![resolved(event("orders", 0, "t", false, b""))]);
    view.scroll = 3;
    view.unload();
    assert_eq!((view.stage, view.selected, view.selected_tab, view.scroll), (Stage::Main, 0, 0, 0));
    assert!(view.model.last_created.is_empty());
    assert!(view.model.recently_changed.is_empty());
    assert!(view.model.selected_stream.is_none());
    assert!(view.model.selected_stream_events.is_empty());
}

#[test]
fn stream_browser_bindings_follow_the_stage() {
    let mut view = loaded_streams();
    assert_eq!(view.keybindings().len(), 6);
    assert_eq!(view.keybindings()[3], ("← ", "Move left"));
    view.on_key_pressed(KeyCode::Enter);
    assert_eq!(
        view.keybindings(),
        vec![("↑", "Scroll up"), ("↓", "Scroll down"), ("Enter", "Select"), ("q", "Close")]
    );
    view.stage = Stage::StreamPreview;
    assert_eq!(view.keybindings(), vec![("↑", "Scroll up"), ("↓", "Scroll down"), ("q", "Close")]);
}

#[test]
fn preview_shows_json_or_a_placeholder() {
    let binary = resolved(event("s", 1, "t", false, b"{\"a\":1}"));
    assert_eq!(preview_content(&binary).unwrap(), "<BINARY>");
    let json = resolved(event("s", 1, "t", true, b"{\"a\":[1,2]}"));
    assert_eq!(preview_content(&json).unwrap(), "{\n  \"a\": [\n    1,\n    2\n  ]\n}");
    let broken = resolved(event("s", 1, "t", true, b"{\"a\":"));
    assert_eq!(preview_content(&broken).unwrap_err().kind, FailureKind::Malformed);
    let unresolved = ResolvedEvent { event: None, link: Some(event("s", 1, "t", false, b"")) };
    assert_eq!(preview_content(&unresolved).unwrap_err().kind, FailureKind::Malformed);
    assert_eq!(unresolved.original_event().unwrap().stream_id, "s");
    let both = ResolvedEvent {
        event: Some(event("target", 7, "t", false, b"")),
        link: Some(event("link", 1, "$>", false, b"")),
    };
    assert_eq!(both.original_event().unwrap().stream_id, "link");
    assert_eq!(resolved(event("e", 1, "t", false, b"")).original_event().unwrap().stream_id, "e");
    assert!(ResolvedEvent { event: None, link: None }.original_event().is_none());
}

#[test]
fn preview_scroll_is_clamped_to_the_text() {
    let mut view = StreamsView::new();
    view.scroll = 30;
    view.clamp_preview_scroll(10, 20);
    assert_eq!(view.scroll, 12);
    view.clamp_preview_scroll(10, 20);
    assert_eq!(view.scroll, 12);
    view.scroll = 5;
    view.clamp_preview_scroll(10, 20);
    assert_eq!(view.scroll, 5);
    view.clamp_preview_scroll(22, 20);
    assert_eq!(view.scroll, 0);
    view.scroll = u16::MAX;
    view.clamp_preview_scroll(1, usize::MAX);
    assert_eq!(view.scroll, u16::MAX);
}

#[test]
fn preview_rows_name_the_read_and_type_the_target() {
    let linked = ResolvedEvent {
        event: Some(event("orders", 7, "placed", true, b"{}")),
        link: Some(event("$ce-orders", 3, "$>", false, b"7@orders")),
    };
    assert_eq!(preview_cells(&linked), vec!["3", "3@$ce-orders", "placed"]);
    let plain = resolved(event("orders", 7, "placed", true, b"{}"));
    assert_eq!(preview_cells(&plain), vec!["7", "7@orders", "placed"]);
    let dangling = ResolvedEvent { event: None, link: Some(event("l", 1, "$>", false, b"")) };
    assert_eq!(preview_cells(&dangling), vec!["1", "1@l", "$>"]);
    assert!(preview_cells(&ResolvedEvent { event: None, link: None }).is_empty());
}

#[test]
fn event_rows() {
    assert_eq!(
        event_cells(&event("orders", 42, "placed", true, b"{}")),
        vec!["42", "42@orders", "placed"]
    );
}

#[test]
fn projections_tab_opens_and_closes_the_detail() {
    let mut view = ProjectionsViews::new();
    assert_eq!(view.on_key_pressed(KeyCode::Enter), Request::Noop);
    assert!(matches!(view.refresh_plan(), ProjectionsFetch::List));
    view.refresh(vec![projection("b", 1), projection("a", 2), projection("c", 3)]);
    assert_eq!(view.on_key_pressed(KeyCode::Down), Request::Noop);
    assert_eq!(view.on_key_pressed(KeyCode::Down), Request::Noop);
    assert_eq!(view.on_key_pressed(KeyCode::Down), Request::Noop);
    assert_eq!(view.selected, 2);
    assert_eq!(view.on_key_pressed(KeyCode::Up), Request::Noop);
    assert_eq!(view.selected, 1);
    assert_eq!(view.on_key_pressed(KeyCode::Enter), Request::Refresh);
    match view.refresh_plan() {
        ProjectionsFetch::Query(name) => assert_eq!(name, "b"),
        ProjectionsFetch::List => panic!("the detail asks for the query"),
    }
    view.refresh_query("fromAll()".to_string());
    assert_eq!(view.model.by_idx(1).unwrap().query, "fromAll()");
    assert_eq!(view.model.by_idx(0).unwrap().query, "");
    assert_eq!(view.keybindings().len(), 4);
    assert_eq!(view.on_key_pressed(KeyCode::Char('q')), Request::Noop);
    assert_eq!(view.selected, 0);
    assert_eq!(view.keybindings().len(), 3);
    assert_eq!(view.on_key_pressed(KeyCode::Char('q')), Request::Exit);
    view.selected = 7;
    view.refresh_query("never".to_string());
    assert_eq!(view.model.by_idx(1).unwrap().query, "fromAll()");
}

#[test]
fn projection_rows() {
    let mut view = ProjectionsViews::new();
    view.model.update_at(vec![projection("totals", 100)], 1_000_000_000);
    let cells = main_proj_mapping(view.model.by_idx(0).unwrap());
    assert_eq!(
        cells,
        vec!["totals", "Running", "-", "Continuous", "100.0%", "2 / 3", "6", "1", "0.0", "100"]
    );
    let mut next = projection("totals", 175);
    next.checkpoint_status = "Writing".to_string();
    next.progress = 12_340;
    view.model.update_at(vec![next], 3_000_000_000);
    let cells = main_proj_mapping(view.model.by_idx(0).unwrap());
    assert_eq!(cells[2], "Writing");
    assert_eq!(cells[4], "12.3%");
    assert_eq!(cells[8], "37.5");
    let rows = detail_proj_mapping(view.model.by_idx(0).unwrap());
    assert_eq!(rows.len(), 13);
    assert_eq!(rows[0], pair("Events/sec", "37.5"));
    assert_eq!(rows[2], pair("Events processed", "175"));
    assert_eq!(rows[6], pair("Write queue", "4"));
    assert_eq!(rows[7], pair("Write queue (chkp)", "5"));
    assert_eq!(rows[9], pair("Position", "C:1/P:1"));
    assert_eq!(rows[12], pair("State", ""));
}

#[test]
fn rates_and_progress_as_text() {
    assert_eq!(rate_string(&None), "0.0");
    assert_eq!(rate_string(&Some(Rate { events: 3, since: 5, until: 5 })), "-");
    assert_eq!(rate_string(&Some(Rate { events: 3, since: 6, until: 5 })), "-");
    assert_eq!(
        rate_string(&Some(Rate { events: -45, since: 0, until: 2_000_000_000 })),
        "-22.5"
    );
    assert_eq!(rate_string(&Some(Rate { events: 1, since: 0, until: 3_000_000_000 })), "0.3");
    assert_eq!(
        Rate { events: 2, since: 0, until: 3_000_000_000 }.tenths_per_second(),
        Some(7)
    );
    assert_eq!(Rate { events: i128::MAX, since: 0, until: 1 }.tenths_per_second(), None);
    assert_eq!(progress_string(0), "0.0%");
    assert_eq!(progress_string(50), "0.1%");
    assert_eq!(progress_string(49), "0.0%");
    assert_eq!(progress_string(100_000), "100.0%");
}

#[test]
fn latest_projection_update_is_the_first_from_the_newest() {
    let events = vec![
        event("$projections-a", 9, "$Stopped", true, b"{}"),
        event("$projections-a", 8, "$ProjectionUpdated", true, b"{}"),
        event("$projections-a", 7, "$ProjectionUpdated", true, b"{}"),
    ];
    assert_eq!(latest_update(&events), Some(1));
    assert_eq!(latest_update(&events[..1].to_vec()), None);
    assert_eq!(latest_update(&Vec::new()), None);
    assert_eq!(metadata_stream_name("totals"), "$projections-totals");
}

#[test]
fn subscriptions_tab_opens_choices_and_detail() {
    let mut view = PersistentSubscriptionView::new();
    assert!(view.wants_refresh());
    view.refresh(vec![subscription("orders", "billing"), subscription("$all", "audit")]);
    assert_eq!(view.model.list().len(), 2);
    assert_eq!(view.on_key_pressed(KeyCode::Down), Request::Noop);
    assert_eq!(view.selected, 1);
    assert_eq!(view.on_key_pressed(KeyCode::Enter), Request::Noop);
    assert!(!view.wants_refresh());
    view.refresh(vec![subscription("late", "x")]);
    assert_eq!(view.model.list().len(), 2);
    assert_eq!(view.on_key_pressed(KeyCode::Enter), Request::Noop);
    assert_eq!(view.keybindings().len(), 4);
    assert_eq!(view.on_key_pressed(KeyCode::Down), Request::Noop);
    assert_eq!(view.on_key_pressed(KeyCode::Down), Request::Noop);
    assert_eq!(view.on_key_pressed(KeyCode::Down), Request::Noop);
    assert_eq!(view.on_key_pressed(KeyCode::Up), Request::Noop);
    assert_eq!((view.selected, view.selected_choices), (1, 2));
    assert_eq!(view.on_key_pressed(KeyCode::Enter), Request::Noop);
    assert_eq!(view.keybindings(), vec![("q", "Close")]);
    assert_eq!(view.detail().unwrap().stream_name, "orders");
    assert_eq!(view.on_key_pressed(KeyCode::Down), Request::Noop);
    assert_eq!(view.on_key_pressed(KeyCode::Enter), Request::Noop);
    assert_eq!((view.selected, view.selected_choices), (1, 2));
    assert_eq!(view.on_key_pressed(KeyCode::Char('q')), Request::Noop);
    assert_eq!((view.selected, view.selected_choices), (0, 0));
    assert_eq!(view.keybindings().len(), 3);
    assert_eq!(view.on_key_pressed(KeyCode::Char('q')), Request::Exit);
}

#[test]
fn subscription_detail_needs_a_row() {
    let mut view = PersistentSubscriptionView::new();
    view.on_key_pressed(KeyCode::Enter);
    view.selected_choices = 9;
    view.clamp_choice();
    assert_eq!(view.selected_choices, 4);
    view.selected_choices = 2;
    assert_eq!(view.on_key_pressed(KeyCode::Enter), Request::Noop);
    assert!(view.detail().is_none());
    assert_eq!(view.keybindings().len(), 4);
    view.selected_choices = u16::MAX;
    view.on_key_pressed(KeyCode::Down);
    assert_eq!(view.selected_choices, u16::MAX);
}

#[test]
fn subscription_rows_and_settings() {
    let mut view = PersistentSubscriptionView::new();
    let mut all = subscription("$all", "audit");
    all.last_known_position = Some(Position { commit: 12, prepare: 10 });
    all.average_per_second = 1_250;
    view.refresh(vec![subscription("orders", "billing"), all]);
    let list = view.model.list();
    assert_eq!(
        subscription_cells(&list[1]),
        vec!["orders/billing", "5.0", "100 | 95 | 3", "2", "6 / 1.2"]
    );
    assert_eq!(
        subscription_cells(&list[0]),
        vec!["$all/audit", "1.3", "C:12/P:10 | 0 | 3", "2", "-1 / -1.0"]
    );
    assert_eq!(subscription_title(&list[1].value), "Subscription - orders/billing");
    let settings = SubscriptionSettings {
        resolve_link_tos: true,
        start_from: StreamPosition::Position(RevisionOrPosition::Revision(7)),
        extra_statistics: false,
        message_timeout: 30_000,
        max_retry_count: 10,
        live_buffer_size: 500,
        read_batch_size: 20,
        history_buffer_size: 501,
        checkpoint_after: 2_000,
        checkpoint_lower_bound: 11,
        checkpoint_upper_bound: 1_000,
        max_subscriber_count: 0,
        consumer_strategy_name: "RoundRobin".to_string(),
    };
    assert_eq!(
        settings_row(&settings),
        vec![
            "501", "2000", "false", "500", "1000", "10", "30000", "11", "RoundRobin", "20",
            "true", "7"
        ]
    );
    assert_eq!(display_stream_position(&StreamPosition::Start), "beginning");
    assert_eq!(display_stream_position(&StreamPosition::End), "end");
    assert_eq!(display_rev_or_pos(None), "0");
    assert_eq!(
        display_rev_or_pos(Some(&RevisionOrPosition::Position(Position { commit: 1, prepare: 2 }))),
        "C:1/P:2"
    );
    assert_eq!(time_string(125), "1.3");
    assert_eq!(time_string(120), "1.2");
    assert_eq!(time_string(-100), "-1.0");
    assert_eq!(time_string(i128::MAX), "-");
}

#[test]
fn monitoring_tab_takes_polls_and_shows_metrics() {
    let mut view = MonitoringView::new();
    view.load(Some(ServerVersion { major: 22, minor: 10, patch: 1 }));
    let leader = Member {
        instance_id: uuid::Uuid::nil(),
        epoch_number: 4,
        writer_checkpoint: 900,
        role: NodeRole::Leader,
        is_alive: true,
    };
    let drive = Drive {
        path: "/var/lib/db".to_string(),
        available_bytes: 3 << 30,
        total_bytes: 10 << 30,
        usage: "70%".to_string(),
        used_bytes: (7 << 30) + (1 << 29),
    };
    let stats = Sample { cpu: 1_500, free_mem: 3 << 29, written_bytes: 10, drive: Some(drive) };
    assert!(view.refresh(stats, vec![leader]));
    assert_eq!(
        view.key_metrics(),
        vec![
            pair("Epoch number      : ", "4"),
            pair("Writer checkpoint : ", "900"),
            pair("Elections         : ", "0"),
            pair("Out of syncs      : ", "0"),
            pair("Unresponsive nodes: ", "0"),
            pair("Free memory       : ", "1.50 GB"),
            pair("Version           : ", "v22.10.1"),
        ]
    );
    assert_eq!(
        view.drive_metrics().unwrap(),
        vec![
            pair("Directory: ", "/var/lib/db"),
            pair("Total    : ", "10.00 GB"),
            pair("Available: ", "3.00 GB"),
            pair("Used     : ", "7.50 GB (70%)"),
        ]
    );
    assert_eq!(view.on_key_pressed(KeyCode::Down), Request::Noop);
    assert_eq!(view.on_key_pressed(KeyCode::Char('q')), Request::Exit);
    assert!(view.keybindings().is_empty());
    view.load(None);
    assert_eq!(version_string(&view.model.server_version), "v0.0.0");
    assert_eq!(gigabytes_string(0), "0.00 GB");
    assert_eq!(gigabytes_string(5_368_709), "0.00 GB");
    assert_eq!(gigabytes_string(5_368_710), "0.01 GB");
}

#[test]
fn monitoring_tab_without_poll_shows_no_drive() {
    let mut view = MonitoringView::new();
    assert!(view.drive_metrics().is_none());
    assert_eq!(view.key_metrics()[0], pair("Epoch number      : ", "N/A"));
    view.model.elections = usize::MAX;
    let stats = Sample { cpu: 0, free_mem: 0, written_bytes: 0, drive: None };
    assert!(!view.refresh(stats, Vec::new()));
    assert_eq!(view.model.increment, 0);
    assert!(view.model.cpu_load.is_empty());
}
