use esdb_admin::failure::{Failure, FailureKind};
use esdb_admin::keys::KeyCode;
use esdb_admin::models::monitoring::{Sample, ServerVersion};
use esdb_admin::models::projections::ProjectionStatus;
use esdb_admin::request::Request;
use esdb_admin::schedule::Schedule;
use esdb_admin::views::context::{Context, Fetch, Fetched, TabView};
use esdb_admin::views::monitoring::MonitoringView;
use esdb_admin::views::projections::Stage;
use esdb_admin::views::stream_browser::StreamsView;

fn failure(kind: FailureKind, message: &str) -> Failure {
    Failure { kind, message: message.to_string() }
}

fn projection(name: &str) -> ProjectionStatus {
    ProjectionStatus {
        name: name.to_string(),
        events_processed_after_restart: 0,
        partitions_cached: 0,
        reads_in_progress: 0,
        writes_in_progress: 0,
        write_pending_events_before_checkpoint: 0,
        write_pending_events_after_checkpoint: 0,
        checkpoint_status: String::new(),
        position: String::new(),
        last_checkpoint: String::new(),
        buffered_events: 0,
        status: String::new(),
        mode: String::new(),
        progress: 0,
    }
}

fn stats() -> Vec<(String, String)> {
    vec![("es-queue-Main-totalItemsProcessed".to_string(), "1".to_string())]
}

#[test]
fn tabs_wrap_in_both_directions() {
    let mut ctx = Context::new();
    assert_eq!(ctx.titles(), vec!["Dashboard", "Streams Browser", "Projections", "Persistent Subscriptions"]);
    assert_eq!(ctx.selected_tab, 0);
    assert_eq!(ctx.on_key_pressed(KeyCode::BackTab), Request::Noop);
    assert_eq!(ctx.selected_tab, 3);
    assert_eq!(ctx.on_key_pressed(KeyCode::Tab), Request::Noop);
    assert_eq!(ctx.selected_tab, 0);
    for expected in [1, 2, 3, 0, 1] {
        assert_eq!(ctx.on_key_pressed(KeyCode::Tab), Request::Noop);
        assert_eq!(ctx.selected_tab, expected);
        assert!(ctx.loading);
    }
    for expected in [0, 3, 2] {
        assert_eq!(ctx.on_key_pressed(KeyCode::BackTab), Request::Noop);
        assert_eq!(ctx.selected_tab, expected);
    }
}

#[test]
fn a_single_tab_switches_to_itself() {
    let mut ctx = Context::with_views(vec![TabView::Monitoring(MonitoringView::new())]).unwrap();
    assert_eq!(ctx.on_key_pressed(KeyCode::Tab), Request::Noop);
    assert_eq!(ctx.selected_tab, 0);
    assert_eq!(ctx.on_key_pressed(KeyCode::BackTab), Request::Noop);
    assert_eq!(ctx.selected_tab, 0);
    assert!(Context::with_views(Vec::new()).is_none());
}

#[test]
fn while_a_failure_is_shown_only_q_is_heard() {
    let mut ctx = Context::new();
    assert!(matches!(ctx.init(), Fetch::ResourceStats));
    ctx.deliver(Err(failure(FailureKind::Transport, "connection refused")));
    assert_eq!(ctx.error_message(), Some("connection refused".to_string()));
    for key in [
        KeyCode::Tab,
        KeyCode::BackTab,
        KeyCode::Down,
        KeyCode::Up,
        KeyCode::Enter,
        KeyCode::Esc,
        KeyCode::Char('x'),
        KeyCode::Other,
    ] {
        assert_eq!(ctx.on_key_pressed(key), Request::Noop);
        assert_eq!(ctx.selected_tab, 0);
        assert!(ctx.last_error.is_some());
        match &ctx.views[0] {
            TabView::Dashboard(v) => assert_eq!(v.scroll, 0),
            _ => panic!("the first tab is the dashboard"),
        }
    }
    assert_eq!(ctx.on_key_pressed(KeyCode::Char('q')), Request::Exit);
    assert_eq!(ctx.on_key_pressed(KeyCode::Char('Q')), Request::Exit);
    assert!(ctx.last_error.is_some());
}

#[test]
fn the_next_success_clears_the_failure() {
    let mut ctx = Context::new();
    ctx.deliver(Err(failure(FailureKind::Malformed, "bad payload")));
    assert!(ctx.last_error.is_some());
    assert!(!ctx.loading);
    assert!(matches!(ctx.refresh(), Fetch::ResourceStats));
    assert!(matches!(ctx.deliver(Ok(Fetched::ResourceStats(stats()))), Fetch::Nothing));
    assert!(ctx.last_error.is_none());
    assert_eq!(ctx.error_message(), None);
    match &ctx.views[0] {
        TabView::Dashboard(v) => assert_eq!(v.model.len(), 1),
        _ => panic!("the first tab is the dashboard"),
    }
    assert_eq!(ctx.on_key_pressed(KeyCode::Down), Request::Noop);
    assert_eq!(ctx.on_key_pressed(KeyCode::Char('q')), Request::Exit);
}

#[test]
fn a_missing_resource_is_an_empty_result() {
    let mut ctx = Context::new();
    ctx.deliver(Err(failure(FailureKind::Transport, "down")));
    ctx.deliver(Err(failure(FailureKind::ResourceNotFound, "no such stream")));
    assert!(ctx.last_error.is_none());
}

#[test]
fn keys_go_to_the_active_view() {
    let mut ctx = Context::new();
    ctx.deliver(Ok(Fetched::ResourceStats(stats())));
    assert_eq!(ctx.on_key_pressed(KeyCode::Tab), Request::Noop);
    assert_eq!(ctx.on_key_pressed(KeyCode::Tab), Request::Noop);
    assert!(matches!(ctx.refresh(), Fetch::ProjectionList));
    ctx.deliver(Ok(Fetched::ProjectionList(vec![projection("a"), projection("b")])));
    assert_eq!(ctx.on_key_pressed(KeyCode::Down), Request::Noop);
    assert_eq!(ctx.on_key_pressed(KeyCode::Enter), Request::Refresh);
    match ctx.refresh() {
        Fetch::ProjectionQuery(name) => assert_eq!(name, "b"),
        _ => panic!("the detail asks for the query"),
    }
    ctx.deliver(Ok(Fetched::ProjectionQuery("fromAll()".to_string())));
    match &ctx.views[2] {
        TabView::Projections(v) => {
            assert_eq!(v.stage, Stage::Detail);
            assert_eq!(v.model.by_idx(1).unwrap().query, "fromAll()");
        }
        _ => panic!("the third tab shows the projections"),
    }
    // What is not meant for the active view is dropped.
    ctx.deliver(Ok(Fetched::ResourceStats(Vec::new())));
    match &ctx.views[0] {
        TabView::Dashboard(v) => assert_eq!(v.model.len(), 1),
        _ => panic!("the first tab is the dashboard"),
    }
    assert_eq!(ctx.on_key_pressed(KeyCode::Char('q')), Request::Noop);
    assert_eq!(ctx.on_key_pressed(KeyCode::Char('q')), Request::Exit);
}

#[test]
fn leaving_the_stream_browser_resets_it() {
    let mut ctx = Context::new();
    ctx.on_key_pressed(KeyCode::Tab);
    assert!(matches!(ctx.refresh(), Fetch::RecentStreams));
    let loaded = Fetched::RecentStreams {
        created: vec![b"0@orders".to_vec()],
        changed: vec!["orders".to_string(), "orders".to_string()],
    };
    assert!(matches!(ctx.deliver(Ok(loaded)), Fetch::Nothing));
    assert!(matches!(ctx.refresh(), Fetch::Nothing));
    assert_eq!(ctx.on_key_pressed(KeyCode::Enter), Request::Refresh);
    match ctx.refresh() {
        Fetch::StreamEvents(name) => assert_eq!(name, "orders"),
        _ => panic!("the events of the selected stream are wanted"),
    }
    ctx.deliver(Ok(Fetched::StreamEvents(Vec::new())));
    assert_eq!(ctx.on_key_pressed(KeyCode::Tab), Request::Noop);
    match &ctx.views[1] {
        TabView::StreamsBrowser(v) => {
            assert!(v.model.last_created.is_empty());
            assert!(v.model.selected_stream.is_none());
        }
        _ => panic!("the second tab is the stream browser"),
    }
    ctx.deliver(Ok(Fetched::ProjectionList(Vec::new())));
    assert_eq!(ctx.on_key_pressed(KeyCode::BackTab), Request::Noop);
    let broken = Fetched::RecentStreams { created: vec![vec![0xff]], changed: Vec::new() };
    assert!(matches!(ctx.deliver(Ok(broken)), Fetch::Nothing));
    assert_eq!(ctx.last_error.as_ref().unwrap().kind, FailureKind::Malformed);
}

#[test]
fn monitoring_asks_for_the_version_and_then_for_health() {
    let views = vec![
        TabView::StreamsBrowser(StreamsView::new()),
        TabView::Monitoring(MonitoringView::new()),
    ];
    let mut ctx = Context::with_views(views).unwrap();
    assert_eq!(ctx.titles(), vec!["Streams Browser", "Monitoring"]);
    assert!(matches!(ctx.init(), Fetch::RecentStreams));
    ctx.on_key_pressed(KeyCode::Tab);
    assert!(matches!(ctx.refresh(), Fetch::ServerVersion));
    let version = ServerVersion { major: 23, minor: 6, patch: 0 };
    assert!(matches!(ctx.deliver(Ok(Fetched::ServerVersion(Some(version)))), Fetch::ClusterHealth));
    let sample = Sample { cpu: 0, free_mem: 0, written_bytes: 0, drive: None };
    let next = ctx.deliver(Ok(Fetched::ClusterHealth { stats: sample, gossip: Vec::new() }));
    assert!(matches!(next, Fetch::Nothing));
    assert!(matches!(ctx.refresh(), Fetch::ClusterHealth));
    match &ctx.views[1] {
        TabView::Monitoring(v) => {
            assert_eq!(v.model.server_version, version);
            assert_eq!(v.model.increment, 2);
            assert_eq!(v.model.no_leader_counter, 1);
        }
        _ => panic!("the second tab is the monitoring tab"),
    }
}

#[test]
fn legend_joins_session_and_view_bindings() {
    let mut ctx = Context::new();
    let legend = ctx.legend();
    let keys: Vec<Vec<&str>> =
        legend.iter().map(|row| row.iter().map(|(k, _)| k.trim()).collect()).collect();
    assert_eq!(keys, vec![vec!["↓", "TAB"], vec!["↑", "B/TAB"], vec!["q"]]);
    assert_eq!(legend[2][0].1, " Exit           ");
    ctx.on_key_pressed(KeyCode::Tab);
    ctx.on_key_pressed(KeyCode::Tab);
    ctx.on_key_pressed(KeyCode::Tab);
    ctx.on_key_pressed(KeyCode::Enter);
    ctx.on_key_pressed(KeyCode::Enter);
    let legend = ctx.legend();
    let labels: Vec<&str> = legend.iter().flatten().map(|(_, l)| l.trim()).collect();
    assert!(labels.contains(&"Close"));
    assert!(!labels.contains(&"Exit"));
}

#[test]
fn schedule_waits_for_what_is_left_of_the_tick() {
    let mut schedule = Schedule::new(1_000);
    assert_eq!(schedule.poll_timeout(1_000), 250);
    assert_eq!(schedule.poll_timeout(1_100), 150);
    assert_eq!(schedule.poll_timeout(1_250), 0);
    assert_eq!(schedule.poll_timeout(9_000), 0);
    assert_eq!(schedule.poll_timeout(900), 250);
    assert!(!schedule.tick(1_100));
    assert_eq!(schedule, Schedule { last_tick: 1_000, last_refresh: 1_000 });
    assert!(!schedule.tick(1_250));
    assert_eq!(schedule, Schedule { last_tick: 1_250, last_refresh: 1_000 });
    assert_eq!(schedule.poll_timeout(1_300), 200);
}

#[test]
fn schedule_refreshes_every_two_seconds() {
    let mut schedule = Schedule::new(0);
    let mut refreshes = Vec::new();
    for now in (0..=6_000u64).step_by(250) {
        if schedule.tick(now) {
            refreshes.push(now);
        }
    }
    assert_eq!(refreshes, vec![2_000, 4_000, 6_000]);
    schedule.refreshed(6_500);
    assert!(!schedule.tick(8_499));
    assert!(schedule.tick(8_500));
    assert_eq!(schedule.last_refresh, 8_500);
    assert!(!schedule.tick(8_000));
}

#[test]
fn defaults_are_the_empty_starts() {
    let view = StreamsView::default();
    assert_eq!(view.selected, 0);
    assert!(view.model.last_created.is_empty());
    let monitoring = MonitoringView::default();
    assert_eq!(monitoring.model.increment, 0);
    assert!(monitoring.model.leader.is_none());
    assert_eq!(esdb_admin::views::projections::ProjectionsViews::default().model.count(), 0);
    assert_eq!(esdb_admin::views::projections::Stage::default(), Stage::Main);
    assert_eq!(
        esdb_admin::views::persistent_subscriptions::Stage::default(),
        esdb_admin::views::persistent_subscriptions::Stage::Main
    );
    assert_eq!(esdb_admin::models::projections::Projection::default().name, "");
    assert_eq!(esdb_admin::models::projections::Projections::default().count(), 0);
    assert_eq!(
        esdb_admin::models::persistent_subscriptions::PersistentSubscriptions::default()
            .list()
            .len(),
        0
    );
    assert_eq!(esdb_admin::views::dashboard::DashboardView::default().scroll, 0);
    assert_eq!(esdb_admin::models::monitoring::Monitoring::default().elections, 0);
    assert!(esdb_admin::views::stream_browser::Model::default().selected_stream.is_none());
}

#[test]
fn entering_a_tab_loads_it_and_keeps_a_failure() {
    let mut ctx = Context::new();
    ctx.deliver(Ok(Fetched::ResourceStats(stats())));
    assert!(!ctx.loading);
    assert_eq!(ctx.on_key_pressed(KeyCode::Tab), Request::Noop);
    assert_eq!(ctx.selected_tab, 1);
    assert!(ctx.loading);
    assert!(matches!(ctx.refresh(), Fetch::RecentStreams));
    let next = ctx.deliver(Err(failure(FailureKind::Transport, "connection lost")));
    assert!(matches!(next, Fetch::Nothing));
    assert_eq!(ctx.selected_tab, 1);
    assert!(!ctx.loading);
    assert_eq!(ctx.error_message(), Some("connection lost".to_string()));
    assert_eq!(ctx.on_key_pressed(KeyCode::Tab), Request::Noop);
    assert_eq!(ctx.selected_tab, 1);
}
