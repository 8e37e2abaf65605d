use esdb_admin::models::monitoring::{Member, Monitoring, NodeRole, Sample, GRAPH_TIME_LIMIT};
use esdb_admin::models::persistent_subscriptions::{
    compute_behind_metrics, PersistentSubscriptions, Position, RevisionOrPosition,
    SubscriptionInfo,
};
use esdb_admin::models::projections::{ProjectionStatus, Projections, Rate};
use esdb_admin::models::resource_queues::{parse_resource_queues, split_queue_key};

fn member(role: NodeRole, epoch: i64, checkpoint: i64, alive: bool) -> Member {
    Member {
        instance_id: uuid::Uuid::from_u128(epoch as u128 + 7),
        epoch_number: epoch,
        writer_checkpoint: checkpoint,
        role,
        is_alive: alive,
    }
}

fn sample(cpu: i64, written: i64) -> Sample {
    Sample { cpu, free_mem: 1 << 30, written_bytes: written, drive: None }
}

fn pair(key: &str, value: &str) -> (String, String) {
    (key.to_string(), value.to_string())
}

fn subscription(source: &str, group: &str) -> SubscriptionInfo {
    SubscriptionInfo {
        event_source: source.to_string(),
        group_name: group.to_string(),
        status: "Live".to_string(),
        connection_count: 2,
        settings: None,
        average_per_second: 0,
        total_items: 10,
        last_checkpointed_event_revision: None,
        last_known_event_revision: None,
        last_checkpointed_position: None,
        last_known_position: None,
        total_in_flight_messages: 3,
    }
}

fn projection(name: &str, events: i64) -> ProjectionStatus {
    ProjectionStatus {
        name: name.to_string(),
        events_processed_after_restart: events,
        partitions_cached: 1,
        reads_in_progress: 2,
        writes_in_progress: 3,
        write_pending_events_before_checkpoint: 4,
        write_pending_events_after_checkpoint: 5,
        checkpoint_status: "".to_string(),
        position: "C:1/P:1".to_string(),
        last_checkpoint: "C:0/P:0".to_string(),
        buffered_events: 6,
        status: "Running".to_string(),
        mode: "Continuous".to_string(),
        progress: 100_000,
    }
}

#[test]
fn queue_mapping_gives_one_queue() {
    let queues = parse_resource_queues(vec![pair("es-queue-Indexing-avgItemsPerSecond", "12.5")]);
    assert_eq!(queues.len(), 1);
    let entry = &queues.list()[0];
    assert_eq!(entry.key, "Indexing");
    assert_eq!(entry.value.name, "Indexing");
    assert_eq!(entry.value.avg_items_per_second, "12.5");
    assert_eq!(entry.value.length_current_try_peak, "");
    assert_eq!(entry.value.length_lifetime_peak, "");
    assert_eq!(entry.value.current_idle_time, None);
    assert_eq!(entry.value.total_items_processed, "");
    assert_eq!(entry.value.in_progress_message, "");
    assert_eq!(entry.value.last_processed_message, "");
}

#[test]
fn keys_outside_the_queue_shape_create_nothing() {
    let queues = parse_resource_queues(vec![
        pair("proc-cpu", "3.5"),
        pair("sys-freeMem", "1024"),
        pair("es-writer-lastFlushSize", "10"),
        pair("es-queue-length", "4"),
        pair("es-queue", "4"),
        pair("queue-Indexing-length", "4"),
        pair("", ""),
    ]);
    assert_eq!(queues.len(), 0);
}

#[test]
fn empty_mapping_gives_no_queue() {
    assert_eq!(parse_resource_queues(Vec::new()).len(), 0);
}

#[test]
fn queue_fields_are_collected_by_name_in_order() {
    let queues = parse_resource_queues(vec![
        pair("es-queue-Worker #2-lengthLifetimePeak", "9"),
        pair("es-queue-Index-Committer-lengthCurrentTryPeak", "3"),
        pair("es-queue-Worker #2-totalItemsProcessed", "77"),
        pair("es-queue-Index-Committer-currentIdleTime", "null"),
        pair("es-queue-Worker #2-currentIdleTime", "0:00:01.5"),
        pair("es-queue-Worker #2-inProgressMessage", "<none>"),
        pair("es-queue-Worker #2-lastProcessedMessage", "Tick"),
        pair("es-queue-Worker #2-somethingElse", "1"),
        pair("es-queue-Worker #2-totalItemsProcessed", "78"),
    ]);
    assert_eq!(queues.len(), 2);
    let first = &queues.list()[0];
    let second = &queues.list()[1];
    assert_eq!(first.key, "Index-Committer");
    assert_eq!(first.value.length_current_try_peak, "3");
    assert_eq!(first.value.current_idle_time, None);
    assert_eq!(second.key, "Worker #2");
    assert_eq!(second.value.length_lifetime_peak, "9");
    assert_eq!(second.value.total_items_processed, "78");
    assert_eq!(second.value.current_idle_time, Some("0:00:01.5".to_string()));
    assert_eq!(second.value.in_progress_message, "<none>");
    assert_eq!(second.value.last_processed_message, "Tick");
}

#[test]
fn unknown_field_still_creates_the_queue() {
    let queues = parse_resource_queues(vec![pair("es-queue-Main-groupName", "x")]);
    assert_eq!(queues.len(), 1);
    assert_eq!(queues.list()[0].value.name, "Main");
    assert_eq!(queues.list()[0].value.avg_items_per_second, "");
}

#[test]
fn queue_key_splits_at_first_and_last_dash() {
    assert_eq!(
        split_queue_key("es-queue-Index-Committer-length"),
        Some(("Index-Committer".to_string(), "length".to_string()))
    );
    assert_eq!(split_queue_key("es-queue--x"), Some(("".to_string(), "x".to_string())));
    assert_eq!(split_queue_key("es-queue-a-"), Some(("a".to_string(), "".to_string())));
    assert_eq!(split_queue_key("es-queues-a-b"), None);
    assert_eq!(split_queue_key("a-b-queue-c-d"), None);
    assert_eq!(split_queue_key("esqueue"), None);
}

#[test]
fn named_stream_is_behind_by_distance_and_rate() {
    let mut info = subscription("orders", "billing");
    info.last_known_event_revision = Some(100);
    info.last_checkpointed_event_revision = Some(95);
    info.average_per_second = 5_000;
    let (messages, time) = compute_behind_metrics(&info);
    assert_eq!(messages, 6);
    assert_eq!(time, 120);
    assert_eq!(time as f64 / 100.0, 1.2);
}

#[test]
fn all_stream_never_has_a_catch_up_time() {
    let mut info = subscription("$all", "audit");
    info.average_per_second = 5_000;
    info.last_known_event_revision = Some(100);
    info.last_checkpointed_event_revision = Some(95);
    info.last_known_position = Some(Position { commit: 10, prepare: 10 });
    info.last_checkpointed_position = Some(Position { commit: 10, prepare: 10 });
    assert_eq!(compute_behind_metrics(&info), (0, -100));
    info.last_checkpointed_position = Some(Position { commit: 9, prepare: 9 });
    assert_eq!(compute_behind_metrics(&info), (-1, -100));
    info.last_checkpointed_position = None;
    assert_eq!(compute_behind_metrics(&info), (-1, -100));
    info.last_known_position = None;
    info.average_per_second = 0;
    assert_eq!(compute_behind_metrics(&info), (0, -100));
}

#[test]
fn rate_zero_gives_time_zero() {
    let mut info = subscription("orders", "billing");
    info.last_known_event_revision = Some(100);
    info.last_checkpointed_event_revision = Some(95);
    info.average_per_second = 0;
    assert_eq!(compute_behind_metrics(&info), (6, 0));
    info.last_known_event_revision = None;
    info.last_checkpointed_event_revision = None;
    assert_eq!(compute_behind_metrics(&info), (1, 0));
}

#[test]
fn catch_up_time_rounds_to_two_decimals() {
    let mut info = subscription("orders", "billing");
    info.last_known_event_revision = Some(9);
    info.last_checkpointed_event_revision = Some(0);
    info.average_per_second = 3_000;
    // 10 / 3 = 3.333..
    assert_eq!(compute_behind_metrics(&info), (10, 333));
    info.average_per_second = 6_000;
    // 10 / 6 = 1.666..
    assert_eq!(compute_behind_metrics(&info), (10, 167));
    info.average_per_second = 8_000;
    info.last_known_event_revision = Some(0);
    // 1 / 8 = 0.125, a half that rounds away from zero
    assert_eq!(compute_behind_metrics(&info), (1, 13));
    info.average_per_second = -8_000;
    assert_eq!(compute_behind_metrics(&info), (1, -13));
    info.average_per_second = 12_500;
    info.last_known_event_revision = Some(24);
    assert_eq!(compute_behind_metrics(&info), (25, 200));
}

#[test]
fn checkpoint_ahead_of_known_gives_negative_lag() {
    let mut info = subscription("orders", "billing");
    info.last_known_event_revision = Some(0);
    info.last_checkpointed_event_revision = Some(u64::MAX);
    info.average_per_second = 1_000;
    let expected = -(u64::MAX as i128) + 1;
    assert_eq!(compute_behind_metrics(&info), (expected, expected * 100));
    info.last_known_event_revision = Some(u64::MAX);
    info.last_checkpointed_event_revision = Some(0);
    assert_eq!(
        compute_behind_metrics(&info),
        (u64::MAX as i128 + 1, (u64::MAX as i128 + 1) * 100)
    );
}

#[test]
fn subscriptions_are_kept_by_stream_and_group() {
    let mut subs = PersistentSubscriptions::new();
    let mut orders = subscription("orders", "billing");
    orders.last_known_event_revision = Some(100);
    orders.last_checkpointed_event_revision = Some(95);
    orders.average_per_second = 5_000;
    let mut all = subscription("$all", "audit");
    all.last_known_position = Some(Position { commit: 4, prepare: 4 });
    subs.update(vec![orders, all, subscription("orders", "archive")]);
    let list = subs.list();
    assert_eq!(list.len(), 3);
    assert_eq!(list[0].key, "$all/audit");
    assert_eq!(list[1].key, "orders/archive");
    assert_eq!(list[2].key, "orders/billing");
    assert_eq!(list[2].value.stream_name, "orders");
    assert_eq!(list[2].value.group_name, "billing");
    assert_eq!(list[2].value.behind_by_messages, 6);
    assert_eq!(list[2].value.behind_by_time, 120);
    assert_eq!(list[2].value.average_items_per_second, 5_000);
    assert_eq!(list[2].value.connection_count, 2);
    assert_eq!(list[2].value.in_flight_messages, 3);
    assert_eq!(list[2].value.total_items_processed, 10);
    assert_eq!(list[2].value.status, "Live");
    assert_eq!(list[2].value.last_known_event_position, Some(RevisionOrPosition::Revision(100)));
    assert_eq!(
        list[2].value.last_checkpointed_event_position,
        Some(RevisionOrPosition::Revision(95))
    );
    assert_eq!(
        list[0].value.last_known_event_position,
        Some(RevisionOrPosition::Position(Position { commit: 4, prepare: 4 }))
    );
    assert_eq!(list[0].value.last_checkpointed_event_position, None);
    assert_eq!(list[0].value.behind_by_time, -100);
    assert_eq!(list[0].value.behind_by_messages, -1);

    let mut later = subscription("orders", "billing");
    later.status = "Paused".to_string();
    later.last_known_event_revision = Some(100);
    later.last_checkpointed_event_revision = Some(100);
    subs.update(vec![later]);
    assert_eq!(subs.list().len(), 3);
    assert_eq!(subs.get(2).unwrap().status, "Paused");
    assert_eq!(subs.get(2).unwrap().behind_by_messages, 1);
    assert_eq!(subs.get(2).unwrap().behind_by_time, 0);
    assert!(subs.get(3).is_none());
}

#[test]
fn first_report_gives_no_rate_and_second_gives_it() {
    let mut projections = Projections::new();
    projections.update_at(vec![projection("totals", 100)], 1_000_000_000);
    assert_eq!(projections.count(), 1);
    assert_eq!(projections.by_idx(0).unwrap().rate, None);
    assert_eq!(projections.by_idx(0).unwrap().events_processed, 100);
    projections.update_at(vec![projection("totals", 160)], 3_000_000_000);
    let rate = projections.by_idx(0).unwrap().rate.unwrap();
    assert_eq!(rate, Rate { events: 60, since: 1_000_000_000, until: 3_000_000_000 });
    let per_second = rate.events as f64 / ((rate.until - rate.since) as f64 / 1e9);
    assert_eq!(per_second, 30.0);
    assert_eq!(projections.last_time, Some(3_000_000_000));
}

#[test]
fn projections_keep_query_and_order() {
    let mut projections = Projections::new();
    projections.update_at(vec![projection("b", 1), projection("a", 2)], 10);
    assert_eq!(projections.list()[0].key, "a");
    assert_eq!(projections.list()[1].key, "b");
    projections.by_idx_mut(1).unwrap().query = "fromAll()".to_string();
    assert!(projections.by_idx_mut(2).is_none());
    let mut update = projection("b", 5);
    update.status = "Stopped".to_string();
    projections.update_at(vec![update, projection("c", 0)], 20);
    assert_eq!(projections.count(), 3);
    let b = projections.by_idx(1).unwrap();
    assert_eq!(b.name, "b");
    assert_eq!(b.query, "fromAll()");
    assert_eq!(b.status, "Stopped");
    assert_eq!(b.events_processed, 5);
    assert_eq!(b.rate, Some(Rate { events: 4, since: 10, until: 20 }));
    assert_eq!(b.write_queue, 4);
    assert_eq!(b.write_queue_checkpoint, 5);
    assert_eq!(b.partitions_cached, 1);
    assert_eq!(b.reads_in_progress, 2);
    assert_eq!(b.writes_in_progress, 3);
    assert_eq!(b.buffered_events, 6);
    assert_eq!(b.mode, "Continuous");
    assert_eq!(b.progress, 100_000);
    assert_eq!(b.position, "C:1/P:1");
    assert_eq!(b.last_checkpoint, "C:0/P:0");
    assert_eq!(projections.by_idx(0).unwrap().rate, None);
    assert_eq!(projections.by_idx(2).unwrap().rate, None);
    assert!(projections.by_idx(3).is_none());
}

#[test]
fn rows_are_in_order_of_name_while_names_are_kept() {
    let mut projections = Projections::new();
    projections.update_at(
        vec![projection("m", 1), projection("b", 2), projection("z", 3), projection("ba", 4)],
        5,
    );
    assert!(projections.check_wf());
    let names: Vec<String> =
        (0..projections.count()).map(|i| projections.by_idx(i).unwrap().name.clone()).collect();
    assert_eq!(names, vec!["b", "ba", "m", "z"]);
    for i in 0..projections.count() {
        assert_eq!(projections.by_idx(i).unwrap().name, projections.list()[i].key);
    }
    projections.by_idx_mut(0).unwrap().query = "fromAll()".to_string();
    assert!(projections.check_wf());
    projections.by_idx_mut(0).unwrap().name = "zz".to_string();
    assert!(!projections.check_wf());
}

#[test]
fn same_projection_twice_in_one_poll_measures_against_the_poll_before() {
    let mut projections = Projections::new();
    projections.update_at(vec![projection("a", 1), projection("a", 4)], 50);
    assert_eq!(
        projections.by_idx(0).unwrap().rate,
        Some(Rate { events: 3, since: 50, until: 50 })
    );
    projections.update_at(vec![projection("a", i64::MIN)], 70);
    assert_eq!(
        projections.by_idx(0).unwrap().rate,
        Some(Rate { events: i64::MIN as i128 - 4, since: 50, until: 70 })
    );
}

#[test]
fn update_reads_the_clock() {
    let mut projections = Projections::new();
    projections.update(vec![projection("a", 1)]);
    let first = projections.last_time.unwrap();
    projections.update(vec![projection("a", 3)]);
    let second = projections.last_time.unwrap();
    assert!(second >= first);
    assert_eq!(
        projections.by_idx(0).unwrap().rate,
        Some(Rate { events: 2, since: first, until: second })
    );
}

#[test]
fn epoch_change_counts_one_election() {
    let mut model = Monitoring::new();
    model.update(sample(10_000, 500), vec![member(NodeRole::Leader, 2, 1000, true)]);
    assert_eq!(model.elections, 0);
    assert_eq!(model.last_epoch_number, Some(2));
    model.update(sample(10_000, 800), vec![member(NodeRole::Leader, 3, 1200, true)]);
    assert_eq!(model.elections, 1);
    assert_eq!(model.last_epoch_number, Some(3));
    model.update(sample(10_000, 900), vec![member(NodeRole::Leader, 3, 1300, true)]);
    assert_eq!(model.elections, 1);
    assert_eq!(model.leader.unwrap().epoch_number, 3);
    assert_eq!(model.leader.unwrap().writer_checkpoint, 1300);
    assert_eq!(model.leader.unwrap().instance_id, uuid::Uuid::from_u128(10));
}

#[test]
fn first_poll_counts_no_election() {
    let mut model = Monitoring::new();
    model.update(sample(0, 0), vec![member(NodeRole::Leader, 41, 5, true)]);
    assert_eq!(model.elections, 0);
    assert_eq!(model.no_leader_counter, 0);
    assert_eq!(model.truncation_counter, 0);
    assert_eq!(model.out_of_sync_cluster_counter, 0);
}

#[test]
fn polls_without_leader_are_counted_and_keep_the_last_leader() {
    let mut model = Monitoring::new();
    model.update(sample(0, 0), vec![member(NodeRole::Leader, 1, 5, true)]);
    model.update(
        sample(0, 0),
        vec![member(NodeRole::Follower, 9, 1, false), member(NodeRole::Other, 9, 1, false)],
    );
    assert_eq!(model.no_leader_counter, 1);
    assert_eq!(model.unresponsive_nodes, 2);
    assert_eq!(model.last_epoch_number, Some(1));
    assert_eq!(model.last_writer_checkpoint, Some(5));
    assert_eq!(model.elections, 0);
    model.update(sample(0, 0), Vec::new());
    assert_eq!(model.no_leader_counter, 2);
    assert_eq!(model.unresponsive_nodes, 0);
}

#[test]
fn truncation_and_out_of_sync_compare_with_the_checkpoint_before() {
    let mut model = Monitoring::new();
    model.update(sample(0, 0), vec![member(NodeRole::Leader, 1, 100, true)]);
    model.update(
        sample(0, 0),
        vec![
            member(NodeRole::Follower, 1, 99, true),
            member(NodeRole::Leader, 1, 90, true),
            member(NodeRole::Follower, 1, 98, true),
        ],
    );
    assert_eq!(model.truncation_counter, 1);
    assert_eq!(model.out_of_sync_cluster_counter, 1);
    assert_eq!(model.last_writer_checkpoint, Some(90));
    model.update(
        sample(0, 0),
        vec![
            member(NodeRole::Follower, 1, 89, true),
            member(NodeRole::Leader, 1, 90, true),
            member(NodeRole::Follower, 1, 90, true),
            member(NodeRole::Other, 1, 0, true),
        ],
    );
    assert_eq!(model.truncation_counter, 1);
    assert_eq!(model.out_of_sync_cluster_counter, 1);
}

#[test]
fn windows_stay_bounded_and_evict_the_oldest() {
    let mut model = Monitoring::new();
    for i in 0..50i64 {
        model.update(sample(i * 1000, i * i), Vec::new());
        let polls = (i + 1) as usize;
        assert_eq!(model.cpu_load.len(), polls.min(GRAPH_TIME_LIMIT));
        assert_eq!(model.bytes_written.len(), polls.min(GRAPH_TIME_LIMIT));
        let newest = model.cpu_load[model.cpu_load.len() - 1];
        assert_eq!(newest, (2 * i as usize, i * 1000));
        for k in 1..model.cpu_load.len() {
            assert_eq!(model.cpu_load[k].0, model.cpu_load[k - 1].0 + 2);
        }
    }
    assert_eq!(model.cpu_load.len(), 20);
    assert_eq!(model.bytes_written.len(), 20);
    assert_eq!(model.cpu_load[0], (60, 30_000));
    assert_eq!(model.bytes_written[0], (60, (30 * 30 - 29 * 29) as i128));
    assert_eq!(model.increment, 100);
    assert_eq!(model.time_bounds(), [80, 100]);
    assert_eq!(model.writer_checkpoints.len(), 0);
}

#[test]
fn bytes_written_are_deltas_seeded_with_zero() {
    let mut model = Monitoring::new();
    assert_eq!(model.bytes_written_value_bounds(), [i128::MAX, i128::MIN]);
    assert_eq!(model.time_bounds(), [0, 20]);
    model.update(sample(0, 1_000), Vec::new());
    assert_eq!(model.bytes_written, vec![(0, 0)]);
    model.update(sample(0, 1_500), Vec::new());
    model.update(sample(0, 1_400), Vec::new());
    assert_eq!(model.bytes_written, vec![(0, 0), (2, 500), (4, -100)]);
    assert_eq!(model.bytes_written_value_bounds(), [-100, 500]);
    assert_eq!(model.last_bytes_written, Some(1_400));
    assert_eq!(model.free_mem, 1 << 30);
    model.update(sample(0, i64::MIN), Vec::new());
    model.update(sample(0, i64::MAX), Vec::new());
    assert_eq!(model.bytes_written[4], (8, i64::MAX as i128 - i64::MIN as i128));
    assert!(model.check_room());
    for _ in 0..6 {
        model.update(sample(0, 0), Vec::new());
    }
    assert_eq!(model.time_bounds(), [2, 22]);
}

#[test]
fn value_axis_gets_a_margin_of_half_a_power_of_ten() {
    let mut model = Monitoring::new();
    assert_eq!(model.bytes_written_value_axis(), [0, 0]);
    model.bytes_written = vec![(0, 0), (2, 500), (4, -100)];
    assert_eq!(model.bytes_written_value_axis(), [0, 500]);
    model.bytes_written = vec![(0, 1_000), (2, 1_200)];
    assert_eq!(model.bytes_written_value_axis(), [500, 1_700]);
    model.bytes_written = vec![(0, 100), (2, 105)];
    assert_eq!(model.bytes_written_value_axis(), [95, 110]);
    model.bytes_written = vec![(0, 100), (2, 110)];
    assert_eq!(model.bytes_written_value_axis(), [50, 160]);
    model.bytes_written = vec![(0, 7)];
    assert_eq!(model.bytes_written_value_axis(), [2, 12]);
    model.bytes_written = vec![(0, 4)];
    assert_eq!(model.bytes_written_value_axis(), [0, 4]);
    model.bytes_written = vec![(0, i128::MIN), (2, i128::MAX)];
    assert_eq!(model.bytes_written_value_axis(), [i128::MIN, i128::MAX]);
}
