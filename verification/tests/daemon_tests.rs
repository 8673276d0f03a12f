use klipper_timeout::cli::Cli;
use klipper_timeout::config::Config;
use klipper_timeout::daemon::{
    ClipboardDaemon, DaemonAction, DaemonEvent, RunState, SyncOp, handle_event,
};

fn config_with(
    expiry: u64,
    resync: u64,
    exclude: Vec<&str>,
    never_expire: Vec<&str>,
) -> Config {
    let cli = Cli {
        item_expiry_seconds: Some(expiry),
        update_interval_seconds: Some(resync),
        never_expire_regex: never_expire.into_iter().map(|s| s.to_string()).collect(),
        exclude_regex: exclude.into_iter().map(|s| s.to_string()).collect(),
        verbose: 0,
    };
    Config::from_sources(None, &cli).unwrap()
}

fn snapshot(contents: &[&str]) -> Vec<String> {
    contents.iter().map(|s| s.to_string()).collect()
}

fn contents_of(daemon: &ClipboardDaemon) -> Vec<String> {
    daemon.entries().iter().map(|e| e.content.clone()).collect()
}

#[test]
fn reconcile_tracks_new_entries_in_snapshot_order() {
    let mut daemon = ClipboardDaemon::new(config_with(600, 30, vec![], vec![]));
    let changed = daemon.reconcile(snapshot(&["b", "a"]), 3);
    assert!(!changed);
    assert_eq!(contents_of(&daemon), vec!["b", "a"]);
    assert_eq!(daemon.entries()[0].first_seen, 3);
    assert_eq!(daemon.entries()[1].first_seen, 3);
}

#[test]
fn reconcile_preserves_timestamps_across_snapshots() {
    let mut daemon = ClipboardDaemon::new(config_with(600, 30, vec![], vec![]));
    daemon.reconcile(snapshot(&["a", "b"]), 0);
    let changed = daemon.reconcile(snapshot(&["c", "b", "a"]), 5);
    assert!(!changed);
    assert_eq!(contents_of(&daemon), vec!["c", "b", "a"]);
    assert_eq!(daemon.entries()[0].first_seen, 5);
    assert_eq!(daemon.entries()[1].first_seen, 0);
    assert_eq!(daemon.entries()[2].first_seen, 0);
}

#[test]
fn reconcile_drops_filtered_content_and_reports_change() {
    let mut daemon = ClipboardDaemon::new(config_with(600, 30, vec!["^x"], vec![]));
    let changed = daemon.reconcile(snapshot(&["x1", "x2"]), 0);
    assert!(changed);
    assert!(daemon.entries().is_empty());
}

#[test]
fn reconcile_mixes_filtered_and_tracked_content() {
    let mut daemon = ClipboardDaemon::new(config_with(600, 30, vec!["^x"], vec![]));
    let changed = daemon.reconcile(snapshot(&["a", "x1", "b"]), 0);
    assert!(changed);
    assert_eq!(contents_of(&daemon), vec!["a", "b"]);
}

#[test]
fn entries_disappearing_from_snapshot_is_not_a_change() {
    let mut daemon = ClipboardDaemon::new(config_with(600, 30, vec![], vec![]));
    daemon.reconcile(snapshot(&["a", "b"]), 0);
    let changed = daemon.reconcile(snapshot(&["a"]), 1);
    assert!(!changed);
    assert_eq!(contents_of(&daemon), vec!["a"]);
}

#[test]
fn duplicate_content_pairs_by_first_unmatched_index() {
    let mut daemon = ClipboardDaemon::new(config_with(600, 30, vec![], vec![]));
    daemon.reconcile(snapshot(&["x"]), 0);
    let changed = daemon.reconcile(snapshot(&["x", "x"]), 5);
    assert!(!changed);
    assert_eq!(contents_of(&daemon), vec!["x", "x"]);
    assert_eq!(daemon.entries()[0].first_seen, 0);
    assert_eq!(daemon.entries()[1].first_seen, 5);
}

#[test]
fn empty_snapshot_empties_the_store_without_change() {
    let mut daemon = ClipboardDaemon::new(config_with(600, 30, vec![], vec![]));
    daemon.reconcile(snapshot(&["a"]), 0);
    let changed = daemon.reconcile(Vec::new(), 1);
    assert!(!changed);
    assert!(daemon.entries().is_empty());
}

#[test]
fn expiry_threshold_is_inclusive() {
    let mut daemon = ClipboardDaemon::new(config_with(10, 30, vec![], vec![]));
    daemon.reconcile(snapshot(&["a"]), 0);

    let changed = daemon.expire_due_entries(9);
    assert!(!changed);
    assert_eq!(contents_of(&daemon), vec!["a"]);

    let changed = daemon.expire_due_entries(10);
    assert!(changed);
    assert!(daemon.entries().is_empty());
}

#[test]
fn expiry_keeps_younger_entries_in_order() {
    let mut daemon = ClipboardDaemon::new(config_with(10, 30, vec![], vec![]));
    daemon.reconcile(snapshot(&["old"]), 0);
    daemon.reconcile(snapshot(&["new", "old"]), 5);
    let changed = daemon.expire_due_entries(12);
    assert!(changed);
    assert_eq!(contents_of(&daemon), vec!["new"]);
    assert_eq!(daemon.entries()[0].first_seen, 5);
}

#[test]
fn never_remove_content_survives_any_age() {
    let mut daemon = ClipboardDaemon::new(config_with(2, 30, vec![], vec!["keep"]));
    daemon.reconcile(snapshot(&["keep me", "other"]), 0);
    let changed = daemon.expire_due_entries(1_000_000);
    assert!(changed);
    assert_eq!(contents_of(&daemon), vec!["keep me"]);
    assert_eq!(daemon.entries()[0].first_seen, 0);
}

#[test]
fn expiring_nothing_reports_no_change() {
    let mut daemon = ClipboardDaemon::new(config_with(10, 30, vec![], vec![]));
    let changed = daemon.expire_due_entries(100);
    assert!(!changed);
}

#[test]
fn rewrite_plan_clears_then_inserts_oldest_first() {
    let mut daemon = ClipboardDaemon::new(config_with(600, 30, vec![], vec![]));
    daemon.reconcile(snapshot(&["a"]), 0);
    daemon.reconcile(snapshot(&["b", "a"]), 1);
    daemon.reconcile(snapshot(&["c", "b", "a"]), 2);

    let ops = daemon.plan_rewrite();
    assert_eq!(ops.len(), 4);
    assert!(matches!(ops[0], SyncOp::Clear));
    let inserted: Vec<&str> = ops[1..]
        .iter()
        .map(|op| match op {
            SyncOp::Insert(content) => content.as_str(),
            SyncOp::Clear => panic!("only the first step may clear"),
        })
        .collect();
    assert_eq!(inserted, vec!["a", "b", "c"]);
}

#[test]
fn rewrite_plan_of_empty_store_only_clears() {
    let daemon = ClipboardDaemon::new(config_with(600, 30, vec![], vec![]));
    let ops = daemon.plan_rewrite();
    assert_eq!(ops.len(), 1);
    assert!(matches!(ops[0], SyncOp::Clear));
}

#[test]
fn events_route_to_their_handlers() {
    assert_eq!(
        handle_event(RunState::Running, DaemonEvent::ResyncTick),
        (RunState::Running, DaemonAction::Resync),
    );
    assert_eq!(
        handle_event(RunState::Running, DaemonEvent::ExpiryTick),
        (RunState::Running, DaemonAction::Expire),
    );
    assert_eq!(
        handle_event(RunState::Running, DaemonEvent::ChangeNotification),
        (RunState::Running, DaemonAction::Resync),
    );
    assert_eq!(
        handle_event(RunState::Running, DaemonEvent::ShutdownRequested),
        (RunState::ShuttingDown, DaemonAction::Halt),
    );
}

#[test]
fn shutdown_preempts_every_later_event() {
    for event in [
        DaemonEvent::ShutdownRequested,
        DaemonEvent::ResyncTick,
        DaemonEvent::ExpiryTick,
        DaemonEvent::ChangeNotification,
    ] {
        assert_eq!(
            handle_event(RunState::ShuttingDown, event),
            (RunState::ShuttingDown, DaemonAction::Halt),
        );
    }
}

#[test]
fn two_second_expiry_empties_history_after_three_seconds() {
    let mut daemon = ClipboardDaemon::new(config_with(2, 10, vec![], vec![]));

    let changed = daemon.reconcile(snapshot(&["a", "b"]), 0);
    assert!(!changed);

    assert!(!daemon.expire_due_entries(1));

    let changed = daemon.expire_due_entries(2);
    assert!(changed);
    assert!(daemon.entries().is_empty());
    let ops = daemon.plan_rewrite();
    assert_eq!(ops.len(), 1);
    assert!(matches!(ops[0], SyncOp::Clear));

    assert!(!daemon.expire_due_entries(3));
    assert!(daemon.entries().is_empty());
}
