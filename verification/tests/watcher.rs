use live_scratch::snapshot::Workspace;
use live_scratch::snapshot::WorkspaceFile;
use live_scratch::watcher::is_ignoring;
use live_scratch::watcher::notification_for;
use live_scratch::watcher::on_settled_batch;
use live_scratch::watcher::rebuild_notification;
use live_scratch::watcher::set_ignore;
use live_scratch::watcher::SettledBatch;
use live_scratch::watcher::SuppressionFlag;
use live_scratch::watcher::WatchAction;
use live_scratch::watcher::WatcherState;
use live_scratch::watcher::DEBOUNCE_WINDOW_MS;
use live_scratch::workspace::build_sb3;

fn file(name: &str, content: &[u8]) -> WorkspaceFile {
    WorkspaceFile { name: name.to_string(), content: content.to_vec() }
}

#[test]
fn debounce_window_is_300_ms() {
    assert_eq!(DEBOUNCE_WINDOW_MS, 300);
}

#[test]
fn watcher_starts_armed() {
    let flag = SuppressionFlag::new();
    assert!(!is_ignoring(&flag));
    assert_eq!(flag.state(), WatcherState::Armed);
}

#[test]
fn last_set_wins() {
    let mut flag = SuppressionFlag::new();
    set_ignore(&mut flag, true);
    assert!(is_ignoring(&flag));
    assert_eq!(flag.state(), WatcherState::Suppressed);
    set_ignore(&mut flag, true);
    assert!(is_ignoring(&flag));
    set_ignore(&mut flag, false);
    assert!(!is_ignoring(&flag));
    assert_eq!(flag.state(), WatcherState::Armed);
    set_ignore(&mut flag, false);
    assert!(!is_ignoring(&flag));
}

#[test]
fn armed_watcher_rebuilds_on_changes() {
    let flag = SuppressionFlag::new();
    assert_eq!(on_settled_batch(&flag, SettledBatch::Events(1)), WatchAction::Rebuild);
    assert_eq!(on_settled_batch(&flag, SettledBatch::Events(usize::MAX)), WatchAction::Rebuild);
}

#[test]
fn armed_watcher_passes_over_an_empty_batch() {
    let flag = SuppressionFlag::new();
    assert_eq!(on_settled_batch(&flag, SettledBatch::Events(0)), WatchAction::Discard);
}

#[test]
fn armed_watcher_reports_errors() {
    let flag = SuppressionFlag::new();
    assert_eq!(on_settled_batch(&flag, SettledBatch::Errors(2)), WatchAction::ReportErrors);
    assert_eq!(on_settled_batch(&flag, SettledBatch::Errors(0)), WatchAction::ReportErrors);
}

#[test]
fn suppressed_watcher_discards_everything() {
    let mut flag = SuppressionFlag::new();
    set_ignore(&mut flag, true);
    assert_eq!(on_settled_batch(&flag, SettledBatch::Events(0)), WatchAction::Discard);
    assert_eq!(on_settled_batch(&flag, SettledBatch::Events(3)), WatchAction::Discard);
    assert_eq!(on_settled_batch(&flag, SettledBatch::Errors(1)), WatchAction::Discard);
}

#[test]
fn five_writes_in_one_batch_give_one_rebuild() {
    let flag = SuppressionFlag::new();
    let mut workspace = Workspace::new();
    for i in 0..5 {
        assert!(workspace.write(file(&format!("asset{}.png", i), b"x")));
    }
    let mut rebuilds = 0;
    let mut notifications = Vec::new();
    let batches = [SettledBatch::Events(5)];
    for batch in batches {
        if on_settled_batch(&flag, batch) == WatchAction::Rebuild {
            rebuilds += 1;
            if let Some(payload) = rebuild_notification(&workspace) {
                notifications.push(payload);
            }
        }
    }
    assert_eq!(rebuilds, 1);
    assert_eq!(notifications.len(), 1);
}

#[test]
fn notification_is_the_archive_in_base64() {
    assert_eq!(notification_for(Some(b"hello".to_vec())), Some("aGVsbG8=".to_string()));
    assert_eq!(notification_for(Some(Vec::new())), Some(String::new()));
    assert_eq!(notification_for(Some(vec![0xfb, 0xff])), Some("+/8=".to_string()));
    assert_eq!(notification_for(None), None);
}

#[test]
fn rebuild_notification_carries_the_packed_workspace() {
    let mut workspace = Workspace::new();
    assert!(workspace.write(file("project.json", b"{}")));
    assert!(workspace.write(file("a.png", b"png")));
    let archive = build_sb3(&workspace).unwrap();
    let payload = rebuild_notification(&workspace).expect("manifest is valid");
    let decoded = base64::Engine::decode(&base64::engine::general_purpose::STANDARD, &payload).unwrap();
    assert_eq!(decoded, archive);
}

#[test]
fn rebuild_with_a_broken_manifest_sends_nothing() {
    let mut workspace = Workspace::new();
    assert!(workspace.write(file("project.json", b"{invalid}")));
    assert_eq!(rebuild_notification(&workspace), None);
}
