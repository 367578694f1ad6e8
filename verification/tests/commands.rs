use std::io::Cursor;
use std::io::Write;

use live_scratch::commands::apply_archive;
use live_scratch::commands::archive_response;
use live_scratch::commands::export_sb3_file;
use live_scratch::commands::get_initial_sb3;
use live_scratch::commands::get_workspace_path;
use live_scratch::commands::open_sb3_file;
use live_scratch::commands::save_project_from_editor;
use live_scratch::commands::SyncError;
use live_scratch::commands::WorkspacePath;
use live_scratch::commands::UNSUPPRESS_DELAY_MS;
use live_scratch::snapshot::Workspace;
use live_scratch::snapshot::WorkspaceFile;
use live_scratch::watcher::is_ignoring;
use live_scratch::watcher::on_settled_batch;
use live_scratch::watcher::rebuild_notification;
use live_scratch::watcher::set_ignore;
use live_scratch::watcher::SettledBatch;
use live_scratch::watcher::SuppressionFlag;
use live_scratch::watcher::WatchAction;
use live_scratch::watcher::DEBOUNCE_WINDOW_MS;
use live_scratch::workspace::build_sb3;

fn file(name: &str, content: &[u8]) -> WorkspaceFile {
    WorkspaceFile { name: name.to_string(), content: content.to_vec() }
}

fn workspace_of(files: &[(&str, &[u8])]) -> Workspace {
    let mut workspace = Workspace::new();
    for (name, content) in files {
        assert!(workspace.write(file(name, content)));
    }
    workspace
}

fn listing(workspace: &Workspace) -> Vec<(String, Vec<u8>)> {
    let mut out = Vec::new();
    for i in 0..workspace.len() {
        let f = workspace.file(i);
        out.push((f.name.clone(), f.content.clone()));
    }
    out
}

fn zip_of(entries: &[(&str, &[u8])]) -> Vec<u8> {
    let mut writer = zip::ZipWriter::new(Cursor::new(Vec::new()));
    let options = zip::write::SimpleFileOptions::default();
    for (name, content) in entries {
        writer.start_file(*name, options).unwrap();
        writer.write_all(content).unwrap();
    }
    writer.finish().unwrap().into_inner()
}

fn to_base64(bytes: &[u8]) -> String {
    base64::Engine::encode(&base64::engine::general_purpose::STANDARD, bytes)
}

fn from_base64(text: &str) -> Vec<u8> {
    base64::Engine::decode(&base64::engine::general_purpose::STANDARD, text).unwrap()
}

#[test]
fn unsuppress_delay_is_1000_ms_and_outlasts_the_debounce_window() {
    assert_eq!(UNSUPPRESS_DELAY_MS, 1000);
    assert!(UNSUPPRESS_DELAY_MS > DEBOUNCE_WINDOW_MS);
}

#[test]
fn workspace_path_is_handed_back_as_text() {
    let state = WorkspacePath("/home/user/Documents/Live Scratch".to_string());
    assert_eq!(get_workspace_path(&state), "/home/user/Documents/Live Scratch");
    assert_eq!(get_workspace_path(&WorkspacePath(String::new())), "");
}

#[test]
fn initial_archive_is_the_packed_workspace_in_base64() {
    let workspace = workspace_of(&[("project.json", b"{}"), ("a.png", b"png")]);
    let text = get_initial_sb3(&workspace).expect("manifest is valid");
    assert_eq!(from_base64(&text), build_sb3(&workspace).unwrap());
}

#[test]
fn initial_archive_fails_on_a_broken_manifest() {
    let workspace = workspace_of(&[("project.json", b"{invalid}")]);
    assert!(matches!(get_initial_sb3(&workspace), Err(SyncError::BuildFailed)));
}

#[test]
fn archive_response_encodes_or_fails() {
    assert_eq!(archive_response(Some(b"Man".to_vec())).unwrap(), "TWFu");
    assert_eq!(archive_response(Some(b"Ma".to_vec())).unwrap(), "TWE=");
    assert_eq!(archive_response(Some(b"M".to_vec())).unwrap(), "TQ==");
    assert!(matches!(archive_response(None), Err(SyncError::BuildFailed)));
}

#[test]
fn save_applies_the_archive_and_suppresses_the_watcher() {
    let archive = zip_of(&[("project.json", b"{\"a\":1}"), ("a.png", b"new")]);
    let mut flag = SuppressionFlag::new();
    let mut workspace = workspace_of(&[("a.png", b"old"), ("keep.png", b"k")]);
    let applied =
        save_project_from_editor(&mut flag, &mut workspace, to_base64(&archive)).expect("base64");
    assert!(is_ignoring(&flag));
    assert_eq!(applied.written, vec!["project.json".to_string(), "a.png".to_string()]);
    assert_eq!(applied.notify, None);
    assert_eq!(applied.resume_after_ms, 1000);
    assert_eq!(
        listing(&workspace),
        vec![
            ("a.png".to_string(), b"new".to_vec()),
            ("keep.png".to_string(), b"k".to_vec()),
            ("project.json".to_string(), b"{\n  \"a\": 1\n}".to_vec()),
        ]
    );
}

#[test]
fn save_rejects_text_that_is_not_base64() {
    let mut flag = SuppressionFlag::new();
    let mut workspace = workspace_of(&[("a.png", b"old")]);
    let response = save_project_from_editor(&mut flag, &mut workspace, "not base64!".to_string());
    assert!(matches!(response, Err(SyncError::DecodeFailed(_))));
    assert!(!is_ignoring(&flag));
    assert_eq!(listing(&workspace), vec![("a.png".to_string(), b"old".to_vec())]);
}

#[test]
fn save_rejects_base64_without_padding() {
    let mut flag = SuppressionFlag::new();
    let mut workspace = Workspace::new();
    let response = save_project_from_editor(&mut flag, &mut workspace, "TQ".to_string());
    assert!(matches!(response, Err(SyncError::DecodeFailed(_))));
    assert!(!is_ignoring(&flag));
}

#[test]
fn save_of_bytes_that_are_no_archive_still_suppresses() {
    let mut flag = SuppressionFlag::new();
    let mut workspace = workspace_of(&[("a.png", b"old")]);
    let applied =
        save_project_from_editor(&mut flag, &mut workspace, to_base64(b"no archive")).unwrap();
    assert!(is_ignoring(&flag));
    assert!(applied.written.is_empty());
    assert_eq!(listing(&workspace), vec![("a.png".to_string(), b"old".to_vec())]);
}

#[test]
fn apply_archive_takes_raw_bytes() {
    let archive = zip_of(&[("a.png", b"a")]);
    let mut flag = SuppressionFlag::new();
    let mut workspace = Workspace::new();
    let applied = apply_archive(&mut flag, &mut workspace, &archive);
    assert!(is_ignoring(&flag));
    assert_eq!(applied.written, vec!["a.png".to_string()]);
    assert_eq!(applied.resume_after_ms, UNSUPPRESS_DELAY_MS);
    assert_eq!(workspace.get("a.png"), Some(&b"a".to_vec()));
}

#[test]
fn own_write_is_discarded_until_suppression_is_lifted() {
    let archive = zip_of(&[("project.json", b"{}"), ("a.png", b"a")]);
    let mut flag = SuppressionFlag::new();
    let mut workspace = Workspace::new();
    let mut sent: Vec<String> = Vec::new();

    let applied = save_project_from_editor(&mut flag, &mut workspace, to_base64(&archive)).unwrap();
    let own_batch = SettledBatch::Events(applied.written.len());
    assert_eq!(on_settled_batch(&flag, own_batch), WatchAction::Discard);
    assert!(sent.is_empty());

    // The delay has passed: the caller clears the flag.
    set_ignore(&mut flag, false);

    assert!(workspace.write(file("a.png", b"edited outside")));
    if on_settled_batch(&flag, SettledBatch::Events(1)) == WatchAction::Rebuild {
        if let Some(payload) = rebuild_notification(&workspace) {
            sent.push(payload);
        }
    }
    assert_eq!(sent.len(), 1);
    assert_eq!(from_base64(&sent[0]), build_sb3(&workspace).unwrap());
}

#[test]
fn open_of_a_dismissed_picker_is_a_no_op() {
    let mut flag = SuppressionFlag::new();
    let mut workspace = workspace_of(&[("a.png", b"old")]);
    assert!(open_sb3_file(&mut flag, &mut workspace, None).is_none());
    assert!(!is_ignoring(&flag));
    assert_eq!(listing(&workspace), vec![("a.png".to_string(), b"old".to_vec())]);
}

#[test]
fn open_applies_repacks_and_notifies() {
    let archive = zip_of(&[("project.json", b"{\"a\":1}"), ("a.png", b"new")]);
    let mut flag = SuppressionFlag::new();
    let mut workspace = workspace_of(&[("keep.png", b"k"), ("NOTES.md", b"n")]);
    let applied = open_sb3_file(&mut flag, &mut workspace, Some(archive)).expect("picked");
    assert!(is_ignoring(&flag));
    assert_eq!(applied.written, vec!["project.json".to_string(), "a.png".to_string()]);
    assert_eq!(applied.resume_after_ms, 1000);
    assert_eq!(workspace.len(), 4);
    let payload = applied.notify.expect("the workspace packs");
    assert_eq!(from_base64(&payload), build_sb3(&workspace).unwrap());
}

#[test]
fn open_with_a_broken_manifest_notifies_nothing() {
    let archive = zip_of(&[("project.json", b"{invalid}")]);
    let mut flag = SuppressionFlag::new();
    let mut workspace = Workspace::new();
    let applied = open_sb3_file(&mut flag, &mut workspace, Some(archive)).unwrap();
    assert!(is_ignoring(&flag));
    assert_eq!(applied.written, vec!["project.json".to_string()]);
    assert_eq!(applied.notify, None);
    assert_eq!(workspace.get("project.json"), Some(&b"{invalid}".to_vec()));
}

#[test]
fn export_of_a_dismissed_picker_is_a_no_op() {
    let broken = workspace_of(&[("project.json", b"{invalid}")]);
    assert!(matches!(export_sb3_file(&broken, false), Ok(None)));
    let sound = workspace_of(&[("project.json", b"{}")]);
    assert!(matches!(export_sb3_file(&sound, false), Ok(None)));
}

#[test]
fn export_hands_over_the_packed_workspace() {
    let workspace = workspace_of(&[("project.json", b"{}"), ("a.png", b"png")]);
    let bytes = export_sb3_file(&workspace, true).unwrap().expect("picked");
    assert_eq!(bytes, build_sb3(&workspace).unwrap());
}

#[test]
fn export_fails_on_a_broken_manifest() {
    let workspace = workspace_of(&[("project.json", b"{invalid}")]);
    assert!(matches!(export_sb3_file(&workspace, true), Err(SyncError::BuildFailed)));
}
