use live_scratch::snapshot::Workspace;
use live_scratch::snapshot::WorkspaceFile;

fn file(name: &str, content: &[u8]) -> WorkspaceFile {
    WorkspaceFile { name: name.to_string(), content: content.to_vec() }
}

#[test]
fn new_workspace_is_empty() {
    let workspace = Workspace::new();
    assert_eq!(workspace.len(), 0);
    assert!(!workspace.contains("project.json"));
    assert_eq!(workspace.get("project.json"), None);
    assert_eq!(workspace.position("project.json"), None);
}

#[test]
fn write_appends_new_names_in_order() {
    let mut workspace = Workspace::new();
    assert!(workspace.write(file("a.txt", b"1")));
    assert!(workspace.write(file("b.txt", b"2")));
    assert_eq!(workspace.len(), 2);
    assert_eq!(workspace.file(0), &file("a.txt", b"1"));
    assert_eq!(workspace.file(1), &file("b.txt", b"2"));
    assert_eq!(workspace.position("a.txt"), Some(0));
    assert_eq!(workspace.position("b.txt"), Some(1));
    assert_eq!(workspace.position("c.txt"), None);
}

#[test]
fn write_replaces_a_file_where_it_stands() {
    let mut workspace = Workspace::new();
    assert!(workspace.write(file("a.txt", b"old")));
    assert!(workspace.write(file("b.txt", b"2")));
    assert!(workspace.write(file("a.txt", b"new")));
    assert_eq!(workspace.len(), 2);
    assert_eq!(workspace.file(0), &file("a.txt", b"new"));
    assert_eq!(workspace.file(1), &file("b.txt", b"2"));
    assert_eq!(workspace.get("a.txt"), Some(&b"new".to_vec()));
}

#[test]
fn write_refuses_names_with_path_syntax() {
    let mut workspace = Workspace::new();
    assert!(workspace.write(file("kept.txt", b"x")));
    assert!(!workspace.write(file("../escape.txt", b"x")));
    assert!(!workspace.write(file("/abs.txt", b"x")));
    assert!(!workspace.write(file("dir/inner.txt", b"x")));
    assert!(!workspace.write(file("", b"x")));
    assert!(!workspace.write(file("..", b"x")));
    assert_eq!(workspace.len(), 1);
    assert_eq!(workspace.file(0), &file("kept.txt", b"x"));
}

#[test]
fn contains_and_get_agree() {
    let mut workspace = Workspace::new();
    assert!(workspace.write(file("empty.bin", b"")));
    assert!(workspace.contains("empty.bin"));
    assert_eq!(workspace.get("empty.bin"), Some(&Vec::new()));
    assert!(!workspace.contains("Empty.bin"));
    assert_eq!(workspace.get("Empty.bin"), None);
}

#[test]
fn duplicate_copies_name_and_bytes() {
    let source = file("a.bin", &[0, 1, 2, 255]);
    let copy = source.duplicate();
    assert_eq!(copy, source);
    assert_eq!(copy.name, "a.bin");
    assert_eq!(copy.content, vec![0, 1, 2, 255]);
}

#[test]
fn write_takes_every_name_a_directory_can_list() {
    let mut workspace = Workspace::new();
    assert!(workspace.write(file("a:b.txt", b"1")));
    assert!(workspace.write(file("c\\d.txt", b"2")));
    assert!(workspace.write(file("...", b"3")));
    assert!(workspace.write(file(" ", b"4")));
    assert_eq!(workspace.len(), 4);
    assert_eq!(workspace.get("a:b.txt"), Some(&b"1".to_vec()));
}
