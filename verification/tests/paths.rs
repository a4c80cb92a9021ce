use plan::{normalize_lexically, PathPart};

fn name(s: &str) -> PathPart {
    PathPart::Name(s.to_string())
}

#[test]
fn dots_are_resolved() {
    // "/a/./b/../c"
    let parts = vec![PathPart::Root, name("a"), PathPart::Current, name("b"), PathPart::Parent, name("c")];
    assert_eq!(normalize_lexically(parts), Some(vec![PathPart::Root, name("a"), name("c")]));
}

#[test]
fn relative_paths_keep_no_root() {
    // "./x/y/.." keeps its leading "."
    let parts = vec![PathPart::Current, name("x"), name("y"), PathPart::Parent];
    assert_eq!(normalize_lexically(parts), Some(vec![PathPart::Current, name("x")]));
    // "x/./y/.."
    let parts = vec![name("x"), PathPart::Current, name("y"), PathPart::Parent];
    assert_eq!(normalize_lexically(parts), Some(vec![name("x")]));
    assert_eq!(normalize_lexically(vec![]), Some(vec![]));
}

#[test]
fn climbing_above_the_start_fails() {
    assert_eq!(normalize_lexically(vec![PathPart::Parent, name("a")]), None);
    assert_eq!(normalize_lexically(vec![PathPart::Root, PathPart::Parent]), None);
    assert_eq!(normalize_lexically(vec![name("a"), PathPart::Parent, PathPart::Parent]), None);
}

#[test]
fn windows_prefix_is_kept() {
    let parts = vec![
        PathPart::Prefix("C:".to_string()),
        PathPart::Root,
        name("dir"),
        PathPart::Parent,
        name("f"),
    ];
    assert_eq!(
        normalize_lexically(parts),
        Some(vec![PathPart::Prefix("C:".to_string()), PathPart::Root, name("f")])
    );
}
