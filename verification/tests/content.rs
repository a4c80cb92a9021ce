use plan::{calculate_hash, relative_to_root, FileInfo, MissingFiles};

#[test]
fn hash_is_xxh3_128() {
    assert_eq!(calculate_hash(b"abc"), twox_hash::XxHash3_128::oneshot(b"abc"));
    assert_eq!(calculate_hash(b""), twox_hash::XxHash3_128::oneshot(b""));
    assert_ne!(calculate_hash(b"abc"), calculate_hash(b"abd"));
}

#[test]
fn missing_files_found_by_size_and_hash() {
    let a = FileInfo { hash: 11, size: 100 };
    let b = FileInfo { hash: 22, size: 200 };
    let mut search = MissingFiles::new(vec![a, b]);
    assert_eq!(search.found(), &[None, None]);
    assert!(search.needs_hash(100));
    assert!(!search.needs_hash(300));

    // Same size, other content.
    search.offer("/proj/x.png", "/proj", 100, 99);
    assert_eq!(search.found(), &[None, None]);

    search.offer("/proj/moved/a.png", "/proj", 100, 11);
    assert_eq!(search.found(), &[Some("moved/a.png".to_string()), None]);
    assert!(!search.needs_hash(100));

    // A later match does not move a file already found.
    search.offer("/proj/again/a.png", "/proj", 100, 11);
    assert_eq!(search.found()[0], Some("moved/a.png".to_string()));

    search.offer("/proj/b.png", "/proj", 200, 22);
    assert_eq!(search.found()[1], Some("b.png".to_string()));
}

#[test]
fn no_relative_path_means_not_found() {
    let mut search = MissingFiles::new(vec![FileInfo { hash: 1, size: 1 }]);
    // A relative path cannot be made relative to an absolute root.
    search.offer("rel/a.png", "/proj", 1, 1);
    assert_eq!(search.found(), &[None]);
}

#[test]
fn paths_relative_to_the_root() {
    assert_eq!(relative_to_root("/proj/img/a.png", "/proj"), Some("img/a.png".to_string()));
    assert_eq!(relative_to_root("/other/a.png", "/proj"), Some("../other/a.png".to_string()));
    assert_eq!(relative_to_root("a.png", "/proj"), None);
}
