use plan::{Inspector, Tab};

#[test]
fn default_is_open_on_bookmarks() {
    let mut ins = Inspector::default();
    assert_eq!(ins.shown(), Some(Tab::Bookmarks));
    assert_eq!(ins.query(), "");
    ins.toggle_open();
    assert_eq!(ins.shown(), None);
    assert!(!ins.is_open());
    ins.select_tab(Tab::Labels);
    assert_eq!(ins.shown(), None);
    ins.toggle_open();
    assert_eq!(ins.shown(), Some(Tab::Labels));
    assert_eq!(ins.tab(), Tab::Labels);
}

#[test]
fn labels_match_lowercased() {
    let mut ins = Inspector::default();
    assert!(ins.label_matches("Anything"));
    ins.set_query("cat".to_string());
    assert!(ins.label_matches("Black CAT"));
    assert!(!ins.label_matches("dog"));
    ins.set_query("Cat".to_string());
    // The query is used as typed.
    assert!(!ins.label_matches("Cat"));
    ins.set_query("ÄB".to_lowercase());
    assert!(ins.label_matches("xÄBy"));
    ins.set_query("at".to_string());
    assert_eq!(ins.matching_labels(&["Cat", "dog", "hat", "AT"]), vec![0, 2, 3]);
}
