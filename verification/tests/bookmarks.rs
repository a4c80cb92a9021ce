use plan::{apply_bookmark_action, Bookmark, BookmarkAction};

fn labels(b: &[Bookmark<(i32, i32)>]) -> Vec<(&str, (i32, i32))> {
    b.iter().map(|b| (b.label.as_str(), b.transform)).collect()
}

#[test]
fn add_go_set_delete() {
    let mut list: Vec<Bookmark<(i32, i32)>> = Vec::new();
    let mut view = (1, 2);
    apply_bookmark_action(&mut list, &mut view, BookmarkAction::Add);
    assert_eq!(labels(&list), vec![("New bookmark", (1, 2))]);

    view = (5, 5);
    apply_bookmark_action(&mut list, &mut view, BookmarkAction::Add);
    list[1].label = "Second".to_string();

    apply_bookmark_action(&mut list, &mut view, BookmarkAction::GoTo(0));
    assert_eq!(view, (1, 2));

    view = (9, 9);
    apply_bookmark_action(&mut list, &mut view, BookmarkAction::SetView(0));
    assert_eq!(labels(&list), vec![("New bookmark", (9, 9)), ("Second", (5, 5))]);
    view = (0, 0);
    apply_bookmark_action(&mut list, &mut view, BookmarkAction::GoTo(0));
    assert_eq!(view, (9, 9));

    apply_bookmark_action(&mut list, &mut view, BookmarkAction::Delete(0));
    assert_eq!(labels(&list), vec![("Second", (5, 5))]);
    assert_eq!(view, (9, 9));
}
