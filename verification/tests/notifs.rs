use plan::{Notifications, LIFETIME_NANOS};

fn texts(n: &Notifications) -> Vec<&str> {
    n.messages().iter().map(|m| m.message.as_str()).collect()
}

#[test]
fn messages_expire_after_three_seconds() {
    assert_eq!(LIFETIME_NANOS, 3_000_000_000);
    let mut n = Notifications::default();
    n.push("Saved".to_string(), 0);
    n.push("Later".to_string(), 1_000_000_000);
    assert_eq!(n.messages()[0].expires_at, 3_000_000_000);
    n.prune(2_999_999_999);
    assert_eq!(texts(&n), vec!["Saved", "Later"]);
    n.prune(3_000_000_000);
    assert_eq!(texts(&n), vec!["Later"]);
    n.prune(4_000_000_000);
    assert!(texts(&n).is_empty());
}

#[test]
fn pushed_message_stays_exactly_its_lifetime() {
    let t0: u128 = 5_000_000_000;
    let mut kept = Notifications::new();
    kept.push("old".to_string(), t0 - 1);
    kept.push("new".to_string(), t0);
    kept.prune(t0 + LIFETIME_NANOS - 2);
    assert_eq!(texts(&kept), vec!["old", "new"]);

    let mut gone = Notifications::new();
    gone.push("old".to_string(), t0 + 1_000_000_000);
    gone.push("new".to_string(), t0);
    gone.prune(t0 + LIFETIME_NANOS);
    assert_eq!(texts(&gone), vec!["old"]);
}
