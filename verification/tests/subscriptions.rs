use dazzle::subscriptions::SubscriptionCounts;

#[test]
fn first_consumer_subscribes_last_unsubscribes() {
    let mut s = SubscriptionCounts::new();
    assert!(s.acquire("ticker.BTC.100ms"));
    assert!(!s.acquire("ticker.BTC.100ms"));
    assert_eq!(s.count("ticker.BTC.100ms"), Some(2));
    assert!(!s.release("ticker.BTC.100ms"));
    assert_eq!(s.count("ticker.BTC.100ms"), Some(1));
    assert!(s.release("ticker.BTC.100ms"));
    assert_eq!(s.count("ticker.BTC.100ms"), None);
}

#[test]
fn channels_are_counted_apart() {
    let mut s = SubscriptionCounts::new();
    assert!(s.acquire("a"));
    assert!(s.acquire("b"));
    assert_eq!(s.count("a"), Some(1));
    assert_eq!(s.count("b"), Some(1));
    assert!(s.release("a"));
    assert_eq!(s.count("b"), Some(1));
}

#[test]
fn release_of_unknown_channel() {
    let mut s = SubscriptionCounts::new();
    assert!(!s.release("x"));
    assert_eq!(s.count("x"), None);
}

#[test]
fn failed_subscribe_is_undone() {
    let mut s = SubscriptionCounts::new();
    assert!(s.acquire("c"));
    s.undo_acquire("c");
    assert_eq!(s.count("c"), Some(0));
    // the entry stays at zero, so the next consumer subscribes again
    assert!(s.acquire("c"));
    s.undo_acquire("missing");
    assert_eq!(s.count("missing"), None);
}

#[test]
fn release_at_zero_wraps() {
    let mut s = SubscriptionCounts::new();
    s.acquire("c");
    s.undo_acquire("c");
    assert!(!s.release("c"));
    assert_eq!(s.count("c"), Some(u32::MAX));
    assert!(!s.acquire("c"));
    assert_eq!(s.count("c"), Some(0));
}

#[test]
fn balanced_consumers_leave_no_trace() {
    let mut s = SubscriptionCounts::new();
    s.acquire("other");
    let firsts: Vec<bool> = (0..3).map(|_| s.acquire("book.BTC.100ms")).collect();
    assert_eq!(firsts, vec![true, false, false]);
    let lasts: Vec<bool> = (0..3).map(|_| s.release("book.BTC.100ms")).collect();
    assert_eq!(lasts, vec![false, false, true]);
    assert_eq!(s.count("book.BTC.100ms"), None);
    assert_eq!(s.count("other"), Some(1));
}
