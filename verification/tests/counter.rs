use unread_core::counter::UnreadCount;

#[test]
fn new_counter_starts_at_zero() {
    let c = UnreadCount::new();
    assert_eq!(c.get(), 0);
}

#[test]
fn increment_returns_each_new_value() {
    let mut c = UnreadCount::new();
    assert_eq!(c.increment(), 1);
    assert_eq!(c.increment(), 2);
    assert_eq!(c.increment(), 3);
    assert_eq!(c.get(), 3);
}

#[test]
fn set_replaces_the_value() {
    let mut c = UnreadCount::new();
    assert_eq!(c.set(41), 41);
    assert_eq!(c.increment(), 42);
}

#[test]
fn clear_is_idempotent() {
    let mut c = UnreadCount::new();
    c.increment();
    c.increment();
    assert_eq!(c.clear(), 0);
    assert_eq!(c.clear(), 0);
    assert_eq!(c.get(), 0);
}

#[test]
fn increment_saturates_at_the_maximum() {
    let mut c = UnreadCount::new();
    c.set(u32::MAX - 1);
    assert_eq!(c.increment(), u32::MAX);
    assert_eq!(c.increment(), u32::MAX);
}

#[test]
fn many_increments_lose_no_update() {
    let mut c = UnreadCount::new();
    for i in 1..=1000u32 {
        assert_eq!(c.increment(), i);
    }
    assert_eq!(c.get(), 1000);
}
