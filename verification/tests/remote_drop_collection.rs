use graceful_shutdown::RemotelyDroppableItems;

#[test]
fn insert_then_take_gives_item_back() {
    let mut items = RemotelyDroppableItems::new();
    assert!(items.is_empty());
    let a = items.insert(String::from("a"));
    let b = items.insert(String::from("b"));
    assert_ne!(a, b);
    assert!(items.contains_key(a));
    assert_eq!(items.take(a), Some(String::from("a")));
    assert!(!items.contains_key(a));
    assert_eq!(items.take(a), None);
    assert_eq!(items.take(b), Some(String::from("b")));
    assert!(items.is_empty());
}

#[test]
fn freed_key_is_reused() {
    let mut items = RemotelyDroppableItems::new();
    let a = items.insert(1u8);
    let _b = items.insert(2u8);
    assert_eq!(items.take(a), Some(1));
    let c = items.insert(3u8);
    assert_eq!(c, a);
    assert_eq!(items.take(c), Some(3));
    assert_eq!(items.take(99), None);
    assert!(!items.is_empty());
}
