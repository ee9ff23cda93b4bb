//! The broadcast map bookkeeping: delivery and entry lifetime.

use flumox::channel_book::ChannelBook;

#[test]
fn send_to_correct_key() {
    let mut map = ChannelBook::new(16);
    let sub = map.subscribe(10, 0);

    map.send(10, 0, 42);

    assert_eq!(map.try_recv(sub), Some(42));
}

#[test]
fn dont_send_to_incorrect_key() {
    let mut map = ChannelBook::new(16);
    let ten = map.subscribe(10, 0);
    let _twenty = map.subscribe(20, 0);

    map.send(20, 0, 42);

    assert_eq!(map.try_recv(ten), None);
}

#[test]
fn send_to_multiple() {
    let mut map = ChannelBook::new(16);
    let a = map.subscribe(10, 0);
    let b = map.subscribe(10, 0);

    map.send(10, 0, 42);

    assert_eq!(map.try_recv(a), Some(42));
    assert_eq!(map.try_recv(b), Some(42));
}

#[test]
fn closes_unneeded_channels() {
    let mut map = ChannelBook::new(16);

    let a = map.subscribe(0, 0);
    let b = map.subscribe(0, 0);
    let c = map.subscribe(0, 0);
    map.drop_receiver(a);
    map.drop_receiver(b);
    map.drop_receiver(c);

    assert!(!map.contains(0, 0));
}

#[test]
fn keeps_unneeded_channels() {
    let mut map = ChannelBook::new(16);

    let a = map.subscribe(0, 0);
    let b = map.subscribe(0, 0);
    map.drop_receiver(a);
    map.drop_receiver(b);
    let _c = map.subscribe(0, 0);

    assert!(map.contains(0, 0));
}

#[test]
fn capacity_drops_oldest() {
    let mut map = ChannelBook::new(2);
    let sub = map.subscribe(1, 2);

    map.send(1, 2, 1);
    map.send(1, 2, 2);
    map.send(1, 2, 3);

    assert_eq!(map.try_recv(sub), Some(2));
    assert_eq!(map.try_recv(sub), Some(3));
    assert_eq!(map.try_recv(sub), None);
}

#[test]
fn team_scoped_keys_are_distinct() {
    let mut map = ChannelBook::new(16);
    let one = map.subscribe(7, 1);
    let two = map.subscribe(7, 2);

    map.send(7, 1, 5);

    assert_eq!(map.try_recv(one), Some(5));
    assert_eq!(map.try_recv(two), None);
}
