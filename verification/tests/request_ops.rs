use cold_io::{Addr, ConnectionSource, Request};

fn a(last: u8, port: u16) -> Addr {
    Addr::v4(127, 0, 0, last, port)
}

#[test]
fn default_request_is_empty() {
    let r = Request::default();
    assert!(r.is_empty());
}

#[test]
fn set_source_is_taken_back() {
    let mut r = Request::default().set_source(ConnectionSource::Port(8224));
    assert!(!r.is_empty());
    assert_eq!(r.take_new_source(), Some(ConnectionSource::Port(8224)));
    assert_eq!(r.take_new_source(), None);
    assert!(r.is_empty());
}

#[test]
fn later_source_overwrites_earlier() {
    let mut r = Request::default()
        .set_source(ConnectionSource::Port(1))
        .set_source(ConnectionSource::Off);
    assert_eq!(r.take_new_source(), Some(ConnectionSource::Off));
}

#[test]
fn blacklist_keeps_insertion_order() {
    let mut r = Request::default()
        .add_to_blacklist(a(1, 10))
        .add_batch_to_blacklist(vec![a(2, 20), a(3, 30)])
        .add_to_blacklist(a(4, 40));
    assert_eq!(r.take_blacklist(), vec![a(1, 10), a(2, 20), a(3, 30), a(4, 40)]);
    assert!(r.take_blacklist().is_empty());
}

#[test]
fn connect_keeps_insertion_order() {
    let mut r = Request::default()
        .add_connect(a(9, 90))
        .add_batch_connect(vec![a(8, 80)]);
    assert_eq!(r.take_connects(), vec![a(9, 90), a(8, 80)]);
    assert!(r.take_connects().is_empty());
}

#[test]
fn merge_with_empty_is_identity_both_ways() {
    let mut left = Request::default()
        .set_source(ConnectionSource::Port(5))
        .add_to_blacklist(a(1, 1))
        .add_connect(a(2, 2));
    left.merge(Request::default());
    assert_eq!(left.take_new_source(), Some(ConnectionSource::Port(5)));
    assert_eq!(left.take_blacklist(), vec![a(1, 1)]);
    assert_eq!(left.take_connects(), vec![a(2, 2)]);

    let mut empty = Request::default();
    empty.merge(
        Request::default()
            .set_source(ConnectionSource::Port(5))
            .add_to_blacklist(a(1, 1))
            .add_connect(a(2, 2)),
    );
    assert_eq!(empty.take_new_source(), Some(ConnectionSource::Port(5)));
    assert_eq!(empty.take_blacklist(), vec![a(1, 1)]);
    assert_eq!(empty.take_connects(), vec![a(2, 2)]);
}

#[test]
fn merge_keeps_first_source() {
    let mut left = Request::default().set_source(ConnectionSource::Port(1));
    left.merge(Request::default().set_source(ConnectionSource::Port(2)));
    assert_eq!(left.take_new_source(), Some(ConnectionSource::Port(1)));
}

#[test]
fn merge_fills_empty_source_from_right() {
    let mut left = Request::default();
    left.merge(Request::default().set_source(ConnectionSource::Port(2)));
    assert_eq!(left.take_new_source(), Some(ConnectionSource::Port(2)));
}

#[test]
fn merge_concatenates_batches_in_order() {
    let mut left = Request::default().add_to_blacklist(a(1, 1)).add_connect(a(2, 2));
    left.merge(Request::default().add_to_blacklist(a(3, 3)).add_connect(a(4, 4)));
    assert_eq!(left.take_blacklist(), vec![a(1, 1), a(3, 3)]);
    assert_eq!(left.take_connects(), vec![a(2, 2), a(4, 4)]);
}
