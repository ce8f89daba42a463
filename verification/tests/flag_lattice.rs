use cold_io::{fold_io, Interests, IoResult, StreamFlags, SysIo};

#[test]
fn fresh_stream_wants_both_directions() {
    let f = StreamFlags::fresh();
    assert_eq!(f.interests(), Some(Interests { readable: true, writable: true }));
    assert!(!f.closed());
}

#[test]
fn outstanding_token_drops_its_direction() {
    let f = StreamFlags::fresh().mint_reader();
    assert_eq!(f.interests(), Some(Interests { readable: false, writable: true }));
    let f = f.mint_writer();
    assert_eq!(f.interests(), None);
}

#[test]
fn discarded_half_drops_its_direction() {
    let f = StreamFlags::fresh().with_read_closed();
    assert_eq!(f.interests(), Some(Interests { readable: false, writable: true }));
    let f = f.with_write_closed();
    assert_eq!(f.interests(), None);
    assert!(f.closed());
}

#[test]
fn releasing_an_unused_token_shuts_the_half() {
    let f = StreamFlags::fresh().mint_writer().release_writer();
    assert!(f.writer_discarded);
    assert!(!f.writer);
    assert_eq!(f.interests(), Some(Interests { readable: true, writable: false }));
}

#[test]
fn releasing_a_used_token_keeps_the_half_open() {
    let f = StreamFlags::fresh().mint_writer().use_writer().release_writer();
    assert!(!f.writer_discarded);
    assert!(!f.writer);
    assert_eq!(f.interests(), Some(Interests { readable: true, writable: true }));
}

#[test]
fn release_keeps_an_already_shut_half_shut() {
    let f = StreamFlags::fresh().mint_reader().with_read_closed().use_reader().release_reader();
    assert!(f.reader_discarded);
}

#[test]
fn discard_shuts_both_halves() {
    let f = StreamFlags::fresh().mint_reader().discarded();
    assert!(f.closed());
    assert_eq!(f.interests(), None);
}

#[test]
fn fold_io_reports_transferred_bytes() {
    assert_eq!(
        fold_io(SysIo::Transferred(13), false),
        IoResult::Done { length: 13, will_close: false }
    );
    assert_eq!(
        fold_io(SysIo::Transferred(0), true),
        IoResult::Done { length: 0, will_close: true }
    );
}

#[test]
fn fold_io_folds_try_later_to_zero_bytes() {
    assert_eq!(fold_io(SysIo::TryLater, false), IoResult::Done { length: 0, will_close: false });
    assert_eq!(fold_io(SysIo::TryLater, true), IoResult::Done { length: 0, will_close: true });
}

#[test]
fn fold_io_maps_failures_to_closed() {
    assert_eq!(fold_io(SysIo::Unconnected, false), IoResult::Closed);
    assert_eq!(fold_io(SysIo::OtherError, true), IoResult::Closed);
}
