//! The per-connection record and the shared cell that carries it.
//!
//! One TCP stream and its bookkeeping flags form a [`MarkedStream`].  The
//! registry owns the record through a reference-counted cell; each live
//! once-token holds a weak reference to the same cell, so that a token
//! outliving its stream fails cleanly instead of touching a dead socket.
//! The cell is shared mutable state, so nothing can be promised about what
//! a read of it returns: every caller takes the flags it read as a plain
//! value and decides with verified logic, and the single-threaded driver
//! never holds a borrow across one of these calls.

use vstd::prelude::*;

use std::io::Read;
use std::io::Write;

use crate::flags::StreamFlags;
use crate::sys::SysIo;

verus! {

#[verifier::external_type_specification]
#[verifier::external_body]
#[verifier::reject_recursive_types(T)]
pub struct ExRefCell<T: ?Sized>(core::cell::RefCell<T>);


/// The driver's record for one TCP stream: the socket and the four
/// booleans per direction that drive the interest lattice.
pub struct MarkedStream {
    pub(crate) stream: mio::net::TcpStream,
    pub(crate) flags: StreamFlags,
}

/// The shared cell a stream record lives in.
pub(crate) type StreamCell = std::rc::Rc<core::cell::RefCell<MarkedStream>>;

/// A weak reference to a stream record, as held by a once-token.  The
/// weak pointer's type cannot be declared to Verus (its allocator
/// parameter is unstable), so it sits in a private field of an opaque
/// struct.
#[verifier::external_body]
pub struct WeakStreamCell {
    inner: std::rc::Weak<core::cell::RefCell<MarkedStream>>,
}

/// Relies on `core::cell::RefCell::new`.
#[verifier::external_body]
pub(crate) fn refcell_new(m: MarkedStream) -> core::cell::RefCell<MarkedStream> {
    core::cell::RefCell::new(m)
}

/// Relies on `std::rc::Rc::clone`: another handle to the same shared
/// record.
#[verifier::external_body]
pub(crate) fn cell_clone(c: &StreamCell) -> (r: StreamCell)
    ensures
        r == *c,
{
    std::rc::Rc::clone(c)
}

/// Relies on `std::rc::Rc::downgrade`.
#[verifier::external_body]
pub(crate) fn cell_downgrade(c: &StreamCell) -> WeakStreamCell {
    WeakStreamCell { inner: std::rc::Rc::downgrade(c) }
}

/// Relies on `std::rc::Weak::upgrade`: yields the cell while the registry
/// still owns the record, and nothing once it has dropped it.
#[verifier::external_body]
pub(crate) fn weak_upgrade(w: &WeakStreamCell) -> Option<StreamCell>
    opens_invariants none
    no_unwind
{
    w.inner.upgrade()
}

/// Relies on `core::cell::RefCell::borrow`: reads the current flags out of
/// the cell.  The cell is shared, so nothing is promised of the value.
#[verifier::external_body]
pub(crate) fn cell_get_flags(c: &StreamCell) -> StreamFlags
    opens_invariants none
    no_unwind
{
    c.borrow().flags
}

/// Relies on `core::cell::RefCell::borrow_mut`: stores new flags into the
/// cell.
#[verifier::external_body]
pub(crate) fn cell_set_flags(c: &StreamCell, f: StreamFlags)
    opens_invariants none
    no_unwind
{
    c.borrow_mut().flags = f;
}

/// Relies on `std::io::Write::write` for `mio::net::TcpStream`: one
/// non-blocking write.  The OS never reports more bytes than were offered,
/// and the data itself is only read (it is borrowed immutably, so no
/// clause about it is needed); `WouldBlock` and `NotConnected` are told
/// apart from other errors.
#[verifier::external_body]
pub(crate) fn cell_stream_write(c: &StreamCell, data: &[u8]) -> (r: SysIo)
    ensures
        r is Transferred ==> r->Transferred_0 <= data@.len(),
{
    let mut s = c.borrow_mut();
    match s.stream.write(data) {
        Ok(length) => SysIo::Transferred(length),
        Err(e) if e.kind() == std::io::ErrorKind::WouldBlock => SysIo::TryLater,
        Err(e) if e.kind() == std::io::ErrorKind::NotConnected => SysIo::Unconnected,
        Err(_) => SysIo::OtherError,
    }
}

/// Relies on `std::io::Read::read` for `mio::net::TcpStream`, which is one
/// non-blocking `read(2)` into `buf`: the OS never reports more bytes than
/// the buffer holds, it fills exactly the reported prefix (the rest of the
/// buffer is untouched), and on any error it wrote nothing.  `WouldBlock`
/// and `NotConnected` are told apart from other errors.
#[verifier::external_body]
pub(crate) fn cell_stream_read(c: &StreamCell, buf: &mut [u8]) -> (r: SysIo)
    ensures
        final(buf)@.len() == old(buf)@.len(),
        r is Transferred ==> r->Transferred_0 <= old(buf)@.len(),
        r is Transferred ==> forall|i: int|
            r->Transferred_0 <= i < old(buf)@.len() ==> final(buf)@[i] == old(buf)@[i],
        !(r is Transferred) ==> final(buf)@ == old(buf)@,
{
    let mut s = c.borrow_mut();
    match s.stream.read(buf) {
        Ok(length) => SysIo::Transferred(length),
        Err(e) if e.kind() == std::io::ErrorKind::WouldBlock => SysIo::TryLater,
        Err(e) if e.kind() == std::io::ErrorKind::NotConnected => SysIo::Unconnected,
        Err(_) => SysIo::OtherError,
    }
}

/// Relies on `rustix::net::shutdown` with the read half: attempts the OS
/// half-close on the stream's descriptor; an error is tolerated, since the
/// peer may already be gone.
#[verifier::external_body]
pub(crate) fn cell_shutdown_read_quiet(c: &StreamCell)
    opens_invariants none
    no_unwind
{
    let s = c.borrow_mut();
    let _ = rustix::net::shutdown(&s.stream, rustix::net::Shutdown::Read);
}

/// Relies on `rustix::net::shutdown` with the write half, as in
/// [`cell_shutdown_read_quiet`].
#[verifier::external_body]
pub(crate) fn cell_shutdown_write_quiet(c: &StreamCell)
    opens_invariants none
    no_unwind
{
    let s = c.borrow_mut();
    let _ = rustix::net::shutdown(&s.stream, rustix::net::Shutdown::Write);
}

/// Relies on `rustix::net::shutdown` with both halves: the full shutdown a
/// discard asks for, with the OS's answer surfaced as an `std::io::Error`.
#[verifier::external_body]
pub(crate) fn cell_shutdown_both(c: &StreamCell) -> Result<(), std::io::Error> {
    let s = c.borrow_mut();
    match rustix::net::shutdown(&s.stream, rustix::net::Shutdown::ReadWrite) {
        Ok(()) => Ok(()),
        Err(errno) => Err(std::io::Error::from_raw_os_error(errno.raw_os_error())),
    }
}

/// Relies on `mio::Registry::register`: arms the stream in the poller
/// under `token` with the given non-empty interest set.  Registration
/// cannot fail short of a driver bug, so a failure aborts.
#[verifier::external_body]
pub(crate) fn cell_register(
    p: &mio::Poll,
    c: &StreamCell,
    token: usize,
    readable: bool,
    writable: bool,
)
    requires
        readable || writable,
{
    let interests = if readable && writable {
        mio::Interest::READABLE | mio::Interest::WRITABLE
    } else if readable {
        mio::Interest::READABLE
    } else {
        mio::Interest::WRITABLE
    };
    let mut s = c.borrow_mut();
    p.registry().register(&mut s.stream, mio::Token(token), interests).expect("bug");
}

/// Relies on `mio::Registry::reregister`, as in [`cell_register`].
#[verifier::external_body]
pub(crate) fn cell_reregister(
    p: &mio::Poll,
    c: &StreamCell,
    token: usize,
    readable: bool,
    writable: bool,
)
    requires
        readable || writable,
{
    let interests = if readable && writable {
        mio::Interest::READABLE | mio::Interest::WRITABLE
    } else if readable {
        mio::Interest::READABLE
    } else {
        mio::Interest::WRITABLE
    };
    let mut s = c.borrow_mut();
    p.registry().reregister(&mut s.stream, mio::Token(token), interests).expect("bug");
}

/// Relies on `mio::Registry::deregister`: disarms the stream; a failure is
/// a driver bug and aborts.
#[verifier::external_body]
pub(crate) fn cell_deregister(p: &mio::Poll, c: &StreamCell) {
    let mut s = c.borrow_mut();
    p.registry().deregister(&mut s.stream).expect("bug");
}

} // verus!
