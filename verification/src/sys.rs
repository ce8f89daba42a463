//! The OS-facing surface: poller, sockets and shared cells, behind trusted
//! declarations and wrappers.
//!
//! Everything the driver asks of the operating system goes through here.
//! Each wrapper makes one outside call and converts its arguments and
//! result between the library's plain values and the OS types; what an
//! outcome means for the driver's bookkeeping is decided by verified code
//! on the returned plain values.

use vstd::prelude::*;

use crate::addr::Addr;
use crate::addr::Ip;

verus! {

#[verifier::external_type_specification]
#[verifier::external_body]
pub struct ExTcpStream(mio::net::TcpStream);

#[verifier::external_type_specification]
#[verifier::external_body]
pub struct ExTcpListener(mio::net::TcpListener);

#[verifier::external_type_specification]
#[verifier::external_body]
pub struct ExPoll(mio::Poll);

#[verifier::external_type_specification]
#[verifier::external_body]
pub struct ExEvents(mio::Events);

#[verifier::external_type_specification]
#[verifier::external_body]
pub struct ExIoError(std::io::Error);

/// One readiness event, as plain values: the token it was armed under and
/// the readiness the poller reported.
#[derive(Debug, Clone, Copy, PartialEq, Eq, Structural)]
pub struct EventInfo {
    pub token: usize,
    pub readable: bool,
    pub writable: bool,
    pub read_closed: bool,
    pub write_closed: bool,
}

/// The outcome of one non-blocking read or write call, as plain values.
#[derive(Debug)]
pub enum SysIo {
    /// The OS moved this many bytes.
    Transferred(usize),
    /// The OS asked to retry later.
    TryLater,
    /// The socket is not connected.
    Unconnected,
    /// Any other OS error.
    OtherError,
}

/// The outcome of one readiness wait.
#[derive(Debug)]
pub enum PollOutcome {
    /// The wait finished; the event buffer holds whatever arrived.
    Polled,
    /// A signal interrupted the wait.
    Interrupted,
    /// Any other OS error.
    Failed(std::io::Error),
}

/// The outcome of popping one pending accept.
#[derive(Debug)]
pub enum AcceptOutcome {
    /// A peer was accepted, with its address.
    Accepted(mio::net::TcpStream, Addr),
    /// Nothing is pending.
    NoneReady,
    /// Any other OS error.
    Failed(std::io::Error),
}

/// The token the listening socket is armed under: the one value the
/// monotonic per-connection counter never reaches.
pub const LISTENER_TOKEN: usize = usize::MAX;

/// Relies on the `Display` rendering of `std::io::Error`: the OS's own
/// words for what went wrong.
#[verifier::external_body]
pub(crate) fn io_error_text(e: &std::io::Error) -> String {
    format!("{}", e)
}

/// Relies on `mio::Poll::new`.
#[verifier::external_body]
pub(crate) fn poll_new() -> Result<mio::Poll, std::io::Error> {
    mio::Poll::new()
}

/// Relies on `mio::Events::with_capacity`.
#[verifier::external_body]
pub(crate) fn events_new(capacity: usize) -> mio::Events {
    mio::Events::with_capacity(capacity)
}

/// Relies on `mio::Poll::poll`: waits for readiness for at most `timeout`,
/// clearing the event buffer and filling it with this wait's events alone.
/// An `Interrupted` error is told apart from the rest; nothing is promised
/// of which events arrive.
#[verifier::external_body]
pub(crate) fn poll_wait(
    p: &mut mio::Poll,
    ev: &mut mio::Events,
    timeout: core::time::Duration,
) -> PollOutcome {
    match p.poll(ev, Some(timeout)) {
        Ok(()) => PollOutcome::Polled,
        Err(e) if e.kind() == std::io::ErrorKind::Interrupted => PollOutcome::Interrupted,
        Err(e) => PollOutcome::Failed(e),
    }
}

/// Relies on `mio::Events::iter` and the accessors of `mio::event::Event`
/// (`token`, `is_readable`, `is_writable`, `is_read_closed`,
/// `is_write_closed`): hands the buffered events out as plain values, in
/// the poller's order.
#[verifier::external_body]
pub(crate) fn events_list(ev: &mio::Events) -> Vec<EventInfo> {
    ev.iter().map(
        |e|
            EventInfo {
                token: e.token().0,
                readable: e.is_readable(),
                writable: e.is_writable(),
                read_closed: e.is_read_closed(),
                write_closed: e.is_write_closed(),
            },
    ).collect()
}

/// Relies on `mio::net::TcpListener::bind`: binds a listening socket on
/// all interfaces at `port`.
#[verifier::external_body]
pub(crate) fn listener_bind(port: u16) -> Result<mio::net::TcpListener, std::io::Error> {
    mio::net::TcpListener::bind(core::net::SocketAddr::from((core::net::Ipv4Addr::UNSPECIFIED, port)))
}

/// Relies on `mio::Registry::register` for the listener, under the
/// reserved listener token, readable only.  Registration cannot fail short
/// of a driver bug, so a failure aborts.
#[verifier::external_body]
pub(crate) fn listener_register(p: &mio::Poll, l: &mut mio::net::TcpListener) {
    p.registry().register(l, mio::Token(LISTENER_TOKEN), mio::Interest::READABLE).expect("bug");
}

/// Relies on `mio::Registry::reregister` for the listener, as in
/// [`listener_register`].
#[verifier::external_body]
pub(crate) fn listener_reregister(p: &mio::Poll, l: &mut mio::net::TcpListener) {
    p.registry().reregister(l, mio::Token(LISTENER_TOKEN), mio::Interest::READABLE).expect("bug");
}

/// Relies on `mio::Registry::deregister` for the listener; a failure is a
/// driver bug and aborts.
#[verifier::external_body]
pub(crate) fn listener_deregister(p: &mio::Poll, l: &mut mio::net::TcpListener) {
    p.registry().deregister(l).expect("bug");
}

/// Relies on `mio::net::TcpListener::accept`: pops one pending connection,
/// telling "nothing pending" (`WouldBlock`) apart from a real error, and
/// hands the peer's address out as plain values.
#[verifier::external_body]
pub(crate) fn listener_accept(l: &mio::net::TcpListener) -> AcceptOutcome {
    match l.accept() {
        Ok((stream, sa)) => {
            let ip = match sa.ip() {
                core::net::IpAddr::V4(v4) => Ip::V4(u32::from(v4)),
                core::net::IpAddr::V6(v6) => Ip::V6(u128::from(v6)),
            };
            AcceptOutcome::Accepted(stream, Addr { ip, port: sa.port() })
        },
        Err(e) if e.kind() == std::io::ErrorKind::WouldBlock => AcceptOutcome::NoneReady,
        Err(e) => AcceptOutcome::Failed(e),
    }
}

/// Relies on `mio::net::TcpStream::connect`: starts a non-blocking connect
/// to the given address.
#[verifier::external_body]
pub(crate) fn tcp_connect(addr: &Addr) -> Result<mio::net::TcpStream, std::io::Error> {
    let ip = match addr.ip {
        Ip::V4(bits) => core::net::IpAddr::V4(core::net::Ipv4Addr::from(bits)),
        Ip::V6(bits) => core::net::IpAddr::V6(core::net::Ipv6Addr::from(bits)),
    };
    mio::net::TcpStream::connect(core::net::SocketAddr::new(ip, addr.port))
}

} // verus!
