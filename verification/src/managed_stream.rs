//! The shared handle to one stream, and the single-use I/O tokens it mints.
//!
//! A [`ManagedStream`] is the registry's handle to one connection: the
//! shared record plus the registry token the stream is armed under.
//! Cloning the handle grants no I/O capability; only the minted
//! [`TcpReadOnce`] / [`TcpWriteOnce`] tokens do, each good for exactly one
//! call.  A token that is dropped without its call permanently shuts its
//! direction; one that performed its call leaves the half open.  A token
//! whose stream the registry has dropped fails to [`IoResult::Closed`].

use vstd::prelude::*;

use crate::flags::Interests;
use crate::flags::StreamFlags;
use crate::marked_stream::cell_clone;
use crate::marked_stream::cell_downgrade;
use crate::marked_stream::cell_get_flags;
use crate::marked_stream::cell_set_flags;
use crate::marked_stream::cell_shutdown_both;
use crate::marked_stream::cell_shutdown_read_quiet;
use crate::marked_stream::cell_shutdown_write_quiet;
use crate::marked_stream::cell_stream_read;
use crate::marked_stream::cell_stream_write;
use crate::marked_stream::refcell_new;
use crate::marked_stream::weak_upgrade;
use crate::marked_stream::MarkedStream;
use crate::marked_stream::StreamCell;
use crate::marked_stream::WeakStreamCell;
use crate::proposal::IoResult;
use crate::proposal::ReadOnce;
use crate::proposal::WriteOnce;
use crate::sys::SysIo;

verus! {

/// What a once-token's call returns for each outcome of the underlying OS
/// call: bytes moved (or a try-again folded into zero bytes) become
/// `Done` carrying the `will_close` mark captured before the call; a
/// missing or refused connection becomes `Closed`.
pub open spec fn spec_fold_io(out: SysIo, will_close: bool) -> IoResult {
    match out {
        SysIo::Transferred(n) => IoResult::Done { length: n, will_close },
        SysIo::TryLater => IoResult::Done { length: 0, will_close },
        SysIo::Unconnected => IoResult::Closed,
        SysIo::OtherError => IoResult::Closed,
    }
}

/// Executable form of [`spec_fold_io`].
pub fn fold_io(out: SysIo, will_close: bool) -> (r: IoResult)
    ensures
        r == spec_fold_io(out, will_close),
{
    match out {
        SysIo::Transferred(length) => IoResult::Done { length, will_close },
        SysIo::TryLater => IoResult::Done { length: 0, will_close },
        SysIo::Unconnected => IoResult::Closed,
        SysIo::OtherError => IoResult::Closed,
    }
}

/// The registry's handle to one connection: the shared record and the
/// registry token it is armed under.
pub struct ManagedStream {
    cell: StreamCell,
    token: usize,
}

/// A single-use write capability for one stream.
pub struct TcpWriteOnce {
    cell: WeakStreamCell,
}

/// A single-use read capability for one stream.
pub struct TcpReadOnce {
    cell: WeakStreamCell,
}

impl ManagedStream {
    /// The registry token this stream is armed under.
    pub closed spec fn spec_token(&self) -> usize {
        self.token
    }

    /// Wraps a fresh stream: both halves open, no token outstanding.
    pub fn new(stream: mio::net::TcpStream, token: usize) -> (r: Self)
        ensures
            r.spec_token() == token,
    {
        ManagedStream {
            cell: std::rc::Rc::new(
                refcell_new(MarkedStream { stream, flags: StreamFlags::fresh() }),
            ),
            token,
        }
    }

    /// Another handle to the same record; a handle grants no I/O
    /// capability, so nothing is duplicated but the bookkeeping.
    pub(crate) fn duplicate(&self) -> (r: ManagedStream)
        ensures
            r.spec_token() == self.spec_token(),
    {
        ManagedStream { cell: cell_clone(&self.cell), token: self.token }
    }

    /// The shared record, for the poller wrappers.
    pub(crate) fn cell(&self) -> &StreamCell {
        &self.cell
    }

    /// Executable form of [`Self::spec_token`].
    pub fn token(&self) -> (r: usize)
        ensures
            r == self.spec_token(),
    {
        self.token
    }

    /// Mints the at-most-one live write token.  The decision on the flags
    /// value read from the shared record is the contracted
    /// [`StreamFlags::writer_mint`]: a token comes back iff no write token
    /// is live and the write half is open, and taking it marks it
    /// outstanding.
    pub fn write_once(&self) -> Option<TcpWriteOnce> {
        let f = cell_get_flags(&self.cell);
        match f.writer_mint() {
            Some(minted) => {
                cell_set_flags(&self.cell, minted);
                Some(TcpWriteOnce { cell: cell_downgrade(&self.cell) })
            },
            Option::<StreamFlags>::None => Option::<TcpWriteOnce>::None,
        }
    }

    /// Mints the at-most-one live read token, the twin of
    /// [`Self::write_once`], deciding by [`StreamFlags::reader_mint`].
    pub fn read_once(&self) -> Option<TcpReadOnce> {
        let f = cell_get_flags(&self.cell);
        match f.reader_mint() {
            Some(minted) => {
                cell_set_flags(&self.cell, minted);
                Some(TcpReadOnce { cell: cell_downgrade(&self.cell) })
            },
            Option::<StreamFlags>::None => Option::<TcpReadOnce>::None,
        }
    }

    /// Shuts both halves down, marking the record so and asking the OS for
    /// the full shutdown; idempotent, with the OS's answer surfaced.
    pub fn discard(self) -> Result<(), std::io::Error> {
        let f = cell_get_flags(&self.cell);
        cell_set_flags(&self.cell, f.discarded());
        cell_shutdown_both(&self.cell)
    }

    /// Whether both halves are shut; such a stream leaves the table at the
    /// next re-registration.
    pub fn closed(&self) -> bool {
        let f = cell_get_flags(&self.cell);
        f.closed()
    }

    /// Marks the read half as shut: the poller reported the peer closed it.
    pub fn set_read_closed(&self) {
        let f = cell_get_flags(&self.cell);
        cell_set_flags(&self.cell, f.with_read_closed());
    }

    /// Marks the write half as shut.
    pub fn set_write_closed(&self) {
        let f = cell_get_flags(&self.cell);
        cell_set_flags(&self.cell, f.with_write_closed());
    }

    /// The interest set to arm this stream with, per the lattice of
    /// [`StreamFlags::spec_interests`] applied to the record's flags;
    /// whatever the flags say, an interest set handed out is non-empty.
    pub fn interests(&self) -> (r: Option<Interests>)
        ensures
            r is Some ==> r->Some_0.readable || r->Some_0.writable,
    {
        let f = cell_get_flags(&self.cell);
        f.interests()
    }
}

impl WriteOnce for TcpWriteOnce {
    /// The token's single write: fails to `Closed` if the registry dropped
    /// the stream; otherwise captures the will-close mark, marks the token
    /// used, makes one non-blocking write, and folds the outcome by
    /// [`spec_fold_io`].  A `Done` length never exceeds the data offered.
    fn write(self, data: &[u8]) -> (r: IoResult)
        ensures
            r matches IoResult::Done { length, will_close } ==> length <= data@.len(),
    {
        match weak_upgrade(&self.cell) {
            Option::<StreamCell>::None => IoResult::Closed,
            Some(c) => {
                let f = cell_get_flags(&c);
                let will_close = f.writer_discarded;
                cell_set_flags(&c, f.use_writer());
                let out = cell_stream_write(&c, data);
                fold_io(out, will_close)
            },
        }
    }
}

impl ReadOnce for TcpReadOnce {
    /// The token's single read, the twin of [`TcpWriteOnce`]'s write.  The
    /// buffer keeps its length; a `Done` length never exceeds it, only the
    /// reported prefix of the buffer is written, and a `Closed` outcome
    /// leaves the buffer untouched.
    fn read(self, buf: &mut [u8]) -> (r: IoResult)
        ensures
            final(buf)@.len() == old(buf)@.len(),
            r matches IoResult::Done { length, will_close } ==> length <= old(buf)@.len(),
            r matches IoResult::Done { length, will_close } ==> forall|i: int|
                length <= i < old(buf)@.len() ==> final(buf)@[i] == old(buf)@[i],
            r is Closed ==> final(buf)@ == old(buf)@,
    {
        match weak_upgrade(&self.cell) {
            Option::<StreamCell>::None => IoResult::Closed,
            Some(c) => {
                let f = cell_get_flags(&c);
                let will_close = f.reader_discarded;
                cell_set_flags(&c, f.use_reader());
                let out = cell_stream_read(&c, buf);
                fold_io(out, will_close)
            },
        }
    }
}

impl Drop for TcpWriteOnce {
    /// Releases the write token: if it never performed its call, the write
    /// half is marked shut and the OS half-close is attempted; if it did,
    /// the half stays open for future readiness.
    fn drop(&mut self)
        opens_invariants none
        no_unwind
    {
        if let Some(c) = weak_upgrade(&self.cell) {
            let f = cell_get_flags(&c);
            let was_used = f.writer_used;
            cell_set_flags(&c, f.release_writer());
            if !was_used {
                cell_shutdown_write_quiet(&c);
            }
        }
    }
}

impl Drop for TcpReadOnce {
    /// Releases the read token, the twin of [`TcpWriteOnce`]'s drop.
    fn drop(&mut self)
        opens_invariants none
        no_unwind
    {
        if let Some(c) = weak_upgrade(&self.cell) {
            let f = cell_get_flags(&c);
            let was_used = f.reader_used;
            cell_set_flags(&c, f.release_reader());
            if !was_used {
                cell_shutdown_read_quiet(&c);
            }
        }
    }
}

} // verus!
