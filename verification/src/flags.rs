//! Per-stream bookkeeping flags and the readiness-interest lattice.
//!
//! Each TCP stream carries four booleans per direction: whether a single-use
//! token for that direction is currently outstanding, whether that half of
//! the connection is permanently shut (`discarded`), and whether the current
//! token has actually performed its one call (`used`).  A direction is
//! offered to the OS poller iff no token is outstanding for it and it is not
//! discarded.
//!
//! Everything here is plain data with pure transitions; the shared cell that
//! carries a [`StreamFlags`] value at run time lives elsewhere.

use vstd::prelude::*;

verus! {

/// The bookkeeping flags of one stream.
///
/// `reader` / `writer` mean "a once-token for this direction is live";
/// `reader_discarded` / `writer_discarded` mean "this half is permanently
/// shut"; `reader_used` / `writer_used` mean "the live token has performed
/// its single call".
#[derive(Debug, Clone, Copy, PartialEq, Eq, Structural)]
pub struct StreamFlags {
    pub reader: bool,
    pub reader_discarded: bool,
    pub reader_used: bool,
    pub writer: bool,
    pub writer_discarded: bool,
    pub writer_used: bool,
}

/// A non-empty readiness interest set: at least one direction is wanted.
#[derive(Debug, Clone, Copy, PartialEq, Eq, Structural)]
pub struct Interests {
    pub readable: bool,
    pub writable: bool,
}

impl StreamFlags {
    /// The flags of a freshly accepted or connected stream: no token
    /// outstanding, both halves open.
    pub fn fresh() -> (r: StreamFlags)
        ensures
            r == (StreamFlags {
                reader: false,
                reader_discarded: false,
                reader_used: false,
                writer: false,
                writer_discarded: false,
                writer_used: false,
            }),
    {
        StreamFlags {
            reader: false,
            reader_discarded: false,
            reader_used: false,
            writer: false,
            writer_discarded: false,
            writer_used: false,
        }
    }

    /// May a read token be minted: no read token live, read half open.
    pub open spec fn can_mint_reader(self) -> bool {
        !self.reader && !self.reader_discarded
    }

    /// May a write token be minted: no write token live, write half open.
    pub open spec fn can_mint_writer(self) -> bool {
        !self.writer && !self.writer_discarded
    }

    /// Marks a read token as minted.
    pub fn mint_reader(self) -> (r: StreamFlags)
        requires
            self.can_mint_reader(),
        ensures
            r == (StreamFlags { reader: true, ..self }),
    {
        StreamFlags { reader: true, ..self }
    }

    /// Marks a write token as minted.
    pub fn mint_writer(self) -> (r: StreamFlags)
        requires
            self.can_mint_writer(),
        ensures
            r == (StreamFlags { writer: true, ..self }),
    {
        StreamFlags { writer: true, ..self }
    }

    /// The minting decision for a read token, on one flags value read
    /// from the shared record: a token is granted iff no read token is
    /// live and the read half is open, and granting one marks it
    /// outstanding.
    pub fn reader_mint(self) -> (r: Option<StreamFlags>)
        ensures
            r is Some <==> self.can_mint_reader(),
            r is Some ==> r->Some_0 == (StreamFlags { reader: true, ..self }),
    {
        if !self.reader && !self.reader_discarded {
            Some(self.mint_reader())
        } else {
            Option::<StreamFlags>::None
        }
    }

    /// The minting decision for a write token, the twin of
    /// [`Self::reader_mint`].
    pub fn writer_mint(self) -> (r: Option<StreamFlags>)
        ensures
            r is Some <==> self.can_mint_writer(),
            r is Some ==> r->Some_0 == (StreamFlags { writer: true, ..self }),
    {
        if !self.writer && !self.writer_discarded {
            Some(self.mint_writer())
        } else {
            Option::<StreamFlags>::None
        }
    }

    /// Marks the live read token as having performed its single call.
    pub fn use_reader(self) -> (r: StreamFlags)
        ensures
            r == (StreamFlags { reader_used: true, ..self }),
    {
        StreamFlags { reader_used: true, ..self }
    }

    /// Marks the live write token as having performed its single call.
    pub fn use_writer(self) -> (r: StreamFlags)
        ensures
            r == (StreamFlags { writer_used: true, ..self }),
    {
        StreamFlags { writer_used: true, ..self }
    }

    /// The effect of dropping the live read token: the token is gone; if it
    /// never performed its call, the read half is permanently shut.
    pub fn release_reader(self) -> (r: StreamFlags)
        ensures
            r == (StreamFlags {
                reader: false,
                reader_discarded: self.reader_discarded || !self.reader_used,
                reader_used: false,
                ..self
            }),
        opens_invariants none
        no_unwind
    {
        StreamFlags {
            reader: false,
            reader_discarded: self.reader_discarded || !self.reader_used,
            reader_used: false,
            ..self
        }
    }

    /// The effect of dropping the live write token, symmetric to
    /// [`Self::release_reader`].
    pub fn release_writer(self) -> (r: StreamFlags)
        ensures
            r == (StreamFlags {
                writer: false,
                writer_discarded: self.writer_discarded || !self.writer_used,
                writer_used: false,
                ..self
            }),
        opens_invariants none
        no_unwind
    {
        StreamFlags {
            writer: false,
            writer_discarded: self.writer_discarded || !self.writer_used,
            writer_used: false,
            ..self
        }
    }

    /// Marks the read half as shut (the poller reported the peer closed it).
    pub fn with_read_closed(self) -> (r: StreamFlags)
        ensures
            r == (StreamFlags { reader_discarded: true, ..self }),
    {
        StreamFlags { reader_discarded: true, ..self }
    }

    /// Marks the write half as shut.
    pub fn with_write_closed(self) -> (r: StreamFlags)
        ensures
            r == (StreamFlags { writer_discarded: true, ..self }),
    {
        StreamFlags { writer_discarded: true, ..self }
    }

    /// Marks both halves as shut.
    pub fn discarded(self) -> (r: StreamFlags)
        ensures
            r == (StreamFlags { reader_discarded: true, writer_discarded: true, ..self }),
    {
        StreamFlags { reader_discarded: true, writer_discarded: true, ..self }
    }

    /// Both halves shut: the stream is dead and must leave the table.
    pub open spec fn spec_closed(self) -> bool {
        self.reader_discarded && self.writer_discarded
    }

    /// Executable form of [`Self::spec_closed`].
    pub fn closed(&self) -> (r: bool)
        ensures
            r == self.spec_closed(),
    {
        self.reader_discarded && self.writer_discarded
    }

    /// The interest set this stream should be armed with, by the lattice:
    /// direction D is wanted iff no token for D is outstanding and D is not
    /// discarded; a stream wanting neither direction is not armed at all.
    pub open spec fn spec_interests(self) -> Option<Interests> {
        if self.can_mint_reader() || self.can_mint_writer() {
            Some(
                Interests {
                    readable: self.can_mint_reader(),
                    writable: self.can_mint_writer(),
                },
            )
        } else {
            Option::<Interests>::None
        }
    }

    /// Executable form of [`Self::spec_interests`].
    pub fn interests(&self) -> (r: Option<Interests>)
        ensures
            r == self.spec_interests(),
    {
        let read: bool = !self.reader && !self.reader_discarded;
        let write: bool = !self.writer && !self.writer_discarded;
        if read || write {
            Some(Interests { readable: read, writable: write })
        } else {
            Option::<Interests>::None
        }
    }
}

/// The interest lattice: a direction is offered to the poller iff no
/// once-token for it is outstanding and it is not discarded, a stream
/// wanting neither direction is not armed at all, and a stream with both
/// halves discarded wants nothing — it is due for removal.
pub proof fn lemma_interest_lattice(f: StreamFlags)
    ensures
        f.spec_interests() is Some <==> (f.can_mint_reader() || f.can_mint_writer()),
        f.spec_interests() is Some ==> f.spec_interests()->Some_0.readable
            == f.can_mint_reader() && f.spec_interests()->Some_0.writable == f.can_mint_writer(),
        f.can_mint_reader() <==> (!f.reader && !f.reader_discarded),
        f.can_mint_writer() <==> (!f.writer && !f.writer_discarded),
        f.spec_closed() ==> f.spec_interests() is None,
{
}

/// One event in the life of a single direction of one stream.
pub enum DirOp {
    /// A once-token is minted; the code only does this when
    /// [`StreamFlags::can_mint_reader`] (or the writer twin) holds.
    Mint,
    /// A live once-token is consumed or dropped; only an existing token can
    /// be released, so a release needs at least one live token.
    Release,
    /// The direction is marked as shut (by the peer or by a discard); this
    /// neither creates nor destroys tokens.
    MarkShut,
}

/// The abstract state of one direction: the two flags the code keeps, and
/// the number of once-tokens that are really alive.
pub ghost struct DirState {
    pub outstanding: bool,
    pub shut: bool,
    pub live: nat,
}

/// The state of a freshly created direction: open, no token.
pub open spec fn dir_init() -> DirState {
    DirState { outstanding: false, shut: false, live: 0 }
}

/// Whether an event may happen in a state.  A mint is guarded exactly as
/// the code guards it; a release presupposes a live token; marking shut is
/// always possible.
pub open spec fn dir_step_allowed(s: DirState, op: DirOp) -> bool {
    match op {
        DirOp::Mint => !s.outstanding && !s.shut,
        DirOp::Release => s.live > 0,
        DirOp::MarkShut => true,
    }
}

/// The effect of one event on the abstract state.
pub open spec fn dir_step(s: DirState, op: DirOp) -> DirState {
    match op {
        DirOp::Mint => DirState { outstanding: true, live: s.live + 1, ..s },
        DirOp::Release => DirState { outstanding: false, live: (s.live - 1) as nat, ..s },
        DirOp::MarkShut => DirState { shut: true, ..s },
    }
}

/// The state after a whole history of events.
pub open spec fn dir_run(ops: Seq<DirOp>) -> DirState
    decreases ops.len(),
{
    if ops.len() == 0 {
        dir_init()
    } else {
        dir_step(dir_run(ops.drop_last()), ops.last())
    }
}

/// Whether a whole history respects the guards at every step.
pub open spec fn dir_trace_allowed(ops: Seq<DirOp>) -> bool
    decreases ops.len(),
{
    if ops.len() == 0 {
        true
    } else {
        dir_trace_allowed(ops.drop_last()) && dir_step_allowed(dir_run(ops.drop_last()), ops.last())
    }
}

/// Once-token uniqueness: after any history of mints, releases and
/// shut-downs in which every mint respected the code's guard and every
/// release released an existing token, the number of live once-tokens for
/// one direction of one stream is the `outstanding` flag itself — never
/// more than one.
pub proof fn lemma_once_token_uniqueness(ops: Seq<DirOp>)
    requires
        dir_trace_allowed(ops),
    ensures
        dir_run(ops).live == if dir_run(ops).outstanding {
            1nat
        } else {
            0nat
        },
        dir_run(ops).live <= 1,
    decreases ops.len(),
{
    if ops.len() > 0 {
        lemma_once_token_uniqueness(ops.drop_last());
    }
}

} // verus!
