//! Proposals: the inputs handed to the state machine, one per driver event.

use vstd::prelude::*;

use crate::addr::spec_addr_text;
use crate::addr::Addr;
use crate::clock::duration_zero;
use crate::text::hex4_u16;
use crate::text::spec_hex4;

verus! {

/// The text of a connection id: the driver instance and the token, four
/// hex digits each, joined by a dot.
pub open spec fn spec_connection_id_text(id: ConnectionId) -> Seq<char> {
    spec_hex4(id.poll_id as int) + seq!['.'] + spec_hex4(id.token as int)
}

/// A single-use capability to read once from a stream.  Consuming it — by
/// the one permitted call or by dropping it — releases the stream's read
/// half for the next iteration or shuts it.
pub trait ReadOnce {
    fn read(self, buf: &mut [u8]) -> IoResult;
}

/// A single-use capability to write once to a stream, the twin of
/// [`ReadOnce`].
pub trait WriteOnce {
    fn write(self, data: &[u8]) -> IoResult;
}

/// What a once-token's single call came to.
#[derive(Debug, Clone, Copy, PartialEq, Eq, PartialOrd, Ord, Hash)]
pub enum IoResult {
    /// The stream is gone or the OS refused the call.
    Closed,
    /// The OS accepted the call; `length` bytes were moved (zero when the
    /// OS asked to try again later), and `will_close` reports whether this
    /// half was already marked shut before the call.
    Done { length: usize, will_close: bool },
}

/// Identifies a connection: the driver instance it belongs to and the
/// registry token assigned to it.
#[derive(Debug, Clone, Copy, PartialEq, Eq, PartialOrd, Ord, Hash, Structural)]
pub struct ConnectionId {
    pub poll_id: u16,
    pub token: u16,
}

impl ConnectionId {
    /// Renders the id, character for character as
    /// [`spec_connection_id_text`] spells it.
    pub fn describe(&self) -> (r: String)
        ensures
            r@ == spec_connection_id_text(*self),
    {
        proof {
            reveal_strlit(".");
        }
        let mut r = hex4_u16(self.poll_id);
        r.append(".");
        r.append(hex4_u16(self.token).as_str());
        proof {
            assert(r@ =~= spec_connection_id_text(*self));
        }
        r
    }
}

/// One input to the state machine.
pub struct Proposal<R, W, Ext, Rng> {
    /// Randomness for this proposal, drawn from the caller's sequence.
    pub rng: Rng,
    /// Wall time since the previous proposal was delivered.
    pub elapsed: core::time::Duration,
    /// What happened.
    pub kind: ProposalKind<R, W, Ext>,
}

impl<R, W, Ext, Rng> Proposal<R, W, Ext, Rng> {
    /// A user-synthesized proposal carrying out-of-band data, stamped with
    /// zero elapsed time (the zero itself is the opaque duration's and
    /// cannot be stated here).
    pub fn custom(rng: Rng, ext: Ext) -> (r: Self)
        ensures
            r.kind == ProposalKind::<R, W, Ext>::Custom(ext),
            r.rng == rng,
    {
        Proposal { rng, elapsed: duration_zero(), kind: ProposalKind::Custom(ext) }
    }
}

/// The shape of one proposal, as ghost traces record it: the kind alone,
/// with the payloads that are plain values.
#[allow(dead_code)]
pub enum EmitKind {
    /// The one-time wake-up.
    Wake,
    /// A quiet iteration's single proposal.
    Idle,
    /// A new connection, outbound or incoming.
    Connection { addr: Addr, incoming: bool },
    /// A readiness proposal carrying a read token.
    Readable(u16),
    /// A readiness proposal carrying a write token.
    Writable(u16),
    /// A user-synthesized proposal.
    Custom,
}

/// The trace tag of a proposal kind.
pub open spec fn kind_tag<R, W, Ext>(kind: ProposalKind<R, W, Ext>) -> EmitKind {
    match kind {
        ProposalKind::Wake => EmitKind::Wake,
        ProposalKind::Idle => EmitKind::Idle,
        ProposalKind::Connection { addr, incoming, id } => EmitKind::Connection { addr, incoming },
        ProposalKind::OnReadable(id, _) => EmitKind::Readable(id.token),
        ProposalKind::OnWritable(id, _) => EmitKind::Writable(id.token),
        ProposalKind::Custom(_) => EmitKind::Custom,
    }
}

/// The kinds of event the driver reports.
pub enum ProposalKind<R, W, Ext> {
    /// Wakes the state machine before any event, so it can request
    /// something first.
    Wake,
    /// Nothing happened during the time quantum.
    Idle,
    /// A new connection.
    Connection { addr: Addr, incoming: bool, id: ConnectionId },
    /// The remote peer can provide data.
    OnReadable(ConnectionId, R),
    /// The remote peer can accept data.
    OnWritable(ConnectionId, W),
    /// User-defined.
    Custom(Ext),
}

/// The text of a proposal kind.  A user-defined proposal renders as the
/// word `custom` alone: its payload is the user's to render.
pub open spec fn spec_kind_text<R, W, Ext>(kind: ProposalKind<R, W, Ext>) -> Seq<char> {
    match kind {
        ProposalKind::Wake => "wake"@,
        ProposalKind::Idle => "idle..."@,
        ProposalKind::Connection { addr, incoming, id } => (if incoming {
            "new incoming connection: "@
        } else {
            "new outgoing connection: "@
        }) + spec_connection_id_text(id) + ", addr: "@ + spec_addr_text(addr),
        ProposalKind::OnReadable(id, _) => "local peer can read from "@ + spec_connection_id_text(
            id,
        ),
        ProposalKind::OnWritable(id, _) => "local peer can write to "@ + spec_connection_id_text(
            id,
        ),
        ProposalKind::Custom(_) => "custom"@,
    }
}

impl<R, W, Ext> ProposalKind<R, W, Ext> {
    /// Renders the kind, character for character as [`spec_kind_text`]
    /// spells it.
    pub fn describe(&self) -> (r: String)
        ensures
            r@ == spec_kind_text(*self),
    {
        proof {
            reveal_strlit("wake");
            reveal_strlit("idle...");
            reveal_strlit("new incoming connection: ");
            reveal_strlit("new outgoing connection: ");
            reveal_strlit(", addr: ");
            reveal_strlit("local peer can read from ");
            reveal_strlit("local peer can write to ");
            reveal_strlit("custom");
        }
        match self {
            ProposalKind::Wake => String::from_str("wake"),
            ProposalKind::Idle => String::from_str("idle..."),
            ProposalKind::Connection { addr, incoming, id } => {
                let mut r = if *incoming {
                    String::from_str("new incoming connection: ")
                } else {
                    String::from_str("new outgoing connection: ")
                };
                r.append(id.describe().as_str());
                r.append(", addr: ");
                r.append(addr.describe().as_str());
                proof {
                    assert(r@ =~= spec_kind_text(*self));
                }
                r
            },
            ProposalKind::OnReadable(id, _) => {
                let mut r = String::from_str("local peer can read from ");
                r.append(id.describe().as_str());
                proof {
                    assert(r@ =~= spec_kind_text(*self));
                }
                r
            },
            ProposalKind::OnWritable(id, _) => {
                let mut r = String::from_str("local peer can write to ");
                r.append(id.describe().as_str());
                proof {
                    assert(r@ =~= spec_kind_text(*self));
                }
                r
            },
            ProposalKind::Custom(_) => String::from_str("custom"),
        }
    }
}

} // verus!
