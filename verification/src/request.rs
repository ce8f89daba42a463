//! The state machine's reply to a proposal: a batch of driver commands.
//!
//! A request carries at most one listening-source change, a batch of peers
//! to blacklist, and a batch of peers to connect to.  All mutators are
//! additive and return the value; merging two requests keeps the first
//! non-empty source and concatenates the two batches in order, which makes
//! the empty request an identity and the merge a monoid.

use vstd::prelude::*;

use crate::addr::Addr;
use crate::addr_buf::addr_buf_seq;
use crate::addr_buf::AddrBuf;
use crate::addr_buf::buf_append;
use crate::addr_buf::buf_is_empty;
use crate::addr_buf::buf_new;
use crate::addr_buf::buf_push;
use crate::addr_buf::buf_take;
use crate::text::dec_u32;
use crate::text::spec_dec;

verus! {

/// Whether the driver listens for incoming connections, and on which port
/// (bound to all interfaces).
#[derive(Debug, Clone, Copy, PartialEq, Eq, Structural)]
pub enum ConnectionSource {
    /// No incoming connections allowed.
    Off,
    /// Listen at this port.
    Port(u16),
}

/// The text of a connection source: `none`, or `port(p)`.
pub open spec fn spec_source_text(s: ConnectionSource) -> Seq<char> {
    match s {
        ConnectionSource::Off => "none"@,
        ConnectionSource::Port(p) => "port("@ + spec_dec(p as int) + ")"@,
    }
}

impl ConnectionSource {
    /// Renders the source, character for character as
    /// [`spec_source_text`] spells it.
    pub fn describe(&self) -> (r: String)
        ensures
            r@ == spec_source_text(*self),
    {
        proof {
            reveal_strlit("none");
            reveal_strlit("port(");
            reveal_strlit(")");
        }
        match self {
            ConnectionSource::Off => String::from_str("none"),
            ConnectionSource::Port(p) => {
                let mut r = String::from_str("port(");
                r.append(dec_u32(*p as u32).as_str());
                r.append(")");
                proof {
                    assert(r@ =~= spec_source_text(*self));
                }
                r
            },
        }
    }
}

/// The mathematical content of a [`Request`]: the pending source change and
/// the two address batches, in order.
#[verifier::ext_equal]
pub ghost struct RequestModel {
    pub source: Option<ConnectionSource>,
    pub blacklist: Seq<Addr>,
    pub connect: Seq<Addr>,
}

/// The model of a request that asks for nothing.
pub open spec fn empty_model() -> RequestModel {
    RequestModel {
        source: Option::<ConnectionSource>::None,
        blacklist: Seq::<Addr>::empty(),
        connect: Seq::<Addr>::empty(),
    }
}

/// The merge of two request models: the first non-empty source wins, the
/// batches are concatenated in order.
pub open spec fn merge_model(a: RequestModel, b: RequestModel) -> RequestModel {
    RequestModel {
        source: if a.source is Some {
            a.source
        } else {
            b.source
        },
        blacklist: a.blacklist + b.blacklist,
        connect: a.connect + b.connect,
    }
}

/// A batch of commands for the driver.  The driver performs them in a fixed
/// order: first the source change, then the blacklist, then the connects.
#[derive(Debug)]
pub struct Request {
    source: Option<ConnectionSource>,
    blacklist: AddrBuf,
    connect: AddrBuf,
}

impl View for Request {
    type V = RequestModel;

    closed spec fn view(&self) -> RequestModel {
        RequestModel {
            source: self.source,
            blacklist: addr_buf_seq(self.blacklist),
            connect: addr_buf_seq(self.connect),
        }
    }
}

impl Default for Request {
    /// The empty request.
    fn default() -> (r: Request)
        ensures
            r@ == empty_model(),
    {
        let r = Request { source: Option::<ConnectionSource>::None, blacklist: buf_new(), connect: buf_new() };
        proof {
            assert(r@ =~= empty_model());
        }
        r
    }
}

impl Request {
    /// Replaces the requested listening source; a later call within one
    /// request overwrites an earlier one.
    pub fn set_source(self, source: ConnectionSource) -> (r: Self)
        ensures
            r@ == (RequestModel { source: Some(source), ..self@ }),
    {
        let mut s = self;
        s.source = Some(source);
        s
    }

    /// Appends one peer to the blacklist batch.
    pub fn add_to_blacklist(self, addr: Addr) -> (r: Self)
        ensures
            r@ == (RequestModel { blacklist: self@.blacklist.push(addr), ..self@ }),
    {
        let mut s = self;
        buf_push(&mut s.blacklist, addr);
        s
    }

    /// Appends a batch of peers to the blacklist batch, in order.
    pub fn add_batch_to_blacklist(self, batch: Vec<Addr>) -> (r: Self)
        ensures
            r@ == (RequestModel { blacklist: self@.blacklist + batch@, ..self@ }),
    {
        let mut s = self;
        let mut i: usize = 0;
        while i < batch.len()
            invariant
                i <= batch.len(),
                s.source == self@.source,
                addr_buf_seq(s.connect) == self@.connect,
                addr_buf_seq(s.blacklist) == self@.blacklist + batch@.subrange(0, i as int),
            decreases batch.len() - i,
        {
            buf_push(&mut s.blacklist, batch[i]);
            proof {
                assert(batch@.subrange(0, i as int).push(batch@[i as int]) =~= batch@.subrange(
                    0,
                    i as int + 1,
                ));
            }
            i = i + 1;
        }
        proof {
            assert(batch@.subrange(0, batch@.len() as int) =~= batch@);
        }
        s
    }

    /// Appends one peer to the connect batch.
    pub fn add_connect(self, addr: Addr) -> (r: Self)
        ensures
            r@ == (RequestModel { connect: self@.connect.push(addr), ..self@ }),
    {
        let mut s = self;
        buf_push(&mut s.connect, addr);
        s
    }

    /// Appends a batch of peers to the connect batch, in order.
    pub fn add_batch_connect(self, batch: Vec<Addr>) -> (r: Self)
        ensures
            r@ == (RequestModel { connect: self@.connect + batch@, ..self@ }),
    {
        let mut s = self;
        let mut i: usize = 0;
        while i < batch.len()
            invariant
                i <= batch.len(),
                s.source == self@.source,
                addr_buf_seq(s.blacklist) == self@.blacklist,
                addr_buf_seq(s.connect) == self@.connect + batch@.subrange(0, i as int),
            decreases batch.len() - i,
        {
            buf_push(&mut s.connect, batch[i]);
            proof {
                assert(batch@.subrange(0, i as int).push(batch@[i as int]) =~= batch@.subrange(
                    0,
                    i as int + 1,
                ));
            }
            i = i + 1;
        }
        proof {
            assert(batch@.subrange(0, batch@.len() as int) =~= batch@);
        }
        s
    }

    /// True iff the request asks for nothing at all.
    pub fn is_empty(&self) -> (r: bool)
        ensures
            r <==> self@ == empty_model(),
    {
        let r = self.source.is_none() && buf_is_empty(&self.blacklist) && buf_is_empty(
            &self.connect,
        );
        proof {
            if r {
                assert(self@ =~= empty_model());
            }
        }
        r
    }

    /// Takes the pending source change, leaving that slot empty.
    pub fn take_new_source(&mut self) -> (r: Option<ConnectionSource>)
        ensures
            r == old(self)@.source,
            final(self)@ == (RequestModel { source: Option::<ConnectionSource>::None, ..old(self)@ }),
    {
        self.source.take()
    }

    /// Takes the blacklist batch, leaving it empty.
    pub fn take_blacklist(&mut self) -> (r: Vec<Addr>)
        ensures
            r@ == old(self)@.blacklist,
            final(self)@ == (RequestModel { blacklist: Seq::<Addr>::empty(), ..old(self)@ }),
    {
        buf_take(&mut self.blacklist)
    }

    /// Takes the connect batch, leaving it empty.
    pub fn take_connects(&mut self) -> (r: Vec<Addr>)
        ensures
            r@ == old(self)@.connect,
            final(self)@ == (RequestModel { connect: Seq::<Addr>::empty(), ..old(self)@ }),
    {
        buf_take(&mut self.connect)
    }

    /// Merges `rhs` into `self`: the source slot is only filled from `rhs`
    /// if it was empty here, and the batches of `rhs` are appended in order.
    pub fn merge(&mut self, rhs: Request)
        ensures
            final(self)@ == merge_model(old(self)@, rhs@),
    {
        let ghost rhs0 = rhs@;
        let Request { source, mut blacklist, mut connect } = rhs;
        if self.source.is_none() && source.is_some() {
            self.source = source;
        }
        buf_append(&mut self.blacklist, &mut blacklist);
        buf_append(&mut self.connect, &mut connect);
        proof {
            assert(self@ =~= merge_model(old(self)@, rhs0));
        }
    }
}

/// The empty request is a left identity for the merge.
pub proof fn lemma_merge_left_identity(m: RequestModel)
    ensures
        merge_model(empty_model(), m) == m,
{
    assert(merge_model(empty_model(), m) =~= m);
}

/// The empty request is a right identity for the merge.
pub proof fn lemma_merge_right_identity(m: RequestModel)
    ensures
        merge_model(m, empty_model()) == m,
{
    assert(merge_model(m, empty_model()) =~= m);
}

/// The merge is associative; with the identities above it is a monoid.
pub proof fn lemma_merge_associative(a: RequestModel, b: RequestModel, c: RequestModel)
    ensures
        merge_model(merge_model(a, b), c) == merge_model(a, merge_model(b, c)),
{
    assert(merge_model(merge_model(a, b), c) =~= merge_model(a, merge_model(b, c)));
}

/// The merge preserves the order of both batches: the left operand's
/// entries come first, each side in its own order.
pub proof fn lemma_merge_preserves_order(a: RequestModel, b: RequestModel)
    ensures
        merge_model(a, b).blacklist.len() == a.blacklist.len() + b.blacklist.len(),
        merge_model(a, b).connect.len() == a.connect.len() + b.connect.len(),
        forall|i: int|
            0 <= i < a.blacklist.len() ==> merge_model(a, b).blacklist[i] == a.blacklist[i],
        forall|i: int|
            0 <= i < b.blacklist.len() ==> merge_model(a, b).blacklist[a.blacklist.len() + i]
                == b.blacklist[i],
        forall|i: int| 0 <= i < a.connect.len() ==> merge_model(a, b).connect[i] == a.connect[i],
        forall|i: int|
            0 <= i < b.connect.len() ==> merge_model(a, b).connect[a.connect.len() + i]
                == b.connect[i],
{
}

/// Merging two requests that both carry a source keeps the first; more
/// generally any non-empty source on the left survives the merge.
pub proof fn lemma_merge_keeps_first_source(a: RequestModel, b: RequestModel)
    requires
        a.source is Some,
    ensures
        merge_model(a, b).source == a.source,
{
}

} // verus!
