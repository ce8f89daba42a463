//! The per-iteration driver.
//!
//! A proposer bridges the OS poller and the user's state machine.  Each
//! call of [`Proposer::run`] performs one iteration in a fixed order:
//! apply the pending source change, apply the pending blacklist, purge and
//! re-arm the poller, initiate pending connects, wait for readiness, and
//! fan the events out as proposals.  The very first call instead delivers
//! a single wake-up proposal, so the state machine can ask for something
//! before any event exists.
//!
//! Every proposal the proposer ever emits is mirrored in a ghost trace, so
//! that the per-iteration shape — wake first; a quiet iteration emits one
//! idle and no readiness; an admitted incoming peer was never blacklisted
//! — is stated and checked over that trace.

use vstd::prelude::*;

use crate::addr::Addr;
use crate::managed_stream::TcpReadOnce;
use crate::managed_stream::TcpWriteOnce;
use crate::proposal::kind_tag;
use crate::proposal::ConnectionId;
use crate::proposal::EmitKind;
use crate::proposal::ProposalKind;
use crate::proposer_error::connect_error_pushed;
use crate::proposer_error::only_accept_error_may_change;
use crate::proposer_error::ProposerError;
use crate::request::empty_model;
use crate::request::ConnectionSource;
use crate::request::Request;
use crate::request::RequestModel;
use crate::state::State;
use crate::stream_registry::StreamRegistry;
use crate::sys::events_list;
use crate::sys::events_new;
use crate::sys::EventInfo;
use crate::sys::LISTENER_TOKEN;
use crate::time::TimeTracker;

verus! {

/// Whether a result carries a connect error recorded against an address.
pub open spec fn connect_error_for(r: Result<(), ProposerError>, a: Addr) -> bool {
    r is Err && exists|j: int|
        0 <= j < r->Err_0.connect_errors@.len() && (#[trigger] r->Err_0.connect_errors@[j]).0 == a
}

/// The IPs of a batch of addresses, as the blacklist collects them.
pub open spec fn ips_of(batch: Seq<Addr>) -> Set<crate::addr::Ip> {
    batch.map_values(|a: Addr| a.ip).to_set()
}

/// An IP is among a batch's IPs iff some entry carries it.
pub proof fn lemma_ips_of_contains(batch: Seq<Addr>, x: crate::addr::Ip)
    ensures
        ips_of(batch).contains(x) <==> exists|i: int| 0 <= i < batch.len() && batch[i].ip == x,
{
    let mapped = batch.map_values(|a: Addr| a.ip);
    if ips_of(batch).contains(x) {
        let i = choose|i: int| 0 <= i < mapped.len() && mapped[i] == x;
        assert(batch[i].ip == x);
    }
    if exists|i: int| 0 <= i < batch.len() && batch[i].ip == x {
        let i = choose|i: int| 0 <= i < batch.len() && batch[i].ip == x;
        assert(mapped[i] == x);
        assert(mapped.contains(x));
    }
}

/// An outbound connection announcement.
pub open spec fn is_outbound(k: EmitKind) -> bool {
    match k {
        EmitKind::Connection { addr, incoming } => !incoming,
        _ => false,
    }
}

/// The address an outbound announcement carries (arbitrary elsewhere).
pub open spec fn outbound_addr_of(k: EmitKind) -> Addr
    recommends
        is_outbound(k),
{
    match k {
        EmitKind::Connection { addr, incoming } => addr,
        _ => arbitrary(),
    }
}

/// The addresses of a trace's outbound announcements, in trace order.
pub open spec fn outbound_addrs(s: Seq<EmitKind>) -> Seq<Addr>
    decreases s.len(),
{
    if s.len() == 0 {
        Seq::<Addr>::empty()
    } else {
        outbound_addrs(s.drop_last()) + if is_outbound(s.last()) {
            seq![outbound_addr_of(s.last())]
        } else {
            Seq::<Addr>::empty()
        }
    }
}

/// One entry extends the outbound addresses by its own.
pub proof fn lemma_outbound_addrs_push(s: Seq<EmitKind>, k: EmitKind)
    ensures
        is_outbound(k) ==> outbound_addrs(s.push(k)) == outbound_addrs(s).push(
            outbound_addr_of(k),
        ),
        !is_outbound(k) ==> outbound_addrs(s.push(k)) == outbound_addrs(s),
{
    assert(s.push(k).drop_last() =~= s);
    if is_outbound(k) {
        assert(outbound_addrs(s) + seq![outbound_addr_of(k)] =~= outbound_addrs(s).push(
            outbound_addr_of(k),
        ));
    } else {
        assert(outbound_addrs(s) + Seq::<Addr>::empty() =~= outbound_addrs(s));
    }
}

/// Outbound addresses add up over concatenation.
pub proof fn lemma_outbound_addrs_concat(a: Seq<EmitKind>, b: Seq<EmitKind>)
    ensures
        outbound_addrs(a + b) == outbound_addrs(a) + outbound_addrs(b),
    decreases b.len(),
{
    if b.len() == 0 {
        assert(a + b =~= a);
        assert(outbound_addrs(a) + outbound_addrs(b) =~= outbound_addrs(a));
    } else {
        assert((a + b).drop_last() =~= a + b.drop_last());
        lemma_outbound_addrs_concat(a, b.drop_last());
        assert((a + b).last() == b.last());
        lemma_outbound_addrs_push(a + b.drop_last(), b.last());
        assert(a + b =~= (a + b.drop_last()).push(b.last()));
        lemma_outbound_addrs_push(b.drop_last(), b.last());
        if is_outbound(b.last()) {
            assert(outbound_addrs(a) + outbound_addrs(b) =~= (outbound_addrs(a) + outbound_addrs(
                b.drop_last(),
            )).push(outbound_addr_of(b.last())));
        }
    }
}

/// A trace without outbound announcements contributes no addresses.
pub proof fn lemma_outbound_addrs_none(s: Seq<EmitKind>)
    requires
        forall|i: int| 0 <= i < s.len() ==> !is_outbound(#[trigger] s[i]),
    ensures
        outbound_addrs(s) == Seq::<Addr>::empty(),
    decreases s.len(),
{
    if s.len() > 0 {
        assert(forall|i: int|
            0 <= i < s.len() - 1 ==> s.drop_last()[i] == #[trigger] s[i]);
        lemma_outbound_addrs_none(s.drop_last());
        assert(outbound_addrs(s) =~= Seq::<Addr>::empty());
    }
}

/// `x` is a subsequence of `y`: all of `x`, in order, possibly with gaps.
pub open spec fn is_subseq_of<A>(x: Seq<A>, y: Seq<A>) -> bool
    decreases x.len() + y.len(),
{
    if x.len() == 0 {
        true
    } else if y.len() == 0 {
        false
    } else if x.last() == y.last() {
        is_subseq_of(x.drop_last(), y.drop_last()) || is_subseq_of(x, y.drop_last())
    } else {
        is_subseq_of(x, y.drop_last())
    }
}

/// Appending the same element to both sides keeps a subsequence.
pub proof fn lemma_subseq_push_both<A>(x: Seq<A>, y: Seq<A>, a: A)
    requires
        is_subseq_of(x, y),
    ensures
        is_subseq_of(x.push(a), y.push(a)),
{
    assert(x.push(a).drop_last() =~= x);
    assert(y.push(a).drop_last() =~= y);
}

/// Extending the right side alone keeps a subsequence.
pub proof fn lemma_subseq_extend_right<A>(x: Seq<A>, y: Seq<A>, a: A)
    requires
        is_subseq_of(x, y),
    ensures
        is_subseq_of(x, y.push(a)),
{
    assert(y.push(a).drop_last() =~= y);
    if x.len() > 0 && x.last() == a {
        assert(is_subseq_of(x, y.push(a)));
    }
}

/// What one readiness event may add to the trace: nothing, one readiness
/// proposal, or both — and then the writable one first.
pub open spec fn readiness_shape(added: Seq<EmitKind>) -> bool {
    ||| added == Seq::<EmitKind>::empty()
    ||| (added.len() == 1 && (added[0] is Writable || added[0] is Readable))
    ||| (added.len() == 2 && added[0] is Writable && added[1] is Readable)
}

/// A readiness proposal, or an incoming connection: what only a readiness
/// event can cause.
pub open spec fn is_busy(k: EmitKind) -> bool {
    match k {
        EmitKind::Readable(_) => true,
        EmitKind::Writable(_) => true,
        EmitKind::Connection { addr, incoming } => incoming,
        _ => false,
    }
}

/// How many idle proposals a trace holds.
pub open spec fn idle_count(s: Seq<EmitKind>) -> nat
    decreases s.len(),
{
    if s.len() == 0 {
        0
    } else {
        idle_count(s.drop_last()) + if s.last() is Idle {
            1nat
        } else {
            0nat
        }
    }
}

/// No entry is an idle or a readiness-driven proposal: the shape of the
/// outbound-connect phase of an iteration.
pub open spec fn all_outbound(s: Seq<EmitKind>) -> bool {
    forall|i: int| 0 <= i < s.len() ==> !is_busy(#[trigger] s[i]) && !(s[i] is Idle)
}

/// What one iteration may append to the trace: either no idle at all, or
/// exactly one idle and nothing that a readiness event would have caused.
pub open spec fn quiet_or_busy(added: Seq<EmitKind>) -> bool {
    ||| idle_count(added) == 0
    ||| (idle_count(added) == 1 && forall|i: int| 0 <= i < added.len() ==> !is_busy(#[trigger] added[i]))
}

/// Appending one entry adds its own idle count.
pub proof fn lemma_idle_count_push(s: Seq<EmitKind>, k: EmitKind)
    ensures
        idle_count(s.push(k)) == idle_count(s) + if k is Idle {
            1nat
        } else {
            0nat
        },
{
    assert(s.push(k).drop_last() =~= s);
}

/// Idle counts add up over concatenation.
pub proof fn lemma_idle_count_concat(a: Seq<EmitKind>, b: Seq<EmitKind>)
    ensures
        idle_count(a + b) == idle_count(a) + idle_count(b),
    decreases b.len(),
{
    if b.len() == 0 {
        assert(a + b =~= a);
    } else {
        assert((a + b).drop_last() =~= a + b.drop_last());
        lemma_idle_count_concat(a, b.drop_last());
    }
}

/// An all-outbound trace holds no idle.
pub proof fn lemma_all_outbound_no_idle(s: Seq<EmitKind>)
    requires
        all_outbound(s),
    ensures
        idle_count(s) == 0,
    decreases s.len(),
{
    if s.len() > 0 {
        assert(all_outbound(s.drop_last())) by {
            assert(forall|i: int|
                0 <= i < s.len() - 1 ==> s.drop_last()[i] == #[trigger] s[i]);
        }
        lemma_all_outbound_no_idle(s.drop_last());
    }
}

/// Wake-first: whatever a well-formed proposer has gone through, if it
/// ever emitted anything, the very first proposal it ever delivered was
/// the wake-up.
pub proof fn lemma_wake_first(p: &Proposer)
    requires
        p.wf(),
        p.trace().len() > 0,
    ensures
        p.trace()[0] is Wake,
{
}

/// The driver: serves the state machine's requests and feeds network
/// events back to it as proposals.
pub struct Proposer {
    started: bool,
    request: Request,
    registry: StreamRegistry,
    events: mio::Events,
    id: u16,
    emitted: Ghost<Seq<EmitKind>>,
}

impl Proposer {
    /// Everything the proposer has ever emitted, oldest first.
    pub closed spec fn trace(&self) -> Seq<EmitKind> {
        self.emitted@
    }

    /// Whether the wake-up was already delivered.
    pub closed spec fn spec_started(&self) -> bool {
        self.started
    }

    /// The registry's blacklist, as the proposer's contracts speak of it.
    pub closed spec fn s_blacklist(&self) -> Set<crate::addr::Ip> {
        self.registry.s_blacklist()
    }

    /// The pending request: what the state machine has asked for and the
    /// driver has not performed yet.
    pub closed spec fn s_pending(&self) -> RequestModel {
        self.request@
    }

    /// The driver instance's identifier, as connection ids carry it.
    pub closed spec fn spec_id(&self) -> u16 {
        self.id
    }

    /// The port the registry's listener is bound to, if one is installed.
    pub closed spec fn s_listen_port(&self) -> Option<u16> {
        self.registry.s_listen_port()
    }

    /// The registry's connection table.
    pub closed spec fn s_streams(&self) -> Map<Addr, usize> {
        self.registry.s_streams()
    }

    /// The registry's armed-token table.
    pub closed spec fn s_armed(&self) -> Map<usize, Addr> {
        self.registry.s_armed()
    }

    /// The next token the registry's counter will hand out.
    pub closed spec fn s_next(&self) -> usize {
        self.registry.s_next()
    }

    /// Well-formedness: the registry is sound, no error is pending between
    /// iterations, and the trace is empty until the wake-up, which is
    /// always its first entry.
    pub closed spec fn wf(&self) -> bool {
        &&& self.registry.wf()
        &&& self.registry.s_error().spec_is_empty()
        &&& (self.started <==> self.trace().len() > 0)
        &&& self.trace().len() > 0 ==> self.trace()[0] is Wake
    }

    /// A fresh proposer: nothing emitted, nothing pending, empty tables,
    /// empty blacklist, no listener, the token counter at zero, and the
    /// given instance id; `Err` iff the OS refused to create the poll set.
    pub fn new(id: u16, events_capacity: usize) -> (r: Result<Proposer, std::io::Error>)
        ensures
            r is Ok ==> {
                &&& r->Ok_0.wf()
                &&& !r->Ok_0.spec_started()
                &&& r->Ok_0.trace() == Seq::<EmitKind>::empty()
                &&& r->Ok_0.spec_id() == id
                &&& r->Ok_0.s_pending() == empty_model()
                &&& r->Ok_0.s_blacklist() == Set::<crate::addr::Ip>::empty()
                &&& r->Ok_0.s_streams() == Map::<Addr, usize>::empty()
                &&& r->Ok_0.s_armed() == Map::<usize, Addr>::empty()
                &&& r->Ok_0.s_listen_port() is None
                &&& r->Ok_0.s_next() == 0
            },
    {
        match StreamRegistry::new() {
            Ok(registry) => Ok(
                Proposer {
                    started: false,
                    request: Request::default(),
                    registry,
                    events: events_new(events_capacity),
                    id,
                    emitted: Ghost(Seq::<EmitKind>::empty()),
                },
            ),
            Err(e) => Err(e),
        }
    }

    /// Stamps and delivers one proposal through the tracker — the
    /// tracker's own delivery trace grows by exactly this kind — records
    /// it in the proposer's trace, and folds the state machine's reply
    /// into the pending request.
    fn send_proposal<Rngs, S>(
        &mut self,
        tracker: &mut TimeTracker<Rngs, S, TcpReadOnce, TcpWriteOnce>,
        kind: ProposalKind<TcpReadOnce, TcpWriteOnce, S::Ext>,
    ) where
        Rngs: Iterator<Item = S::Rng>,
        S: State<TcpReadOnce, TcpWriteOnce>,

        ensures
            final(self).emitted@ == old(self).emitted@.push(kind_tag(kind)),
            final(tracker).trace() == old(tracker).trace().push(kind_tag(kind)),
            final(self).registry == old(self).registry,
            final(self).started == old(self).started,
            final(self).id == old(self).id,
            final(self).events == old(self).events,
    {
        let ghost tag = kind_tag(kind);
        let reply = tracker.send(kind);
        self.request.merge(reply);
        proof {
            self.emitted@ = self.emitted@.push(tag);
        }
    }

    /// Runs one iteration: the one-time wake-up on the first call, a full
    /// drive of the pipeline afterwards.  The trace only grows, what one
    /// call appends is of the per-iteration shape
    /// ([`quiet_or_busy`]: at most one idle, and only in an iteration
    /// without readiness work), the first call appends exactly the
    /// wake-up, and no incoming connection is admitted from an IP that was
    /// blacklisted when the call began.  An iteration applies the pending
    /// request: the blacklist becomes the old one plus the pending batch's
    /// IPs (it never shrinks), the pending source decides the listening
    /// port (a bind failure surfaces in the result), the outbound
    /// announcements are a subsequence of the pending connect batch
    /// preceding all event-driven proposals, and every pending connect is
    /// connected or reported (short of token-counter exhaustion, which one
    /// cannot reach).  `Err` carries everything that went wrong in this
    /// iteration, and is never empty.
    pub fn run<Rngs, S>(
        &mut self,
        tracker: &mut TimeTracker<Rngs, S, TcpReadOnce, TcpWriteOnce>,
        timeout: core::time::Duration,
    ) -> (r: Result<(), ProposerError>) where
        Rngs: Iterator<Item = S::Rng>,
        S: State<TcpReadOnce, TcpWriteOnce>,

        requires
            old(self).wf(),
        ensures
            final(self).wf(),
            final(self).spec_started(),
            final(self).trace().len() >= old(self).trace().len(),
            final(self).trace().subrange(0, old(self).trace().len() as int) == old(self).trace(),
            !old(self).spec_started() ==> final(self).trace() == old(self).trace().push(
                EmitKind::Wake,
            ) && r is Ok,
            old(self).spec_started() ==> quiet_or_busy(
                final(self).trace().skip(old(self).trace().len() as int),
            ),
            forall|k: int|
                old(self).trace().len() <= k < final(self).trace().len() ==> ((#[trigger] final(self).trace()[k]) matches EmitKind::Connection { addr, incoming: true } ==> !old(self).s_blacklist().contains(addr.ip)),
            !old(self).spec_started() ==> final(self).s_blacklist() == old(self).s_blacklist()
                && final(self).s_listen_port() == old(self).s_listen_port() && final(self).s_streams() == old(self).s_streams(),
            old(self).spec_started() ==> final(self).s_blacklist() == old(self).s_blacklist().union(ips_of(old(self).s_pending().blacklist)),
            forall|ip: crate::addr::Ip| #![auto]
                old(self).s_blacklist().contains(ip) ==> final(self).s_blacklist().contains(ip),
            old(self).spec_started() && old(self).s_pending().source is None ==> final(self).s_listen_port() == old(self).s_listen_port(),
            old(self).spec_started() && old(self).s_pending().source is Some ==> ({
                let src = old(self).s_pending().source->Some_0;
                &&& (src is Off ==> final(self).s_listen_port() is None)
                &&& (src is Port ==> final(self).s_listen_port() == Some(src->Port_0) || (
                r is Err && r->Err_0.listen_error is Some && r->Err_0.listen_error->Some_0.0
                    == src))
            }),
            old(self).spec_started() ==> forall|k: int|
                old(self).trace().len() <= k < final(self).trace().len() ==> ((#[trigger] final(self).trace()[k]) matches EmitKind::Connection { addr, incoming: false } ==> old(self).s_pending().connect.contains(addr)),
            old(self).spec_started() ==> is_subseq_of(
                outbound_addrs(final(self).trace().skip(old(self).trace().len() as int)),
                old(self).s_pending().connect,
            ),
            old(self).spec_started() ==> forall|i: int, j: int|
                old(self).trace().len() <= i < j < final(self).trace().len() && !is_outbound(
                    #[trigger] final(self).trace()[i],
                ) ==> !is_outbound(#[trigger] final(self).trace()[j]),
            old(self).spec_started() ==> forall|i: int|
                0 <= i < old(self).s_pending().connect.len() && old(self).s_next() + old(self).s_pending().connect.len() < usize::MAX ==> final(self).s_streams().contains_key(
                    #[trigger] old(self).s_pending().connect[i],
                ) || connect_error_for(r, old(self).s_pending().connect[i]),
            old(self).spec_started() ==> forall|k: int|
                old(self).trace().len() <= k < final(self).trace().len() ==> !((#[trigger] final(self).trace()[k]) is Wake),
            old(self).spec_started() ==> forall|k: int|
                old(self).trace().len() <= k < final(self).trace().len() ==> ((#[trigger] final(self).trace()[k]) matches EmitKind::Connection { addr, incoming: true } ==> !old(self).s_blacklist().union(ips_of(old(self).s_pending().blacklist)).contains(addr.ip)),
            final(tracker).trace() == old(tracker).trace() + final(self).trace().skip(
                old(self).trace().len() as int,
            ),
            r is Err ==> !r->Err_0.spec_is_empty(),
    {
        if !self.started {
            self.started = true;
            let ghost tr0 = tracker.trace();
            self.send_proposal(tracker, ProposalKind::Wake);
            proof {
                assert(self.trace() =~= old(self).trace().push(EmitKind::Wake));
                assert(self.trace().subrange(0, old(self).trace().len() as int) =~= old(self).trace());
                assert(self.trace().skip(old(self).trace().len() as int) =~= seq![
                    EmitKind::Wake,
                ]);
                assert(tr0 + seq![EmitKind::Wake] =~= tr0.push(EmitKind::Wake));
            }
            Ok(())
        } else {
            self.run_inner(tracker, timeout)
        }
    }

    /// One full iteration, in the fixed order: source change, blacklist,
    /// re-arm, connects, poll, dispatch, collected errors.  The contract
    /// pins the bookkeeping half of that work: the pending source is
    /// applied (a bind failure surfaces in the result), the final
    /// blacklist is exactly the old one plus the pending batch's IPs, the
    /// outbound announcements are a subsequence of the pending connect
    /// batch and all precede the event-driven proposals, and every pending
    /// connect ends up connected or reported (unless the token counter is
    /// exhausted, which one cannot reach).
    #[verifier::loop_isolation(false)]
    #[verifier::rlimit(60)]
    fn run_inner<Rngs, S>(
        &mut self,
        tracker: &mut TimeTracker<Rngs, S, TcpReadOnce, TcpWriteOnce>,
        timeout: core::time::Duration,
    ) -> (r: Result<(), ProposerError>) where
        Rngs: Iterator<Item = S::Rng>,
        S: State<TcpReadOnce, TcpWriteOnce>,

        requires
            old(self).wf(),
            old(self).spec_started(),
        ensures
            final(self).wf(),
            final(self).spec_started(),
            final(self).trace().len() >= old(self).trace().len(),
            final(self).trace().subrange(0, old(self).trace().len() as int) == old(self).trace(),
            quiet_or_busy(final(self).trace().skip(old(self).trace().len() as int)),
            forall|k: int|
                old(self).trace().len() <= k < final(self).trace().len() ==> ((#[trigger] final(self).trace()[k]) matches EmitKind::Connection { addr, incoming: true } ==> !old(self).s_blacklist().contains(addr.ip)),
            final(self).s_blacklist() == old(self).s_blacklist().union(ips_of(old(self).s_pending().blacklist)),
            forall|ip: crate::addr::Ip| #![auto]
                old(self).s_blacklist().contains(ip) ==> final(self).s_blacklist().contains(ip),
            old(self).s_pending().source is None ==> final(self).s_listen_port() == old(self).s_listen_port(),
            old(self).s_pending().source matches Some(src) ==> {
                &&& (src is Off ==> final(self).s_listen_port() is None)
                &&& (src is Port ==> final(self).s_listen_port() == Some(src->Port_0) || (r is Err
                    && r->Err_0.listen_error is Some && r->Err_0.listen_error->Some_0.0 == src))
            },
            forall|k: int|
                old(self).trace().len() <= k < final(self).trace().len() ==> ((#[trigger] final(self).trace()[k]) matches EmitKind::Connection { addr, incoming: false } ==> old(self).s_pending().connect.contains(addr)),
            is_subseq_of(
                outbound_addrs(final(self).trace().skip(old(self).trace().len() as int)),
                old(self).s_pending().connect,
            ),
            forall|i: int, j: int|
                old(self).trace().len() <= i < j < final(self).trace().len() && !is_outbound(
                    #[trigger] final(self).trace()[i],
                ) ==> !is_outbound(#[trigger] final(self).trace()[j]),
            forall|i: int|
                0 <= i < old(self).s_pending().connect.len() && old(self).s_next() + old(self).s_pending().connect.len() < usize::MAX ==> final(self).s_streams().contains_key(
                    #[trigger] old(self).s_pending().connect[i],
                ) || connect_error_for(r, old(self).s_pending().connect[i]),
            forall|k: int|
                old(self).trace().len() <= k < final(self).trace().len() ==> !((#[trigger] final(self).trace()[k]) is Wake),
            forall|k: int|
                old(self).trace().len() <= k < final(self).trace().len() ==> ((#[trigger] final(self).trace()[k]) matches EmitKind::Connection { addr, incoming: true } ==> !old(self).s_blacklist().union(ips_of(old(self).s_pending().blacklist)).contains(addr.ip)),
            final(tracker).trace() == old(tracker).trace() + final(self).trace().skip(
                old(self).trace().len() as int,
            ),
            r is Err ==> !r->Err_0.spec_is_empty(),
    {
        let ghost base = self.trace().len();
        let ghost pend = old(self).s_pending();
        proof {
            assert(self.emitted@.subrange(0, base as int) =~= self.emitted@);
            assert(self.emitted@.skip(base as int) =~= Seq::<EmitKind>::empty());
            assert(tracker.trace() + self.emitted@.skip(base as int) =~= tracker.trace());
        }

        // 1. Apply the pending source change.
        let new_source = self.request.take_new_source();
        if let Some(source) = new_source {
            self.registry.set_source(source);
        }
        let ghost port1 = self.registry.s_listen_port();
        let ghost lerr1 = self.registry.s_error().listen_error;
        proof {
            assert(new_source == pend.source);
            assert(pend.source is None ==> port1 == old(self).s_listen_port() && lerr1 is None);
            assert(pend.source matches Some(src) ==> {
                &&& (src is Off ==> port1 is None && lerr1 is None)
                &&& (src is Port ==> (port1 == Some(src->Port_0) && lerr1 is None) || (
                port1 is None && lerr1 is Some && lerr1->Some_0.0 == src))
            });
            assert(self.registry.s_error().connect_errors@.len() == 0);
        }

        // 2. Apply the pending blacklist.
        let to_refuse = self.request.take_blacklist();
        proof {
            assert(to_refuse@ == pend.blacklist);
            assert(self.registry.s_blacklist() =~= old(self).s_blacklist().union(
                ips_of(to_refuse@.subrange(0, 0)),
            )) by {
                lemma_ips_of_contains(to_refuse@.subrange(0, 0), arbitrary());
                assert forall|x: crate::addr::Ip|
                    !ips_of(to_refuse@.subrange(0, 0)).contains(x) by {
                    lemma_ips_of_contains(to_refuse@.subrange(0, 0), x);
                }
            }
        }
        let mut bi: usize = 0;
        while bi < to_refuse.len()
            invariant
                self.registry.wf(),
                self.started == old(self).started,
                self.id == old(self).id,
                self.events == old(self).events,
                self.emitted@ == old(self).emitted@,
                self.registry.s_listen_port() == port1,
                self.registry.s_error().listen_error == lerr1,
                self.registry.s_error().connect_errors@.len() == 0,
                self.registry.s_next() == old(self).s_next(),
                self.request@.connect == pend.connect,
                tracker.trace() == old(tracker).trace(),
                bi <= to_refuse.len(),
                self.registry.s_blacklist() == old(self).s_blacklist().union(
                    ips_of(to_refuse@.subrange(0, bi as int)),
                ),
                forall|ip: crate::addr::Ip| #![auto]
                    old(self).registry.s_blacklist().contains(ip)
                        ==> self.registry.s_blacklist().contains(ip),
            decreases to_refuse.len() - bi,
        {
            let ghost bl_pre = self.registry.s_blacklist();
            self.registry.blacklist_peer(to_refuse[bi]);
            proof {
                assert forall|x: crate::addr::Ip|
                    bl_pre.insert(to_refuse@[bi as int].ip).contains(x) == old(
                    self,
                ).s_blacklist().union(ips_of(to_refuse@.subrange(0, bi as int + 1))).contains(
                    x,
                ) by {
                    lemma_ips_of_contains(to_refuse@.subrange(0, bi as int), x);
                    lemma_ips_of_contains(to_refuse@.subrange(0, bi as int + 1), x);
                    if ips_of(to_refuse@.subrange(0, bi as int + 1)).contains(x) {
                        let w = choose|w: int|
                            0 <= w < bi as int + 1 && (#[trigger] to_refuse@.subrange(
                                0,
                                bi as int + 1,
                            )[w]).ip == x;
                        if w < bi as int {
                            assert(to_refuse@.subrange(0, bi as int)[w].ip == x);
                        }
                    }
                    if ips_of(to_refuse@.subrange(0, bi as int)).contains(x) {
                        let w = choose|w: int|
                            0 <= w < bi as int && (#[trigger] to_refuse@.subrange(
                                0,
                                bi as int,
                            )[w]).ip == x;
                        assert(to_refuse@.subrange(0, bi as int + 1)[w].ip == x);
                    }
                    if x == to_refuse@[bi as int].ip {
                        assert((to_refuse@.subrange(0, bi as int + 1)[bi as int]).ip == x);
                    }
                }
                assert(self.registry.s_blacklist() =~= old(self).s_blacklist().union(
                    ips_of(to_refuse@.subrange(0, bi as int + 1)),
                ));
            }
            bi = bi + 1;
        }
        proof {
            assert(to_refuse@.subrange(0, to_refuse@.len() as int) =~= to_refuse@);
        }

        // 3. Purge closed streams and re-arm the poller.
        self.registry.reregister();

        // 4. Initiate the pending connects; each success is announced as
        // an outbound connection proposal at once.
        let to_connect = self.request.take_connects();
        proof {
            assert(to_connect@ == pend.connect);
            assert(outbound_addrs(self.emitted@.skip(base as int)) =~= Seq::<Addr>::empty());
            assert(to_connect@.subrange(0, 0) =~= Seq::<Addr>::empty());
        }
        let mut ci: usize = 0;
        while ci < to_connect.len()
            invariant
                self.registry.wf(),
                self.started == old(self).started,
                self.id == old(self).id,
                self.events == old(self).events,
                self.emitted@.len() >= base,
                self.emitted@.subrange(0, base as int) == old(self).emitted@,
                all_outbound(self.emitted@.skip(base as int)),
                forall|k: int|
                    base <= k < self.emitted@.len() ==> is_outbound(#[trigger] self.emitted@[k]),
                tracker.trace() == old(tracker).trace() + self.emitted@.skip(base as int),
                forall|k: int|
                    base <= k < self.emitted@.len() ==> ((#[trigger] self.emitted@[k]) matches
                        EmitKind::Connection { addr, incoming: false } ==> to_connect@.contains(addr)),
                is_subseq_of(
                    outbound_addrs(self.emitted@.skip(base as int)),
                    to_connect@.subrange(0, ci as int),
                ),
                self.registry.s_listen_port() == port1,
                self.registry.s_error().listen_error == lerr1,
                self.registry.s_blacklist() == old(self).s_blacklist().union(
                    ips_of(pend.blacklist),
                ),
                forall|ip: crate::addr::Ip| #![auto]
                    old(self).registry.s_blacklist().contains(ip)
                        ==> self.registry.s_blacklist().contains(ip),
                ci <= to_connect.len(),
                self.registry.s_next() <= old(self).s_next() + ci,
                forall|i: int|
                    0 <= i < ci && old(self).s_next() + to_connect@.len() < usize::MAX
                        ==> self.registry.s_streams().contains_key(
                        #[trigger] to_connect@[i],
                    ) || (exists|j: int|
                        0 <= j < self.registry.s_error().connect_errors@.len() && (
                        #[trigger] self.registry.s_error().connect_errors@[j]).0
                            == to_connect@[i]),
            decreases to_connect.len() - ci,
        {
            let addr = to_connect[ci];
            let ghost reg_pre = self.registry;
            let opened = self.registry.connect_peer(addr);
            proof {
                assert forall|i: int|
                    0 <= i < ci && old(self).s_next() + to_connect@.len() < usize::MAX
                        implies self.registry.s_streams().contains_key(
                    #[trigger] to_connect@[i],
                ) || (exists|j: int|
                    0 <= j < self.registry.s_error().connect_errors@.len() && (
                    #[trigger] self.registry.s_error().connect_errors@[j]).0 == to_connect@[i]) by {
                    if reg_pre.s_streams().contains_key(to_connect@[i]) {
                        assert(self.registry.s_streams().contains_key(to_connect@[i]));
                    } else {
                        let j = choose|j: int|
                            0 <= j < reg_pre.s_error().connect_errors@.len() && (
                            #[trigger] reg_pre.s_error().connect_errors@[j]).0 == to_connect@[i];
                        assert(self.registry.s_error().connect_errors@[j].0 == to_connect@[i]);
                    }
                }
                if opened is None && old(self).s_next() + to_connect@.len() < usize::MAX {
                    assert(reg_pre.s_next() < usize::MAX);
                    assert(reg_pre.s_streams().contains_key(addr) || connect_error_pushed(
                        reg_pre.s_error(),
                        self.registry.s_error(),
                        addr,
                    ));
                    if connect_error_pushed(reg_pre.s_error(), self.registry.s_error(), addr) {
                        let j = self.registry.s_error().connect_errors@.len() - 1;
                        assert(self.registry.s_error().connect_errors@[j].0 == addr);
                    }
                }
            }
            if let Some(token) = opened {
                let id = ConnectionId {
                    poll_id: self.id,
                    token: #[verifier::truncate] (token as u16),
                };
                let ghost before = self.emitted@;
                let ghost tr_before = tracker.trace();
                self.send_proposal(
                    tracker,
                    ProposalKind::Connection { addr, incoming: false, id },
                );
                proof {
                    assert(old(tracker).trace() + before.skip(base as int).push(
                        EmitKind::Connection { addr, incoming: false },
                    ) =~= tr_before.push(EmitKind::Connection { addr, incoming: false }));
                    assert(self.emitted@.subrange(0, base as int) =~= before.subrange(
                        0,
                        base as int,
                    ));
                    assert(self.emitted@.skip(base as int) =~= before.skip(base as int).push(
                        EmitKind::Connection { addr, incoming: false },
                    ));
                    lemma_outbound_addrs_push(
                        before.skip(base as int),
                        EmitKind::Connection { addr, incoming: false },
                    );
                    assert(to_connect@.subrange(0, ci as int + 1) =~= to_connect@.subrange(
                        0,
                        ci as int,
                    ).push(to_connect@[ci as int]));
                    lemma_subseq_push_both(
                        outbound_addrs(before.skip(base as int)),
                        to_connect@.subrange(0, ci as int),
                        addr,
                    );
                    assert forall|i: int|
                        0 <= i < self.emitted@.skip(base as int).len() implies !is_busy(
                        #[trigger] self.emitted@.skip(base as int)[i],
                    ) && !(self.emitted@.skip(base as int)[i] is Idle) by {
                        if i < before.skip(base as int).len() {
                            assert(self.emitted@.skip(base as int)[i] == before.skip(
                                base as int,
                            )[i]);
                        }
                    }
                    assert forall|k: int|
                        base <= k < self.emitted@.len() implies is_outbound(
                        #[trigger] self.emitted@[k],
                    ) by {
                        assert(self.emitted@[k] == self.emitted@.skip(base as int)[k - base]);
                        if k < before.len() {
                            assert(self.emitted@[k] == before[k]);
                        }
                    }
                    assert(to_connect@.contains(to_connect@[ci as int]));
                }
            } else {
                proof {
                    lemma_subseq_extend_right(
                        outbound_addrs(self.emitted@.skip(base as int)),
                        to_connect@.subrange(0, ci as int),
                        to_connect@[ci as int],
                    );
                    assert(to_connect@.subrange(0, ci as int + 1) =~= to_connect@.subrange(
                        0,
                        ci as int,
                    ).push(to_connect@[ci as int]));
                }
            }
            ci = ci + 1;
        }
        proof {
            assert(to_connect@.subrange(0, to_connect@.len() as int) =~= to_connect@);
        }

        // 5. Wait for readiness.
        self.registry.poll(&mut self.events, timeout);

        // 6. Dispatch: a quiet wait is reported as one idle proposal; each
        // event is fanned out to accepts or to readiness proposals.
        let events = events_list(&self.events);
        let ghost connect_phase = self.emitted@;
        let ghost oa2 = outbound_addrs(connect_phase.skip(base as int));
        let ghost ce2 = self.registry.s_error().connect_errors@;
        proof {
            lemma_all_outbound_no_idle(connect_phase.skip(base as int));
            assert forall|k: int| base <= k < self.emitted@.len() implies ((
            #[trigger] self.emitted@[k]) matches EmitKind::Connection {
                addr,
                incoming: true,
            } ==> !old(self).s_blacklist().contains(addr.ip)) by {
                assert(self.emitted@.skip(base as int)[k - base] == self.emitted@[k]);
                assert(!is_busy(self.emitted@.skip(base as int)[k - base]));
            }
            assert forall|k: int| base <= k < self.emitted@.len() implies ((
            #[trigger] self.emitted@[k]) matches EmitKind::Connection {
                addr,
                incoming: true,
            } ==> !old(self).s_blacklist().union(ips_of(pend.blacklist)).contains(
                addr.ip,
            )) by {
                assert(self.emitted@.skip(base as int)[k - base] == self.emitted@[k]);
                assert(!is_busy(self.emitted@.skip(base as int)[k - base]));
            }
        }
        if events.len() == 0 {
            let ghost tr_mid = tracker.trace();
            self.send_proposal(tracker, ProposalKind::Idle);
            proof {
                lemma_all_outbound_no_idle(connect_phase.skip(base as int));
                lemma_idle_count_push(connect_phase.skip(base as int), EmitKind::Idle);
                assert(self.emitted@.skip(base as int) =~= connect_phase.skip(base as int).push(
                    EmitKind::Idle,
                ));
                assert(self.emitted@.subrange(0, base as int) =~= connect_phase.subrange(
                    0,
                    base as int,
                ));
                assert(old(tracker).trace() + connect_phase.skip(base as int).push(
                    EmitKind::Idle,
                ) =~= tr_mid.push(EmitKind::Idle));
                lemma_outbound_addrs_push(connect_phase.skip(base as int), EmitKind::Idle);
                assert forall|k: int|
                    connect_phase.len() <= k < self.emitted@.len() implies !is_outbound(
                    #[trigger] self.emitted@[k],
                ) && !(self.emitted@[k] is Wake) by {
                    assert(self.emitted@.skip(base as int)[k - base] == self.emitted@[k]);
                }
                assert forall|k: int| base <= k < self.emitted@.len() implies ((
                #[trigger] self.emitted@[k]) matches EmitKind::Connection {
                    addr,
                    incoming: true,
                } ==> !old(self).s_blacklist().union(ips_of(pend.blacklist)).contains(
                    addr.ip,
                )) by {
                    assert(self.emitted@.skip(base as int)[k - base] == self.emitted@[k]);
                    if k < connect_phase.len() {
                        assert(self.emitted@[k] == connect_phase[k]);
                        assert(is_outbound(self.emitted@[k]));
                    }
                }
            }
        } else {
            let mut ei: usize = 0;
            while ei < events.len()
                invariant
                    self.registry.wf(),
                    self.started == old(self).started,
                    self.id == old(self).id,
                    self.emitted@.len() >= connect_phase.len(),
                    self.emitted@.subrange(0, base as int) == old(self).emitted@,
                    self.emitted@.subrange(0, connect_phase.len() as int) == connect_phase,
                    idle_count(self.emitted@.skip(base as int)) == 0,
                    outbound_addrs(self.emitted@.skip(base as int)) == oa2,
                    self.registry.s_listen_port() == port1,
                    self.registry.s_error().listen_error == lerr1,
                    self.registry.s_error().connect_errors@ == ce2,
                    self.registry.s_blacklist() == old(self).s_blacklist().union(
                        ips_of(pend.blacklist),
                    ),
                    forall|ip: crate::addr::Ip| #![auto]
                        old(self).registry.s_blacklist().contains(ip)
                            ==> self.registry.s_blacklist().contains(ip),
                    forall|i: int|
                        0 <= i < to_connect@.len() && old(self).s_next() + to_connect@.len()
                            < usize::MAX ==> self.registry.s_streams().contains_key(
                            #[trigger] to_connect@[i],
                        ) || (exists|j: int|
                            0 <= j < self.registry.s_error().connect_errors@.len() && (
                            #[trigger] self.registry.s_error().connect_errors@[j]).0
                                == to_connect@[i]),
                    forall|k: int|
                        connect_phase.len() <= k < self.emitted@.len() ==> !is_outbound(
                            #[trigger] self.emitted@[k],
                        ) && !(self.emitted@[k] is Wake),
                    tracker.trace() == old(tracker).trace() + self.emitted@.skip(base as int),
                    forall|k: int|
                        base <= k < self.emitted@.len() ==> ((#[trigger] self.emitted@[k]) matches
                            EmitKind::Connection { addr, incoming: true } ==> !old(self).s_blacklist().contains(addr.ip)),
                    forall|k: int|
                        base <= k < self.emitted@.len() ==> ((#[trigger] self.emitted@[k]) matches
                            EmitKind::Connection { addr, incoming: true } ==> !old(self).s_blacklist().union(ips_of(pend.blacklist)).contains(addr.ip)),
                decreases events.len() - ei,
            {
                let ev = events[ei];
                let ghost pre = *self;
                let ghost pre_tr = tracker.trace();
                if ev.token == LISTENER_TOKEN {
                    self.drain_accepts(tracker);
                } else {
                    self.dispatch_stream_event(tracker, ev);
                }
                proof {
                    let pn = pre.emitted@.len() as int;
                    assert forall|x: int| 0 <= x < pn implies self.emitted@[x] == pre.emitted@[x] by {
                        assert(self.emitted@.subrange(0, pn)[x] == self.emitted@[x]);
                    }
                    assert(self.emitted@.subrange(0, base as int) =~= old(self).emitted@);
                    assert(self.emitted@.subrange(0, connect_phase.len() as int)
                        =~= connect_phase);
                    assert(self.emitted@.skip(base as int) =~= pre.emitted@.skip(base as int)
                        + self.emitted@.skip(pn));
                    lemma_idle_count_concat(
                        pre.emitted@.skip(base as int),
                        self.emitted@.skip(pn),
                    );
                    assert forall|k: int|
                        0 <= k < self.emitted@.skip(pn).len() implies !is_outbound(
                        #[trigger] self.emitted@.skip(pn)[k],
                    ) by {
                        assert(self.emitted@.skip(pn)[k] == self.emitted@[pn + k]);
                    }
                    lemma_outbound_addrs_none(self.emitted@.skip(pn));
                    lemma_outbound_addrs_concat(
                        pre.emitted@.skip(base as int),
                        self.emitted@.skip(pn),
                    );
                    assert(outbound_addrs(self.emitted@.skip(base as int)) =~= oa2);
                    assert forall|a: Addr|
                        pre.registry.s_streams().contains_key(a)
                            implies self.registry.s_streams().contains_key(a) by {}
                    assert forall|k: int| base <= k < self.emitted@.len() implies ((
                    #[trigger] self.emitted@[k]) matches EmitKind::Connection {
                        addr,
                        incoming: true,
                    } ==> !old(self).s_blacklist().contains(addr.ip)) by {
                        if k < pn {
                            assert(self.emitted@[k] == pre.emitted@[k]);
                        } else {
                            assert(self.emitted@[k] == self.emitted@.skip(pn)[k - pn]);
                        }
                    }
                    assert forall|k: int|
                        connect_phase.len() <= k < self.emitted@.len() implies !is_outbound(
                        #[trigger] self.emitted@[k],
                    ) && !(self.emitted@[k] is Wake) by {
                        if k < pn {
                            assert(self.emitted@[k] == pre.emitted@[k]);
                        } else {
                            assert(self.emitted@[k] == self.emitted@.skip(pn)[k - pn]);
                        }
                    }
                    assert((old(tracker).trace() + pre.emitted@.skip(base as int))
                        + self.emitted@.skip(pn) =~= old(tracker).trace() + (pre.emitted@.skip(
                        base as int,
                    ) + self.emitted@.skip(pn)));
                    assert(tracker.trace() =~= old(tracker).trace() + self.emitted@.skip(
                        base as int,
                    ));
                    assert forall|k: int| base <= k < self.emitted@.len() implies ((
                    #[trigger] self.emitted@[k]) matches EmitKind::Connection {
                        addr,
                        incoming: true,
                    } ==> !old(self).s_blacklist().union(ips_of(pend.blacklist)).contains(
                        addr.ip,
                    )) by {
                        if k < pn {
                            assert(self.emitted@[k] == pre.emitted@[k]);
                        } else {
                            assert(self.emitted@[k] == self.emitted@.skip(pn)[k - pn]);
                        }
                    }
                }
                ei = ei + 1;
            }
        }

        // 7. Hand back everything that went wrong.
        let ghost trace_end = self.emitted@;
        let ghost err_end = self.registry.s_error();
        let res = self.registry.take_result();
        proof {
            // the announcements carry pending addresses, in the batch's order
            assert(is_subseq_of(
                outbound_addrs(self.emitted@.skip(base as int)),
                pend.connect,
            ));
            assert forall|k: int|
                base <= k < self.emitted@.len() implies ((#[trigger] self.emitted@[k]) matches
                EmitKind::Connection { addr, incoming: false } ==> pend.connect.contains(
                addr,
            )) by {
                if k < connect_phase.len() {
                    assert(self.emitted@[k] == self.emitted@.subrange(
                        0,
                        connect_phase.len() as int,
                    )[k]);
                    assert(self.emitted@[k] == connect_phase[k]);
                } else {
                    assert(!is_outbound(self.emitted@[k]));
                }
            }
            // a later iteration never wakes the state machine again
            assert forall|k: int|
                base <= k < self.emitted@.len() implies !((#[trigger] self.emitted@[k]) is Wake) by {
                if k < connect_phase.len() {
                    assert(self.emitted@[k] == self.emitted@.subrange(
                        0,
                        connect_phase.len() as int,
                    )[k]);
                    assert(self.emitted@[k] == connect_phase[k]);
                    assert(is_outbound(self.emitted@[k]));
                }
            }
            // the announcements all precede the event-driven proposals
            assert forall|i: int, j: int|
                base <= i < j < self.emitted@.len() && !is_outbound(
                    #[trigger] self.emitted@[i],
                ) implies !is_outbound(#[trigger] self.emitted@[j]) by {
                if i < connect_phase.len() {
                    assert(self.emitted@[i] == connect_phase[i]);
                    assert(is_outbound(self.emitted@[i]));
                } else {
                    assert(!is_outbound(self.emitted@[j]));
                }
            }
            // every pending connect is connected or reported
            assert forall|i: int|
                0 <= i < pend.connect.len() && old(self).s_next() + pend.connect.len()
                    < usize::MAX implies self.registry.s_streams().contains_key(
                #[trigger] pend.connect[i],
            ) || connect_error_for(res, pend.connect[i]) by {
                if !self.registry.s_streams().contains_key(pend.connect[i]) {
                    let j = choose|j: int|
                        0 <= j < err_end.connect_errors@.len() && (
                        #[trigger] err_end.connect_errors@[j]).0 == pend.connect[i];
                    assert(!err_end.spec_is_empty());
                    assert(res is Err && res->Err_0 == err_end);
                }
            }
            // a bind failure recorded in step one is the result's to carry
            if pend.source is Some {
                let src = pend.source->Some_0;
                if src is Port && !(self.registry.s_listen_port() == Some(src->Port_0)) {
                    assert(lerr1 is Some);
                    assert(err_end.listen_error == lerr1);
                    assert(!err_end.spec_is_empty());
                    assert(res is Err && res->Err_0 == err_end);
                }
            }
        }
        res
    }

    /// Pops every pending accept, announcing each admitted peer as an
    /// incoming connection proposal; everything it appends to the
    /// proposer's trace is delivered through the tracker, in order.
    #[verifier::loop_isolation(false)]
    fn drain_accepts<Rngs, S>(
        &mut self,
        tracker: &mut TimeTracker<Rngs, S, TcpReadOnce, TcpWriteOnce>,
    ) where
        Rngs: Iterator<Item = S::Rng>,
        S: State<TcpReadOnce, TcpWriteOnce>,

        requires
            old(self).registry.wf(),
        ensures
            final(self).registry.wf(),
            final(self).started == old(self).started,
            final(self).id == old(self).id,
            final(self).emitted@.len() >= old(self).emitted@.len(),
            final(self).emitted@.subrange(0, old(self).emitted@.len() as int) == old(self).emitted@,
            idle_count(final(self).emitted@.skip(old(self).emitted@.len() as int)) == 0,
            final(self).registry.s_blacklist() == old(self).registry.s_blacklist(),
            final(self).registry.s_listen_port() == old(self).registry.s_listen_port(),
            only_accept_error_may_change(old(self).registry.s_error(), final(self).registry.s_error()),
            forall|a: Addr| #![auto]
                old(self).registry.s_streams().contains_key(a) ==> final(self).registry.s_streams().contains_key(a),
            forall|k: int|
                old(self).emitted@.len() <= k < final(self).emitted@.len() ==> !is_outbound(#[trigger] final(self).emitted@[k]),
            forall|k: int|
                old(self).emitted@.len() <= k < final(self).emitted@.len() ==> !((#[trigger] final(self).emitted@[k]) is Wake),
            forall|k: int|
                old(self).emitted@.len() <= k < final(self).emitted@.len() ==> ((#[trigger] final(self).emitted@[k]) matches EmitKind::Connection { addr, incoming: true } ==> !old(self).registry.s_blacklist().contains(addr.ip)),
            final(tracker).trace() == old(tracker).trace() + final(self).emitted@.skip(
                old(self).emitted@.len() as int,
            ),
    {
        let ghost base = self.emitted@.len();
        proof {
            assert(self.emitted@.subrange(0, base as int) =~= self.emitted@);
            assert(self.emitted@.skip(base as int) =~= Seq::<EmitKind>::empty());
            assert(tracker.trace() + self.emitted@.skip(base as int) =~= tracker.trace());
        }
        let mut fuel: usize = usize::MAX;
        loop
            invariant
                self.registry.wf(),
                self.started == old(self).started,
                self.id == old(self).id,
                self.emitted@.len() >= base,
                self.emitted@.subrange(0, base as int) == old(self).emitted@,
                idle_count(self.emitted@.skip(base as int)) == 0,
                self.registry.s_blacklist() == old(self).registry.s_blacklist(),
                self.registry.s_listen_port() == old(self).registry.s_listen_port(),
                only_accept_error_may_change(
                    old(self).registry.s_error(),
                    self.registry.s_error(),
                ),
                forall|a: Addr| #![auto]
                    old(self).registry.s_streams().contains_key(a)
                        ==> self.registry.s_streams().contains_key(a),
                forall|k: int|
                    base <= k < self.emitted@.len() ==> !is_outbound(#[trigger] self.emitted@[k]),
                forall|k: int|
                    base <= k < self.emitted@.len() ==> !((#[trigger] self.emitted@[k]) is Wake),
                forall|k: int|
                    base <= k < self.emitted@.len() ==> ((#[trigger] self.emitted@[k]) matches
                        EmitKind::Connection { addr, incoming: true } ==> !old(self).registry.s_blacklist().contains(addr.ip)),
                tracker.trace() == old(tracker).trace() + self.emitted@.skip(base as int),
            decreases fuel,
        {
            match self.registry.accept() {
                Option::<(Addr, usize)>::None => {
                    return ;
                },
                Some((addr, token)) => {
                    let id = ConnectionId {
                        poll_id: self.id,
                        token: #[verifier::truncate] (token as u16),
                    };
                    let ghost before = self.emitted@;
                    let ghost tr_before = tracker.trace();
                    self.send_proposal(
                        tracker,
                        ProposalKind::Connection { addr, incoming: true, id },
                    );
                    proof {
                        assert(old(tracker).trace() + before.skip(base as int).push(
                            EmitKind::Connection { addr, incoming: true },
                        ) =~= tr_before.push(EmitKind::Connection { addr, incoming: true }));
                        lemma_idle_count_push(
                            before.skip(base as int),
                            EmitKind::Connection { addr, incoming: true },
                        );
                        assert(self.emitted@.skip(base as int) =~= before.skip(
                            base as int,
                        ).push(EmitKind::Connection { addr, incoming: true }));
                        assert(self.emitted@.subrange(0, base as int) =~= before.subrange(
                            0,
                            base as int,
                        ));
                        assert forall|k: int| base <= k < self.emitted@.len() implies !is_outbound(
                            #[trigger] self.emitted@[k],
                        ) by {
                            assert(self.emitted@[k] == self.emitted@.skip(base as int)[k - base]);
                            if k < before.len() {
                                assert(self.emitted@[k] == before[k]);
                            }
                        }
                    }
                    if fuel == 0 {
                        return ;
                    }
                    fuel = fuel - 1;
                },
            }
        }
    }

    /// Claims the stream a readiness event belongs to and fans the event
    /// out: a write token first, then a read token, each minted only if
    /// its half is open and idle, with peer-reported closure marked on the
    /// record before the state machine hears of it.  What one event adds
    /// to the trace is of [`readiness_shape`]: at most one proposal per
    /// direction, and when both fire, the writable one first.
    fn dispatch_stream_event<Rngs, S>(
        &mut self,
        tracker: &mut TimeTracker<Rngs, S, TcpReadOnce, TcpWriteOnce>,
        ev: EventInfo,
    ) where
        Rngs: Iterator<Item = S::Rng>,
        S: State<TcpReadOnce, TcpWriteOnce>,

        requires
            old(self).registry.wf(),
        ensures
            final(self).registry.wf(),
            final(self).started == old(self).started,
            final(self).id == old(self).id,
            final(self).emitted@.len() >= old(self).emitted@.len(),
            final(self).emitted@.subrange(0, old(self).emitted@.len() as int) == old(self).emitted@,
            idle_count(final(self).emitted@.skip(old(self).emitted@.len() as int)) == 0,
            final(self).registry.s_blacklist() == old(self).registry.s_blacklist(),
            final(self).registry.s_listen_port() == old(self).registry.s_listen_port(),
            final(self).registry.s_streams() == old(self).registry.s_streams(),
            final(self).registry.s_error() == old(self).registry.s_error(),
            forall|k: int|
                old(self).emitted@.len() <= k < final(self).emitted@.len() ==> !is_outbound(#[trigger] final(self).emitted@[k]),
            forall|k: int|
                old(self).emitted@.len() <= k < final(self).emitted@.len() ==> !((#[trigger] final(self).emitted@[k]) matches EmitKind::Connection { addr, incoming }),
            forall|k: int|
                old(self).emitted@.len() <= k < final(self).emitted@.len() ==> !((#[trigger] final(self).emitted@[k]) is Wake),
            readiness_shape(final(self).emitted@.skip(old(self).emitted@.len() as int)),
            final(tracker).trace() == old(tracker).trace() + final(self).emitted@.skip(
                old(self).emitted@.len() as int,
            ),
    {
        let ghost base = self.emitted@.len();
        proof {
            assert(self.emitted@.subrange(0, base as int) =~= self.emitted@);
            assert(self.emitted@.skip(base as int) =~= Seq::<EmitKind>::empty());
            assert(tracker.trace() + self.emitted@.skip(base as int) =~= tracker.trace());
        }
        let claimed = self.registry.take_stream(ev.token);
        match claimed {
            Option::<(Addr, crate::managed_stream::ManagedStream)>::None => {
                proof {
                    assert(self.emitted@.subrange(0, base as int) =~= self.emitted@);
                    assert(self.emitted@.skip(base as int) =~= Seq::<EmitKind>::empty());
                }
            },
            Some((_, ms)) => {
                let id = ConnectionId {
                    poll_id: self.id,
                    token: #[verifier::truncate] (ev.token as u16),
                };
                let wtok = if ev.writable {
                    ms.write_once()
                } else {
                    Option::<TcpWriteOnce>::None
                };
                if wtok.is_some() && ev.write_closed {
                    ms.set_write_closed();
                }
                let rtok = if ev.readable {
                    ms.read_once()
                } else {
                    Option::<TcpReadOnce>::None
                };
                if rtok.is_some() && ev.read_closed {
                    ms.set_read_closed();
                }
                if let Some(w) = wtok {
                    let ghost before = self.emitted@;
                    let ghost tr_before = tracker.trace();
                    self.send_proposal(tracker, ProposalKind::OnWritable(id, w));
                    proof {
                        assert(old(tracker).trace() + before.skip(base as int).push(
                            EmitKind::Writable(id.token),
                        ) =~= tr_before.push(EmitKind::Writable(id.token)));
                        lemma_idle_count_push(
                            before.skip(base as int),
                            EmitKind::Writable(id.token),
                        );
                        assert(self.emitted@.skip(base as int) =~= before.skip(
                            base as int,
                        ).push(EmitKind::Writable(id.token)));
                        assert(self.emitted@.subrange(0, base as int) =~= before.subrange(
                            0,
                            base as int,
                        ));
                    }
                }
                if let Some(r) = rtok {
                    let ghost before = self.emitted@;
                    let ghost tr_before = tracker.trace();
                    self.send_proposal(tracker, ProposalKind::OnReadable(id, r));
                    proof {
                        assert(old(tracker).trace() + before.skip(base as int).push(
                            EmitKind::Readable(id.token),
                        ) =~= tr_before.push(EmitKind::Readable(id.token)));
                        lemma_idle_count_push(
                            before.skip(base as int),
                            EmitKind::Readable(id.token),
                        );
                        assert(self.emitted@.skip(base as int) =~= before.skip(
                            base as int,
                        ).push(EmitKind::Readable(id.token)));
                        assert(self.emitted@.subrange(0, base as int) =~= before.subrange(
                            0,
                            base as int,
                        ));
                    }
                }
                proof {
                    assert(readiness_shape(self.emitted@.skip(base as int)));
                }
            },
        }
    }
}

} // verus!
