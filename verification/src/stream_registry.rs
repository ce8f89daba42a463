//! The driver's connection table, listener and blacklist.
//!
//! The registry owns the OS poll set, the optional listening socket, the
//! table of live connections keyed by peer address, the table of armed
//! tokens (`in_progress`: streams armed in the poller and not yet handed
//! an event this iteration), the IP blacklist, and the monotonic token
//! counter.  Its bookkeeping is stated over finite maps: the connection
//! table as peer address to token, the armed table as token to peer
//! address, the blacklist as a set of IPs.

use vstd::prelude::*;
use vstd::map::*;

use crate::addr::Addr;
use crate::addr::Ip;
use crate::managed_stream::ManagedStream;
use crate::marked_stream::cell_deregister;
use crate::marked_stream::cell_register;
use crate::marked_stream::cell_reregister;
use crate::proposer_error::connect_error_pushed;
use crate::proposer_error::disconnect_error_pushed;
use crate::proposer_error::ProposerError;
use crate::request::ConnectionSource;
use crate::sys::listener_accept;
use crate::sys::tcp_connect;
use crate::sys::listener_bind;
use crate::sys::listener_deregister;
use crate::sys::listener_register;
use crate::sys::listener_reregister;
use crate::sys::poll_new;
use crate::sys::poll_wait;
use crate::sys::AcceptOutcome;
use crate::sys::PollOutcome;
use crate::table::lemma_map_of_contains;
use crate::table::lemma_map_of_index;
use crate::table::lemma_map_of_push;
use crate::table::lemma_map_of_remove;
use crate::table::lemma_unique_push;
use crate::table::map_of;
use crate::table::unique_keys;

verus! {

broadcast use vstd::map::group_map_axioms, vstd::set::group_set_axioms;

/// The driver's connection registry.
pub struct StreamRegistry {
    poll: mio::Poll,
    error: ProposerError,
    listener: Option<mio::net::TcpListener>,
    bound_port: Ghost<Option<u16>>,
    streams: Vec<(Addr, ManagedStream)>,
    in_progress: Vec<(usize, Addr)>,
    blacklist: Vec<Ip>,
    last_token: usize,
}

impl StreamRegistry {
    /// The connection table's entries as address-token pairs.
    pub closed spec fn stream_entries(&self) -> Seq<(Addr, usize)> {
        self.streams@.map_values(|p: (Addr, ManagedStream)| (p.0, p.1.spec_token()))
    }

    /// The connection table: peer address to the token its stream is armed
    /// under.
    pub open spec fn s_streams(&self) -> Map<Addr, usize> {
        map_of(self.stream_entries())
    }

    /// The armed-token table: token to the peer address it was armed for.
    pub closed spec fn s_armed(&self) -> Map<usize, Addr> {
        map_of(self.in_progress@)
    }

    /// The blacklist, as the set of refused IPs.
    pub closed spec fn s_blacklist(&self) -> Set<Ip> {
        self.blacklist@.to_set()
    }

    /// The next token the counter will hand out.
    pub closed spec fn s_next(&self) -> usize {
        self.last_token
    }

    /// Whether a listening socket is installed.
    pub closed spec fn s_has_listener(&self) -> bool {
        self.listener is Some
    }

    /// The port the listening socket is bound to, if one is installed.
    pub closed spec fn s_listen_port(&self) -> Option<u16> {
        self.bound_port@
    }

    /// The errors recorded so far this iteration.
    pub closed spec fn s_error(&self) -> ProposerError {
        self.error
    }

    /// Well-formedness: both tables carry distinct keys, and every token
    /// they hold was handed out by the counter.
    pub closed spec fn wf(&self) -> bool {
        &&& (self.listener is Some <==> self.bound_port@ is Some)
        &&& unique_keys(self.stream_entries())
        &&& unique_keys(self.in_progress@)
        &&& forall|i: int|
            0 <= i < self.stream_entries().len() ==> self.stream_entries()[i].1
                < self.last_token
        &&& forall|i: int|
            0 <= i < self.in_progress@.len() ==> self.in_progress@[i].0 < self.last_token
    }

    /// Everything the registry tracks but the error record is the same in
    /// both states.
    pub open spec fn same_model(&self, other: &StreamRegistry) -> bool {
        &&& other.s_streams() == self.s_streams()
        &&& other.s_armed() == self.s_armed()
        &&& other.s_blacklist() == self.s_blacklist()
        &&& other.s_next() == self.s_next()
        &&& other.s_has_listener() == self.s_has_listener()
        &&& other.s_listen_port() == self.s_listen_port()
    }

    /// A fresh registry: empty tables, no listener, counter at zero; `Err`
    /// iff the OS refused to create the poll set.
    pub fn new() -> (r: Result<StreamRegistry, std::io::Error>)
        ensures
            r is Ok ==> {
                let reg = r->Ok_0;
                &&& reg.wf()
                &&& reg.s_streams() == Map::<Addr, usize>::empty()
                &&& reg.s_armed() == Map::<usize, Addr>::empty()
                &&& reg.s_blacklist() == Set::<Ip>::empty()
                &&& reg.s_next() == 0
                &&& !reg.s_has_listener()
                &&& reg.s_listen_port() is None
                &&& reg.s_error().spec_is_empty()
            },
    {
        match poll_new() {
            Ok(poll) => {
                let reg = StreamRegistry {
                    poll,
                    error: ProposerError::default(),
                    listener: Option::<mio::net::TcpListener>::None,
                    bound_port: Ghost(Option::<u16>::None),
                    streams: Vec::<(Addr, ManagedStream)>::new(),
                    in_progress: Vec::<(usize, Addr)>::new(),
                    blacklist: Vec::<Ip>::new(),
                    last_token: 0,
                };
                proof {
                    assert(reg.stream_entries() =~= Seq::<(Addr, usize)>::empty());
                    assert(reg.s_streams() =~= Map::<Addr, usize>::empty());
                    assert(reg.s_armed() =~= Map::<usize, Addr>::empty());
                    assert(reg.s_blacklist() =~= Set::<Ip>::empty());
                }
                Ok(reg)
            },
            Err(e) => Err(e),
        }
    }

    /// Replaces the listening source.  The old listener, if any, is
    /// disarmed and dropped first.  For a port, a new socket is bound on
    /// all interfaces and armed readable under the reserved listener
    /// token, so the registry then listens on exactly that port; a bind
    /// failure is recorded as the listen error and leaves the listener
    /// unset.  The tables are untouched either way.
    pub fn set_source(&mut self, source: ConnectionSource)
        requires
            old(self).wf(),
        ensures
            final(self).wf(),
            old(self).same_model_but_listener(final(self)),
            source is Off ==> final(self).s_listen_port() is None && final(self).s_error() == old(
                self,
            ).s_error(),
            forall|p: u16|
                source == ConnectionSource::Port(p) ==> {
                    ||| (final(self).s_listen_port() == Some(p) && final(self).s_error() == old(
                        self,
                    ).s_error())
                    ||| (final(self).s_listen_port() is None && listen_error_recorded(
                        old(self).s_error(),
                        final(self).s_error(),
                        source,
                    ))
                },
    {
        if self.listener.is_some() {
            let mut taken = self.listener.take();
            if let Some(l) = &mut taken {
                listener_deregister(&self.poll, l);
            }
        }
        proof {
            self.bound_port@ = Option::<u16>::None;
        }
        match source {
            ConnectionSource::Off => {},
            ConnectionSource::Port(port) => {
                match listener_bind(port) {
                    Ok(mut l) => {
                        listener_register(&self.poll, &mut l);
                        self.listener = Some(l);
                        proof {
                            self.bound_port@ = Some(port);
                        }
                    },
                    Err(e) => {
                        self.error.listen_error = Some((source, e));
                    },
                }
            },
        }
    }

    /// Everything but the listener slot and the error record is the same.
    pub open spec fn same_model_but_listener(&self, other: &StreamRegistry) -> bool {
        &&& other.s_streams() == self.s_streams()
        &&& other.s_armed() == self.s_armed()
        &&& other.s_blacklist() == self.s_blacklist()
        &&& other.s_next() == self.s_next()
    }

    /// Inserts the peer's IP into the blacklist and, if a connection to
    /// exactly this address is live, disarms it, drops it from the table
    /// and shuts it down; a shutdown failure is recorded against the
    /// address.
    pub fn blacklist_peer(&mut self, addr: Addr)
        requires
            old(self).wf(),
        ensures
            final(self).wf(),
            final(self).s_blacklist() == old(self).s_blacklist().insert(addr.ip),
            final(self).s_streams() == old(self).s_streams().remove(addr),
            final(self).s_armed() == old(self).s_armed(),
            final(self).s_next() == old(self).s_next(),
            final(self).s_has_listener() == old(self).s_has_listener(),
            final(self).s_listen_port() == old(self).s_listen_port(),
            final(self).s_error() == old(self).s_error() || disconnect_error_pushed(
                old(self).s_error(),
                final(self).s_error(),
                addr,
            ),
    {
        let ghost entries0 = self.stream_entries();
        let present = self.blacklist_contains(addr.ip);
        if !present {
            self.blacklist.push(addr.ip);
            proof {
                let s0 = old(self).blacklist@;
                let s1 = self.blacklist@;
                assert forall|x: Ip| s1.contains(x) == (s0.contains(x) || x == addr.ip) by {
                    if s1.contains(x) {
                        let i = choose|i: int| 0 <= i < s1.len() && s1[i] == x;
                        if i < s0.len() {
                            assert(s0[i] == x);
                        }
                    }
                    if s0.contains(x) {
                        let i = choose|i: int| 0 <= i < s0.len() && s0[i] == x;
                        assert(s1[i] == x);
                    }
                    if x == addr.ip {
                        assert(s1[s0.len() as int] == x);
                    }
                }
                assert(self.s_blacklist() =~= old(self).s_blacklist().insert(addr.ip));
            }
        } else {
            proof {
                assert(old(self).s_blacklist().contains(addr.ip));
                assert(self.s_blacklist() =~= old(self).s_blacklist().insert(addr.ip));
            }
        }
        let idx = self.stream_index(addr);
        match idx {
            Option::<usize>::None => {
                proof {
                    lemma_map_of_contains(entries0, addr);
                    assert(!old(self).s_streams().contains_key(addr));
                    assert(old(self).s_streams().remove(addr) =~= old(self).s_streams());
                }
            },
            Some(i) => {
                let entry = self.streams.remove(i);
                proof {
                    assert(self.streams@ == old(self).streams@.remove(i as int));
                    assert(self.stream_entries() =~= entries0.remove(i as int));
                    lemma_map_of_remove(entries0, i as int);
                }
                let (_, ms) = entry;
                cell_deregister(&self.poll, ms.cell());
                match ms.discard() {
                    Ok(()) => {},
                    Err(e) => {
                        let ghost prior = self.error;
                        self.error.disconnect_errors.push((addr, e));
                        proof {
                            assert(self.error.disconnect_errors@.subrange(
                                0,
                                prior.disconnect_errors@.len() as int,
                            ) =~= prior.disconnect_errors@);
                        }
                    },
                }
            },
        }
    }

    /// Whether an IP is blacklisted.
    fn blacklist_contains(&self, ip: Ip) -> (r: bool)
        ensures
            r == self.s_blacklist().contains(ip),
    {
        let mut i: usize = 0;
        while i < self.blacklist.len()
            invariant
                i <= self.blacklist.len(),
                forall|j: int| 0 <= j < i ==> self.blacklist@[j] != ip,
            decreases self.blacklist.len() - i,
        {
            if self.blacklist[i] == ip {
                return true;
            }
            i = i + 1;
        }
        false
    }

    /// The index of the table entry for an address, if one is live.
    fn stream_index(&self, addr: Addr) -> (r: Option<usize>)
        requires
            self.wf(),
        ensures
            r is Some ==> {
                &&& r->Some_0 < self.streams@.len()
                &&& self.stream_entries()[r->Some_0 as int].0 == addr
            },
            r is None ==> !self.s_streams().contains_key(addr),
    {
        let mut i: usize = 0;
        while i < self.streams.len()
            invariant
                i <= self.streams.len(),
                forall|j: int| 0 <= j < i ==> self.stream_entries()[j].0 != addr,
            decreases self.streams.len() - i,
        {
            if self.streams[i].0 == addr {
                return Some(i);
            }
            i = i + 1;
        }
        proof {
            lemma_map_of_contains(self.stream_entries(), addr);
        }
        Option::<usize>::None
    }
}

/// The continuation of `StreamRegistry`: arming, connecting, accepting.
impl StreamRegistry {
    /// Hands out the next token; the counter never repeats one.
    fn allocate_token(&mut self) -> (t: usize)
        requires
            old(self).last_token < usize::MAX,
        ensures
            t == old(self).last_token,
            final(self).last_token == old(self).last_token + 1,
            final(self).poll == old(self).poll,
            final(self).error == old(self).error,
            final(self).listener == old(self).listener,
            final(self).bound_port == old(self).bound_port,
            final(self).streams == old(self).streams,
            final(self).in_progress == old(self).in_progress,
            final(self).blacklist == old(self).blacklist,
    {
        let t = self.last_token;
        self.last_token = self.last_token + 1;
        t
    }

    /// Wraps a fresh stream, arms it in the poller under a fresh token
    /// with the given interest, and enters it into both tables.
    fn register_stream(
        &mut self,
        stream: mio::net::TcpStream,
        addr: Addr,
        readable: bool,
        writable: bool,
    ) -> (t: usize)
        requires
            old(self).wf(),
            !old(self).s_streams().contains_key(addr),
            old(self).last_token < usize::MAX,
            readable || writable,
        ensures
            final(self).wf(),
            t == old(self).s_next(),
            final(self).s_streams() == old(self).s_streams().insert(addr, t),
            final(self).s_armed() == old(self).s_armed().insert(t, addr),
            final(self).s_next() == old(self).s_next() + 1,
            final(self).s_blacklist() == old(self).s_blacklist(),
            final(self).s_has_listener() == old(self).s_has_listener(),
            final(self).s_listen_port() == old(self).s_listen_port(),
            final(self).s_error() == old(self).s_error(),
    {
        let ghost entries0 = old(self).stream_entries();
        let token = self.allocate_token();
        let ms = ManagedStream::new(stream, token);
        cell_register(&self.poll, ms.cell(), token, readable, writable);
        proof {
            lemma_map_of_contains(self.in_progress@, token);
            assert(!map_of(self.in_progress@).contains_key(token));
            lemma_unique_push(entries0, addr, token);
            lemma_map_of_push(entries0, addr, token);
            lemma_unique_push(self.in_progress@, token, addr);
            lemma_map_of_push(self.in_progress@, token, addr);
        }
        self.streams.push((addr, ms));
        self.in_progress.push((token, addr));
        proof {
            assert(self.stream_entries() =~= entries0.push((addr, token)));
            assert(self.in_progress@ == old(self).in_progress@.push((token, addr)));
        }
        token
    }

    /// Starts a non-blocking connect to a peer not already in the table,
    /// arming the new stream for writing: the allocated token on success;
    /// nothing if the peer was already present (a no-op), and nothing with
    /// a connect error recorded against the address if the OS refused (or,
    /// never reached in practice, if the token counter is exhausted — a
    /// no-op comes back only in those three situations).
    pub fn connect_peer(&mut self, addr: Addr) -> (r: Option<usize>)
        requires
            old(self).wf(),
        ensures
            final(self).wf(),
            final(self).s_blacklist() == old(self).s_blacklist(),
            final(self).s_has_listener() == old(self).s_has_listener(),
            final(self).s_listen_port() == old(self).s_listen_port(),
            old(self).s_streams().contains_key(addr) ==> r is None && final(self).s_error() == old(
                self,
            ).s_error(),
            r is Some ==> {
                &&& !old(self).s_streams().contains_key(addr)
                &&& r->Some_0 == old(self).s_next()
                &&& final(self).s_streams() == old(self).s_streams().insert(addr, r->Some_0)
                &&& final(self).s_armed() == old(self).s_armed().insert(r->Some_0, addr)
                &&& final(self).s_next() == old(self).s_next() + 1
                &&& final(self).s_error() == old(self).s_error()
            },
            r is None ==> {
                &&& final(self).s_streams() == old(self).s_streams()
                &&& final(self).s_armed() == old(self).s_armed()
                &&& final(self).s_next() == old(self).s_next()
                &&& (final(self).s_error() == old(self).s_error() || connect_error_pushed(
                    old(self).s_error(),
                    final(self).s_error(),
                    addr,
                ))
            },
            r is None ==> old(self).s_streams().contains_key(addr) || old(self).s_next()
                == usize::MAX || connect_error_pushed(
                old(self).s_error(),
                final(self).s_error(),
                addr,
            ),
    {
        let idx = self.stream_index(addr);
        if let Some(i) = idx {
            proof {
                lemma_map_of_index(self.stream_entries(), i as int);
            }
            return Option::<usize>::None;
        }
        if self.last_token == usize::MAX {
            return Option::<usize>::None;
        }
        match tcp_connect(&addr) {
            Ok(stream) => Some(self.register_stream(stream, addr, false, true)),
            Err(e) => {
                let ghost prior = self.error;
                self.error.connect_errors.push((addr, e));
                proof {
                    assert(self.error.connect_errors@.subrange(
                        0,
                        prior.connect_errors@.len() as int,
                    ) =~= prior.connect_errors@);
                }
                Option::<usize>::None
            },
        }
    }

    /// Enters a token-address pair into the armed table, replacing any
    /// stale entry for the token.
    fn armed_insert(&mut self, token: usize, addr: Addr)
        requires
            old(self).wf(),
            token < old(self).s_next(),
        ensures
            final(self).wf(),
            final(self).s_armed() == old(self).s_armed().insert(token, addr),
            final(self).s_streams() == old(self).s_streams(),
            final(self).s_blacklist() == old(self).s_blacklist(),
            final(self).s_next() == old(self).s_next(),
            final(self).s_has_listener() == old(self).s_has_listener(),
            final(self).s_listen_port() == old(self).s_listen_port(),
            final(self).s_error() == old(self).s_error(),
            final(self).streams == old(self).streams,
            final(self).poll == old(self).poll,
            final(self).listener == old(self).listener,
            final(self).bound_port == old(self).bound_port,
            final(self).blacklist == old(self).blacklist,
            final(self).error == old(self).error,
            final(self).last_token == old(self).last_token,
    {
        let idx = self.armed_index(token);
        if let Some(i) = idx {
            proof {
                lemma_map_of_remove(self.in_progress@, i as int);
            }
            self.in_progress.remove(i);
        }
        proof {
            lemma_map_of_contains(self.in_progress@, token);
            lemma_unique_push(self.in_progress@, token, addr);
            lemma_map_of_push(self.in_progress@, token, addr);
            assert(map_of(old(self).in_progress@).remove(token).insert(token, addr) =~= map_of(
                old(self).in_progress@,
            ).insert(token, addr));
        }
        self.in_progress.push((token, addr));
    }

    /// The index of the armed entry for a token, if one is present.
    fn armed_index(&self, token: usize) -> (r: Option<usize>)
        requires
            self.wf(),
        ensures
            r is Some ==> {
                &&& r->Some_0 < self.in_progress@.len()
                &&& self.in_progress@[r->Some_0 as int].0 == token
            },
            r is None ==> !self.s_armed().contains_key(token),
    {
        let mut i: usize = 0;
        while i < self.in_progress.len()
            invariant
                i <= self.in_progress.len(),
                forall|j: int| 0 <= j < i ==> self.in_progress@[j].0 != token,
            decreases self.in_progress.len() - i,
        {
            if self.in_progress[i].0 == token {
                return Some(i);
            }
            i = i + 1;
        }
        proof {
            lemma_map_of_contains(self.in_progress@, token);
        }
        Option::<usize>::None
    }

    /// Purges every stream whose both halves are shut, re-arms the poller
    /// for each remaining stream by the interest lattice of its flags, and
    /// re-arms the listener; runs once per iteration, right before the
    /// poll.  Every surviving table entry was already there, and every
    /// armed entry either predates this call or points at a surviving
    /// stream under that stream's own token.
    #[verifier::loop_isolation(false)]
    pub fn reregister(&mut self)
        requires
            old(self).wf(),
        ensures
            final(self).wf(),
            final(self).s_blacklist() == old(self).s_blacklist(),
            final(self).s_next() == old(self).s_next(),
            final(self).s_has_listener() == old(self).s_has_listener(),
            final(self).s_listen_port() == old(self).s_listen_port(),
            final(self).s_error() == old(self).s_error(),
            forall|a: Addr| #![trigger final(self).s_streams().contains_key(a)]
                final(self).s_streams().contains_key(a) ==> old(self).s_streams().contains_key(a)
                    && final(self).s_streams()[a] == old(self).s_streams()[a],
            forall|t: usize| #![trigger final(self).s_armed().contains_key(t)]
                final(self).s_armed().contains_key(t) ==> {
                    ||| (old(self).s_armed().contains_key(t) && final(self).s_armed()[t] == old(self).s_armed()[t])
                    ||| (final(self).s_streams().contains_key(final(self).s_armed()[t]) && final(self).s_streams()[final(self).s_armed()[t]] == t)
                },
    {
        let mut taken = self.listener.take();
        if let Some(l) = &mut taken {
            listener_reregister(&self.poll, l);
        }
        self.listener = taken;
        let mut i: usize = 0;
        while i < self.streams.len()
            invariant
                self.wf(),
                self.poll == old(self).poll,
                self.error == old(self).error,
                self.s_has_listener() == old(self).s_has_listener(),
                self.bound_port == old(self).bound_port,
                self.in_progress == old(self).in_progress,
                self.blacklist == old(self).blacklist,
                self.last_token == old(self).last_token,
                i <= self.streams.len(),
                forall|a: Addr| #![trigger self.s_streams().contains_key(a)]
                    self.s_streams().contains_key(a) ==> old(self).s_streams().contains_key(a)
                        && self.s_streams()[a] == old(self).s_streams()[a],
            decreases self.streams.len() - i,
        {
            let close_it = self.streams[i].1.closed();
            if close_it {
                let ghost entries_pre = self.stream_entries();
                let ghost pre = *self;
                proof {
                    lemma_map_of_remove(entries_pre, i as int);
                }
                self.streams.remove(i);
                proof {
                    assert(self.streams@ == pre.streams@.remove(i as int));
                    assert(self.stream_entries() =~= entries_pre.remove(i as int));
                    assert(self.s_streams() == map_of(entries_pre).remove(
                        entries_pre[i as int].0,
                    ));
                    assert forall|a: Addr| #![trigger self.s_streams().contains_key(a)]
                        self.s_streams().contains_key(a) implies old(
                        self,
                    ).s_streams().contains_key(a) && self.s_streams()[a] == old(
                        self,
                    ).s_streams()[a] by {
                        assert(pre.s_streams().contains_key(a));
                        assert(self.s_streams()[a] == pre.s_streams()[a]);
                    }
                    assert forall|k: int|
                        0 <= k < self.stream_entries().len() implies self.stream_entries()[k].1
                        < self.last_token by {
                        if k < i {
                            assert(entries_pre.remove(i as int)[k] == entries_pre[k]);
                        } else {
                            assert(entries_pre.remove(i as int)[k] == entries_pre[k + 1]);
                        }
                    }
                }
            } else {
                i = i + 1;
            }
        }
        let ghost mid = *self;
        let mut j: usize = 0;
        while j < self.streams.len()
            invariant
                self.wf(),
                self.poll == mid.poll,
                self.error == mid.error,
                self.listener == mid.listener,
                self.bound_port == mid.bound_port,
                self.streams == mid.streams,
                self.blacklist == mid.blacklist,
                self.last_token == mid.last_token,
                j <= self.streams.len(),
                forall|a: Addr| #![trigger self.s_streams().contains_key(a)]
                    self.s_streams().contains_key(a) ==> old(self).s_streams().contains_key(a)
                        && self.s_streams()[a] == old(self).s_streams()[a],
                forall|t: usize| #![trigger self.s_armed().contains_key(t)]
                    self.s_armed().contains_key(t) ==> {
                        ||| (old(self).s_armed().contains_key(t) && self.s_armed()[t] == old(self).s_armed()[t])
                        ||| (self.s_streams().contains_key(self.s_armed()[t]) && self.s_streams()[self.s_armed()[t]] == t)
                    },
            decreases self.streams.len() - j,
        {
            let addr = self.streams[j].0;
            let token = self.streams[j].1.token();
            proof {
                lemma_map_of_index(self.stream_entries(), j as int);
            }
            let wanted = self.streams[j].1.interests();
            if let Some(ints) = wanted {
                cell_reregister(
                    &self.poll,
                    self.streams[j].1.cell(),
                    token,
                    ints.readable,
                    ints.writable,
                );
                let ghost before = *self;
                self.armed_insert(token, addr);
                proof {
                    assert(self.s_armed() == before.s_armed().insert(token, addr));
                    assert(self.s_streams().contains_key(addr) && self.s_streams()[addr]
                        == token);
                    assert forall|t: usize| #![trigger self.s_armed().contains_key(t)]
                        self.s_armed().contains_key(t) implies {
                        ||| (old(self).s_armed().contains_key(t) && self.s_armed()[t] == old(
                            self,
                        ).s_armed()[t])
                        ||| (self.s_streams().contains_key(self.s_armed()[t])
                            && self.s_streams()[self.s_armed()[t]] == t)
                    } by {
                        if t == token {
                            assert(self.s_armed()[t] == addr);
                        } else {
                            assert(before.s_armed().contains_key(t));
                            assert(self.s_armed()[t] == before.s_armed()[t]);
                        }
                    }
                }
            }
            j = j + 1;
        }
    }

    /// Claims the stream armed under a token, dropping the armed entry so
    /// that one readiness delivery is not surfaced twice in an iteration:
    /// the peer's address and a handle to its stream — owed whenever the
    /// token is armed and its stream is still in the table — or nothing if
    /// the token is not armed or its stream has left the table.
    pub fn take_stream(&mut self, token: usize) -> (r: Option<(Addr, ManagedStream)>)
        requires
            old(self).wf(),
        ensures
            final(self).wf(),
            final(self).s_streams() == old(self).s_streams(),
            final(self).s_blacklist() == old(self).s_blacklist(),
            final(self).s_next() == old(self).s_next(),
            final(self).s_has_listener() == old(self).s_has_listener(),
            final(self).s_listen_port() == old(self).s_listen_port(),
            final(self).s_error() == old(self).s_error(),
            old(self).s_armed().contains_key(token) ==> final(self).s_armed() == old(
                self,
            ).s_armed().remove(token),
            !old(self).s_armed().contains_key(token) ==> final(self).s_armed() == old(
                self,
            ).s_armed() && r is None,
            r is Some ==> {
                &&& old(self).s_armed().contains_key(token)
                &&& r->Some_0.0 == old(self).s_armed()[token]
                &&& old(self).s_streams().contains_key(r->Some_0.0)
                &&& r->Some_0.1.spec_token() == old(self).s_streams()[r->Some_0.0]
            },
            old(self).s_armed().contains_key(token) && old(self).s_streams().contains_key(
                old(self).s_armed()[token],
            ) ==> r is Some,
    {
        let idx = self.armed_index(token);
        match idx {
            Option::<usize>::None => Option::<(Addr, ManagedStream)>::None,
            Some(i) => {
                proof {
                    lemma_map_of_index(self.in_progress@, i as int);
                    lemma_map_of_remove(self.in_progress@, i as int);
                }
                let entry = self.in_progress.remove(i);
                let addr = entry.1;
                let sidx = self.stream_index(addr);
                match sidx {
                    Option::<usize>::None => Option::<(Addr, ManagedStream)>::None,
                    Some(si) => {
                        proof {
                            lemma_map_of_index(self.stream_entries(), si as int);
                        }
                        let handle = self.streams[si].1.duplicate();
                        Some((addr, handle))
                    },
                }
            },
        }
    }

    /// Pops pending accepts until one is admitted or none is pending: the
    /// peer's address and the fresh token on an admitted connection.  A
    /// peer whose IP is blacklisted is shut down on the spot and never
    /// surfaced; an accept failure other than "nothing pending" is
    /// recorded and ends the drain.
    pub fn accept(&mut self) -> (r: Option<(Addr, usize)>)
        requires
            old(self).wf(),
        ensures
            final(self).wf(),
            final(self).s_blacklist() == old(self).s_blacklist(),
            final(self).s_has_listener() == old(self).s_has_listener(),
            final(self).s_listen_port() == old(self).s_listen_port(),
            r is Some ==> {
                &&& !old(self).s_blacklist().contains(r->Some_0.0.ip)
                &&& r->Some_0.1 == old(self).s_next()
                &&& final(self).s_streams() == old(self).s_streams().insert(
                    r->Some_0.0,
                    r->Some_0.1,
                )
                &&& final(self).s_armed() == old(self).s_armed().insert(r->Some_0.1, r->Some_0.0)
                &&& final(self).s_next() == old(self).s_next() + 1
                &&& final(self).s_error() == old(self).s_error()
            },
            r is None ==> {
                &&& final(self).s_streams() == old(self).s_streams()
                &&& final(self).s_armed() == old(self).s_armed()
                &&& final(self).s_next() == old(self).s_next()
                &&& (final(self).s_error() == old(self).s_error() || accept_error_recorded(
                    old(self).s_error(),
                    final(self).s_error(),
                ))
            },
    {
        let mut fuel: usize = usize::MAX;
        loop
            invariant
                self.wf(),
                self.poll == old(self).poll,
                self.error == old(self).error,
                self.listener == old(self).listener,
                self.bound_port == old(self).bound_port,
                self.streams == old(self).streams,
                self.in_progress == old(self).in_progress,
                self.blacklist == old(self).blacklist,
                self.last_token == old(self).last_token,
            decreases fuel,
        {
            if self.listener.is_none() {
                return Option::<(Addr, usize)>::None;
            }
            let outcome = if let Some(l) = &self.listener {
                listener_accept(l)
            } else {
                return Option::<(Addr, usize)>::None;
            };
            match outcome {
                AcceptOutcome::NoneReady => {
                    return Option::<(Addr, usize)>::None;
                },
                AcceptOutcome::Failed(e) => {
                    self.error.accept_error = Some(e);
                    return Option::<(Addr, usize)>::None;
                },
                AcceptOutcome::Accepted(stream, addr) => {
                    let refused = self.blacklist_contains(addr.ip());
                    if refused {
                        if fuel == 0 {
                            return Option::<(Addr, usize)>::None;
                        }
                        fuel = fuel - 1;
                    } else {
                        if self.last_token == usize::MAX {
                            return Option::<(Addr, usize)>::None;
                        }
                        let ghost entries0 = self.stream_entries();
                        let sidx = self.stream_index(addr);
                        if let Some(i) = sidx {
                            proof {
                                lemma_map_of_index(entries0, i as int);
                                lemma_map_of_remove(entries0, i as int);
                            }
                            self.streams.remove(i);
                            proof {
                                assert(self.stream_entries() =~= entries0.remove(i as int));
                            }
                        }
                        proof {
                            lemma_map_of_contains(self.stream_entries(), addr);
                        }
                        let t = self.register_stream(stream, addr, true, false);
                        proof {
                            assert(self.s_streams() =~= old(self).s_streams().insert(addr, t));
                        }
                        return Some((addr, t));
                    }
                },
            }
        }
    }

    /// Waits for readiness for at most `timeout`, filling the event
    /// buffer.  An interrupting signal is a quiet no-op; any other poll
    /// failure is recorded.
    pub fn poll(&mut self, events: &mut mio::Events, timeout: core::time::Duration)
        requires
            old(self).wf(),
        ensures
            final(self).wf(),
            old(self).same_model(final(self)),
            final(self).s_error() == old(self).s_error() || poll_error_recorded(
                old(self).s_error(),
                final(self).s_error(),
            ),
    {
        match poll_wait(&mut self.poll, events, timeout) {
            PollOutcome::Polled => {},
            PollOutcome::Interrupted => {},
            PollOutcome::Failed(e) => {
                self.error.poll_error = Some(e);
            },
        }
    }

    /// Takes the iteration's error record out: `Ok` iff nothing was
    /// recorded, else everything recorded, leaving an empty record.
    pub fn take_result(&mut self) -> (r: Result<(), ProposerError>)
        requires
            old(self).wf(),
        ensures
            final(self).wf(),
            old(self).same_model(final(self)),
            final(self).s_error().spec_is_empty(),
            r is Ok <==> old(self).s_error().spec_is_empty(),
            r is Err ==> r->Err_0 == old(self).s_error(),
    {
        self.error.take_result()
    }
}

/// The two records agree except that the accept error was set.
pub open spec fn accept_error_recorded(prior: ProposerError, now: ProposerError) -> bool {
    &&& now.accept_error is Some
    &&& now.listen_error == prior.listen_error
    &&& now.connect_errors@ == prior.connect_errors@
    &&& now.disconnect_errors@ == prior.disconnect_errors@
    &&& now.poll_error == prior.poll_error
}

/// The two records agree except that the poll error was set.
pub open spec fn poll_error_recorded(prior: ProposerError, now: ProposerError) -> bool {
    &&& now.poll_error is Some
    &&& now.listen_error == prior.listen_error
    &&& now.connect_errors@ == prior.connect_errors@
    &&& now.disconnect_errors@ == prior.disconnect_errors@
    &&& now.accept_error == prior.accept_error
}

/// The two records agree except that the listen error was set for this
/// source.
pub open spec fn listen_error_recorded(
    prior: ProposerError,
    now: ProposerError,
    source: ConnectionSource,
) -> bool {
    &&& now.listen_error is Some
    &&& now.listen_error->Some_0.0 == source
    &&& now.connect_errors@ == prior.connect_errors@
    &&& now.disconnect_errors@ == prior.disconnect_errors@
    &&& now.accept_error == prior.accept_error
    &&& now.poll_error == prior.poll_error
}

} // verus!
