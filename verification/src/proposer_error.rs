//! The compound error one driver iteration can accumulate.
//!
//! The driver never aborts an iteration on a single connection's failure:
//! it records what went wrong, finishes the remaining work, and hands the
//! record back at the end.  Each field names the operation it came from
//! and carries the input that failed.

use vstd::prelude::*;

use crate::addr::spec_addr_text;
use crate::addr::Addr;
use crate::request::spec_source_text;
use crate::request::ConnectionSource;
use crate::sys::io_error_text;

verus! {

/// Everything that went wrong in one iteration.
#[derive(Debug)]
pub struct ProposerError {
    /// A bind failure in a source change: the source asked for, and why.
    pub listen_error: Option<(ConnectionSource, std::io::Error)>,
    /// Connect initiations that failed: each address, and why.
    pub connect_errors: Vec<(Addr, std::io::Error)>,
    /// Shutdown failures while blacklisting: each address, and why.
    pub disconnect_errors: Vec<(Addr, std::io::Error)>,
    /// An accept failure other than "nothing pending".
    pub accept_error: Option<std::io::Error>,
    /// A readiness-wait failure other than an interrupting signal.
    pub poll_error: Option<std::io::Error>,
}

impl ProposerError {
    /// Nothing was recorded.
    pub open spec fn spec_is_empty(&self) -> bool {
        &&& self.listen_error is None
        &&& self.connect_errors@.len() == 0
        &&& self.disconnect_errors@.len() == 0
        &&& self.accept_error is None
        &&& self.poll_error is None
    }

    /// Executable form of [`Self::spec_is_empty`].
    pub fn is_empty(&self) -> (r: bool)
        ensures
            r == self.spec_is_empty(),
    {
        self.listen_error.is_none() && self.connect_errors.len() == 0
            && self.disconnect_errors.len() == 0 && self.accept_error.is_none()
            && self.poll_error.is_none()
    }

    /// `Ok` iff nothing was recorded; otherwise the record itself.
    pub fn into_result(self) -> (r: Result<(), ProposerError>)
        ensures
            r is Ok <==> self.spec_is_empty(),
            r is Err ==> r->Err_0 == self,
    {
        if self.is_empty() {
            Ok(())
        } else {
            Err(self)
        }
    }

    /// Takes the record out, leaving an empty one behind: `Ok` iff nothing
    /// was recorded, otherwise everything recorded so far.
    pub fn take_result(&mut self) -> (r: Result<(), ProposerError>)
        ensures
            final(self).spec_is_empty(),
            r is Ok <==> old(self).spec_is_empty(),
            r is Err ==> r->Err_0 == *old(self),
    {
        let mut taken = ProposerError::default();
        core::mem::swap(self, &mut taken);
        taken.into_result()
    }

    /// The report of everything recorded, with each cause rendered by the
    /// OS ([`io_error_text`]); the surrounding text is exactly what
    /// [`spec_report`] spells out for these causes.
    pub fn describe(&self) -> String {
        let listen = match &self.listen_error {
            Some((s, e)) => Some((*s, io_error_text(e))),
            None => None,
        };
        let mut connects: Vec<(Addr, String)> = Vec::new();
        let mut i: usize = 0;
        while i < self.connect_errors.len()
            decreases self.connect_errors.len() - i,
        {
            connects.push((self.connect_errors[i].0, io_error_text(&self.connect_errors[i].1)));
            i = i + 1;
        }
        let mut disconnects: Vec<(Addr, String)> = Vec::new();
        let mut j: usize = 0;
        while j < self.disconnect_errors.len()
            decreases self.disconnect_errors.len() - j,
        {
            disconnects.push(
                (self.disconnect_errors[j].0, io_error_text(&self.disconnect_errors[j].1)),
            );
            j = j + 1;
        }
        let accept = match &self.accept_error {
            Some(e) => Some(io_error_text(e)),
            None => None,
        };
        let poll = match &self.poll_error {
            Some(e) => Some(io_error_text(e)),
            None => None,
        };
        compose_report(listen, connects, disconnects, accept, poll)
    }
}

/// The two records agree except that one connect failure for `addr` was
/// appended.
pub open spec fn connect_error_pushed(
    prior: ProposerError,
    now: ProposerError,
    addr: Addr,
) -> bool {
    &&& now.listen_error == prior.listen_error
    &&& now.disconnect_errors@ == prior.disconnect_errors@
    &&& now.accept_error == prior.accept_error
    &&& now.poll_error == prior.poll_error
    &&& now.connect_errors@.len() == prior.connect_errors@.len() + 1
    &&& now.connect_errors@.subrange(0, prior.connect_errors@.len() as int)
        == prior.connect_errors@
    &&& now.connect_errors@.last().0 == addr
}

/// The two records agree except that one disconnect failure for `addr`
/// was appended.
pub open spec fn disconnect_error_pushed(
    prior: ProposerError,
    now: ProposerError,
    addr: Addr,
) -> bool {
    &&& now.listen_error == prior.listen_error
    &&& now.connect_errors@ == prior.connect_errors@
    &&& now.accept_error == prior.accept_error
    &&& now.poll_error == prior.poll_error
    &&& now.disconnect_errors@.len() == prior.disconnect_errors@.len() + 1
    &&& now.disconnect_errors@.subrange(0, prior.disconnect_errors@.len() as int)
        == prior.disconnect_errors@
    &&& now.disconnect_errors@.last().0 == addr
}

/// The two records agree on everything but the accept error.
pub open spec fn only_accept_error_may_change(prior: ProposerError, now: ProposerError) -> bool {
    &&& now.listen_error == prior.listen_error
    &&& now.connect_errors@ == prior.connect_errors@
    &&& now.disconnect_errors@ == prior.disconnect_errors@
    &&& now.poll_error == prior.poll_error
}

/// The report line for a bind failure.
pub open spec fn spec_listen_part(source: ConnectionSource, cause: Seq<char>) -> Seq<char> {
    "failed to listen: "@ + spec_source_text(source) + ", error: "@ + cause
}

/// The report line for one failed connect.
pub open spec fn spec_connect_part(addr: Addr, cause: Seq<char>) -> Seq<char> {
    "failed to connect to: "@ + spec_addr_text(addr) + ", error: "@ + cause
}

/// The report line for one failed disconnect.
pub open spec fn spec_disconnect_part(addr: Addr, cause: Seq<char>) -> Seq<char> {
    "failed to disconnect from: "@ + spec_addr_text(addr) + ", error: "@ + cause
}

/// The report line for an accept failure.
pub open spec fn spec_accept_part(cause: Seq<char>) -> Seq<char> {
    "failed to accept a connection, error: "@ + cause
}

/// The report line for a poll failure.
pub open spec fn spec_poll_part(cause: Seq<char>) -> Seq<char> {
    "failed to poll the events, error: "@ + cause
}

/// The lines for a batch of per-address failures, in order.
pub open spec fn spec_addr_parts(
    entries: Seq<(Addr, Seq<char>)>,
    connecting: bool,
) -> Seq<char>
    decreases entries.len(),
{
    if entries.len() == 0 {
        Seq::<char>::empty()
    } else {
        spec_addr_parts(entries.drop_last(), connecting) + if connecting {
            spec_connect_part(entries.last().0, entries.last().1)
        } else {
            spec_disconnect_part(entries.last().0, entries.last().1)
        }
    }
}

/// The whole report: the listen line, the connect lines, the disconnect
/// lines, the accept line, the poll line — each only if something
/// happened, in this order.
pub open spec fn spec_report(
    listen: Option<(ConnectionSource, Seq<char>)>,
    connects: Seq<(Addr, Seq<char>)>,
    disconnects: Seq<(Addr, Seq<char>)>,
    accept: Option<Seq<char>>,
    poll: Option<Seq<char>>,
) -> Seq<char> {
    (match listen {
        Some((s, c)) => spec_listen_part(s, c),
        None => Seq::<char>::empty(),
    }) + spec_addr_parts(connects, true) + spec_addr_parts(disconnects, false) + (match accept {
        Some(c) => spec_accept_part(c),
        None => Seq::<char>::empty(),
    }) + (match poll {
        Some(c) => spec_poll_part(c),
        None => Seq::<char>::empty(),
    })
}

/// The pairs' texts, viewed.
pub open spec fn spec_pair_views(entries: Seq<(Addr, String)>) -> Seq<(Addr, Seq<char>)> {
    entries.map_values(|p: (Addr, String)| (p.0, p.1@))
}

/// Builds the report text from failure causes given as plain strings,
/// exactly as [`spec_report`] spells it.
#[verifier::rlimit(100)]
pub fn compose_report(
    listen: Option<(ConnectionSource, String)>,
    connects: Vec<(Addr, String)>,
    disconnects: Vec<(Addr, String)>,
    accept: Option<String>,
    poll: Option<String>,
) -> (r: String)
    ensures
        r@ == spec_report(
            match listen {
                Some((s, c)) => Some((s, c@)),
                None => None,
            },
            spec_pair_views(connects@),
            spec_pair_views(disconnects@),
            match accept {
                Some(c) => Some(c@),
                None => None,
            },
            match poll {
                Some(c) => Some(c@),
                None => None,
            },
        ),
{
    proof {
        reveal_strlit("failed to listen: ");
        reveal_strlit("failed to connect to: ");
        reveal_strlit("failed to disconnect from: ");
        reveal_strlit("failed to accept a connection, error: ");
        reveal_strlit("failed to poll the events, error: ");
        reveal_strlit(", error: ");
    }
    let mut r = String::new();
    match &listen {
        Some((s, c)) => {
            r.append("failed to listen: ");
            r.append(s.describe().as_str());
            r.append(", error: ");
            r.append(c.as_str());
        },
        None => {},
    }
    proof {
        assert(r@ =~= (match listen {
            Some((s, c)) => spec_listen_part(s, c@),
            None => Seq::<char>::empty(),
        }));
    }
    let ghost after_listen = r@;
    let mut i: usize = 0;
    while i < connects.len()
        invariant
            i <= connects.len(),
            r@ == after_listen + spec_addr_parts(
                spec_pair_views(connects@).subrange(0, i as int),
                true,
            ),
        decreases connects.len() - i,
    {
        proof {
            reveal_strlit("failed to connect to: ");
            reveal_strlit(", error: ");
        }
        r.append("failed to connect to: ");
        r.append(connects[i].0.describe().as_str());
        r.append(", error: ");
        r.append(connects[i].1.as_str());
        proof {
            assert(spec_pair_views(connects@).subrange(0, i as int + 1).drop_last()
                =~= spec_pair_views(connects@).subrange(0, i as int));
            assert(r@ =~= after_listen + spec_addr_parts(
                spec_pair_views(connects@).subrange(0, i as int + 1),
                true,
            ));
        }
        i = i + 1;
    }
    proof {
        assert(spec_pair_views(connects@).subrange(0, connects@.len() as int) =~= spec_pair_views(
            connects@,
        ));
    }
    let ghost after_connects = r@;
    let mut j: usize = 0;
    while j < disconnects.len()
        invariant
            j <= disconnects.len(),
            r@ == after_connects + spec_addr_parts(
                spec_pair_views(disconnects@).subrange(0, j as int),
                false,
            ),
        decreases disconnects.len() - j,
    {
        proof {
            reveal_strlit("failed to disconnect from: ");
            reveal_strlit(", error: ");
        }
        r.append("failed to disconnect from: ");
        r.append(disconnects[j].0.describe().as_str());
        r.append(", error: ");
        r.append(disconnects[j].1.as_str());
        proof {
            assert(spec_pair_views(disconnects@).subrange(0, j as int + 1).drop_last()
                =~= spec_pair_views(disconnects@).subrange(0, j as int));
            assert(r@ =~= after_connects + spec_addr_parts(
                spec_pair_views(disconnects@).subrange(0, j as int + 1),
                false,
            ));
        }
        j = j + 1;
    }
    proof {
        assert(spec_pair_views(disconnects@).subrange(0, disconnects@.len() as int)
            =~= spec_pair_views(disconnects@));
    }
    match &accept {
        Some(c) => {
            r.append("failed to accept a connection, error: ");
            r.append(c.as_str());
        },
        None => {},
    }
    match &poll {
        Some(c) => {
            r.append("failed to poll the events, error: ");
            r.append(c.as_str());
        },
        None => {},
    }
    proof {
        assert(r@ =~= spec_report(
            match listen {
                Some((s, c)) => Some((s, c@)),
                None => None,
            },
            spec_pair_views(connects@),
            spec_pair_views(disconnects@),
            match accept {
                Some(c) => Some(c@),
                None => None,
            },
            match poll {
                Some(c) => Some(c@),
                None => None,
            },
        ));
    }
    r
}

impl Default for ProposerError {
    /// An empty record.
    fn default() -> (r: ProposerError)
        ensures
            r.spec_is_empty(),
    {
        ProposerError {
            listen_error: Option::<(ConnectionSource, std::io::Error)>::None,
            connect_errors: Vec::<(Addr, std::io::Error)>::new(),
            disconnect_errors: Vec::<(Addr, std::io::Error)>::new(),
            accept_error: Option::<std::io::Error>::None,
            poll_error: Option::<std::io::Error>::None,
        }
    }
}

} // verus!
