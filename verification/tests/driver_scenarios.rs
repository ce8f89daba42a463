use cold_io::{
    Addr, ConnectionSource, IoResult, Proposal, ProposalKind, Proposer, ReadOnce, Request, State,
    TcpReadOnce, TcpWriteOnce, TimeTracker, WriteOnce,
};
use std::time::Duration;

#[derive(Debug, Clone, PartialEq, Eq)]
enum Seen {
    Wake,
    Idle,
    Conn { incoming: bool },
    Writable,
    Readable,
    Wrote { length: usize, will_close: bool },
    WroteClosed,
    Read { length: usize, will_close: bool, data: Vec<u8> },
    ReadClosed,
}

/// A scripted peer driving one proposer in a scenario.
struct Peer {
    listen_port: Option<u16>,
    connect_to: Option<Addr>,
    blacklist: Vec<Addr>,
    write_payload: Option<&'static [u8]>,
    drop_write_unused: bool,
    read_buf_size: usize,
    wrote: bool,
    seen: Vec<Seen>,
}

impl Peer {
    fn quiet() -> Peer {
        Peer {
            listen_port: None,
            connect_to: None,
            blacklist: Vec::new(),
            write_payload: None,
            drop_write_unused: false,
            read_buf_size: 32,
            wrote: false,
            seen: Vec::new(),
        }
    }

    fn count_reads(&self) -> usize {
        self.seen.iter().filter(|s| matches!(s, Seen::Read { .. })).count()
    }

    fn has_incoming_conn(&self) -> bool {
        self.seen.iter().any(|s| matches!(s, Seen::Conn { incoming: true }))
    }
}

impl State<TcpReadOnce, TcpWriteOnce> for Peer {
    type Ext = &'static str;
    type Rng = ();

    fn accept(&mut self, p: Proposal<TcpReadOnce, TcpWriteOnce, &'static str, ()>) -> Request {
        match p.kind {
            ProposalKind::Wake => {
                self.seen.push(Seen::Wake);
                let mut r = Request::default();
                if let Some(port) = self.listen_port {
                    r = r.set_source(ConnectionSource::Port(port));
                }
                for b in &self.blacklist {
                    r = r.add_to_blacklist(*b);
                }
                if let Some(t) = self.connect_to {
                    r = r.add_connect(t);
                }
                r
            },
            ProposalKind::Idle => {
                self.seen.push(Seen::Idle);
                Request::default()
            },
            ProposalKind::Connection { incoming, .. } => {
                self.seen.push(Seen::Conn { incoming });
                Request::default()
            },
            ProposalKind::OnWritable(_, w) => {
                self.seen.push(Seen::Writable);
                if self.drop_write_unused {
                    drop(w);
                } else if !self.wrote && self.write_payload.is_some() {
                    let data = self.write_payload.unwrap();
                    match w.write(data) {
                        IoResult::Done { length, will_close } => {
                            self.wrote = true;
                            self.seen.push(Seen::Wrote { length, will_close });
                        },
                        IoResult::Closed => {
                            self.seen.push(Seen::WroteClosed);
                            // the connection died before the payload went out:
                            // ask to connect again, as a resilient peer would
                            if let Some(t) = self.connect_to {
                                return Request::default().add_connect(t);
                            }
                        },
                    }
                } else {
                    // keep the write half open without sending anything
                    let _ = w.write(&[]);
                }
                Request::default()
            },
            ProposalKind::OnReadable(_, r) => {
                self.seen.push(Seen::Readable);
                let mut buf = vec![0u8; self.read_buf_size];
                match r.read(&mut buf) {
                    IoResult::Done { length, will_close } => {
                        buf.truncate(length);
                        self.seen.push(Seen::Read { length, will_close, data: buf });
                    },
                    IoResult::Closed => {
                        self.seen.push(Seen::ReadClosed);
                    },
                }
                Request::default()
            },
            ProposalKind::Custom(_) => Request::default(),
        }
    }
}

type Rngs = std::iter::Repeat<()>;
type Tracker = TimeTracker<Rngs, Peer, TcpReadOnce, TcpWriteOnce>;

fn tracker(peer: Peer) -> Tracker {
    TimeTracker::new(std::iter::repeat(()), peer)
}

/// Runs the two proposers alternately (first one first) until `done` says
/// enough or the round budget runs out.  Yields `false` on a machine that
/// cannot route a loopback connect at all, where the scenario is vacuous.
fn run_pair(
    first: &mut Proposer,
    first_t: &mut Tracker,
    second: &mut Proposer,
    second_t: &mut Tracker,
    rounds: usize,
    done: impl Fn(&Peer, &Peer) -> bool,
) -> bool {
    for _ in 0..rounds {
        first.run(first_t, Duration::from_millis(20)).expect("first proposer iteration failed");
        match second.run(second_t, Duration::from_millis(20)) {
            Ok(()) => {},
            Err(e) => {
                if !e.connect_errors.is_empty() {
                    return false;
                }
                panic!("second proposer iteration failed: {:?}", e);
            },
        }
        if done(first_t.state_mut(), second_t.state_mut()) {
            return true;
        }
    }
    true
}

#[test]
fn hello_handshake_end_to_end() {
    let payload: &'static [u8] = b"hello, world!";
    let addr = Addr::v4(127, 0, 0, 1, 18411);

    let responder = Peer { listen_port: Some(18411), read_buf_size: 13, ..Peer::quiet() };
    let initiator = Peer { connect_to: Some(addr), write_payload: Some(payload), ..Peer::quiet() };

    let mut rp = Proposer::new(0, 8).expect("cannot create responder poll set");
    let mut ip = Proposer::new(1, 8).expect("cannot create initiator poll set");
    let mut rt = tracker(responder);
    let mut it = tracker(initiator);

    if !run_pair(&mut rp, &mut rt, &mut ip, &mut it, 100, |r, i| {
        r.count_reads() > 0 && i.wrote
    }) {
        return;
    }

    let r = rt.state_mut();
    let i = it.state_mut();

    // the very first proposal on both sides is the wake-up
    assert_eq!(r.seen[0], Seen::Wake);
    assert_eq!(i.seen[0], Seen::Wake);

    // the initiator saw its outbound connection, then wrote all 13 bytes
    assert!(i.seen.contains(&Seen::Conn { incoming: false }));
    assert!(i.seen.contains(&Seen::Wrote { length: 13, will_close: false }));

    // the responder admitted the connection and read the exact payload
    assert!(r.seen.contains(&Seen::Conn { incoming: true }));
    assert!(r.seen.iter().any(
        |s| matches!(s, Seen::Read { length: 13, data, .. } if data.as_slice() == payload),
    ));

    // on both sides the connection proposal precedes the transfer
    let conn_at = i.seen.iter().position(|s| s == &Seen::Conn { incoming: false }).unwrap();
    let wrote_at = i
        .seen
        .iter()
        .position(|s| matches!(s, Seen::Wrote { length: 13, .. }))
        .unwrap();
    assert!(conn_at < wrote_at);
}

#[test]
fn quiescent_listener_idles_once_per_iteration() {
    let responder = Peer { listen_port: Some(18422), ..Peer::quiet() };
    let mut rp = Proposer::new(0, 8).expect("cannot create poll set");
    let mut rt = tracker(responder);

    for _ in 0..5 {
        rp.run(&mut rt, Duration::from_millis(30)).expect("iteration failed");
    }

    let seen = &rt.state_mut().seen;
    assert_eq!(seen[0], Seen::Wake);
    assert_eq!(seen.len(), 5);
    assert!(seen[1..].iter().all(|s| s == &Seen::Idle));
}

#[test]
fn blacklisted_ip_is_never_announced() {
    // the responder blacklists the loopback IP (the port does not matter:
    // the blacklist is keyed by IP alone) before anyone connects
    let responder = Peer {
        listen_port: Some(18433),
        blacklist: vec![Addr::v4(127, 0, 0, 1, 1)],
        ..Peer::quiet()
    };
    let initiator =
        Peer { connect_to: Some(Addr::v4(127, 0, 0, 1, 18433)), ..Peer::quiet() };

    let mut rp = Proposer::new(0, 8).expect("cannot create responder poll set");
    let mut ip = Proposer::new(1, 8).expect("cannot create initiator poll set");
    let mut rt = tracker(responder);
    let mut it = tracker(initiator);

    for _ in 0..12 {
        rp.run(&mut rt, Duration::from_millis(20)).expect("responder iteration failed");
        let _ = ip.run(&mut it, Duration::from_millis(20));
    }

    assert!(!rt.state_mut().has_incoming_conn());
}

#[test]
fn half_close_is_observed_exactly_once() {
    // the initiator never writes: it drops its write token unused, which
    // shuts its write half and sends the peer an end-of-stream
    let addr = Addr::v4(127, 0, 0, 1, 18444);
    let responder = Peer { listen_port: Some(18444), ..Peer::quiet() };
    let initiator = Peer { connect_to: Some(addr), drop_write_unused: true, ..Peer::quiet() };

    let mut rp = Proposer::new(0, 8).expect("cannot create responder poll set");
    let mut ip = Proposer::new(1, 8).expect("cannot create initiator poll set");
    let mut rt = tracker(responder);
    let mut it = tracker(initiator);

    if !run_pair(&mut rp, &mut rt, &mut ip, &mut it, 100, |r, _| r.count_reads() > 0) {
        return;
    }
    // a few more rounds: no second read proposal may surface
    for _ in 0..6 {
        rp.run(&mut rt, Duration::from_millis(20)).expect("responder iteration failed");
        let _ = ip.run(&mut it, Duration::from_millis(20));
    }

    let r = rt.state_mut();
    assert_eq!(r.count_reads(), 1);
    assert!(r.seen.contains(&Seen::Read { length: 0, will_close: true, data: Vec::new() }));
    assert!(!r.seen.contains(&Seen::ReadClosed));
}

#[test]
fn simultaneous_readiness_is_writable_first() {
    let addr = Addr::v4(127, 0, 0, 1, 18455);
    let responder = Peer { listen_port: Some(18455), ..Peer::quiet() };
    let initiator = Peer { connect_to: Some(addr), write_payload: Some(b"hi"), ..Peer::quiet() };

    let mut rp = Proposer::new(0, 8).expect("cannot create responder poll set");
    let mut ip = Proposer::new(1, 8).expect("cannot create initiator poll set");
    let mut rt = tracker(responder);
    let mut it = tracker(initiator);

    if !run_pair(&mut rp, &mut rt, &mut ip, &mut it, 100, |r, _| r.count_reads() > 0) {
        return;
    }

    let r = rt.state_mut();
    // the iteration that carried data reported the stream writable too,
    // and the writable proposal came first
    let read_at = r.seen.iter().position(|s| s == &Seen::Readable).expect("no readable proposal");
    assert!(read_at >= 1);
    assert_eq!(r.seen[read_at - 1], Seen::Writable);
    assert!(r.seen.iter().any(|s| matches!(s, Seen::Read { length: 2, data, .. } if data.as_slice() == b"hi")));
}
