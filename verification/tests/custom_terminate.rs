use cold_io::{
    IoResult, Proposal, ProposalKind, ReadOnce, Request, State, TimeTracker, WriteOnce,
};

/// A read token that is never really used; the tracker tests exercise no
/// sockets.
struct NoRead;

impl ReadOnce for NoRead {
    fn read(self, _buf: &mut [u8]) -> IoResult {
        IoResult::Closed
    }
}

/// The write twin of [`NoRead`].
struct NoWrite;

impl WriteOnce for NoWrite {
    fn write(self, _data: &[u8]) -> IoResult {
        IoResult::Closed
    }
}

/// A server that, once told to terminate out of band, releases one held
/// connection per idle quantum and declares itself terminal when none is
/// left.
struct Server {
    connections: usize,
    received_terminate: bool,
}

impl Server {
    fn can_terminate(&self) -> bool {
        self.received_terminate && self.connections == 0
    }
}

impl State<NoRead, NoWrite> for Server {
    type Ext = &'static str;
    type Rng = ();

    fn accept(&mut self, p: Proposal<NoRead, NoWrite, &'static str, ()>) -> Request {
        match p.kind {
            ProposalKind::Custom("terminate") => {
                self.received_terminate = true;
            },
            ProposalKind::Idle => {
                if self.received_terminate && self.connections > 0 {
                    self.connections -= 1;
                }
            },
            _ => {},
        }
        Request::default()
    }
}

#[test]
fn terminate_drains_one_connection_per_idle() {
    let server = Server { connections: 3, received_terminate: false };
    let mut t: TimeTracker<std::iter::Repeat<()>, Server, NoRead, NoWrite> =
        TimeTracker::new(std::iter::repeat(()), server);

    let reply = t.send(ProposalKind::Idle);
    assert!(reply.is_empty());
    assert!(!t.state_mut().can_terminate());
    assert_eq!(t.state_mut().connections, 3);

    let _ = t.send(ProposalKind::Custom("terminate"));
    assert!(t.state_mut().received_terminate);
    assert!(!t.state_mut().can_terminate());

    let _ = t.send(ProposalKind::Idle);
    let _ = t.send(ProposalKind::Idle);
    assert_eq!(t.state_mut().connections, 1);
    assert!(!t.state_mut().can_terminate());

    let _ = t.send(ProposalKind::Idle);
    assert_eq!(t.state_mut().connections, 0);
    assert!(t.state_mut().can_terminate());
}

#[test]
fn custom_constructor_carries_the_payload() {
    let p: Proposal<NoRead, NoWrite, &'static str, ()> = Proposal::custom((), "terminate");
    let mut server = Server { connections: 0, received_terminate: false };
    let _ = server.accept(p);
    assert!(server.received_terminate);
    assert!(server.can_terminate());
}
