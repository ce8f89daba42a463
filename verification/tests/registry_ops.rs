use cold_io::{Addr, ConnectionSource, Proposer, StreamRegistry};

#[test]
fn fresh_registry_reports_no_errors() {
    let mut reg = StreamRegistry::new().expect("cannot create the poll set");
    assert!(reg.take_result().is_ok());
}

#[test]
fn listener_can_be_set_replaced_and_dropped() {
    let mut reg = StreamRegistry::new().expect("cannot create the poll set");
    reg.set_source(ConnectionSource::Port(18961));
    assert!(reg.take_result().is_ok());
    // replacing the listener drops the old one first, so the same port can
    // be bound again at once
    reg.set_source(ConnectionSource::Port(18961));
    assert!(reg.take_result().is_ok());
    reg.set_source(ConnectionSource::Off);
    assert!(reg.take_result().is_ok());
}

#[test]
fn two_listeners_on_one_port_is_a_listen_error() {
    let mut a = StreamRegistry::new().expect("cannot create the poll set");
    let mut b = StreamRegistry::new().expect("cannot create the poll set");
    a.set_source(ConnectionSource::Port(18962));
    assert!(a.take_result().is_ok());
    b.set_source(ConnectionSource::Port(18962));
    let e = b.take_result().expect_err("the port is taken");
    let (source, _) = e.listen_error.expect("the listen error carries the source");
    assert_eq!(source, ConnectionSource::Port(18962));
    // the error was taken out; nothing is pending any more
    assert!(b.take_result().is_ok());
}

#[test]
fn accept_without_listener_yields_nothing() {
    let mut reg = StreamRegistry::new().expect("cannot create the poll set");
    assert!(reg.accept().is_none());
    assert!(reg.take_result().is_ok());
}

#[test]
fn unknown_token_claims_nothing() {
    let mut reg = StreamRegistry::new().expect("cannot create the poll set");
    assert!(reg.take_stream(0).is_none());
    assert!(reg.take_stream(usize::MAX - 1).is_none());
}

#[test]
fn blacklisting_an_unknown_peer_is_quiet() {
    let mut reg = StreamRegistry::new().expect("cannot create the poll set");
    reg.blacklist_peer(Addr::v4(10, 1, 2, 3, 4444));
    reg.blacklist_peer(Addr::v4(10, 1, 2, 3, 5555));
    reg.reregister();
    assert!(reg.take_result().is_ok());
}

#[test]
fn proposer_creation_never_starts_by_itself() {
    let _p = Proposer::new(7, 4).expect("cannot create the poll set");
    // nothing to observe yet: the first proposal only exists once `run`
    // is called, which the scenario tests cover
}
