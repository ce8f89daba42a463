use cold_io::{
    dec_u32, hex4_u16, Addr, ConnectionId, ConnectionSource, Ip, ProposerError,
};

#[test]
fn decimal_rendering_is_exact() {
    assert_eq!(dec_u32(0), "0");
    assert_eq!(dec_u32(7), "7");
    assert_eq!(dec_u32(42), "42");
    assert_eq!(dec_u32(8224), "8224");
    assert_eq!(dec_u32(4294967295), "4294967295");
}

#[test]
fn hex_rendering_is_four_digits() {
    assert_eq!(hex4_u16(0), "0000");
    assert_eq!(hex4_u16(0x2a), "002a");
    assert_eq!(hex4_u16(0xbeef), "beef");
    assert_eq!(hex4_u16(0xffff), "ffff");
}

#[test]
fn connection_id_renders_as_hex_halves() {
    let id = ConnectionId { poll_id: 1, token: 0x2a };
    assert_eq!(id.describe(), "0001.002a");
}

#[test]
fn source_renders_off_and_port() {
    assert_eq!(ConnectionSource::Off.describe(), "none");
    assert_eq!(ConnectionSource::Port(8224).describe(), "port(8224)");
}

#[test]
fn v4_address_renders_as_dotted_quad() {
    assert_eq!(Addr::v4(127, 0, 0, 1, 8224).describe(), "127.0.0.1:8224");
    assert_eq!(Addr::v4(255, 255, 255, 255, 65535).describe(), "255.255.255.255:65535");
}

#[test]
fn v6_address_renders_as_bracketed_groups() {
    let a = Addr { ip: Ip::V6(1), port: 80 };
    assert_eq!(a.describe(), "[0000:0000:0000:0000:0000:0000:0000:0001]:80");
}

#[test]
fn empty_error_report_is_empty() {
    let e = ProposerError::default();
    assert_eq!(e.describe(), "");
    assert!(e.is_empty());
}

#[test]
fn error_report_lists_each_failure() {
    let e = ProposerError {
        listen_error: Some((
            ConnectionSource::Port(80),
            std::io::Error::new(std::io::ErrorKind::Other, "taken"),
        )),
        connect_errors: vec![(
            Addr::v4(10, 0, 0, 1, 9000),
            std::io::Error::new(std::io::ErrorKind::Other, "no route"),
        )],
        disconnect_errors: Vec::new(),
        accept_error: Some(std::io::Error::new(std::io::ErrorKind::Other, "boom")),
        poll_error: None,
    };
    assert!(!e.is_empty());
    assert_eq!(
        e.describe(),
        "failed to listen: port(80), error: taken\
         failed to connect to: 10.0.0.1:9000, error: no route\
         failed to accept a connection, error: boom"
    );
}
