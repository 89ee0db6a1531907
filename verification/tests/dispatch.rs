use vless_relay::dispatch::{dispatch_first, Dispatch, FirstEvent, SessionError};
use vless_relay::identity::Identifier;
use vless_relay::relay::CloseReason;
use vless_relay::vless::{Address, Command, DecodeError};

const KEY: [u8; 16] = [
    0x55, 0x0e, 0x84, 0x00, 0xe2, 0x9b, 0x41, 0xd4, 0xa7, 0x16, 0x44, 0x66, 0x55, 0x44, 0x00,
    0x00,
];

fn tcp_header(cmd: u8) -> Vec<u8> {
    let mut b: Vec<u8> = vec![0x00];
    b.extend(KEY);
    b.push(0x00);
    b.push(cmd);
    b.extend([0x00, 0x50]);
    b.push(0x01);
    b.extend([1u8, 2, 3, 4]);
    b
}

#[test]
fn early_close_fails_without_transport_action() {
    let d = dispatch_first(FirstEvent::Closed, &Identifier::from_bytes(KEY));
    match d {
        Dispatch::Reject(close, err) => {
            assert!(close.is_none());
            assert_eq!(err, SessionError::NoRequest);
        }
        _ => panic!("a closed transport must not connect"),
    }
}

#[test]
fn non_binary_first_message_is_an_empty_handshake() {
    let d = dispatch_first(FirstEvent::NonBinary, &Identifier::from_bytes(KEY));
    match d {
        Dispatch::Reject(close, err) => {
            assert!(close.is_none());
            assert_eq!(err, SessionError::EmptyFirstMessage);
        }
        _ => panic!("an empty first message must not connect"),
    }
}

#[test]
fn valid_tcp_handshake_connects() {
    let d = dispatch_first(
        FirstEvent::Binary(tcp_header(0x01)),
        &Identifier::from_bytes(KEY),
    );
    match d {
        Dispatch::Connect(q) => {
            assert!(matches!(q.cmd, Command::Tcp));
            assert_eq!(q.port, 80);
            match &q.addr {
                Address::IPv4(a) => assert_eq!(a, &[1u8, 2, 3, 4]),
                _ => panic!("wrong address kind"),
            }
        }
        _ => panic!("a valid TCP handshake must connect"),
    }
}

#[test]
fn unknown_command_closes_with_1003_and_never_connects() {
    let d = dispatch_first(
        FirstEvent::Binary(tcp_header(0x05)),
        &Identifier::from_bytes(KEY),
    );
    match d {
        Dispatch::Reject(Some(reason), err) => {
            assert_eq!(reason.code(), 1003);
            assert_eq!(err, SessionError::Invalid(DecodeError::UnsupportedCommand));
        }
        _ => panic!("an unknown command must reject with a close"),
    }
}

#[test]
fn udp_and_mux_close_with_1003_and_never_connect() {
    for cmd in [0x02u8, 0x03u8] {
        let d = dispatch_first(
            FirstEvent::Binary(tcp_header(cmd)),
            &Identifier::from_bytes(KEY),
        );
        match d {
            Dispatch::Reject(Some(reason), err) => {
                assert_eq!(reason, CloseReason::UnsupportedCommand);
                assert_eq!(reason.code(), 1003);
                assert_eq!(reason.text(), "unsupported command");
                match err {
                    SessionError::Unsupported(c) => {
                        assert_eq!(c.byte(), cmd);
                    }
                    _ => panic!("a decoded non-TCP command is an unsupported command"),
                }
            }
            _ => panic!("a non-TCP command must reject with a close"),
        }
    }
}

#[test]
fn connected_session_flushes_inline_payload_first() {
    let mut b = tcp_header(0x01);
    b.extend(*b"GET / HTTP/1.1\r\n\r\n");
    let d = dispatch_first(FirstEvent::Binary(b), &Identifier::from_bytes(KEY));
    let q = match d {
        Dispatch::Connect(q) => q,
        _ => panic!("a valid TCP handshake must connect"),
    };
    let acts = vless_relay::relay::setup_actions(q.payload);
    assert_eq!(acts.len(), 1);
    match &acts[0] {
        vless_relay::relay::RelayAction::WriteTarget(p) => {
            assert_eq!(p.as_slice(), b"GET / HTTP/1.1\r\n\r\n".as_slice())
        }
        _ => panic!("the inline payload must go to the target before the loop"),
    }
}

#[test]
fn wrong_identity_and_garbage_share_the_observable_close() {
    let ident = Identifier::from_bytes(KEY);

    let mut wrong = tcp_header(0x01);
    wrong[3] ^= 0x01;
    let d1 = dispatch_first(FirstEvent::Binary(wrong), &ident);

    let d2 = dispatch_first(FirstEvent::Binary(vec![0x00; 5]), &ident);

    let (r1, e1) = match d1 {
        Dispatch::Reject(Some(r), e) => (r, e),
        _ => panic!("a wrong identity must reject with a close"),
    };
    let (r2, e2) = match d2 {
        Dispatch::Reject(Some(r), e) => (r, e),
        _ => panic!("a short buffer must reject with a close"),
    };
    // distinct at the decoder boundary
    assert_eq!(e1, SessionError::Invalid(DecodeError::BadIdentity));
    assert_eq!(e2, SessionError::Invalid(DecodeError::TooShort));
    // indistinguishable on the wire
    assert_eq!(r1, r2);
    assert_eq!(r1.code(), 1003);
    assert_eq!(r1.text(), "invalid request");
}
