use nexterm::net::{IpAddr, SocketAddr};
use nexterm::tunnels::dynamic::{DynamicAction, DynamicEvent, DynamicForward, DynamicPhase};
use nexterm::tunnels::socks5::{
    encode_reply, negotiate_method, parse_request, read_request, select_method, write_reply,
    NegotiateStep, ReplyCode, RequestStep, Socks5Error, Socks5Request, TargetAddr, ATYP_IPV4,
    ATYP_IPV6, METHOD_NO_AUTH,
};

const LOCALHOST_V6: [u8; 16] = [0, 0, 0, 0, 0, 0, 0, 0, 0, 0, 0, 0, 0, 0, 0, 1];

#[test]
fn greeting_accepts_no_auth() {
    // VER=5, NMETHODS=1, METHOD=NO_AUTH.
    assert_eq!(select_method(&[0x05, 0x01, 0x00]).unwrap(), METHOD_NO_AUTH);
    // NO_AUTH present among several methods.
    assert_eq!(select_method(&[0x05, 0x02, 0x02, 0x00]).unwrap(), METHOD_NO_AUTH);
}

#[test]
fn greeting_rejects_unsupported_methods() {
    // Only GSSAPI (0x01) and user/pass (0x02) offered.
    assert!(matches!(
        select_method(&[0x05, 0x02, 0x01, 0x02]),
        Err(Socks5Error::NoAcceptableMethods)
    ));
}

#[test]
fn greeting_rejects_bad_version_and_short() {
    assert!(matches!(
        select_method(&[0x04, 0x01, 0x00]),
        Err(Socks5Error::BadVersion(0x04))
    ));
    assert!(matches!(select_method(&[0x05]), Err(Socks5Error::Malformed(_))));
    // Method count mismatch.
    assert!(matches!(
        select_method(&[0x05, 0x02, 0x00]),
        Err(Socks5Error::Malformed(_))
    ));
}

#[test]
fn request_ipv4_connect() {
    // VER CMD RSV ATYP=1 1.2.3.4 :443
    let buf = [0x05, 0x01, 0x00, 0x01, 1, 2, 3, 4, 0x01, 0xBB];
    let req = parse_request(&buf).unwrap();
    assert_eq!(req.addr, TargetAddr::Ip(IpAddr::V4([1, 2, 3, 4])));
    assert_eq!(req.port, 443);
    assert_eq!(req.host(), "1.2.3.4");
}

#[test]
fn request_domain_connect() {
    // ATYP=3, len=11, "example.com", :80
    let mut buf = vec![0x05, 0x01, 0x00, 0x03, 11];
    buf.extend_from_slice(b"example.com");
    buf.extend_from_slice(&80u16.to_be_bytes());
    let req = parse_request(&buf).unwrap();
    assert_eq!(req.addr, TargetAddr::Domain("example.com".into()));
    assert_eq!(req.port, 80);
}

#[test]
fn request_ipv6_connect() {
    let mut buf = vec![0x05, 0x01, 0x00, 0x04];
    buf.extend_from_slice(&LOCALHOST_V6);
    buf.extend_from_slice(&8443u16.to_be_bytes());
    let req = parse_request(&buf).unwrap();
    assert_eq!(req.addr, TargetAddr::Ip(IpAddr::V6(LOCALHOST_V6)));
    assert_eq!(req.port, 8443);
}

#[test]
fn request_rejects_bind_and_udp() {
    // CMD=2 (BIND).
    let bind = [0x05, 0x02, 0x00, 0x01, 1, 2, 3, 4, 0x00, 0x50];
    assert!(matches!(
        parse_request(&bind),
        Err(Socks5Error::UnsupportedCommand(0x02))
    ));
    // CMD=3 (UDP ASSOCIATE).
    let udp = [0x05, 0x03, 0x00, 0x01, 1, 2, 3, 4, 0x00, 0x50];
    assert!(matches!(
        parse_request(&udp),
        Err(Socks5Error::UnsupportedCommand(0x03))
    ));
}

#[test]
fn request_rejects_short_and_bad_atyp() {
    // Truncated header.
    assert!(matches!(parse_request(&[0x05, 0x01]), Err(Socks5Error::Malformed(_))));
    // Truncated IPv4 body.
    assert!(matches!(
        parse_request(&[0x05, 0x01, 0x00, 0x01, 1, 2]),
        Err(Socks5Error::Malformed(_))
    ));
    // Missing port after a complete IPv4 address.
    assert!(matches!(
        parse_request(&[0x05, 0x01, 0x00, 0x01, 1, 2, 3, 4]),
        Err(Socks5Error::Malformed(_))
    ));
    // Unknown address type 0x09.
    assert!(matches!(
        parse_request(&[0x05, 0x01, 0x00, 0x09, 0, 0]),
        Err(Socks5Error::UnsupportedAddressType(0x09))
    ));
    // Zero-length domain.
    assert!(matches!(
        parse_request(&[0x05, 0x01, 0x00, 0x03, 0, 0, 0]),
        Err(Socks5Error::Malformed(_))
    ));
}

#[test]
fn malformed_requests_say_what_is_wrong() {
    let cases: Vec<(Vec<u8>, &str)> = vec![
        (vec![0x05, 0x01, 0x00, 0x01, 1, 2], "ipv4 address truncated"),
        (vec![0x05, 0x01, 0x00, 0x04, 1, 2], "ipv6 address truncated"),
        (vec![0x05, 0x01, 0x00, 0x03], "domain length missing"),
        (vec![0x05, 0x01, 0x00, 0x03, 0], "empty domain name"),
        (vec![0x05, 0x01, 0x00, 0x03, 5, b'a'], "domain name truncated"),
        (vec![0x05, 0x01, 0x00, 0x03, 1, 0xFF, 0, 80], "domain name is not valid UTF-8"),
        (vec![0x05, 0x01, 0x00, 0x01, 1, 2, 3, 4, 9], "port truncated"),
    ];
    for (buf, expected) in cases {
        match parse_request(&buf) {
            Err(Socks5Error::Malformed(what)) => assert_eq!(what, expected),
            other => panic!("{buf:?} gave {other:?}"),
        }
    }
    assert!(matches!(
        parse_request(&[0x04, 0x01, 0x00, 0x01]),
        Err(Socks5Error::BadVersion(0x04))
    ));
}

#[test]
fn a_domain_that_is_not_ascii_is_decoded() {
    let mut buf = vec![0x05, 0x01, 0x00, 0x03, 7];
    buf.extend_from_slice("bücher".as_bytes());
    buf.extend_from_slice(&[0x00, 0x50]);
    let req = parse_request(&buf).unwrap();
    assert_eq!(req.host(), "bücher");
    assert_eq!(req.port, 80);
}

#[test]
fn reply_encoding() {
    let bound = SocketAddr { ip: IpAddr::V4([0, 0, 0, 0]), port: 0 };
    assert_eq!(
        encode_reply(ReplyCode::Succeeded, bound),
        vec![0x05, 0x00, 0x00, 0x01, 0, 0, 0, 0, 0, 0]
    );
    // A failure reply carries the failure code in byte 1.
    let r = encode_reply(ReplyCode::HostUnreachable, bound);
    assert_eq!(r[1], 0x04);
    assert_eq!(r[3], ATYP_IPV4);

    // IPv6 bound address uses ATYP=4 and 16 octets + 2 port.
    let v6 = SocketAddr { ip: IpAddr::V6(LOCALHOST_V6), port: 1080 };
    let r6 = encode_reply(ReplyCode::Succeeded, v6);
    assert_eq!(r6[3], ATYP_IPV6);
    assert_eq!(r6.len(), 3 + 1 + 16 + 2);
    assert_eq!(&r6[r6.len() - 2..], &1080u16.to_be_bytes());
}

#[test]
fn every_reply_code_has_its_own_byte() {
    let codes = [
        ReplyCode::Succeeded,
        ReplyCode::GeneralFailure,
        ReplyCode::ConnectionNotAllowed,
        ReplyCode::NetworkUnreachable,
        ReplyCode::HostUnreachable,
        ReplyCode::ConnectionRefused,
        ReplyCode::TtlExpired,
        ReplyCode::CommandNotSupported,
        ReplyCode::AddressTypeNotSupported,
    ];
    for (i, code) in codes.into_iter().enumerate() {
        assert_eq!(code.to_byte() as usize, i);
        assert_eq!(write_reply(code)[1] as usize, i);
    }
}

#[test]
fn error_reply_codes() {
    assert_eq!(
        Socks5Error::UnsupportedCommand(2).reply_code(),
        ReplyCode::CommandNotSupported
    );
    assert_eq!(
        Socks5Error::UnsupportedAddressType(9).reply_code(),
        ReplyCode::AddressTypeNotSupported
    );
    assert_eq!(Socks5Error::Malformed("x").reply_code(), ReplyCode::GeneralFailure);
}

#[test]
fn error_messages() {
    let cases = vec![
        (
            Socks5Error::BadVersion(0x04),
            "unsupported SOCKS version: 0x04 (only SOCKS5 is supported)",
        ),
        (
            Socks5Error::NoAcceptableMethods,
            "no acceptable authentication methods (only NO AUTH is supported)",
        ),
        (
            Socks5Error::UnsupportedCommand(0xAB),
            "unsupported SOCKS command: 0xab (only CONNECT is supported)",
        ),
        (Socks5Error::UnsupportedAddressType(9), "unsupported address type: 0x09"),
        (Socks5Error::Malformed("x"), "malformed SOCKS message: x"),
        (Socks5Error::Io("gone".into()), "socks i/o error: gone"),
    ];
    for (error, expected) in cases {
        assert_eq!(error.message(), expected);
    }
}

/// What the client has sent and not been asked for, with what it was answered.
struct Pipe {
    inbound: Vec<u8>,
    outbound: Vec<u8>,
}

impl Pipe {
    fn new(inbound: &[u8]) -> Self {
        Pipe { inbound: inbound.to_vec(), outbound: Vec::new() }
    }

    fn read(&mut self, n: usize) -> Option<Vec<u8>> {
        if self.inbound.len() < n {
            return None;
        }
        Some(self.inbound.drain(..n).collect())
    }
}

fn negotiate(pipe: &mut Pipe) -> Result<(), Socks5Error> {
    let mut seen = Vec::new();
    loop {
        match negotiate_method(&seen) {
            NegotiateStep::Read(n) => seen.extend(pipe.read(n).expect("greeting bytes")),
            NegotiateStep::Accept { reply } => {
                pipe.outbound.extend_from_slice(&reply);
                return Ok(());
            }
            NegotiateStep::Reject { answer, error } => {
                if let Some(reply) = answer {
                    pipe.outbound.extend_from_slice(&reply);
                }
                return Err(error);
            }
        }
    }
}

fn request(pipe: &mut Pipe) -> Result<Socks5Request, Socks5Error> {
    let mut seen = Vec::new();
    loop {
        match read_request(&seen) {
            RequestStep::Read(n) => seen.extend(pipe.read(n).expect("request bytes")),
            RequestStep::Done(req) => return Ok(req),
            RequestStep::Reject(error) => return Err(error),
        }
    }
}

#[test]
fn async_handshake_over_duplex() {
    let mut sent = vec![0x05, 0x01, 0x00];
    sent.extend_from_slice(&[0x05, 0x01, 0x00, 0x03, 11]);
    sent.extend_from_slice(b"example.com");
    sent.extend_from_slice(&443u16.to_be_bytes());
    // What the client sends next belongs to the forwarded stream.
    sent.extend_from_slice(b"GET /");
    let mut pipe = Pipe::new(&sent);

    negotiate(&mut pipe).unwrap();
    assert_eq!(pipe.outbound, [0x05, 0x00]);
    let req = request(&mut pipe).unwrap();
    assert_eq!(req.addr, TargetAddr::Domain("example.com".into()));
    assert_eq!(req.port, 443);
    assert_eq!(pipe.inbound, b"GET /");
}

#[test]
fn async_handshake_rejects_bad_methods() {
    // Only username/password (0x02) offered: not acceptable.
    let mut pipe = Pipe::new(&[0x05, 0x01, 0x02]);
    let res = negotiate(&mut pipe);
    assert_eq!(pipe.outbound, [0x05, 0xFF]);
    assert!(matches!(res, Err(Socks5Error::NoAcceptableMethods)));
}

#[test]
fn a_first_byte_of_another_version_gets_no_reply() {
    let mut pipe = Pipe::new(&[0x04, 0x01]);
    assert!(matches!(negotiate(&mut pipe), Err(Socks5Error::BadVersion(0x04))));
    assert!(pipe.outbound.is_empty());
}

#[test]
fn a_bind_request_is_refused_before_its_address_is_read() {
    let mut pipe = Pipe::new(&[0x05, 0x02, 0x00, 0x03, 200]);
    assert!(matches!(
        request(&mut pipe),
        Err(Socks5Error::UnsupportedCommand(0x02))
    ));
    assert_eq!(pipe.inbound, [200]);
}

#[test]
fn dynamic_forward_opens_what_was_asked_for() {
    let (mut forward, action) = DynamicForward::begin();
    assert_eq!(action, DynamicAction::Read(2));
    assert_eq!(
        forward.advance(DynamicEvent::Received(vec![0x05, 0x01])),
        DynamicAction::Read(1)
    );
    assert_eq!(
        forward.advance(DynamicEvent::Received(vec![0x00])),
        DynamicAction::Write(vec![0x05, 0x00])
    );
    assert_eq!(forward.advance(DynamicEvent::Sent), DynamicAction::Read(4));
    assert_eq!(
        forward.advance(DynamicEvent::Received(vec![0x05, 0x01, 0x00, 0x04])),
        DynamicAction::Read(18)
    );
    let mut rest = LOCALHOST_V6.to_vec();
    rest.extend_from_slice(&22u16.to_be_bytes());
    assert_eq!(
        forward.advance(DynamicEvent::Received(rest)),
        DynamicAction::Open { host: "::1".into(), port: 22 }
    );
    assert_eq!(
        forward.advance(DynamicEvent::Opened),
        DynamicAction::Write(vec![0x05, 0x00, 0x00, 0x01, 0, 0, 0, 0, 0, 0])
    );
    assert_eq!(forward.advance(DynamicEvent::Sent), DynamicAction::Pump);
    assert_eq!(forward.phase(), DynamicPhase::Over);
    assert_eq!(forward.advance(DynamicEvent::Sent), DynamicAction::Close);
}

fn at_request() -> DynamicForward {
    let (mut forward, _) = DynamicForward::begin();
    forward.advance(DynamicEvent::Received(vec![0x05, 0x01, 0x00]));
    forward.advance(DynamicEvent::Sent);
    assert_eq!(forward.phase(), DynamicPhase::Request);
    forward
}

fn closing_reply(code: u8) -> DynamicAction {
    DynamicAction::WriteAndClose(vec![0x05, code, 0x00, 0x01, 0, 0, 0, 0, 0, 0])
}

#[test]
fn dynamic_forward_answers_every_failure() {
    // The destination cannot be opened.
    let mut forward = at_request();
    assert_eq!(
        forward.advance(DynamicEvent::Received(vec![
            0x05, 0x01, 0x00, 0x01, 10, 0, 0, 1, 0, 80
        ])),
        DynamicAction::Open { host: "10.0.0.1".into(), port: 80 }
    );
    assert_eq!(forward.advance(DynamicEvent::Failed), closing_reply(0x04));

    // The request cannot be read, or is refused.
    assert_eq!(at_request().advance(DynamicEvent::Failed), closing_reply(0x01));
    assert_eq!(
        at_request().advance(DynamicEvent::Received(vec![0x05, 0x03, 0x00, 0x01])),
        closing_reply(0x07)
    );
    assert_eq!(
        at_request().advance(DynamicEvent::Received(vec![0x05, 0x01, 0x00, 0x09])),
        closing_reply(0x08)
    );

    // Nothing can be answered while the greeting is read.
    let (mut forward, _) = DynamicForward::begin();
    assert_eq!(forward.advance(DynamicEvent::Failed), DynamicAction::Close);
    let (mut forward, _) = DynamicForward::begin();
    assert_eq!(
        forward.advance(DynamicEvent::Received(vec![0x05, 0x01, 0x02])),
        DynamicAction::WriteAndClose(vec![0x05, 0xFF])
    );

    // The success reply cannot be sent.
    let mut forward = at_request();
    forward.advance(DynamicEvent::Received(vec![0x05, 0x01, 0x00, 0x01, 10, 0, 0, 1, 0, 80]));
    forward.advance(DynamicEvent::Opened);
    assert_eq!(forward.advance(DynamicEvent::Failed), DynamicAction::Close);
}

#[test]
fn addresses_as_text() {
    let v6 = |groups: [u16; 8]| {
        let mut octets = [0u8; 16];
        for (i, g) in groups.into_iter().enumerate() {
            octets[2 * i] = (g >> 8) as u8;
            octets[2 * i + 1] = g as u8;
        }
        IpAddr::V6(octets).to_text()
    };
    assert_eq!(IpAddr::V4([255, 0, 10, 9]).to_text(), "255.0.10.9");
    assert_eq!(v6([0; 8]), "::");
    assert_eq!(v6([0, 0, 0, 0, 0, 0, 0, 1]), "::1");
    assert_eq!(v6([0x2001, 0xdb8, 0, 0, 0, 0, 0, 1]), "2001:db8::1");
    assert_eq!(v6([0x2001, 0xdb8, 0, 1, 1, 1, 1, 1]), "2001:db8:0:1:1:1:1:1");
    assert_eq!(v6([0x2001, 0, 0, 1, 0, 0, 0, 1]), "2001:0:0:1::1");
    assert_eq!(v6([0xfe80, 0, 0, 0, 0, 0, 0, 0]), "fe80::");
    assert_eq!(v6([1, 0, 0, 2, 0, 0, 3, 4]), "1::2:0:0:3:4");
    assert_eq!(v6([0, 0, 0, 0, 0, 0xffff, 0x0102, 0x0304]), "::ffff:1.2.3.4");
    assert_eq!(v6([1, 2, 3, 4, 5, 6, 7, 8]), "1:2:3:4:5:6:7:8");
}

#[test]
fn an_early_refusal_is_what_the_whole_message_gets() {
    let whole = [0x05, 0x03, 0x00, 0x01, 1, 2, 3, 4, 0x00, 0x50];
    let early = match read_request(&whole[..4]) {
        RequestStep::Reject(error) => error.message(),
        _ => panic!("expected a refusal"),
    };
    assert_eq!(parse_request(&whole).unwrap_err().message(), early);
}

#[test]
fn the_longest_request_is_read_in_bounded_steps() {
    let mut sent = vec![0x05, 0x01, 0x00, 0x03, 255];
    sent.extend_from_slice(&[b'x'; 255]);
    sent.extend_from_slice(&[0x01, 0x00]);
    assert_eq!(sent.len(), 262);
    let mut pipe = Pipe::new(&sent);
    let req = request(&mut pipe).unwrap();
    assert_eq!(req.host().len(), 255);
    assert_eq!(req.port, 256);
    assert!(pipe.inbound.is_empty());
    // What was parsed is what was sent.
    let host = req.host();
    let mut again = vec![0x05, 0x01, 0x00, 0x03, host.len() as u8];
    again.extend_from_slice(host.as_bytes());
    again.extend_from_slice(&req.port.to_be_bytes());
    assert_eq!(again, sent);
}
