//! Minimal SOCKS5 server side for dynamic (`ssh -D`) forwarding.
//!
//! Scope (RFC 1928): SOCKS5 only, `NO AUTHENTICATION REQUIRED` only, `CONNECT`
//! only, with IPv4, domain-name and IPv6 addresses. Parsing and encoding are
//! functions on bytes. Reading a message off a stream is a step function that
//! is asked again after each read, and never asks for a byte that does not
//! belong to the message.

use vstd::prelude::*;
use vstd::string::*;
use vstd::utf8::*;

use crate::net;
use crate::net::{IpAddr, SocketAddr};
use crate::text;

verus! {

/// SOCKS protocol version spoken here.
pub const SOCKS5_VERSION: u8 = 0x05;

/// Auth method: no authentication required.
pub const METHOD_NO_AUTH: u8 = 0x00;

/// Auth method sentinel: no acceptable methods.
pub const METHOD_NO_ACCEPTABLE: u8 = 0xFF;

/// Command: establish a TCP stream (the only one supported).
pub const CMD_CONNECT: u8 = 0x01;

/// Address type: IPv4.
pub const ATYP_IPV4: u8 = 0x01;

/// Address type: domain name.
pub const ATYP_DOMAIN: u8 = 0x03;

/// Address type: IPv6.
pub const ATYP_IPV6: u8 = 0x04;

/// Maximum domain name length (the length field is a single byte).
pub const MAX_DOMAIN_LEN: usize = 255;

/// Errors from SOCKS5 negotiation and parsing.
#[derive(Debug)]
pub enum Socks5Error {
    BadVersion(u8),
    NoAcceptableMethods,
    UnsupportedCommand(u8),
    UnsupportedAddressType(u8),
    Malformed(&'static str),
    /// The stream failed; holds the description of the failure.
    Io(String),
}

/// SOCKS5 reply codes (RFC 1928, section 6).
#[derive(Debug, Clone, Copy, PartialEq, Eq, Structural)]
pub enum ReplyCode {
    Succeeded,
    GeneralFailure,
    ConnectionNotAllowed,
    NetworkUnreachable,
    HostUnreachable,
    ConnectionRefused,
    TtlExpired,
    CommandNotSupported,
    AddressTypeNotSupported,
}

impl ReplyCode {
    /// The code on the wire.
    pub open spec fn wire(self) -> u8 {
        match self {
            ReplyCode::Succeeded => 0x00,
            ReplyCode::GeneralFailure => 0x01,
            ReplyCode::ConnectionNotAllowed => 0x02,
            ReplyCode::NetworkUnreachable => 0x03,
            ReplyCode::HostUnreachable => 0x04,
            ReplyCode::ConnectionRefused => 0x05,
            ReplyCode::TtlExpired => 0x06,
            ReplyCode::CommandNotSupported => 0x07,
            ReplyCode::AddressTypeNotSupported => 0x08,
        }
    }

    /// The code on the wire.
    pub fn to_byte(self) -> (b: u8)
        ensures
            b == self.wire(),
    {
        match self {
            ReplyCode::Succeeded => 0x00,
            ReplyCode::GeneralFailure => 0x01,
            ReplyCode::ConnectionNotAllowed => 0x02,
            ReplyCode::NetworkUnreachable => 0x03,
            ReplyCode::HostUnreachable => 0x04,
            ReplyCode::ConnectionRefused => 0x05,
            ReplyCode::TtlExpired => 0x06,
            ReplyCode::CommandNotSupported => 0x07,
            ReplyCode::AddressTypeNotSupported => 0x08,
        }
    }
}

impl Socks5Error {
    /// The reply code that answers this error.
    pub open spec fn reply(self) -> ReplyCode {
        match self {
            Socks5Error::UnsupportedCommand(_) => ReplyCode::CommandNotSupported,
            Socks5Error::UnsupportedAddressType(_) => ReplyCode::AddressTypeNotSupported,
            _ => ReplyCode::GeneralFailure,
        }
    }

    /// The reply code to send back for this error (while a CONNECT reply is
    /// still meaningful).
    pub fn reply_code(&self) -> (r: ReplyCode)
        ensures
            r == self.reply(),
    {
        match self {
            Socks5Error::UnsupportedCommand(_) => ReplyCode::CommandNotSupported,
            Socks5Error::UnsupportedAddressType(_) => ReplyCode::AddressTypeNotSupported,
            _ => ReplyCode::GeneralFailure,
        }
    }

    /// What [`Socks5Error::message`] says.
    pub open spec fn message_text(self) -> Seq<char> {
        match self {
            Socks5Error::BadVersion(v) => "unsupported SOCKS version: "@ + text::hex_byte(v)
                + " (only SOCKS5 is supported)"@,
            Socks5Error::NoAcceptableMethods =>
                "no acceptable authentication methods (only NO AUTH is supported)"@,
            Socks5Error::UnsupportedCommand(c) => "unsupported SOCKS command: "@ + text::hex_byte(c)
                + " (only CONNECT is supported)"@,
            Socks5Error::UnsupportedAddressType(a) => "unsupported address type: "@
                + text::hex_byte(a),
            Socks5Error::Malformed(what) => "malformed SOCKS message: "@ + what@,
            Socks5Error::Io(what) => "socks i/o error: "@ + what@,
        }
    }

    /// A description of the error for people.
    pub fn message(&self) -> (r: String)
        ensures
            r@ == self.message_text(),
    {
        let mut out = String::new();
        match self {
            Socks5Error::BadVersion(v) => {
                out.append("unsupported SOCKS version: ");
                text::push_hex_byte(&mut out, *v);
                out.append(" (only SOCKS5 is supported)");
            },
            Socks5Error::NoAcceptableMethods => {
                out.append("no acceptable authentication methods (only NO AUTH is supported)");
            },
            Socks5Error::UnsupportedCommand(c) => {
                out.append("unsupported SOCKS command: ");
                text::push_hex_byte(&mut out, *c);
                out.append(" (only CONNECT is supported)");
            },
            Socks5Error::UnsupportedAddressType(a) => {
                out.append("unsupported address type: ");
                text::push_hex_byte(&mut out, *a);
            },
            Socks5Error::Malformed(what) => {
                out.append("malformed SOCKS message: ");
                out.append(what);
            },
            Socks5Error::Io(what) => {
                out.append("socks i/o error: ");
                out.append(what.as_str());
            },
        }
        assert(out@ =~= self.message_text());
        out
    }
}

/// A destination address from a CONNECT request.
#[derive(Debug, PartialEq, Eq)]
pub enum TargetAddr {
    Ip(IpAddr),
    Domain(String),
}

impl Clone for TargetAddr {
    fn clone(&self) -> (r: Self)
        ensures
            r == *self,
    {
        match self {
            TargetAddr::Ip(ip) => TargetAddr::Ip(*ip),
            TargetAddr::Domain(d) => TargetAddr::Domain(d.clone()),
        }
    }
}

/// A destination address, as octets or characters.
pub enum AddrModel {
    V4(Seq<u8>),
    V6(Seq<u8>),
    Domain(Seq<char>),
}

impl View for TargetAddr {
    type V = AddrModel;

    open spec fn view(&self) -> AddrModel {
        match self {
            TargetAddr::Ip(IpAddr::V4(o)) => AddrModel::V4(o@),
            TargetAddr::Ip(IpAddr::V6(o)) => AddrModel::V6(o@),
            TargetAddr::Domain(d) => AddrModel::Domain(d@),
        }
    }
}

/// The host as text: the address in its text form, or the name itself.
pub open spec fn host_text(addr: AddrModel) -> Seq<char> {
    match addr {
        AddrModel::V4(o) => net::ipv4_text(o),
        AddrModel::V6(o) => net::ipv6_text(o),
        AddrModel::Domain(d) => d,
    }
}

impl TargetAddr {
    /// Host string suitable for `direct-tcpip` (IP literal or domain name).
    pub fn host(&self) -> (r: String)
        ensures
            r@ == host_text(self@),
    {
        match self {
            TargetAddr::Ip(ip) => ip.to_text(),
            TargetAddr::Domain(d) => d.clone(),
        }
    }
}

/// A parsed SOCKS5 CONNECT request.
#[derive(Debug, PartialEq, Eq)]
pub struct Socks5Request {
    pub addr: TargetAddr,
    pub port: u16,
}

impl Clone for Socks5Request {
    fn clone(&self) -> (r: Self)
        ensures
            r == *self,
    {
        Socks5Request { addr: self.addr.clone(), port: self.port }
    }
}

/// A CONNECT request: destination and port.
pub struct RequestModel {
    pub addr: AddrModel,
    pub port: u16,
}

impl View for Socks5Request {
    type V = RequestModel;

    open spec fn view(&self) -> RequestModel {
        RequestModel { addr: self.addr@, port: self.port }
    }
}

impl Socks5Request {
    /// Host string of the destination.
    pub fn host(&self) -> (r: String)
        ensures
            r@ == host_text(self@.addr),
    {
        self.addr.host()
    }
}

// ---------------------------------------------------------------------------
// Parsing and encoding
// ---------------------------------------------------------------------------

/// What a greeting (`VER NMETHODS METHODS...`) is answered: the method, or why
/// there is none.
pub open spec fn method_of(greeting: Seq<u8>) -> Result<u8, Socks5Error> {
    if greeting.len() < 2 {
        Err(Socks5Error::Malformed("greeting too short"))
    } else if greeting[0] != SOCKS5_VERSION {
        Err(Socks5Error::BadVersion(greeting[0]))
    } else if greeting.len() != 2 + greeting[1] {
        Err(Socks5Error::Malformed("greeting method count mismatch"))
    } else if greeting.skip(2).contains(METHOD_NO_AUTH) {
        Ok(METHOD_NO_AUTH)
    } else {
        Err(Socks5Error::NoAcceptableMethods)
    }
}

/// Parse a client greeting and pick an auth method. Only [`METHOD_NO_AUTH`] is
/// acceptable.
pub fn select_method(greeting: &[u8]) -> (r: Result<u8, Socks5Error>)
    ensures
        r == method_of(greeting@),
        greeting@.len() >= 2 && greeting@[0] == 5 && greeting@.len() == 2 + greeting@[1] ==> {
            &&& (exists|k: int| 2 <= k < greeting@.len() && #[trigger] greeting@[k] == 0) ==> r
                == Ok::<u8, Socks5Error>(0u8)
            &&& (forall|k: int| 2 <= k < greeting@.len() ==> #[trigger] greeting@[k] != 0) ==> r
                == Err::<u8, Socks5Error>(Socks5Error::NoAcceptableMethods)
        },
{
    if greeting.len() < 2 {
        return Err(Socks5Error::Malformed("greeting too short"));
    }
    if greeting[0] != SOCKS5_VERSION {
        return Err(Socks5Error::BadVersion(greeting[0]));
    }
    let n: usize = greeting[1] as usize;
    if greeting.len() != 2 + n {
        return Err(Socks5Error::Malformed("greeting method count mismatch"));
    }
    let mut i: usize = 2;
    while i < greeting.len()
        invariant
            2 <= i <= greeting@.len(),
            greeting@.len() == 2 + greeting@[1],
            greeting@[0] == SOCKS5_VERSION,
            forall|k: int| 2 <= k < i ==> greeting@[k] != METHOD_NO_AUTH,
        decreases greeting.len() - i,
    {
        if greeting[i] == METHOD_NO_AUTH {
            assert(greeting@.skip(2)[i - 2] == METHOD_NO_AUTH);
            return Ok(METHOD_NO_AUTH);
        }
        i = i + 1;
    }
    assert(!greeting@.skip(2).contains(METHOD_NO_AUTH)) by {
        if greeting@.skip(2).contains(METHOD_NO_AUTH) {
            let k = choose|k: int|
                0 <= k < greeting@.skip(2).len() && greeting@.skip(2)[k] == METHOD_NO_AUTH;
            assert(greeting@[k + 2] == METHOD_NO_AUTH);
        }
    }
    Err(Socks5Error::NoAcceptableMethods)
}

/// A 16-bit number from its two bytes, high byte first.
pub open spec fn be16(hi: u8, lo: u8) -> u16 {
    (hi as int * 256 + lo as int) as u16
}

/// The two bytes of a 16-bit number, high byte first.
pub open spec fn be16_bytes(n: u16) -> Seq<u8> {
    seq![(n / 256) as u8, (n % 256) as u8]
}

/// The address field of type `atyp` at the front of `rest`: the address and how
/// many bytes it takes, or why there is none.
pub open spec fn address_of(atyp: u8, rest: Seq<u8>) -> Result<(AddrModel, int), Socks5Error> {
    if atyp == ATYP_IPV4 {
        if rest.len() < 4 {
            Err(Socks5Error::Malformed("ipv4 address truncated"))
        } else {
            Ok((AddrModel::V4(rest.subrange(0, 4)), 4))
        }
    } else if atyp == ATYP_IPV6 {
        if rest.len() < 16 {
            Err(Socks5Error::Malformed("ipv6 address truncated"))
        } else {
            Ok((AddrModel::V6(rest.subrange(0, 16)), 16))
        }
    } else if atyp == ATYP_DOMAIN {
        if rest.len() == 0 {
            Err(Socks5Error::Malformed("domain length missing"))
        } else if rest[0] == 0 {
            Err(Socks5Error::Malformed("empty domain name"))
        } else if rest.len() < 1 + rest[0] {
            Err(Socks5Error::Malformed("domain name truncated"))
        } else if !valid_utf8(rest.subrange(1, 1 + rest[0])) {
            Err(Socks5Error::Malformed("domain name is not valid UTF-8"))
        } else {
            Ok((AddrModel::Domain(decode_utf8(rest.subrange(1, 1 + rest[0]))), 1 + rest[0]))
        }
    } else {
        Err(Socks5Error::UnsupportedAddressType(atyp))
    }
}

/// The CONNECT request at the front of `buf` (`VER CMD RSV ATYP DST.ADDR
/// DST.PORT`), or why there is none. The reserved byte may hold anything, and
/// so may what follows the port.
pub open spec fn request_of(buf: Seq<u8>) -> Result<RequestModel, Socks5Error> {
    if buf.len() < 4 {
        Err(Socks5Error::Malformed("request header too short"))
    } else if buf[0] != SOCKS5_VERSION {
        Err(Socks5Error::BadVersion(buf[0]))
    } else if buf[1] != CMD_CONNECT {
        Err(Socks5Error::UnsupportedCommand(buf[1]))
    } else {
        match address_of(buf[3], buf.skip(4)) {
            Err(e) => Err(e),
            Ok((addr, n)) => if buf.len() < 4 + n + 2 {
                Err(Socks5Error::Malformed("port truncated"))
            } else {
                Ok(RequestModel { addr, port: be16(buf[4 + n], buf[5 + n]) })
            },
        }
    }
}

/// Whether a parse came out as the model says.
pub open spec fn request_agrees(
    r: Result<Socks5Request, Socks5Error>,
    model: Result<RequestModel, Socks5Error>,
) -> bool {
    match r {
        Ok(request) => model == Ok::<RequestModel, Socks5Error>(request@),
        Err(e) => model == Err::<RequestModel, Socks5Error>(e),
    }
}

fn copy_octets_4(buf: &[u8], at: usize) -> (r: [u8; 4])
    requires
        at + 4 <= buf@.len(),
    ensures
        r@ == buf@.subrange(at as int, at + 4),
{
    let r: [u8; 4] = [buf[at], buf[at + 1], buf[at + 2], buf[at + 3]];
    assert(r@ =~= buf@.subrange(at as int, at + 4));
    r
}

fn copy_octets_16(buf: &[u8], at: usize) -> (r: [u8; 16])
    requires
        at + 16 <= buf@.len(),
    ensures
        r@ == buf@.subrange(at as int, at + 16),
{
    let mut r: [u8; 16] = [0u8; 16];
    let len: usize = buf.len();
    let mut i: usize = 0;
    while i < 16
        invariant
            i <= 16,
            at + 16 <= len,
            len == buf@.len(),
            r@.len() == 16,
            forall|k: int| 0 <= k < i ==> r@[k] == buf@[at + k],
        decreases 16 - i,
    {
        r[i] = buf[at + i];
        i = i + 1;
    }
    assert(r@ =~= buf@.subrange(at as int, at + 16));
    r
}

/// The bytes of `buf` from `from` up to but without `to`.
fn copy_range(buf: &[u8], from: usize, to: usize) -> (r: Vec<u8>)
    requires
        from <= to <= buf@.len(),
    ensures
        r@ == buf@.subrange(from as int, to as int),
{
    let mut r: Vec<u8> = Vec::new();
    let mut i: usize = from;
    while i < to
        invariant
            from <= i <= to <= buf@.len(),
            r@ == buf@.subrange(from as int, i as int),
        decreases to - i,
    {
        r.push(buf[i]);
        i = i + 1;
    }
    r
}

/// Parse a CONNECT request body.
pub fn parse_request(buf: &[u8]) -> (r: Result<Socks5Request, Socks5Error>)
    ensures
        request_agrees(r, request_of(buf@)),
        r matches Ok(request) ==> {
            &&& buf@.len() >= 4 && buf@[0] == 5 && buf@[1] == 1
            &&& match request.addr {
                TargetAddr::Ip(IpAddr::V4(o)) => {
                    &&& buf@[3] == 1
                    &&& buf@.len() >= 10
                    &&& o@ == seq![buf@[4], buf@[5], buf@[6], buf@[7]]
                    &&& request.port == buf@[8] * 256 + buf@[9]
                },
                TargetAddr::Ip(IpAddr::V6(o)) => {
                    &&& buf@[3] == 4
                    &&& buf@.len() >= 22
                    &&& forall|k: int| 0 <= k < 16 ==> #[trigger] o@[k] == buf@[4 + k]
                    &&& request.port == buf@[20] * 256 + buf@[21]
                },
                TargetAddr::Domain(name) => {
                    &&& buf@[3] == 3
                    &&& buf@[4] > 0
                    &&& buf@.len() >= 7 + buf@[4]
                    &&& encode_utf8(name@) == buf@.subrange(5, 5 + buf@[4])
                    &&& request.port == buf@[5 + buf@[4]] * 256 + buf@[6 + buf@[4]]
                },
            }
        },
{
    if buf.len() < 4 {
        return Err(Socks5Error::Malformed("request header too short"));
    }
    if buf[0] != SOCKS5_VERSION {
        return Err(Socks5Error::BadVersion(buf[0]));
    }
    if buf[1] != CMD_CONNECT {
        return Err(Socks5Error::UnsupportedCommand(buf[1]));
    }
    // buf[2] is RSV: it should be zero, and is ignored.
    let atyp: u8 = buf[3];
    let ghost rest = buf@.skip(4);
    let left: usize = buf.len() - 4;
    let addr: TargetAddr;
    let consumed: usize;
    if atyp == ATYP_IPV4 {
        if left < 4 {
            return Err(Socks5Error::Malformed("ipv4 address truncated"));
        }
        addr = TargetAddr::Ip(IpAddr::V4(copy_octets_4(buf, 4)));
        consumed = 4;
        assert(buf@.subrange(4, 8) =~= rest.subrange(0, 4));
    } else if atyp == ATYP_IPV6 {
        if left < 16 {
            return Err(Socks5Error::Malformed("ipv6 address truncated"));
        }
        addr = TargetAddr::Ip(IpAddr::V6(copy_octets_16(buf, 4)));
        consumed = 16;
        assert(buf@.subrange(4, 20) =~= rest.subrange(0, 16));
    } else if atyp == ATYP_DOMAIN {
        if left == 0 {
            return Err(Socks5Error::Malformed("domain length missing"));
        }
        let len: usize = buf[4] as usize;
        if len == 0 {
            return Err(Socks5Error::Malformed("empty domain name"));
        }
        if left < 1 + len {
            return Err(Socks5Error::Malformed("domain name truncated"));
        }
        let name = copy_range(buf, 5, 5 + len);
        assert(buf@.subrange(5, 5 + len) =~= rest.subrange(1, 1 + len));
        proof {
            if valid_utf8(name@) {
                decode_utf8_encode_utf8(name@);
            }
        }
        match text::text_from_utf8(name.as_slice()) {
            None => {
                return Err(Socks5Error::Malformed("domain name is not valid UTF-8"));
            },
            Some(domain) => {
                addr = TargetAddr::Domain(domain);
            },
        }
        consumed = 1 + len;
    } else {
        return Err(Socks5Error::UnsupportedAddressType(atyp));
    }
    if left - consumed < 2 {
        return Err(Socks5Error::Malformed("port truncated"));
    }
    let port: u16 = (buf[4 + consumed] as u16) * 256 + buf[5 + consumed] as u16;
    Ok(Socks5Request { addr, port })
}

/// The address type byte for a bound address.
pub open spec fn ip_atyp(ip: IpAddr) -> u8 {
    match ip {
        IpAddr::V4(_) => ATYP_IPV4,
        IpAddr::V6(_) => ATYP_IPV6,
    }
}

/// A server reply (`VER REP RSV ATYP BND.ADDR BND.PORT`).
pub open spec fn reply_bytes(code: ReplyCode, bound: SocketAddr) -> Seq<u8> {
    seq![SOCKS5_VERSION, code.wire(), 0x00, ip_atyp(bound.ip)] + bound.ip.octets() + be16_bytes(
        bound.port,
    )
}

/// Encode a server reply.
pub fn encode_reply(code: ReplyCode, bound: SocketAddr) -> (out: Vec<u8>)
    ensures
        out@ == reply_bytes(code, bound),
        out@.len() == 6 + bound.ip.octets().len(),
        out@[0] == 5,
        out@[2] == 0,
        out@[3] == (if bound.ip is V4 {
            1u8
        } else {
            4u8
        }),
        forall|k: int|
            0 <= k < bound.ip.octets().len() ==> #[trigger] bound.ip.octets()[k] == out@[4 + k],
        bound.port == out@[out@.len() - 2] * 256 + out@[out@.len() - 1],
{
    let mut out: Vec<u8> = Vec::new();
    out.push(SOCKS5_VERSION);
    out.push(code.to_byte());
    out.push(0x00);
    match bound.ip {
        IpAddr::V4(o) => {
            out.push(ATYP_IPV4);
            let mut i: usize = 0;
            while i < 4
                invariant
                    i <= 4,
                    out@ == seq![SOCKS5_VERSION, code.wire(), 0x00, ATYP_IPV4] + o@.subrange(
                        0,
                        i as int,
                    ),
                decreases 4 - i,
            {
                out.push(o[i]);
                i = i + 1;
            }
            assert(o@.subrange(0, 4) =~= o@);
        },
        IpAddr::V6(o) => {
            out.push(ATYP_IPV6);
            let mut i: usize = 0;
            while i < 16
                invariant
                    i <= 16,
                    out@ == seq![SOCKS5_VERSION, code.wire(), 0x00, ATYP_IPV6] + o@.subrange(
                        0,
                        i as int,
                    ),
                decreases 16 - i,
            {
                out.push(o[i]);
                i = i + 1;
            }
            assert(o@.subrange(0, 16) =~= o@);
        },
    }
    out.push((bound.port / 256) as u8);
    out.push((bound.port % 256) as u8);
    assert(out@ =~= reply_bytes(code, bound));
    out
}

/// The unspecified bound address (`0.0.0.0:0`).
pub open spec fn is_unspecified_bound(bound: SocketAddr) -> bool {
    &&& bound.ip is V4
    &&& bound.ip.octets() == seq![0u8, 0, 0, 0]
    &&& bound.port == 0
}

/// The bound address reported in replies: there is no meaningful one, and
/// clients ignore it for CONNECT.
pub fn unspecified_bound() -> (r: SocketAddr)
    ensures
        is_unspecified_bound(r),
{
    let o: [u8; 4] = [0u8, 0, 0, 0];
    assert(o@ =~= seq![0u8, 0, 0, 0]);
    SocketAddr { ip: IpAddr::V4(o), port: 0 }
}

/// The reply that carries only a code.
pub open spec fn plain_reply(code: ReplyCode) -> Seq<u8> {
    seq![SOCKS5_VERSION, code.wire(), 0x00, ATYP_IPV4, 0, 0, 0, 0, 0, 0]
}

/// The CONNECT reply with the given code and the unspecified bound address.
pub fn write_reply(code: ReplyCode) -> (out: Vec<u8>)
    ensures
        out@ == plain_reply(code),
{
    let out = encode_reply(code, unspecified_bound());
    assert(out@ =~= plain_reply(code));
    out
}

// ---------------------------------------------------------------------------
// Reading messages off a stream
// ---------------------------------------------------------------------------

/// What to do next while negotiating the auth method.
pub enum NegotiateStep {
    /// Read exactly this many bytes, put them behind those already seen, and
    /// ask again.
    Read(usize),
    /// Send the reply; the method is agreed.
    Accept { reply: [u8; 2] },
    /// Send the answer if there is one (best effort) and give up.
    Reject { answer: Option<[u8; 2]>, error: Socks5Error },
}

/// How many bytes the greeting takes, as far as the bytes seen tell.
pub open spec fn greeting_len(seen: Seq<u8>) -> int {
    if seen.len() < 2 {
        2
    } else {
        2 + seen[1]
    }
}

/// Decide the next step of the method negotiation from the bytes seen so far.
///
/// An acceptable greeting is answered `05 00`, an unacceptable one `05 FF`. A
/// first byte other than the SOCKS5 version ends the negotiation without a
/// reply.
pub fn negotiate_method(seen: &[u8]) -> (r: NegotiateStep)
    ensures
        match r {
            NegotiateStep::Read(n) => {
                &&& n > 0
                &&& seen@.len() + n == greeting_len(seen@)
                &&& seen@.len() >= 2 ==> seen@[0] == SOCKS5_VERSION
            },
            NegotiateStep::Accept { reply } => {
                &&& seen@.len() >= greeting_len(seen@)
                &&& method_of(seen@) == Ok::<u8, Socks5Error>(METHOD_NO_AUTH)
                &&& reply@ == seq![SOCKS5_VERSION, METHOD_NO_AUTH]
                &&& reply@ == seq![5u8, 0u8]
            },
            NegotiateStep::Reject { answer: None, error } => {
                &&& seen@.len() >= 2
                &&& seen@[0] != SOCKS5_VERSION
                &&& error == Socks5Error::BadVersion(seen@[0])
            },
            NegotiateStep::Reject { answer: Some(reply), error } => {
                &&& seen@.len() >= greeting_len(seen@)
                &&& seen@[0] == SOCKS5_VERSION
                &&& method_of(seen@) == Err::<u8, Socks5Error>(error)
                &&& reply@ == seq![SOCKS5_VERSION, METHOD_NO_ACCEPTABLE]
                &&& reply@ == seq![5u8, 255u8]
            },
        },
{
    if seen.len() < 2 {
        return NegotiateStep::Read(2 - seen.len());
    }
    if seen[0] != SOCKS5_VERSION {
        return NegotiateStep::Reject { answer: None, error: Socks5Error::BadVersion(seen[0]) };
    }
    let total: usize = 2 + seen[1] as usize;
    if seen.len() < total {
        return NegotiateStep::Read(total - seen.len());
    }
    match select_method(seen) {
        Ok(method) => {
            let reply: [u8; 2] = [SOCKS5_VERSION, method];
            assert(reply@ =~= seq![SOCKS5_VERSION, METHOD_NO_AUTH]);
            NegotiateStep::Accept { reply }
        },
        Err(error) => {
            let reply: [u8; 2] = [SOCKS5_VERSION, METHOD_NO_ACCEPTABLE];
            assert(reply@ =~= seq![SOCKS5_VERSION, METHOD_NO_ACCEPTABLE]);
            NegotiateStep::Reject { answer: Some(reply), error }
        },
    }
}

/// What to do next while reading a CONNECT request.
pub enum RequestStep {
    /// Read exactly this many bytes, put them behind those already seen, and
    /// ask again.
    Read(usize),
    /// The request is complete.
    Done(Socks5Request),
    /// The request is refused; the error's reply code answers it.
    Reject(Socks5Error),
}

/// How many bytes the request takes, as far as the bytes seen tell.
pub open spec fn request_len(seen: Seq<u8>) -> int {
    if seen.len() < 4 {
        4
    } else if seen[3] == ATYP_IPV4 {
        10
    } else if seen[3] == ATYP_IPV6 {
        22
    } else if seen[3] == ATYP_DOMAIN {
        if seen.len() < 5 {
            5
        } else {
            7 + seen[4]
        }
    } else {
        4
    }
}

/// Why a request is refused before it has been read in full, if it is.
pub open spec fn early_refusal(seen: Seq<u8>) -> Option<Socks5Error> {
    if seen.len() < 4 {
        None
    } else if seen[0] != SOCKS5_VERSION {
        Some(Socks5Error::BadVersion(seen[0]))
    } else if seen[1] != CMD_CONNECT {
        Some(Socks5Error::UnsupportedCommand(seen[1]))
    } else if seen[3] != ATYP_IPV4 && seen[3] != ATYP_IPV6 && seen[3] != ATYP_DOMAIN {
        Some(Socks5Error::UnsupportedAddressType(seen[3]))
    } else if seen[3] == ATYP_DOMAIN && seen.len() >= 5 && seen[4] == 0 {
        Some(Socks5Error::Malformed("empty domain name"))
    } else {
        None
    }
}

/// Decide the next step of reading a CONNECT request from the bytes seen so
/// far. Version, command and address type are checked before anything of a
/// length that the client chose is read.
pub fn read_request(seen: &[u8]) -> (r: RequestStep)
    ensures
        early_refusal(seen@) is Some <==> (r matches RequestStep::Reject(e) && early_refusal(seen@)
            == Some(e)),
        early_refusal(seen@) is None ==> match r {
            RequestStep::Read(n) => n > 0 && seen@.len() + n == request_len(seen@),
            RequestStep::Done(request) => {
                &&& seen@.len() >= request_len(seen@)
                &&& request_of(seen@) == Ok::<RequestModel, Socks5Error>(request@)
            },
            RequestStep::Reject(error) => {
                &&& seen@.len() >= request_len(seen@)
                &&& request_of(seen@) == Err::<RequestModel, Socks5Error>(error)
            },
        },
{
    if seen.len() < 4 {
        return RequestStep::Read(4 - seen.len());
    }
    if seen[0] != SOCKS5_VERSION {
        return RequestStep::Reject(Socks5Error::BadVersion(seen[0]));
    }
    if seen[1] != CMD_CONNECT {
        return RequestStep::Reject(Socks5Error::UnsupportedCommand(seen[1]));
    }
    let atyp: u8 = seen[3];
    let total: usize;
    if atyp == ATYP_IPV4 {
        total = 10;
    } else if atyp == ATYP_IPV6 {
        total = 22;
    } else if atyp == ATYP_DOMAIN {
        if seen.len() < 5 {
            total = 5;
        } else {
            if seen[4] == 0 {
                return RequestStep::Reject(Socks5Error::Malformed("empty domain name"));
            }
            total = 7 + seen[4] as usize;
        }
    } else {
        return RequestStep::Reject(Socks5Error::UnsupportedAddressType(atyp));
    }
    if seen.len() < total {
        return RequestStep::Read(total - seen.len());
    }
    match parse_request(seen) {
        Ok(request) => RequestStep::Done(request),
        Err(error) => RequestStep::Reject(error),
    }
}

// ---------------------------------------------------------------------------
// Laws
// ---------------------------------------------------------------------------

/// The longest request: a domain of [`MAX_DOMAIN_LEN`] bytes.
pub const MAX_REQUEST_LEN: usize = 262;

/// Whether a request can be written down: addresses of the right size, a name
/// of 1 to [`MAX_DOMAIN_LEN`] bytes.
pub open spec fn encodable(request: RequestModel) -> bool {
    match request.addr {
        AddrModel::V4(o) => o.len() == 4,
        AddrModel::V6(o) => o.len() == 16,
        AddrModel::Domain(d) => 0 < encode_utf8(d).len() <= MAX_DOMAIN_LEN,
    }
}

/// A CONNECT request on the wire.
pub open spec fn request_bytes(request: RequestModel) -> Seq<u8> {
    let addr = match request.addr {
        AddrModel::V4(o) => seq![ATYP_IPV4] + o,
        AddrModel::V6(o) => seq![ATYP_IPV6] + o,
        AddrModel::Domain(d) => seq![ATYP_DOMAIN, encode_utf8(d).len() as u8] + encode_utf8(d),
    };
    seq![SOCKS5_VERSION, CMD_CONNECT, 0x00] + addr + be16_bytes(request.port)
}

proof fn lemma_be16(n: u16)
    ensures
        be16(be16_bytes(n)[0], be16_bytes(n)[1]) == n,
        be16_bytes(n).len() == 2,
{
}

/// Parsing gives back the request that was encoded, whatever follows it.
pub proof fn law_request_round_trip(request: RequestModel, tail: Seq<u8>)
    requires
        encodable(request),
    ensures
        request_of(request_bytes(request) + tail) == Ok::<RequestModel, Socks5Error>(request),
{
    let b = request_bytes(request);
    let buf = b + tail;
    let rest = buf.skip(4);
    lemma_be16(request.port);
    match request.addr {
        AddrModel::V4(o) => {
            assert(rest.subrange(0, 4) =~= o);
            assert(buf[8] == be16_bytes(request.port)[0] && buf[9] == be16_bytes(request.port)[1]);
        },
        AddrModel::V6(o) => {
            assert(rest.subrange(0, 16) =~= o);
            assert(buf[20] == be16_bytes(request.port)[0] && buf[21] == be16_bytes(
                request.port,
            )[1]);
        },
        AddrModel::Domain(d) => {
            let n = encode_utf8(d).len() as int;
            assert(rest[0] == n as u8);
            assert(rest.subrange(1, 1 + n) =~= encode_utf8(d));
            encode_utf8_valid_utf8(d);
            encode_utf8_decode_utf8(d);
            assert(buf[5 + n] == be16_bytes(request.port)[0] && buf[6 + n] == be16_bytes(
                request.port,
            )[1]);
        },
    }
}

/// A request that parses can be encoded, and its encoding is what was parsed,
/// but for the reserved byte and what follows the port.
pub proof fn law_parsed_request_is_encoding(buf: Seq<u8>, request: RequestModel)
    requires
        request_of(buf) == Ok::<RequestModel, Socks5Error>(request),
    ensures
        encodable(request),
        request_bytes(request).len() <= buf.len(),
        request_bytes(request) == buf.update(2, 0u8).take(request_bytes(request).len() as int),
{
    let b = request_bytes(request);
    let rest = buf.skip(4);
    match request.addr {
        AddrModel::V4(o) => {
            assert(b =~= buf.update(2, 0u8).take(b.len() as int));
        },
        AddrModel::V6(o) => {
            assert(b =~= buf.update(2, 0u8).take(b.len() as int));
        },
        AddrModel::Domain(d) => {
            decode_utf8_encode_utf8(rest.subrange(1, 1 + rest[0]));
            assert(encode_utf8(d) == rest.subrange(1, 1 + rest[0]));
            assert(b =~= buf.update(2, 0u8).take(b.len() as int));
        },
    }
}

/// Reading a request never takes a byte that does not belong to it: for every
/// part of the message already seen, the step function asks for no more than
/// what is left, and it does not refuse the request.
pub proof fn law_request_reads_stay_inside(request: RequestModel, seen: int)
    requires
        encodable(request),
        0 <= seen <= request_bytes(request).len(),
    ensures
        early_refusal(request_bytes(request).take(seen)) is None,
        request_len(request_bytes(request).take(seen)) <= request_bytes(request).len(),
        seen == request_bytes(request).len() ==> request_len(request_bytes(request).take(seen))
            == seen,
{
    let part = request_bytes(request).take(seen);
    match request.addr {
        AddrModel::V4(o) => {
            assert(seen >= 4 ==> part[3] == ATYP_IPV4);
        },
        AddrModel::V6(o) => {
            assert(seen >= 4 ==> part[3] == ATYP_IPV6);
        },
        AddrModel::Domain(d) => {
            assert(seen >= 4 ==> part[3] == ATYP_DOMAIN);
            assert(seen >= 5 ==> part[4] == encode_utf8(d).len() as u8);
        },
    }
}

/// However a client fills its message, no more than [`MAX_REQUEST_LEN`] bytes
/// are ever asked for.
pub proof fn law_request_reads_are_bounded(seen: Seq<u8>)
    ensures
        request_len(seen) <= MAX_REQUEST_LEN,
        greeting_len(seen) <= 2 + 255,
{
}

/// An early refusal is the one that the whole message would have met, however
/// it had gone on.
pub proof fn law_early_refusal_is_final(seen: Seq<u8>, more: Seq<u8>)
    requires
        early_refusal(seen) is Some,
    ensures
        request_of(seen + more) == Err::<RequestModel, Socks5Error>(early_refusal(seen)->0),
{
    let all = seen + more;
    assert(all[0] == seen[0] && all[1] == seen[1] && all[3] == seen[3]);
    if seen.len() >= 5 {
        assert(all.skip(4)[0] == seen[4]);
    }
}

/// The client can tell from a reply which code was sent.
pub proof fn law_reply_codes_are_distinct(
    a: ReplyCode,
    b: ReplyCode,
    bound_a: SocketAddr,
    bound_b: SocketAddr,
)
    requires
        reply_bytes(a, bound_a) == reply_bytes(b, bound_b),
    ensures
        a == b,
{
    assert(reply_bytes(a, bound_a)[1] == a.wire());
    assert(reply_bytes(b, bound_b)[1] == b.wire());
}

/// The reply bytes tell which code was sent and for which address: equal replies
/// carry equal octets and ports.
pub proof fn law_reply_tells_bound(a: ReplyCode, bound_a: SocketAddr, bound_b: SocketAddr)
    requires
        reply_bytes(a, bound_a) == reply_bytes(a, bound_b),
    ensures
        ip_atyp(bound_a.ip) == ip_atyp(bound_b.ip),
        bound_a.ip.octets() == bound_b.ip.octets(),
        bound_a.port == bound_b.port,
{
    let x = reply_bytes(a, bound_a);
    let y = reply_bytes(a, bound_b);
    assert(x[3] == ip_atyp(bound_a.ip) && y[3] == ip_atyp(bound_b.ip));
    let n = bound_a.ip.octets().len() as int;
    assert(bound_a.ip.octets() =~= x.subrange(4, 4 + n));
    assert(bound_b.ip.octets() =~= y.subrange(4, 4 + n));
    lemma_be16(bound_a.port);
    lemma_be16(bound_b.port);
    assert(x[4 + n] == be16_bytes(bound_a.port)[0] && x[5 + n] == be16_bytes(bound_a.port)[1]);
    assert(y[4 + n] == be16_bytes(bound_b.port)[0] && y[5 + n] == be16_bytes(bound_b.port)[1]);
}

/// NO AUTH is chosen wherever it stands among the methods that a client offers,
/// and a client that does not offer it is turned down.
pub proof fn law_no_auth_is_chosen_wherever_offered(greeting: Seq<u8>)
    requires
        greeting.len() >= 2,
        greeting[0] == 5,
        greeting.len() == 2 + greeting[1],
    ensures
        (exists|k: int| 2 <= k < 2 + greeting[1] && #[trigger] greeting[k] == 0) ==> method_of(
            greeting,
        ) == Ok::<u8, Socks5Error>(0u8),
        (forall|k: int| 2 <= k < 2 + greeting[1] ==> #[trigger] greeting[k] != 0) ==> method_of(
            greeting,
        ) == Err::<u8, Socks5Error>(Socks5Error::NoAcceptableMethods),
{
    let methods = greeting.skip(2);
    if exists|k: int| 2 <= k < 2 + greeting[1] && #[trigger] greeting[k] == 0 {
        let k = choose|k: int| 2 <= k < 2 + greeting[1] && #[trigger] greeting[k] == 0;
        assert(methods[k - 2] == 0);
    }
    if methods.contains(METHOD_NO_AUTH) {
        let k = choose|k: int| 0 <= k < methods.len() && methods[k] == METHOD_NO_AUTH;
        assert(greeting[k + 2] == 0);
    }
}

/// The order in which a client offers its methods does not matter: swapping two
/// of them leaves the answer as it was.
pub proof fn law_order_of_methods_does_not_matter(greeting: Seq<u8>, i: int, j: int)
    requires
        2 <= i < greeting.len(),
        2 <= j < greeting.len(),
    ensures
        method_of(greeting.update(i, greeting[j]).update(j, greeting[i])) == method_of(greeting),
{
    let swapped = greeting.update(i, greeting[j]).update(j, greeting[i]);
    if greeting[0] == 5 && greeting.len() == 2 + greeting[1] {
        law_no_auth_is_chosen_wherever_offered(greeting);
        law_no_auth_is_chosen_wherever_offered(swapped);
        if exists|k: int| 2 <= k < 2 + greeting[1] && #[trigger] greeting[k] == 0 {
            let k = choose|k: int| 2 <= k < 2 + greeting[1] && #[trigger] greeting[k] == 0;
            let moved = if k == i {
                j
            } else if k == j {
                i
            } else {
                k
            };
            assert(swapped[moved] == 0);
        } else {
            assert forall|k: int| 2 <= k < 2 + swapped[1] implies #[trigger] swapped[k] != 0 by {
                assert(greeting[k] != 0 && greeting[i] != 0 && greeting[j] != 0);
            }
        }
    }
}

/// A greeting that is too short, of another version, or of a length that its
/// second byte does not announce is refused for that.
pub proof fn law_bad_greetings_are_refused(greeting: Seq<u8>)
    ensures
        greeting.len() < 2 ==> method_of(greeting) == Err::<u8, Socks5Error>(
            Socks5Error::Malformed("greeting too short"),
        ),
        greeting.len() >= 2 && greeting[0] != 5 ==> method_of(greeting) == Err::<u8, Socks5Error>(
            Socks5Error::BadVersion(greeting[0]),
        ),
        greeting.len() >= 2 && greeting[0] == 5 && greeting.len() != 2 + greeting[1] ==> method_of(
            greeting,
        ) == Err::<u8, Socks5Error>(Socks5Error::Malformed("greeting method count mismatch")),
{
}

/// A request is refused for its length, its version, its command or its address
/// type, in this order of precedence.
pub proof fn law_bad_requests_are_refused(buf: Seq<u8>)
    ensures
        buf.len() < 4 ==> request_of(buf) == Err::<RequestModel, Socks5Error>(
            Socks5Error::Malformed("request header too short"),
        ),
        buf.len() >= 4 && buf[0] != 5 ==> request_of(buf) == Err::<RequestModel, Socks5Error>(
            Socks5Error::BadVersion(buf[0]),
        ),
        buf.len() >= 4 && buf[0] == 5 && buf[1] != 1 ==> request_of(buf) == Err::<
            RequestModel,
            Socks5Error,
        >(Socks5Error::UnsupportedCommand(buf[1])),
        buf.len() >= 4 && buf[0] == 5 && buf[1] == 1 && buf[3] != 1 && buf[3] != 3 && buf[3] != 4
            ==> request_of(buf) == Err::<RequestModel, Socks5Error>(
            Socks5Error::UnsupportedAddressType(buf[3]),
        ),
{
}

/// A CONNECT request to an IPv4 address parses into the four octets behind its
/// header and the port behind them, high byte first, and is refused exactly
/// where one of them is cut short.
pub proof fn law_ipv4_request_by_bytes(buf: Seq<u8>)
    requires
        buf.len() >= 4,
        buf[0] == 5,
        buf[1] == 1,
        buf[3] == 1,
    ensures
        match request_of(buf) {
            Ok(request) => {
                &&& buf.len() >= 10
                &&& request.addr == AddrModel::V4(seq![buf[4], buf[5], buf[6], buf[7]])
                &&& request.port == buf[8] * 256 + buf[9]
            },
            Err(e) => if buf.len() < 8 {
                e == Socks5Error::Malformed("ipv4 address truncated")
            } else {
                buf.len() < 10 && e == Socks5Error::Malformed("port truncated")
            },
        },
{
    if buf.len() >= 8 {
        assert(buf.skip(4).subrange(0, 4) =~= seq![buf[4], buf[5], buf[6], buf[7]]);
    }
}

/// A CONNECT request to an IPv6 address parses into the sixteen octets behind
/// its header and the port behind them, high byte first, and is refused exactly
/// where one of them is cut short.
pub proof fn law_ipv6_request_by_bytes(buf: Seq<u8>)
    requires
        buf.len() >= 4,
        buf[0] == 5,
        buf[1] == 1,
        buf[3] == 4,
    ensures
        match request_of(buf) {
            Ok(request) => {
                &&& buf.len() >= 22
                &&& request.addr == AddrModel::V6(buf.subrange(4, 20))
                &&& request.port == buf[20] * 256 + buf[21]
            },
            Err(e) => if buf.len() < 20 {
                e == Socks5Error::Malformed("ipv6 address truncated")
            } else {
                buf.len() < 22 && e == Socks5Error::Malformed("port truncated")
            },
        },
{
    if buf.len() >= 20 {
        assert(buf.skip(4).subrange(0, 16) =~= buf.subrange(4, 20));
    }
}

/// A CONNECT request to a name parses into the text that the announced bytes
/// encode and the port behind them, high byte first. It is refused exactly where
/// the name is missing, empty, cut short or no text, or the port is cut short.
pub proof fn law_domain_request_by_bytes(buf: Seq<u8>)
    requires
        buf.len() >= 4,
        buf[0] == 5,
        buf[1] == 1,
        buf[3] == 3,
    ensures
        match request_of(buf) {
            Ok(request) => {
                &&& buf.len() >= 5 && buf[4] > 0 && buf.len() >= 7 + buf[4]
                &&& request.addr matches AddrModel::Domain(name)
                &&& encode_utf8(name) == buf.subrange(5, 5 + buf[4])
                &&& request.port == buf[5 + buf[4]] * 256 + buf[6 + buf[4]]
            },
            Err(e) => if buf.len() < 5 {
                e == Socks5Error::Malformed("domain length missing")
            } else if buf[4] == 0 {
                e == Socks5Error::Malformed("empty domain name")
            } else if buf.len() < 5 + buf[4] {
                e == Socks5Error::Malformed("domain name truncated")
            } else if !valid_utf8(buf.subrange(5, 5 + buf[4])) {
                e == Socks5Error::Malformed("domain name is not valid UTF-8")
            } else {
                buf.len() < 7 + buf[4] && e == Socks5Error::Malformed("port truncated")
            },
        },
{
    if buf.len() >= 5 && buf.len() >= 5 + buf[4] {
        let name = buf.subrange(5, 5 + buf[4]);
        assert(buf.skip(4).subrange(1, 1 + buf.skip(4)[0]) =~= name);
        if valid_utf8(name) {
            decode_utf8_encode_utf8(name);
        }
    }
}

/// The codes of the replies are those of RFC 1928, and the code that answers an
/// error says what was wrong with the request.
pub proof fn law_codes_on_the_wire(error: Socks5Error)
    ensures
        ReplyCode::Succeeded.wire() == 0,
        ReplyCode::GeneralFailure.wire() == 1,
        ReplyCode::ConnectionNotAllowed.wire() == 2,
        ReplyCode::NetworkUnreachable.wire() == 3,
        ReplyCode::HostUnreachable.wire() == 4,
        ReplyCode::ConnectionRefused.wire() == 5,
        ReplyCode::TtlExpired.wire() == 6,
        ReplyCode::CommandNotSupported.wire() == 7,
        ReplyCode::AddressTypeNotSupported.wire() == 8,
        error.reply().wire() == (if error is UnsupportedCommand {
            7u8
        } else if error is UnsupportedAddressType {
            8u8
        } else {
            1u8
        }),
{
}

/// A reply is the version, the code, a zero, the kind of the bound address, its
/// octets and its port, high byte first.
pub proof fn law_reply_layout(code: ReplyCode, bound: SocketAddr)
    ensures
        reply_bytes(code, bound).len() == (if bound.ip is V4 {
            10nat
        } else {
            22nat
        }),
        reply_bytes(code, bound)[0] == 5,
        reply_bytes(code, bound)[1] == code.wire(),
        reply_bytes(code, bound)[2] == 0,
        bound.ip is V4 ==> reply_bytes(code, bound)[3] == 1 && reply_bytes(code, bound).subrange(
            4,
            8,
        ) == bound.ip.octets() && bound.port == reply_bytes(code, bound)[8] * 256 + reply_bytes(
            code,
            bound,
        )[9],
        bound.ip is V6 ==> reply_bytes(code, bound)[3] == 4 && reply_bytes(code, bound).subrange(
            4,
            20,
        ) == bound.ip.octets() && bound.port == reply_bytes(code, bound)[20] * 256 + reply_bytes(
            code,
            bound,
        )[21],
        plain_reply(code) == seq![5u8, code.wire(), 0, 1, 0, 0, 0, 0, 0, 0],
{
    let r = reply_bytes(code, bound);
    match bound.ip {
        IpAddr::V4(o) => {
            assert(r.subrange(4, 8) =~= o@);
        },
        IpAddr::V6(o) => {
            assert(r.subrange(4, 20) =~= o@);
        },
    }
}

/// What is read of a message is what its own bytes announce: the greeting as
/// many methods as its second byte says, the request its address and two bytes
/// for the port.
pub proof fn law_announced_lengths(seen: Seq<u8>)
    ensures
        seen.len() < 2 ==> greeting_len(seen) == 2,
        seen.len() >= 2 ==> greeting_len(seen) == 2 + seen[1],
        seen.len() < 4 ==> request_len(seen) == 4,
        seen.len() >= 4 && seen[3] == 1 ==> request_len(seen) == 10,
        seen.len() >= 4 && seen[3] == 4 ==> request_len(seen) == 22,
        seen.len() == 4 && seen[3] == 3 ==> request_len(seen) == 5,
        seen.len() > 4 && seen[3] == 3 ==> request_len(seen) == 7 + seen[4],
{
}

/// A request is refused as soon as its header or the length of its name shows
/// that it will be, and not before.
pub proof fn law_requests_are_refused_as_soon_as_they_can_be(seen: Seq<u8>)
    ensures
        seen.len() < 4 ==> early_refusal(seen) is None,
        seen.len() >= 4 && seen[0] != 5 ==> early_refusal(seen) == Some(
            Socks5Error::BadVersion(seen[0]),
        ),
        seen.len() >= 4 && seen[0] == 5 && seen[1] != 1 ==> early_refusal(seen) == Some(
            Socks5Error::UnsupportedCommand(seen[1]),
        ),
        seen.len() >= 4 && seen[0] == 5 && seen[1] == 1 && seen[3] != 1 && seen[3] != 3 && seen[3]
            != 4 ==> early_refusal(seen) == Some(Socks5Error::UnsupportedAddressType(seen[3])),
        seen.len() >= 5 && seen[0] == 5 && seen[1] == 1 && seen[3] == 3 && seen[4] == 0
            ==> early_refusal(seen) == Some(Socks5Error::Malformed("empty domain name")),
        seen.len() >= 4 && seen[0] == 5 && seen[1] == 1 && (seen[3] == 1 || seen[3] == 4 || (seen[3]
            == 3 && (seen.len() == 4 || seen[4] > 0))) ==> early_refusal(seen) is None,
{
}

/// The host that a request names is shown as the name itself or as the text of
/// the address.
pub proof fn law_host_of_a_request(addr: AddrModel)
    ensures
        addr matches AddrModel::Domain(name) ==> host_text(addr) == name,
        addr matches AddrModel::V4(o) ==> host_text(addr) == text::decimal(o[0] as nat) + "."@
            + text::decimal(o[1] as nat) + "."@ + text::decimal(o[2] as nat) + "."@ + text::decimal(
            o[3] as nat,
        ),
        addr matches AddrModel::V6(o) ==> host_text(addr) == net::ipv6_text(o),
{
}

} // verus!
