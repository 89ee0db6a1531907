//! The VLESS handshake: wire types, a spec-level decoder over byte
//! sequences, and the verified executable decoder and encoder.
//!
//! The first binary message of a session carries, in order: a version byte
//! (must be zero), a 16-byte client identity, a length-prefixed opaque
//! `extra` block, a command byte, a big-endian destination port, an
//! address-type byte with the destination address, and a trailing inline
//! payload. Every field read is bounds-checked; any shortfall is a decode
//! error, never a partial value or an abort.

use vstd::prelude::*;
use crate::identity::Identifier;

verus! {

/// Requested operation, read from one wire byte. Only `Tcp` is executable
/// here; `Udp` and `Mux` decode successfully but are rejected at dispatch.
#[derive(Clone, Copy, Debug, PartialEq, Eq, Structural)]
pub enum Command {
    Tcp,
    Udp,
    Mux,
}

/// Why a handshake buffer was rejected.
#[derive(Clone, Copy, Debug, PartialEq, Eq, Structural)]
pub enum DecodeError {
    /// The buffer ended before a field could be read in full.
    TooShort,
    /// The version byte was not zero.
    BadVersion,
    /// The 16-byte identity did not match the configured identifier.
    BadIdentity,
    /// The command byte mapped to no known command.
    UnsupportedCommand,
    /// The domain bytes were not valid UTF-8.
    BadDomain,
    /// The address-type byte mapped to no known address form.
    UnsupportedAddressType,
}

impl Command {
    /// Wire discriminant of each command.
    pub open spec fn spec_byte(self) -> u8 {
        match self {
            Command::Tcp => 1,
            Command::Udp => 2,
            Command::Mux => 3,
        }
    }

    /// Command denoted by a wire byte, if any.
    pub open spec fn spec_of_byte(b: u8) -> Option<Command> {
        if b == 1 {
            Some(Command::Tcp)
        } else if b == 2 {
            Some(Command::Udp)
        } else if b == 3 {
            Some(Command::Mux)
        } else {
            None
        }
    }

    /// Maps a wire byte to a command; unknown bytes are an error for the
    /// caller to surface, never an abort.
    pub fn from_byte(b: u8) -> (r: Option<Command>)
        ensures
            r == Command::spec_of_byte(b),
    {
        if b == 1 {
            Some(Command::Tcp)
        } else if b == 2 {
            Some(Command::Udp)
        } else if b == 3 {
            Some(Command::Mux)
        } else {
            None
        }
    }

    /// Inverse of `from_byte` on the known commands.
    pub fn byte(self) -> (r: u8)
        ensures
            r == self.spec_byte(),
    {
        match self {
            Command::Tcp => 1,
            Command::Udp => 2,
            Command::Mux => 3,
        }
    }

    /// Short lower-case name of the command.
    pub fn label(self) -> (r: &'static str)
        ensures
            self is Tcp ==> r@ == "tcp"@,
            self is Udp ==> r@ == "udp"@,
            self is Mux ==> r@ == "mux"@,
    {
        match self {
            Command::Tcp => "tcp",
            Command::Udp => "udp",
            Command::Mux => "mux",
        }
    }
}

/// Destination address of a request, in one of the three wire forms.
#[derive(Debug)]
pub enum Address {
    /// Four raw address bytes.
    IPv4([u8; 4]),
    /// A host name, decoded from length-prefixed UTF-8 bytes.
    Domain(String),
    /// Sixteen raw address bytes.
    IPv6([u8; 16]),
}

/// Mathematical form of an [`Address`].
#[verifier::ext_equal]
pub enum AddressModel {
    V4(Seq<u8>),
    Domain(Seq<char>),
    V6(Seq<u8>),
}

impl View for Address {
    type V = AddressModel;

    open spec fn view(&self) -> AddressModel {
        match self {
            Address::IPv4(b) => AddressModel::V4(b@),
            Address::Domain(s) => AddressModel::Domain(s@),
            Address::IPv6(b) => AddressModel::V6(b@),
        }
    }
}

/// A validated handshake, built only by consuming the whole header.
#[derive(Debug)]
pub struct Request {
    /// Protocol version; zero in every decoded request.
    pub version: u8,
    /// The 16 identity bytes presented on the wire.
    pub identity: Vec<u8>,
    /// Opaque length-prefixed block; consumed only to keep the cursor
    /// aligned, unused downstream.
    pub extra: Vec<u8>,
    /// Requested operation.
    pub cmd: Command,
    /// Destination port.
    pub port: u16,
    /// Destination address.
    pub addr: Address,
    /// Remaining bytes, forwarded to the destination before the relay loop.
    pub payload: Vec<u8>,
}

/// Mathematical form of a [`Request`].
#[verifier::ext_equal]
pub struct RequestModel {
    pub version: u8,
    pub identity: Seq<u8>,
    pub extra: Seq<u8>,
    pub cmd: Command,
    pub port: u16,
    pub addr: AddressModel,
    pub payload: Seq<u8>,
}

impl View for Request {
    type V = RequestModel;

    open spec fn view(&self) -> RequestModel {
        RequestModel {
            version: self.version,
            identity: self.identity@,
            extra: self.extra@,
            cmd: self.cmd,
            port: self.port,
            addr: self.addr@,
            payload: self.payload@,
        }
    }
}

/// Address part of the header starting at offset `off`, given the
/// address-type byte `at`: the decoded address and the offset just past it.
pub open spec fn spec_decode_addr(b: Seq<u8>, off: int, at: u8) -> Result<
    (AddressModel, int),
    DecodeError,
> {
    if at == 1 {
        if b.len() < off + 4 {
            Err(DecodeError::TooShort)
        } else {
            Ok((AddressModel::V4(b.subrange(off, off + 4)), off + 4))
        }
    } else if at == 2 {
        if b.len() < off + 1 {
            Err(DecodeError::TooShort)
        } else {
            let n = b[off] as int;
            if b.len() < off + 1 + n {
                Err(DecodeError::TooShort)
            } else {
                let d = b.subrange(off + 1, off + 1 + n);
                if vstd::utf8::valid_utf8(d) {
                    Ok((AddressModel::Domain(vstd::utf8::decode_utf8(d)), off + 1 + n))
                } else {
                    Err(DecodeError::BadDomain)
                }
            }
        }
    } else if at == 3 {
        if b.len() < off + 16 {
            Err(DecodeError::TooShort)
        } else {
            Ok((AddressModel::V6(b.subrange(off, off + 16)), off + 16))
        }
    } else {
        Err(DecodeError::UnsupportedAddressType)
    }
}

/// What decoding a handshake buffer yields against a configured identifier:
/// the request read by consuming the whole header, or the first error in
/// wire order. `expected` is `None` for the sentinel identifier, which
/// matches no wire identity.
pub open spec fn spec_decode(b: Seq<u8>, expected: Option<Seq<u8>>) -> Result<
    RequestModel,
    DecodeError,
> {
    if b.len() < 18 {
        Err(DecodeError::TooShort)
    } else if b[0] != 0 {
        Err(DecodeError::BadVersion)
    } else if !match expected {
        Some(k) => b.subrange(1, 17) == k,
        None => false,
    } {
        Err(DecodeError::BadIdentity)
    } else {
        let xl = b[17] as int;
        if b.len() < 18 + xl + 1 {
            Err(DecodeError::TooShort)
        } else {
            match Command::spec_of_byte(b[18 + xl]) {
                None => Err(DecodeError::UnsupportedCommand),
                Some(cmd) => {
                    if b.len() < 18 + xl + 4 {
                        Err(DecodeError::TooShort)
                    } else {
                        let port = ((b[18 + xl + 1] as int) * 256 + (b[18 + xl + 2] as int)) as u16;
                        match spec_decode_addr(b, 18 + xl + 4, b[18 + xl + 3]) {
                            Err(e) => Err(e),
                            Ok((addr, end)) => Ok(
                                RequestModel {
                                    version: 0,
                                    identity: b.subrange(1, 17),
                                    extra: b.subrange(18, 18 + xl),
                                    cmd,
                                    port,
                                    addr,
                                    payload: b.subrange(end, b.len() as int),
                                },
                            ),
                        }
                    }
                }
            }
        }
    }
}

/// Copies `data[start..end]` into a fresh vector.
fn copy_range(data: &[u8], start: usize, end: usize) -> (r: Vec<u8>)
    requires
        start <= end <= data@.len(),
    ensures
        r@ == data@.subrange(start as int, end as int),
{
    let mut r: Vec<u8> = Vec::new();
    let mut i: usize = start;
    while i < end
        invariant
            start <= i <= end <= data@.len(),
            r@ == data@.subrange(start as int, i as int),
        decreases end - i,
    {
        r.push(data[i]);
        i = i + 1;
        proof {
            assert(r@ =~= data@.subrange(start as int, i as int));
        }
    }
    r
}

/// Relies on `String::from_utf8`: it returns `Ok` exactly when the bytes
/// are a valid UTF-8 encoding, and the returned string's characters are
/// their decoding.
#[verifier::external_body]
fn string_from_utf8(v: Vec<u8>) -> (r: Option<String>)
    ensures
        r is Some <==> vstd::utf8::valid_utf8(v@),
        r matches Some(s) ==> s@ == vstd::utf8::decode_utf8(v@),
{
    String::from_utf8(v).ok()
}

impl Request {
    /// Decodes the first binary message of a session against the configured
    /// identifier. Returns exactly what [`spec_decode`] states: the fully
    /// consumed header on success, and the first wire-order error otherwise;
    /// no input is ever read out of bounds or aborts.
    pub fn parse_from(data: &[u8], expected: &Identifier) -> (r: Result<Request, DecodeError>)
        ensures
            r matches Ok(q) ==> spec_decode(data@, expected@) == Ok::<RequestModel, DecodeError>(
                q@,
            ),
            r matches Err(e) ==> spec_decode(data@, expected@) == Err::<RequestModel, DecodeError>(
                e,
            ),
    {
        if data.len() < 18 {
            return Err(DecodeError::TooShort);
        }
        if data[0] != 0 {
            return Err(DecodeError::BadVersion);
        }
        if !expected.accepts(&data[1..17]) {
            return Err(DecodeError::BadIdentity);
        }
        let extra_len: usize = data[17] as usize;
        if data.len() - 18 < extra_len + 1 {
            return Err(DecodeError::TooShort);
        }
        let extra: Vec<u8> = copy_range(data, 18, 18 + extra_len);
        let mut off: usize = 18 + extra_len;
        let cmd: Command = match Command::from_byte(data[off]) {
            Some(c) => c,
            None => {
                return Err(DecodeError::UnsupportedCommand);
            },
        };
        off = off + 1;
        if data.len() - off < 3 {
            return Err(DecodeError::TooShort);
        }
        let port: u16 = (data[off] as u16) * 256 + (data[off + 1] as u16);
        let addr_type: u8 = data[off + 2];
        off = off + 3;
        let addr: Address = match addr_type {
            1 => {
                if data.len() - off < 4 {
                    return Err(DecodeError::TooShort);
                }
                let a = Address::IPv4([data[off], data[off + 1], data[off + 2], data[off + 3]]);
                off = off + 4;
                a
            },
            2 => {
                if data.len() == off {
                    return Err(DecodeError::TooShort);
                }
                let n: usize = data[off] as usize;
                off = off + 1;
                if data.len() - off < n {
                    return Err(DecodeError::TooShort);
                }
                let dom: Vec<u8> = copy_range(data, off, off + n);
                off = off + n;
                match string_from_utf8(dom) {
                    Some(s) => Address::Domain(s),
                    None => {
                        return Err(DecodeError::BadDomain);
                    },
                }
            },
            3 => {
                if data.len() - off < 16 {
                    return Err(DecodeError::TooShort);
                }
                let a = Address::IPv6(
                    [
                        data[off],
                        data[off + 1],
                        data[off + 2],
                        data[off + 3],
                        data[off + 4],
                        data[off + 5],
                        data[off + 6],
                        data[off + 7],
                        data[off + 8],
                        data[off + 9],
                        data[off + 10],
                        data[off + 11],
                        data[off + 12],
                        data[off + 13],
                        data[off + 14],
                        data[off + 15],
                    ],
                );
                off = off + 16;
                a
            },
            _ => {
                return Err(DecodeError::UnsupportedAddressType);
            },
        };
        let identity: Vec<u8> = copy_range(data, 1, 17);
        let payload: Vec<u8> = copy_range(data, off, data.len());
        let q = Request { version: 0, identity, extra, cmd, port, addr, payload };
        proof {
            assert(q.addr@ matches AddressModel::V4(v) ==> v =~= data@.subrange(
                18 + data@[17] + 4,
                18 + data@[17] + 8,
            ));
            assert(q.addr@ matches AddressModel::V6(v) ==> v =~= data@.subrange(
                18 + data@[17] + 4,
                18 + data@[17] + 20,
            ));
        }
        Ok(q)
    }
}

/// Shape every decoded request has, and the shape a request must have for
/// its encoding to decode back: version zero, a 16-byte identity, and the
/// length-prefixed fields short enough for their one-byte length prefix.
pub open spec fn addr_wf(addr: AddressModel) -> bool {
    match addr {
        AddressModel::V4(b) => b.len() == 4,
        AddressModel::Domain(s) => vstd::utf8::encode_utf8(s).len() <= 255,
        AddressModel::V6(b) => b.len() == 16,
    }
}

/// Well-formedness of a request value; see [`addr_wf`].
pub open spec fn request_wf(m: RequestModel) -> bool {
    &&& m.version == 0
    &&& m.identity.len() == 16
    &&& m.extra.len() <= 255
    &&& addr_wf(m.addr)
}

/// Wire form of an address: the address-type byte and the address bytes,
/// a domain as its one-byte length and UTF-8 encoding.
pub open spec fn spec_encode_addr(addr: AddressModel) -> Seq<u8> {
    match addr {
        AddressModel::V4(b) => seq![1u8] + b,
        AddressModel::Domain(s) => seq![
            2u8,
            vstd::utf8::encode_utf8(s).len() as u8,
        ] + vstd::utf8::encode_utf8(s),
        AddressModel::V6(b) => seq![3u8] + b,
    }
}

/// Wire form of a whole request: the header fields in wire order followed
/// by the inline payload.
pub open spec fn spec_encode(m: RequestModel) -> Seq<u8> {
    seq![m.version] + m.identity + seq![m.extra.len() as u8] + m.extra + seq![
        m.cmd.spec_byte(),
        (m.port as int / 256) as u8,
        (m.port as int % 256) as u8,
    ] + spec_encode_addr(m.addr) + m.payload
}

/// Appends all of `src` to `out`.
fn push_all(out: &mut Vec<u8>, src: &[u8])
    ensures
        final(out)@ == old(out)@ + src@,
{
    proof {
        assert(out@ + src@.subrange(0, 0) =~= out@);
    }
    let mut i: usize = 0;
    while i < src.len()
        invariant
            i <= src@.len(),
            out@ == old(out)@ + src@.subrange(0, i as int),
        decreases src@.len() - i,
    {
        out.push(src[i]);
        i = i + 1;
        proof {
            assert(out@ =~= old(out)@ + src@.subrange(0, i as int));
        }
    }
    proof {
        assert(src@.subrange(0, src@.len() as int) =~= src@);
    }
}

/// Encodes a request into the exact byte form that decoding accepts;
/// the inverse of [`Request::parse_from`] on well-formed requests.
pub fn encode_request(q: &Request) -> (r: Vec<u8>)
    requires
        request_wf(q@),
    ensures
        r@ == spec_encode(q@),
{
    let mut out: Vec<u8> = Vec::new();
    out.push(q.version);
    push_all(&mut out, q.identity.as_slice());
    out.push(q.extra.len() as u8);
    push_all(&mut out, q.extra.as_slice());
    out.push(q.cmd.byte());
    out.push((q.port / 256) as u8);
    out.push((q.port % 256) as u8);
    match &q.addr {
        Address::IPv4(b) => {
            out.push(1);
            push_all(&mut out, b.as_slice());
        },
        Address::Domain(s) => {
            let d: &[u8] = s.as_str().as_bytes();
            out.push(2);
            out.push(d.len() as u8);
            push_all(&mut out, d);
        },
        Address::IPv6(b) => {
            out.push(3);
            push_all(&mut out, b.as_slice());
        },
    }
    push_all(&mut out, q.payload.as_slice());
    proof {
        assert(out@ =~= spec_encode(q@));
    }
    out
}

/// Every buffer shorter than the 18 bytes that version, identity and the
/// extra-length prefix occupy is rejected as too short, whatever the
/// configured identifier; and no decode reads out of bounds, which the
/// verification of [`Request::parse_from`] itself guarantees.
pub proof fn lemma_short_input_fails(b: Seq<u8>, expected: Option<Seq<u8>>)
    requires
        b.len() < 18,
    ensures
        spec_decode(b, expected) == Err::<RequestModel, DecodeError>(DecodeError::TooShort),
{
}

/// The sentinel identifier authenticates no buffer at all: decoding against
/// it never succeeds, so an endpoint whose configured identity was
/// unparsable accepts no client.
pub proof fn lemma_sentinel_rejects_all(b: Seq<u8>)
    ensures
        !(spec_decode(b, None) is Ok),
{
}

/// A well-formed buffer whose 16 identity bytes differ from the configured
/// identifier fails distinctly with an identity error at the decoder.
pub proof fn lemma_wrong_identity_fails(b: Seq<u8>, k: Seq<u8>)
    requires
        b.len() >= 18,
        b[0] == 0,
        b.subrange(1, 17) != k,
    ensures
        spec_decode(b, Some(k)) == Err::<RequestModel, DecodeError>(DecodeError::BadIdentity),
{
}

/// Every decoded request is well-formed and carries exactly the configured
/// identity: a request is only ever built by consuming the whole header,
/// never as a partial or zeroed value.
pub proof fn lemma_decode_wf(b: Seq<u8>, k: Seq<u8>)
    requires
        k.len() == 16,
        spec_decode(b, Some(k)) is Ok,
    ensures
        request_wf(spec_decode(b, Some(k)).unwrap()),
        spec_decode(b, Some(k)).unwrap().identity == k,
{
    let xl = b[17] as int;
    let at = b[18 + xl + 3];
    if at == 2 {
        let off = 18 + xl + 4;
        let n = b[off] as int;
        let d = b.subrange(off + 1, off + 1 + n);
        if vstd::utf8::valid_utf8(d) {
            vstd::utf8::decode_utf8_encode_utf8(d);
        }
    }
}

/// Round trip: encoding any well-formed request and decoding the result
/// against the identity it carries yields the request back exactly —
/// command, port, address and payload included — for every address kind.
pub proof fn lemma_encode_decode(m: RequestModel)
    requires
        request_wf(m),
    ensures
        spec_decode(spec_encode(m), Some(m.identity)) == Ok::<RequestModel, DecodeError>(m),
{
    let b = spec_encode(m);
    let xl = m.extra.len() as int;
    let a = spec_encode_addr(m.addr);
    assert(b.len() == 21 + xl + a.len() + m.payload.len());
    assert(b[0] == 0);
    assert(b.subrange(1, 17) =~= m.identity);
    assert(b[17] == xl as u8);
    assert(b.subrange(18, 18 + xl) =~= m.extra);
    assert(b[18 + xl] == m.cmd.spec_byte());
    assert(Command::spec_of_byte(m.cmd.spec_byte()) == Some(m.cmd));
    assert(b[18 + xl + 1] == (m.port as int / 256) as u8);
    assert(b[18 + xl + 2] == (m.port as int % 256) as u8);
    assert(((m.port as int / 256) * 256 + (m.port as int % 256)) == m.port as int) by {
        vstd::arithmetic::div_mod::lemma_fundamental_div_mod(m.port as int, 256);
    }
    assert(b[18 + xl + 3] == a[0]);
    let off = 18 + xl + 4;
    assert(b.subrange(off, off + (a.len() - 1)) =~= a.subrange(1, a.len() as int));
    let end = off + (a.len() - 1);
    assert(b.subrange(end, b.len() as int) =~= m.payload);
    match m.addr {
        AddressModel::V4(v) => {
            assert(a[0] == 1);
            assert(b.subrange(off, off + 4) =~= v);
            assert(spec_decode_addr(b, off, 1) == Ok::<(AddressModel, int), DecodeError>(
                (AddressModel::V4(v), off + 4),
            ));
        },
        AddressModel::Domain(s) => {
            let d = vstd::utf8::encode_utf8(s);
            assert(a[0] == 2);
            assert(b[off] == d.len() as u8);
            assert(b.subrange(off + 1, off + 1 + d.len()) =~= d);
            vstd::utf8::encode_utf8_valid_utf8(s);
            vstd::utf8::encode_utf8_decode_utf8(s);
            assert(spec_decode_addr(b, off, 2) == Ok::<(AddressModel, int), DecodeError>(
                (AddressModel::Domain(s), off + 1 + d.len()),
            ));
        },
        AddressModel::V6(v) => {
            assert(a[0] == 3);
            assert(b.subrange(off, off + 16) =~= v);
            assert(spec_decode_addr(b, off, 3) == Ok::<(AddressModel, int), DecodeError>(
                (AddressModel::V6(v), off + 16),
            ));
        },
    }
    assert(spec_decode(b, Some(m.identity)) matches Ok(q) && q =~= m);
}

} // verus!
