//! Wire protocol codec.
//!
//! One frame on the outer transport is an 8-byte big-endian header followed
//! verbatim by the payload: `type: u8, family: u8, connection_id: u32,
//! port: u16`. Encoding is total for well-typed inputs; decoding rejects
//! frames that are too short or carry an unknown type or family byte, and
//! never inspects the payload region.

use vstd::prelude::*;
use vstd::slice::{slice_index_get, slice_subrange};
use vstd::string::StringSliceAdditionalSpecFns;

verus! {

/// Header size in bytes.
pub const HEADER_SIZE: usize = 8;

/// Message type carried in the first header byte.
#[derive(Debug, Clone, Copy, PartialEq, Eq, Structural)]
pub enum MsgType {
    /// Runner → client: open a connection to a local port.
    Connect,
    /// Client → runner: connection established.
    Connected,
    /// Bidirectional: relay data.
    Data,
    /// Bidirectional: close a connection.
    Close,
    /// Client → runner: connection failed.
    Error,
    /// Keepalive ping.
    Ping,
    /// Keepalive pong.
    Pong,
}

/// Address family carried in the second header byte.
#[derive(Debug, Clone, Copy, PartialEq, Eq, Structural)]
pub enum Proto {
    Tcp,
    Udp,
}

/// Why a frame failed to decode.
#[derive(Debug, Clone, Copy, PartialEq, Eq, Structural)]
pub enum ProtocolError {
    /// The first header byte is outside the defined message types.
    InvalidMsgType(u8),
    /// The second header byte is outside the defined address families.
    InvalidProto(u8),
    /// The input holds fewer bytes than one header.
    MessageTooShort(usize),
}

/// The wire byte that stands for a message type.
pub open spec fn msg_type_byte(t: MsgType) -> u8 {
    match t {
        MsgType::Connect => 0x01,
        MsgType::Connected => 0x02,
        MsgType::Data => 0x03,
        MsgType::Close => 0x04,
        MsgType::Error => 0x05,
        MsgType::Ping => 0x06,
        MsgType::Pong => 0x07,
    }
}

/// The message type a wire byte stands for, if any.
pub open spec fn msg_type_of_byte(b: u8) -> Option<MsgType> {
    match b {
        0x01 => Some(MsgType::Connect),
        0x02 => Some(MsgType::Connected),
        0x03 => Some(MsgType::Data),
        0x04 => Some(MsgType::Close),
        0x05 => Some(MsgType::Error),
        0x06 => Some(MsgType::Ping),
        0x07 => Some(MsgType::Pong),
        _ => None,
    }
}

/// The wire byte that stands for an address family.
pub open spec fn proto_byte(p: Proto) -> u8 {
    match p {
        Proto::Tcp => 0x00,
        Proto::Udp => 0x01,
    }
}

/// The address family a wire byte stands for, if any.
pub open spec fn proto_of_byte(b: u8) -> Option<Proto> {
    match b {
        0x00 => Some(Proto::Tcp),
        0x01 => Some(Proto::Udp),
        _ => None,
    }
}

impl MsgType {
    /// The wire byte for this message type.
    pub fn to_byte(self) -> (b: u8)
        ensures
            b == msg_type_byte(self),
    {
        match self {
            MsgType::Connect => 0x01,
            MsgType::Connected => 0x02,
            MsgType::Data => 0x03,
            MsgType::Close => 0x04,
            MsgType::Error => 0x05,
            MsgType::Ping => 0x06,
            MsgType::Pong => 0x07,
        }
    }

    /// The message type for a wire byte; rejects bytes outside the enumeration.
    pub fn try_from(value: u8) -> (r: Result<MsgType, ProtocolError>)
        ensures
            r == match msg_type_of_byte(value) {
                Some(t) => Ok::<MsgType, ProtocolError>(t),
                None => Err::<MsgType, ProtocolError>(ProtocolError::InvalidMsgType(value)),
            },
    {
        match value {
            0x01 => Ok(MsgType::Connect),
            0x02 => Ok(MsgType::Connected),
            0x03 => Ok(MsgType::Data),
            0x04 => Ok(MsgType::Close),
            0x05 => Ok(MsgType::Error),
            0x06 => Ok(MsgType::Ping),
            0x07 => Ok(MsgType::Pong),
            _ => Err(ProtocolError::InvalidMsgType(value)),
        }
    }
}

impl Proto {
    /// The wire byte for this address family.
    pub fn to_byte(self) -> (b: u8)
        ensures
            b == proto_byte(self),
    {
        match self {
            Proto::Tcp => 0x00,
            Proto::Udp => 0x01,
        }
    }

    /// The address family for a wire byte; rejects bytes outside the enumeration.
    pub fn try_from(value: u8) -> (r: Result<Proto, ProtocolError>)
        ensures
            r == match proto_of_byte(value) {
                Some(p) => Ok::<Proto, ProtocolError>(p),
                None => Err::<Proto, ProtocolError>(ProtocolError::InvalidProto(value)),
            },
    {
        match value {
            0x00 => Ok(Proto::Tcp),
            0x01 => Ok(Proto::Udp),
            _ => Err(ProtocolError::InvalidProto(value)),
        }
    }
}

/// Parsed tunnel message header.
#[derive(Debug, Clone, Copy, PartialEq, Eq, Structural)]
pub struct Header {
    pub msg_type: MsgType,
    pub proto: Proto,
    pub client_id: u32,
    pub port: u16,
}

/// The four big-endian bytes of a 32-bit connection id.
pub open spec fn u32_be_bytes(x: u32) -> Seq<u8> {
    seq![(x >> 24) as u8, (x >> 16) as u8, (x >> 8) as u8, x as u8]
}

/// A 32-bit value read back from four big-endian bytes.
pub open spec fn u32_of_be(b0: u8, b1: u8, b2: u8, b3: u8) -> u32 {
    ((b0 as u32) << 24) | ((b1 as u32) << 16) | ((b2 as u32) << 8) | (b3 as u32)
}

/// The two big-endian bytes of a 16-bit port.
pub open spec fn u16_be_bytes(x: u16) -> Seq<u8> {
    seq![(x >> 8) as u8, x as u8]
}

/// A 16-bit value read back from two big-endian bytes.
pub open spec fn u16_of_be(b0: u8, b1: u8) -> u16 {
    ((b0 as u16) << 8) | (b1 as u16)
}

/// The exact eight bytes of an encoded header.
pub open spec fn spec_header_bytes(h: Header) -> Seq<u8> {
    seq![msg_type_byte(h.msg_type), proto_byte(h.proto)] + u32_be_bytes(h.client_id)
        + u16_be_bytes(h.port)
}

/// The exact bytes of a whole frame: header, then payload verbatim.
pub open spec fn spec_message_bytes(
    msg_type: MsgType,
    proto: Proto,
    client_id: u32,
    port: u16,
    payload: Seq<u8>,
) -> Seq<u8> {
    spec_header_bytes(Header { msg_type, proto, client_id, port }) + payload
}

/// What decoding a byte sequence yields: the header, or the first error in
/// header order (length, then type byte, then family byte).
pub open spec fn spec_parse(s: Seq<u8>) -> Result<Header, ProtocolError> {
    if s.len() < HEADER_SIZE {
        Err(ProtocolError::MessageTooShort(s.len() as usize))
    } else {
        match msg_type_of_byte(s[0]) {
            None => Err(ProtocolError::InvalidMsgType(s[0])),
            Some(msg_type) => match proto_of_byte(s[1]) {
                None => Err(ProtocolError::InvalidProto(s[1])),
                Some(proto) => Ok(
                    Header {
                        msg_type,
                        proto,
                        client_id: u32_of_be(s[2], s[3], s[4], s[5]),
                        port: u16_of_be(s[6], s[7]),
                    },
                ),
            },
        }
    }
}

/// The payload region of a frame: everything after the header, empty when
/// the input is at or under header length.
pub open spec fn spec_payload_of(s: Seq<u8>) -> Seq<u8> {
    if s.len() > HEADER_SIZE {
        s.subrange(HEADER_SIZE as int, s.len() as int)
    } else {
        Seq::empty()
    }
}

impl Header {
    /// Parse a header from the first eight bytes of a frame.
    pub fn parse(data: &[u8]) -> (r: Result<Header, ProtocolError>)
        ensures
            r == spec_parse(data@),
    {
        if data.len() < HEADER_SIZE {
            return Err(ProtocolError::MessageTooShort(data.len()));
        }

        let msg_type = match MsgType::try_from(*slice_index_get(data, 0)) {
            Ok(t) => t,
            Err(e) => {
                return Err(e);
            },
        };
        let proto = match Proto::try_from(*slice_index_get(data, 1)) {
            Ok(p) => p,
            Err(e) => {
                return Err(e);
            },
        };
        let b2 = *slice_index_get(data, 2);
        let b3 = *slice_index_get(data, 3);
        let b4 = *slice_index_get(data, 4);
        let b5 = *slice_index_get(data, 5);
        let b6 = *slice_index_get(data, 6);
        let b7 = *slice_index_get(data, 7);
        let client_id: u32 = ((b2 as u32) << 24) | ((b3 as u32) << 16) | ((b4 as u32) << 8)
            | (b5 as u32);
        let port: u16 = ((b6 as u16) << 8) | (b7 as u16);

        Ok(Header { msg_type, proto, client_id, port })
    }

    /// Append the eight header bytes to a buffer.
    pub fn write_to(&self, buf: &mut Vec<u8>)
        ensures
            final(buf)@ == old(buf)@ + spec_header_bytes(*self),
    {
        buf.push(self.msg_type.to_byte());
        buf.push(self.proto.to_byte());
        buf.push(#[verifier::truncate] ((self.client_id >> 24) as u8));
        buf.push(#[verifier::truncate] ((self.client_id >> 16) as u8));
        buf.push(#[verifier::truncate] ((self.client_id >> 8) as u8));
        buf.push(#[verifier::truncate] (self.client_id as u8));
        buf.push(#[verifier::truncate] ((self.port >> 8) as u8));
        buf.push(#[verifier::truncate] (self.port as u8));
        assert(buf@ =~= old(buf)@ + spec_header_bytes(*self));
    }
}

/// Build a complete tunnel frame: header, then payload verbatim.
pub fn build_message(
    msg_type: MsgType,
    proto: Proto,
    client_id: u32,
    port: u16,
    payload: &[u8],
) -> (r: Vec<u8>)
    ensures
        r@ == spec_message_bytes(msg_type, proto, client_id, port, payload@),
{
    let mut buf: Vec<u8> = Vec::new();
    let header = Header { msg_type, proto, client_id, port };
    header.write_to(&mut buf);
    buf.extend_from_slice(payload);
    buf
}

/// Build a CONNECTED frame.
pub fn build_connected(proto: Proto, client_id: u32) -> (r: Vec<u8>)
    ensures
        r@ == spec_message_bytes(MsgType::Connected, proto, client_id, 0, Seq::empty()),
{
    let empty: [u8; 0] = [];
    build_message(MsgType::Connected, proto, client_id, 0, empty.as_slice())
}

/// Build a DATA frame carrying one relay chunk.
pub fn build_data(proto: Proto, client_id: u32, data: &[u8]) -> (r: Vec<u8>)
    ensures
        r@ == spec_message_bytes(MsgType::Data, proto, client_id, 0, data@),
{
    build_message(MsgType::Data, proto, client_id, 0, data)
}

/// Build a CLOSE frame.
pub fn build_close(proto: Proto, client_id: u32) -> (r: Vec<u8>)
    ensures
        r@ == spec_message_bytes(MsgType::Close, proto, client_id, 0, Seq::empty()),
{
    let empty: [u8; 0] = [];
    build_message(MsgType::Close, proto, client_id, 0, empty.as_slice())
}

/// Build an ERROR frame whose payload is the UTF-8 text of the failure.
pub fn build_error(proto: Proto, client_id: u32, error_msg: &str) -> (r: Vec<u8>)
    ensures
        r@ == spec_message_bytes(MsgType::Error, proto, client_id, 0, error_msg.spec_bytes()),
{
    build_message(MsgType::Error, proto, client_id, 0, error_msg.as_bytes())
}

/// Build a PONG frame answering a PING with the same connection id.
pub fn build_pong(client_id: u32) -> (r: Vec<u8>)
    ensures
        r@ == spec_message_bytes(MsgType::Pong, Proto::Tcp, client_id, 0, Seq::empty()),
{
    let empty: [u8; 0] = [];
    build_message(MsgType::Pong, Proto::Tcp, client_id, 0, empty.as_slice())
}

/// Extract the payload of a frame: everything after the header, or an empty
/// slice when the input is at or under header length. Never fails.
pub fn get_payload(data: &[u8]) -> (r: &[u8])
    ensures
        r@ == spec_payload_of(data@),
{
    if data.len() > HEADER_SIZE {
        slice_subrange(data, HEADER_SIZE, data.len())
    } else {
        slice_subrange(data, 0, 0)
    }
}

/// Reading four big-endian bytes of a value gives the value back.
proof fn lemma_u32_be_roundtrip(x: u32)
    ensures
        u32_of_be((x >> 24) as u8, (x >> 16) as u8, (x >> 8) as u8, x as u8) == x,
{
    assert(((((x >> 24) as u8) as u32) << 24) | ((((x >> 16) as u8) as u32) << 16) | ((((x >> 8)
        as u8) as u32) << 8) | (((x as u8) as u32)) == x) by (bit_vector);
}

/// Reading two big-endian bytes of a value gives the value back.
proof fn lemma_u16_be_roundtrip(x: u16)
    ensures
        u16_of_be((x >> 8) as u8, x as u8) == x,
{
    assert(((((x >> 8) as u8) as u16) << 8) | (((x as u8) as u16)) == x) by (bit_vector);
}

/// Round trip: decoding an encoded frame reconstructs the header fields
/// exactly, and the payload region is the encoded payload, for every valid
/// header and every payload.
pub proof fn lemma_message_roundtrip(
    msg_type: MsgType,
    proto: Proto,
    client_id: u32,
    port: u16,
    payload: Seq<u8>,
)
    ensures
        spec_parse(spec_message_bytes(msg_type, proto, client_id, port, payload))
            == Ok::<Header, ProtocolError>(Header { msg_type, proto, client_id, port }),
        spec_payload_of(spec_message_bytes(msg_type, proto, client_id, port, payload)) == payload,
{
    let s = spec_message_bytes(msg_type, proto, client_id, port, payload);
    let h = Header { msg_type, proto, client_id, port };
    assert(s.len() == HEADER_SIZE + payload.len());
    assert(s[0] == msg_type_byte(msg_type));
    assert(s[1] == proto_byte(proto));
    assert(msg_type_of_byte(msg_type_byte(msg_type)) == Some(msg_type));
    assert(proto_of_byte(proto_byte(proto)) == Some(proto));
    lemma_u32_be_roundtrip(client_id);
    lemma_u16_be_roundtrip(port);
    assert(s[2] == (client_id >> 24) as u8);
    assert(s[3] == (client_id >> 16) as u8);
    assert(s[4] == (client_id >> 8) as u8);
    assert(s[5] == client_id as u8);
    assert(s[6] == (port >> 8) as u8);
    assert(s[7] == port as u8);
    assert(spec_payload_of(s) =~= payload);
}

/// Decoding a byte sequence shorter than one header always fails with the
/// "too short" condition.
pub proof fn lemma_parse_too_short(s: Seq<u8>)
    requires
        s.len() < HEADER_SIZE,
    ensures
        spec_parse(s) == Err::<Header, ProtocolError>(
            ProtocolError::MessageTooShort(s.len() as usize),
        ),
{
}

/// Decoding a long-enough frame whose type byte is out of range fails with
/// the "unknown message type" condition; no partial header comes back.
pub proof fn lemma_parse_unknown_msg_type(s: Seq<u8>)
    requires
        s.len() >= HEADER_SIZE,
        msg_type_of_byte(s[0]) is None,
    ensures
        spec_parse(s) == Err::<Header, ProtocolError>(ProtocolError::InvalidMsgType(s[0])),
{
}

/// Decoding a long-enough frame whose type byte is known but whose family
/// byte is out of range fails with the "unknown family" condition; no
/// partial header comes back.
pub proof fn lemma_parse_unknown_proto(s: Seq<u8>)
    requires
        s.len() >= HEADER_SIZE,
        msg_type_of_byte(s[0]) is Some,
        proto_of_byte(s[1]) is None,
    ensures
        spec_parse(s) == Err::<Header, ProtocolError>(ProtocolError::InvalidProto(s[1])),
{
}

/// A type byte is known exactly when it lies in the defined range.
pub proof fn lemma_msg_type_byte_range(b: u8)
    ensures
        (msg_type_of_byte(b) is Some) <==> (0x01 <= b <= 0x07),
{
}

/// A family byte is known exactly when it lies in the defined range.
pub proof fn lemma_proto_byte_range(b: u8)
    ensures
        (proto_of_byte(b) is Some) <==> (b <= 0x01),
{
}

} // verus!
