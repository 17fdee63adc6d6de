//! The handshake's wire format.
//!
//! A frame is one action byte, the payload's length as two bytes, most
//! significant first, and the payload. The handshake is two exchanges:
//! CONFIG, answered with the client's configuration as JSON, and CONNECT,
//! answered with an echo. After that the stream carries raw packets.

use crate::addr::{octet, quad};
use crate::error::{ConfigFault, ProtocolFault, TunnelError};
use vstd::prelude::*;
use vstd::string::*;

verus! {

pub const CONFIG: u8 = 1;

pub const CONNECT: u8 = 2;

pub const CONFIG_MAGIC: u32 = 0x53435241;

pub const CONNECT_MAGIC: u32 = 0x53434E43;

/// How many bytes a frame's header takes.
pub const HEADER_LEN: usize = 3;

/// The longest payload that a frame can carry.
pub const MAX_PAYLOAD: usize = 0xFFFF;

/// The CONFIG request that a client opens the handshake with.
pub const CONFIG_BUF: [u8; 7] = [1, 0, 4, 0x53, 0x43, 0x52, 0x41];

/// The CONNECT frame, which the client sends and the server echoes.
pub const CONNECT_BUF: [u8; 7] = [2, 0, 4, 0x53, 0x43, 0x4E, 0x43];

/// The two steps of the handshake.
#[derive(Clone, Copy, Debug, PartialEq, Eq, Structural)]
pub enum Action {
    Config,
    Connect,
}

/// What the first three bytes of a frame say.
#[derive(Clone, Copy, Debug, PartialEq, Eq, Structural)]
pub struct FrameHeader {
    pub action: Action,
    pub len: u16,
}

impl Action {
    pub open spec fn spec_code(self) -> u8 {
        match self {
            Action::Config => CONFIG,
            Action::Connect => CONNECT,
        }
    }

    /// The magic that a frame with this action must carry.
    pub open spec fn spec_magic(self) -> u32 {
        match self {
            Action::Config => CONFIG_MAGIC,
            Action::Connect => CONNECT_MAGIC,
        }
    }

    /// What a frame with this action and a wrong magic is refused with.
    pub open spec fn spec_bad_magic(self) -> ProtocolFault {
        match self {
            Action::Config => ProtocolFault::BadConfigMagic,
            Action::Connect => ProtocolFault::BadConnectMagic,
        }
    }

    #[verifier::when_used_as_spec(spec_code)]
    pub fn code(self) -> (r: u8)
        ensures
            r == self.spec_code(),
    {
        match self {
            Action::Config => CONFIG,
            Action::Connect => CONNECT,
        }
    }

    #[verifier::when_used_as_spec(spec_magic)]
    pub fn magic(self) -> (r: u32)
        ensures
            r == self.spec_magic(),
    {
        match self {
            Action::Config => CONFIG_MAGIC,
            Action::Connect => CONNECT_MAGIC,
        }
    }
}

/// The four bytes of a 32-bit number, most significant first.
pub open spec fn be32(n: u32) -> Seq<u8> {
    seq![octet(n, 0), octet(n, 1), octet(n, 2), octet(n, 3)]
}

/// The two bytes of a length, most significant first.
pub open spec fn be16(n: int) -> Seq<u8> {
    seq![(n / 0x100) as u8, (n % 0x100) as u8]
}

/// The bytes of the frame that carries `payload` under `action`.
pub open spec fn frame_bytes(action: u8, payload: Seq<u8>) -> Seq<u8> {
    seq![action] + be16(payload.len() as int) + payload
}

/// What a frame header says, if it is one. Fewer or more than three bytes
/// mean that the stream ended early; an action code other than CONFIG and
/// CONNECT is refused.
pub open spec fn header_value(h: Seq<u8>) -> Result<FrameHeader, TunnelError> {
    if h.len() != HEADER_LEN {
        Err(TunnelError::IoError)
    } else if h[0] == CONFIG {
        Ok(FrameHeader { action: Action::Config, len: (h[1] * 0x100 + h[2]) as u16 })
    } else if h[0] == CONNECT {
        Ok(FrameHeader { action: Action::Connect, len: (h[1] * 0x100 + h[2]) as u16 })
    } else {
        Err(TunnelError::ProtocolError(ProtocolFault::UnknownAction(h[0])))
    }
}

/// The magic that a payload carries: the number that its four bytes spell.
/// A payload of any other length carries none.
pub open spec fn magic_value(payload: Seq<u8>) -> Option<u32> {
    if payload.len() == 4 {
        Some(quad(payload[0], payload[1], payload[2], payload[3]))
    } else {
        None
    }
}

/// Whether the payload of a handshake frame is what its action calls for.
pub open spec fn payload_check(action: Action, payload: Seq<u8>) -> Result<(), ProtocolFault> {
    if magic_value(payload) == Some(action.spec_magic()) {
        Ok(())
    } else {
        Err(action.spec_bad_magic())
    }
}

/// The contents of a vector of strings.
pub open spec fn strings_view(v: Seq<String>) -> Seq<Seq<char>> {
    Seq::new(v.len(), |i: int| v[i]@)
}

/// The compact JSON text, as serde_json writes it, of an object with two
/// members: `key_a` with the string `text`, and `key_b` with the array of
/// the strings `items`.
pub uninterp spec fn json_object_text(
    key_a: Seq<char>,
    text: Seq<char>,
    key_b: Seq<char>,
    items: Seq<Seq<char>>,
) -> Seq<u8>;

/// The JSON text of a client's configuration: the address it was leased
/// under `ip`, and the networks it should route into the tunnel under
/// `routes`.
pub open spec fn config_json(ip: Seq<char>, routes: Seq<Seq<char>>) -> Seq<u8> {
    json_object_text("ip"@, ip, "routes"@, routes)
}

/// The CONFIG reply for a client, or why there is none: a frame cannot
/// carry configuration text of more than 65535 bytes.
pub open spec fn config_reply(ip: Seq<char>, routes: Seq<Seq<char>>) -> Result<
    Seq<u8>,
    TunnelError,
> {
    if config_json(ip, routes).len() <= MAX_PAYLOAD {
        Ok(frame_bytes(CONFIG, config_json(ip, routes)))
    } else {
        Err(TunnelError::ConfigError(ConfigFault::TooLong))
    }
}

/// The fixed handshake frames are the frames of their magics.
pub proof fn lemma_fixed_frames()
    ensures
        CONFIG_BUF@ == frame_bytes(CONFIG, be32(CONFIG_MAGIC)),
        CONNECT_BUF@ == frame_bytes(CONNECT, be32(CONNECT_MAGIC)),
        magic_value(be32(CONFIG_MAGIC)) == Some(CONFIG_MAGIC),
        magic_value(be32(CONNECT_MAGIC)) == Some(CONNECT_MAGIC),
{
    assert(CONFIG_BUF@ =~= frame_bytes(CONFIG, be32(CONFIG_MAGIC)));
    assert(CONNECT_BUF@ =~= frame_bytes(CONNECT, be32(CONNECT_MAGIC)));
}

/// A frame starts with the header that names its action and its payload's
/// length.
pub proof fn lemma_frame_header(action: Action, payload: Seq<u8>)
    requires
        payload.len() <= MAX_PAYLOAD,
    ensures
        frame_bytes(action.spec_code(), payload).len() == HEADER_LEN + payload.len(),
        header_value(frame_bytes(action.spec_code(), payload).take(HEADER_LEN as int)) == Ok::<
            FrameHeader,
            TunnelError,
        >(FrameHeader { action, len: payload.len() as u16 }),
        frame_bytes(action.spec_code(), payload).skip(HEADER_LEN as int) == payload,
{
    let f = frame_bytes(action.spec_code(), payload);
    let n = payload.len() as int;
    assert(f.skip(HEADER_LEN as int) =~= payload);
    let h = f.take(HEADER_LEN as int);
    assert(h[1] == (n / 0x100) as u8 && h[2] == (n % 0x100) as u8);
}

/// serde_json's `Value::to_string` on the object that has `text` under
/// `key_a` and the array of `items` under `key_b`. The text it writes
/// depends on these four alone, and is known here only by name.
#[verifier::external_body]
fn render_json_object(key_a: &str, text: &str, key_b: &str, items: &Vec<String>) -> (out: Vec<u8>)
    ensures
        out@ == json_object_text(key_a@, text@, key_b@, strings_view(items@)),
{
    let mut members = serde_json::Map::new();
    members.insert(key_a.to_string(), serde_json::Value::String(text.to_string()));
    let list = items.iter().map(|s| serde_json::Value::String(s.clone())).collect();
    members.insert(key_b.to_string(), serde_json::Value::Array(list));
    serde_json::Value::Object(members).to_string().into_bytes()
}

/// Puts a payload into a frame.
pub fn encode_frame(action: u8, payload: &[u8]) -> (out: Vec<u8>)
    requires
        payload@.len() <= MAX_PAYLOAD,
    ensures
        out@ == frame_bytes(action, payload@),
{
    let n = payload.len();
    let mut out: Vec<u8> = Vec::with_capacity(n + 3);
    out.push(action);
    out.push((n / 0x100) as u8);
    out.push((n % 0x100) as u8);
    out.extend_from_slice(payload);
    assert(out@ =~= frame_bytes(action, payload@));
    out
}

/// Frames configuration text that was rendered already. Text that is too
/// long for a frame is refused.
pub fn frame_config(json: Vec<u8>) -> (r: Result<Vec<u8>, TunnelError>)
    ensures
        json@.len() <= MAX_PAYLOAD ==> r is Ok && r->Ok_0@ == frame_bytes(CONFIG, json@),
        json@.len() > MAX_PAYLOAD ==> r == Err::<Vec<u8>, TunnelError>(
            TunnelError::ConfigError(ConfigFault::TooLong),
        ),
{
    if json.len() > MAX_PAYLOAD {
        Err(TunnelError::ConfigError(ConfigFault::TooLong))
    } else {
        Ok(encode_frame(CONFIG, json.as_slice()))
    }
}

/// Builds the CONFIG reply for the client that was leased `client_ip`.
pub fn server_config(client_ip: &str, routes: &Vec<String>) -> (r: Result<Vec<u8>, TunnelError>)
    ensures
        match config_reply(client_ip@, strings_view(routes@)) {
            Ok(frame) => r is Ok && r->Ok_0@ == frame,
            Err(e) => r is Err && r->Err_0 == e,
        },
{
    let json = render_json_object("ip", client_ip, "routes", routes);
    frame_config(json)
}

/// Reads a frame header.
pub fn decode_header(h: &[u8]) -> (r: Result<FrameHeader, TunnelError>)
    ensures
        r == header_value(h@),
{
    if h.len() != HEADER_LEN {
        return Err(TunnelError::IoError);
    }
    let len: u16 = (h[1] as u16) * 0x100 + (h[2] as u16);
    if h[0] == CONFIG {
        Ok(FrameHeader { action: Action::Config, len })
    } else if h[0] == CONNECT {
        Ok(FrameHeader { action: Action::Connect, len })
    } else {
        Err(TunnelError::ProtocolError(ProtocolFault::UnknownAction(h[0])))
    }
}

/// Reads the magic that a payload carries.
pub fn decode_magic(payload: &[u8]) -> (r: Option<u32>)
    ensures
        r == magic_value(payload@),
{
    if payload.len() != 4 {
        return None;
    }
    let v: u32 = (payload[0] as u32) * 0x100_0000 + (payload[1] as u32) * 0x1_0000 + (
    payload[2] as u32) * 0x100 + (payload[3] as u32);
    Some(v)
}

/// Checks the payload of a handshake frame against its action's magic.
pub fn check_payload(action: Action, payload: &[u8]) -> (r: Result<(), ProtocolFault>)
    ensures
        r == payload_check(action, payload@),
{
    match decode_magic(payload) {
        Some(m) if m == action.magic() => Ok(()),
        _ => match action {
            Action::Config => Err(ProtocolFault::BadConfigMagic),
            Action::Connect => Err(ProtocolFault::BadConnectMagic),
        },
    }
}

} // verus!
