//! The client's side of the handshake.
//!
//! The client opens with CONFIG, takes its configuration from the reply,
//! answers with CONNECT, and relays once the echo has come. As with a
//! session, the I/O is the caller's.

use crate::codec::{
    check_payload, decode_header, header_value, payload_check, strings_view, Action, FrameHeader,
    CONFIG_BUF, CONNECT_BUF, HEADER_LEN,
};
use crate::error::{ProtocolFault, TunnelError};
use crate::forward::RELAY_BUF_LEN;
use crate::session::{ReadPlan, SessionState};
use vstd::prelude::*;
use vstd::string::*;

verus! {

/// What the server tells a client to configure: the address of its end of
/// the tunnel, and the networks to route into the tunnel.
#[derive(Debug, PartialEq, Eq)]
pub struct ClientConfig {
    pub ip: String,
    pub routes: Vec<String>,
}

/// What the client's handshake is told.
#[derive(Debug, PartialEq, Eq)]
pub enum ClientEvent {
    /// The stream is connected.
    Start,
    /// The stream yielded the bytes that were asked for.
    Stream(Vec<u8>),
    /// A read from or a write to the stream failed.
    StreamFailed,
}

/// What the client's handshake asks its owner to do.
#[derive(Debug, PartialEq, Eq)]
pub enum ClientAction {
    /// Write these bytes to the stream.
    SendStream(Vec<u8>),
    /// Set up the interface and the routes as the server said.
    Configure(ClientConfig),
}

/// What the client's handshake is told, over the bytes involved.
pub enum ClientInput {
    Start,
    Stream(Seq<u8>),
    StreamFailed,
}

/// What the client's handshake asks for, over the bytes and text involved.
pub enum ClientEffect {
    SendStream(Seq<u8>),
    Configure(Seq<char>, Seq<Seq<char>>),
}

impl View for ClientEvent {
    type V = ClientInput;

    open spec fn view(&self) -> ClientInput {
        match self {
            ClientEvent::Start => ClientInput::Start,
            ClientEvent::Stream(b) => ClientInput::Stream(b@),
            ClientEvent::StreamFailed => ClientInput::StreamFailed,
        }
    }
}

impl View for ClientAction {
    type V = ClientEffect;

    open spec fn view(&self) -> ClientEffect {
        match self {
            ClientAction::SendStream(b) => ClientEffect::SendStream(b@),
            ClientAction::Configure(c) => ClientEffect::Configure(c.ip@, strings_view(c.routes@)),
        }
    }
}

/// What a list of actions asks for.
pub open spec fn client_effects(v: Seq<ClientAction>) -> Seq<ClientEffect> {
    Seq::new(v.len(), |i: int| v[i]@)
}

/// What serde_json reads out of JSON text as a client's configuration:
/// the string under `key_a` and the strings of the array under `key_b`, if
/// the text is a JSON object that has both in this form.
pub uninterp spec fn json_object_fields(text: Seq<u8>, key_a: Seq<char>, key_b: Seq<char>) -> Option<
    (Seq<char>, Seq<Seq<char>>),
>;

/// The configuration that a CONFIG reply carries, if it carries one.
pub open spec fn config_fields(payload: Seq<u8>) -> Option<(Seq<char>, Seq<Seq<char>>)> {
    json_object_fields(payload, "ip"@, "routes"@)
}

/// The client's handshake, as far as its behaviour goes.
pub struct ClientModel {
    pub state: SessionState,
    /// The header of the frame whose payload is awaited.
    pub pending: Option<FrameHeader>,
    /// A configuration has been received.
    pub configured: bool,
    /// Why the handshake failed, if it did.
    pub error: Option<TunnelError>,
}

impl ClientModel {
    /// A handshake that has not begun.
    pub open spec fn fresh() -> ClientModel {
        ClientModel { state: SessionState::Connected, pending: None, configured: false, error: None }
    }

    /// The handshake fails. Nothing is asked for.
    pub open spec fn fail(self, e: TunnelError) -> (ClientModel, Seq<ClientEffect>) {
        (
            ClientModel { state: SessionState::Closed, pending: None, error: Some(e), ..self },
            Seq::empty(),
        )
    }

    /// What the handshake does with the payload of a frame, given what the
    /// payload holds as a configuration.
    pub open spec fn payload(
        self,
        h: FrameHeader,
        b: Seq<u8>,
        fields: Option<(Seq<char>, Seq<Seq<char>>)>,
    ) -> (ClientModel, Seq<ClientEffect>) {
        if b.len() != h.len {
            self.fail(TunnelError::IoError)
        } else {
            match h.action {
                Action::Config => match fields {
                    Some(c) => (
                        ClientModel { pending: None, configured: true, ..self },
                        seq![ClientEffect::Configure(c.0, c.1), ClientEffect::SendStream(CONNECT_BUF@)],
                    ),
                    None => self.fail(TunnelError::ProtocolError(ProtocolFault::BadConfig)),
                },
                Action::Connect => match payload_check(Action::Connect, b) {
                    Err(f) => self.fail(TunnelError::ProtocolError(f)),
                    Ok(_) => if self.configured {
                        (
                            ClientModel { state: SessionState::Relaying, pending: None, ..self },
                            Seq::empty(),
                        )
                    } else {
                        self.fail(TunnelError::ProtocolError(ProtocolFault::NotConfigured))
                    },
                },
            }
        }
    }

    /// What the handshake does when it is told something.
    ///
    /// - At the start it sends the CONFIG request.
    /// - Then bytes are a header or the payload that the last header
    ///   announced. A CONFIG reply is taken as the client's configuration:
    ///   the owner is asked to set it up, and CONNECT is sent. The CONNECT
    ///   echo with the right magic, once a configuration was received, ends
    ///   the handshake, and the relay begins.
    /// - An unknown action, a reply that holds no configuration, a wrong
    ///   magic, an echo before any configuration, bytes short of what was
    ///   asked for or a failure of the stream fail the handshake.
    /// - After the handshake, whether it succeeded or failed, nothing more
    ///   is asked for.
    pub open spec fn step(self, e: ClientInput) -> (ClientModel, Seq<ClientEffect>) {
        match self.state {
            SessionState::Closed => (self, Seq::empty()),
            SessionState::Relaying => (self, Seq::empty()),
            SessionState::Connected => match e {
                ClientInput::Start => (
                    ClientModel { state: SessionState::Handshaking, ..self },
                    seq![ClientEffect::SendStream(CONFIG_BUF@)],
                ),
                _ => (self, Seq::empty()),
            },
            SessionState::Handshaking => match e {
                ClientInput::Start => (self, Seq::empty()),
                ClientInput::StreamFailed => self.fail(TunnelError::IoError),
                ClientInput::Stream(b) => match self.pending {
                    None => match header_value(b) {
                        Ok(h) => (ClientModel { pending: Some(h), ..self }, Seq::empty()),
                        Err(e) => self.fail(e),
                    },
                    Some(h) => self.payload(h, b, config_fields(b)),
                },
            },
        }
    }

    /// How much of the stream the handshake wants read next.
    pub open spec fn wanted(self) -> ReadPlan {
        match self.state {
            SessionState::Handshaking => match self.pending {
                None => ReadPlan::Exact(HEADER_LEN),
                Some(h) => ReadPlan::Exact(h.len as usize),
            },
            SessionState::Relaying => ReadPlan::UpTo(RELAY_BUF_LEN),
            _ => ReadPlan::Nothing,
        }
    }
}

/// Where the handshake is after it was told `events` one after the other.
pub open spec fn client_run(m: ClientModel, events: Seq<ClientInput>) -> ClientModel
    decreases events.len(),
{
    if events.len() == 0 {
        m
    } else {
        client_run(m.step(events[0]).0, events.skip(1))
    }
}

/// The relay is reached only through a configuration: whatever a client is
/// told, if it relays, it has received a configuration, and it has no
/// error. A client that has not received one never relays.
pub proof fn lemma_relay_needs_configuration(m: ClientModel, events: Seq<ClientInput>)
    requires
        m.state is Relaying ==> m.configured && m.error is None,
        !(m.state is Closed) ==> m.error is None,
    ensures
        client_run(m, events).state is Relaying ==> client_run(m, events).configured && client_run(
            m,
            events,
        ).error is None,
    decreases events.len(),
{
    if events.len() > 0 {
        lemma_relay_needs_configuration(m.step(events[0]).0, events.skip(1));
    }
}

/// serde_json's `from_slice` into a `Value`, then `get`, `as_str` and
/// `as_array` on it: the string under `key_a` and the strings of the array
/// under `key_b`. What comes back depends on the three arguments alone,
/// and is known here only by name.
#[verifier::external_body]
fn read_json_object(text: &[u8], key_a: &str, key_b: &str) -> (r: Option<(String, Vec<String>)>)
    ensures
        match json_object_fields(text@, key_a@, key_b@) {
            Some(f) => r matches Some(p) && p.0@ == f.0 && strings_view(p.1@) == f.1,
            None => r is None,
        },
{
    let value: serde_json::Value = serde_json::from_slice(text).ok()?;
    let first = value.get(key_a)?.as_str()?.to_string();
    let mut items = Vec::new();
    for item in value.get(key_b)?.as_array()? {
        items.push(item.as_str()?.to_string());
    }
    Some((first, items))
}

/// Reads a client's configuration out of the payload of a CONFIG reply.
pub fn client_config(payload: &[u8]) -> (r: Option<ClientConfig>)
    ensures
        match config_fields(payload@) {
            Some(f) => r matches Some(c) && c.ip@ == f.0 && strings_view(c.routes@) == f.1,
            None => r is None,
        },
{
    match read_json_object(payload, "ip", "routes") {
        Some((ip, routes)) => Some(ClientConfig { ip, routes }),
        None => None,
    }
}

/// What a configuration that was read holds.
pub open spec fn fields_of(c: Option<ClientConfig>) -> Option<(Seq<char>, Seq<Seq<char>>)> {
    match c {
        Some(c) => Some((c.ip@, strings_view(c.routes@))),
        None => None,
    }
}

/// The client's handshake.
pub struct ClientHandshake {
    state: SessionState,
    pending: Option<FrameHeader>,
    configured: bool,
    error: Option<TunnelError>,
}

impl View for ClientHandshake {
    type V = ClientModel;

    closed spec fn view(&self) -> ClientModel {
        ClientModel {
            state: self.state,
            pending: self.pending,
            configured: self.configured,
            error: self.error,
        }
    }
}

impl ClientHandshake {
    /// A handshake that has not begun.
    pub fn new() -> (r: ClientHandshake)
        ensures
            r@ == ClientModel::fresh(),
    {
        ClientHandshake {
            state: SessionState::Connected,
            pending: None,
            configured: false,
            error: None,
        }
    }

    fn fail(&mut self, e: TunnelError) -> (out: Vec<ClientAction>)
        ensures
            (final(self)@, client_effects(out@)) == old(self)@.fail(e),
    {
        self.state = SessionState::Closed;
        self.pending = None;
        self.error = Some(e);
        let out: Vec<ClientAction> = Vec::new();
        assert(client_effects(out@) =~= Seq::<ClientEffect>::empty());
        out
    }

    /// Takes the payload of a frame, with the configuration that was read
    /// out of it, if one was.
    pub fn on_payload(&mut self, h: FrameHeader, payload: &[u8], config: Option<ClientConfig>) -> (out:
        Vec<ClientAction>)
        ensures
            (final(self)@, client_effects(out@)) == old(self)@.payload(h, payload@, fields_of(config)),
    {
        if payload.len() != h.len as usize {
            return self.fail(TunnelError::IoError);
        }
        match h.action {
            Action::Config => match config {
                Some(c) => {
                    self.pending = None;
                    self.configured = true;
                    let mut connect: Vec<u8> = Vec::new();
                    connect.extend_from_slice(CONNECT_BUF.as_slice());
                    assert(connect@ =~= CONNECT_BUF@);
                    let ghost ip = c.ip@;
                    let ghost routes = strings_view(c.routes@);
                    let mut out: Vec<ClientAction> = Vec::new();
                    out.push(ClientAction::Configure(c));
                    out.push(ClientAction::SendStream(connect));
                    assert(client_effects(out@) =~= seq![
                        ClientEffect::Configure(ip, routes),
                        ClientEffect::SendStream(CONNECT_BUF@),
                    ]);
                    out
                },
                None => self.fail(TunnelError::ProtocolError(ProtocolFault::BadConfig)),
            },
            Action::Connect => match check_payload(Action::Connect, payload) {
                Err(f) => self.fail(TunnelError::ProtocolError(f)),
                Ok(_) => {
                    if self.configured {
                        self.state = SessionState::Relaying;
                        self.pending = None;
                        let out: Vec<ClientAction> = Vec::new();
                        assert(client_effects(out@) =~= Seq::<ClientEffect>::empty());
                        out
                    } else {
                        self.fail(TunnelError::ProtocolError(ProtocolFault::NotConfigured))
                    }
                },
            },
        }
    }

    /// Tells the handshake what happened, and returns what it asks for, in
    /// the order in which it is to be done.
    pub fn step(&mut self, ev: ClientEvent) -> (out: Vec<ClientAction>)
        ensures
            (final(self)@, client_effects(out@)) == old(self)@.step(ev@),
    {
        match self.state {
            SessionState::Closed | SessionState::Relaying => {
                let out: Vec<ClientAction> = Vec::new();
                assert(client_effects(out@) =~= Seq::<ClientEffect>::empty());
                out
            },
            SessionState::Connected => match ev {
                ClientEvent::Start => {
                    self.state = SessionState::Handshaking;
                    let mut request: Vec<u8> = Vec::new();
                    request.extend_from_slice(CONFIG_BUF.as_slice());
                    assert(request@ =~= CONFIG_BUF@);
                    let mut out: Vec<ClientAction> = Vec::new();
                    out.push(ClientAction::SendStream(request));
                    assert(client_effects(out@) =~= seq![ClientEffect::SendStream(CONFIG_BUF@)]);
                    out
                },
                _ => {
                    let out: Vec<ClientAction> = Vec::new();
                    assert(client_effects(out@) =~= Seq::<ClientEffect>::empty());
                    out
                },
            },
            SessionState::Handshaking => match ev {
                ClientEvent::Start => {
                    let out: Vec<ClientAction> = Vec::new();
                    assert(client_effects(out@) =~= Seq::<ClientEffect>::empty());
                    out
                },
                ClientEvent::StreamFailed => self.fail(TunnelError::IoError),
                ClientEvent::Stream(bytes) => match self.pending {
                    None => match decode_header(bytes.as_slice()) {
                        Ok(h) => {
                            self.pending = Some(h);
                            let out: Vec<ClientAction> = Vec::new();
                            assert(client_effects(out@) =~= Seq::<ClientEffect>::empty());
                            out
                        },
                        Err(e) => self.fail(e),
                    },
                    Some(h) => {
                        let config = client_config(bytes.as_slice());
                        self.on_payload(h, bytes.as_slice(), config)
                    },
                },
            },
        }
    }

    /// Begins the handshake: sends the CONFIG request.
    pub fn start_connect(&mut self) -> (out: Vec<ClientAction>)
        ensures
            (final(self)@, client_effects(out@)) == old(self)@.step(ClientInput::Start),
    {
        self.step(ClientEvent::Start)
    }

    /// How much of the stream to read next.
    pub fn wanted(&self) -> (r: ReadPlan)
        ensures
            r == self@.wanted(),
    {
        match self.state {
            SessionState::Handshaking => match self.pending {
                None => ReadPlan::Exact(HEADER_LEN),
                Some(h) => ReadPlan::Exact(h.len as usize),
            },
            SessionState::Relaying => ReadPlan::UpTo(RELAY_BUF_LEN),
            _ => ReadPlan::Nothing,
        }
    }

    pub fn state(&self) -> (r: SessionState)
        ensures
            r == self@.state,
    {
        self.state
    }

    /// Why the handshake failed, if it did.
    pub fn error(&self) -> (r: Option<TunnelError>)
        ensures
            r == self@.error,
    {
        self.error
    }
}

} // verus!
