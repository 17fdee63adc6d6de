//! The per-client session: the handshake, the relay, and the cleanup that
//! runs exactly once however the session ends.
//!
//! A session does no I/O. Its owner tells it what happened (bytes read,
//! a packet delivered, a failure) and carries out what it answers with.

use crate::codec::{
    check_payload, config_reply, decode_header, header_value, payload_check, server_config,
    strings_view, Action, FrameHeader, CONFIG_BUF, CONNECT_BUF, HEADER_LEN,
};
use crate::error::{MissingField, TunnelError};
use crate::forward::{main_loop, LoopEnd, LoopEvent, LoopStep, RELAY_BUF_LEN};
use crate::pool::IpPool;
use vstd::prelude::*;
use vstd::string::*;

verus! {

/// Where a session is in its life. `Closed` is final.
#[derive(Clone, Copy, Debug, PartialEq, Eq, Structural)]
pub enum SessionState {
    Connected,
    Handshaking,
    Relaying,
    Closed,
}

/// What a session is told.
#[derive(Debug, PartialEq, Eq)]
pub enum SessionEvent {
    /// The session's task begins; its channel exists.
    Start,
    /// The stream yielded these bytes: during the handshake the bytes that
    /// were asked for, during the relay whatever one read brought. No bytes
    /// mean that the peer closed the stream.
    Stream(Vec<u8>),
    /// A read from or a write to the stream failed.
    StreamFailed,
    /// The router delivered a packet on the session's channel.
    Packet(Vec<u8>),
    /// The session's channel is closed.
    ChannelClosed,
}

/// What a session asks its owner to do.
#[derive(Debug, PartialEq, Eq)]
pub enum SessionAction {
    /// Tell the router to route this address to the session's channel.
    AddRoute(String),
    /// Write these bytes to the stream.
    SendStream(Vec<u8>),
    /// Hand this packet to the router for the interface.
    Forward(Vec<u8>),
    /// Tell the router to drop the route of this address.
    DelRoute(String),
    /// Give this address back to the pool.
    Release(String),
}

/// What a session is told, over the bytes involved.
pub enum Event {
    Start,
    Stream(Seq<u8>),
    StreamFailed,
    Packet(Seq<u8>),
    ChannelClosed,
}

/// What a session asks for, over the bytes and text involved.
pub enum Effect {
    AddRoute(Seq<char>),
    SendStream(Seq<u8>),
    Forward(Seq<u8>),
    DelRoute(Seq<char>),
    Release(Seq<char>),
}

impl View for SessionEvent {
    type V = Event;

    open spec fn view(&self) -> Event {
        match self {
            SessionEvent::Start => Event::Start,
            SessionEvent::Stream(b) => Event::Stream(b@),
            SessionEvent::StreamFailed => Event::StreamFailed,
            SessionEvent::Packet(p) => Event::Packet(p@),
            SessionEvent::ChannelClosed => Event::ChannelClosed,
        }
    }
}

impl View for SessionAction {
    type V = Effect;

    open spec fn view(&self) -> Effect {
        match self {
            SessionAction::AddRoute(ip) => Effect::AddRoute(ip@),
            SessionAction::SendStream(b) => Effect::SendStream(b@),
            SessionAction::Forward(p) => Effect::Forward(p@),
            SessionAction::DelRoute(ip) => Effect::DelRoute(ip@),
            SessionAction::Release(ip) => Effect::Release(ip@),
        }
    }
}

/// What a list of actions asks for.
pub open spec fn effects(v: Seq<SessionAction>) -> Seq<Effect> {
    Seq::new(v.len(), |i: int| v[i]@)
}

/// How much of the stream a session wants read next.
#[derive(Clone, Copy, Debug, PartialEq, Eq, Structural)]
pub enum ReadPlan {
    /// Nothing: the session does not read now.
    Nothing,
    /// Exactly this many bytes.
    Exact(usize),
    /// One read of at most this many bytes.
    UpTo(usize),
}

/// A session, as far as its behaviour goes.
pub struct SessionModel {
    pub state: SessionState,
    /// The header of the handshake frame whose payload is awaited.
    pub pending: Option<FrameHeader>,
    /// The address that the session was leased.
    pub client_ip: Seq<char>,
    /// The networks that the client is told to route into the tunnel.
    pub routes: Seq<Seq<char>>,
    /// Why the session ended, if it ended on an error.
    pub error: Option<TunnelError>,
}

impl SessionModel {
    /// A session that was just built around a leased address.
    pub open spec fn fresh(client_ip: Seq<char>, routes: Seq<Seq<char>>) -> SessionModel {
        SessionModel {
            state: SessionState::Connected,
            pending: None,
            client_ip,
            routes,
            error: None,
        }
    }

    /// The router has a route to this session.
    pub open spec fn registered(self) -> bool {
        self.state is Handshaking || self.state is Relaying
    }

    /// The session as it is once it has ended.
    pub open spec fn closed(self, error: Option<TunnelError>) -> SessionModel {
        SessionModel { state: SessionState::Closed, pending: None, error, ..self }
    }

    /// The cleanup of a session that the router has a route to: the route
    /// goes first, then the address.
    pub open spec fn cleanup(self) -> Seq<Effect> {
        seq![Effect::DelRoute(self.client_ip), Effect::Release(self.client_ip)]
    }

    /// The session ends, with its cleanup.
    pub open spec fn end(self, error: Option<TunnelError>) -> (SessionModel, Seq<Effect>) {
        (self.closed(error), self.cleanup())
    }

    /// What a session that awaits handshake bytes does with them.
    pub open spec fn handshake(self, b: Seq<u8>) -> (SessionModel, Seq<Effect>) {
        match self.pending {
            None => match header_value(b) {
                Ok(h) => (SessionModel { pending: Some(h), ..self }, Seq::empty()),
                Err(e) => self.end(Some(e)),
            },
            Some(h) => if b.len() != h.len {
                self.end(Some(TunnelError::IoError))
            } else {
                match payload_check(h.action, b) {
                    Err(f) => self.end(Some(TunnelError::ProtocolError(f))),
                    Ok(_) => match h.action {
                        Action::Config => match config_reply(self.client_ip, self.routes) {
                            Ok(frame) => (
                                SessionModel { pending: None, ..self },
                                seq![Effect::SendStream(frame)],
                            ),
                            Err(e) => self.end(Some(e)),
                        },
                        Action::Connect => (
                            SessionModel {
                                state: SessionState::Relaying,
                                pending: None,
                                ..self
                            },
                            seq![Effect::SendStream(CONNECT_BUF@)],
                        ),
                    },
                }
            },
        }
    }

    /// What a session does when it is told something: how it goes on, and
    /// what it asks for.
    ///
    /// - Before the start only the start is expected. It asks for the
    ///   route. Anything else ends the session; no route exists yet, so only
    ///   the address is given back.
    /// - During the handshake, bytes are a header or the payload that the
    ///   last header announced. A correct CONFIG is answered with the
    ///   client's configuration, a correct CONNECT with its echo, and the
    ///   relay begins. A wrong magic, an unknown action, bytes short of what
    ///   was asked for or a failure of the stream end the session.
    /// - During the relay, bytes from the stream are forwarded and packets
    ///   are written to the stream. An empty read, a failure of the stream
    ///   or the closing of the channel end the session.
    /// - However a session with a route ends, it asks once for the route to
    ///   be dropped and then once for the address to be given back. An ended
    ///   session asks for nothing.
    pub open spec fn step(self, e: Event) -> (SessionModel, Seq<Effect>) {
        match self.state {
            SessionState::Closed => (self, Seq::empty()),
            SessionState::Connected => match e {
                Event::Start => (
                    SessionModel { state: SessionState::Handshaking, ..self },
                    seq![Effect::AddRoute(self.client_ip)],
                ),
                _ => (self.closed(Some(TunnelError::IoError)), seq![Effect::Release(self.client_ip)]),
            },
            SessionState::Handshaking => match e {
                Event::Start => (self, Seq::empty()),
                Event::Packet(_) => (self, Seq::empty()),
                Event::StreamFailed => self.end(Some(TunnelError::IoError)),
                Event::ChannelClosed => self.end(None),
                Event::Stream(b) => self.handshake(b),
            },
            SessionState::Relaying => match e {
                Event::Start => (self, Seq::empty()),
                Event::Stream(b) => if b.len() == 0 {
                    self.end(None)
                } else {
                    (self, seq![Effect::Forward(b)])
                },
                Event::StreamFailed => self.end(Some(TunnelError::IoError)),
                Event::Packet(p) => (self, seq![Effect::SendStream(p)]),
                Event::ChannelClosed => self.end(None),
            },
        }
    }

    /// How much of the stream the session wants read next.
    pub open spec fn wanted(self) -> ReadPlan {
        match self.state {
            SessionState::Handshaking => match self.pending {
                None => ReadPlan::Exact(HEADER_LEN),
                Some(h) => ReadPlan::Exact(h.len as usize),
            },
            SessionState::Relaying => ReadPlan::UpTo(RELAY_BUF_LEN),
            _ => ReadPlan::Nothing,
        }
    }
}

/// Where a session is, and all that it asked for, after it was told
/// `events` one after the other.
pub open spec fn run(m: SessionModel, events: Seq<Event>) -> (SessionModel, Seq<Effect>)
    decreases events.len(),
{
    if events.len() == 0 {
        (m, Seq::empty())
    } else {
        let first = m.step(events[0]);
        let rest = run(first.0, events.skip(1));
        (rest.0, first.1 + rest.1)
    }
}

/// How many times a route is asked for.
pub open spec fn adds(a: Seq<Effect>) -> nat
    decreases a.len(),
{
    if a.len() == 0 {
        0
    } else {
        adds(a.drop_last()) + if a.last() is AddRoute {
            1nat
        } else {
            0nat
        }
    }
}

/// How many times a route is asked to be dropped.
pub open spec fn dels(a: Seq<Effect>) -> nat
    decreases a.len(),
{
    if a.len() == 0 {
        0
    } else {
        dels(a.drop_last()) + if a.last() is DelRoute {
            1nat
        } else {
            0nat
        }
    }
}

/// How many times an address is asked to be given back.
pub open spec fn releases(a: Seq<Effect>) -> nat
    decreases a.len(),
{
    if a.len() == 0 {
        0
    } else {
        releases(a.drop_last()) + if a.last() is Release {
            1nat
        } else {
            0nat
        }
    }
}

proof fn lemma_counts_concat(a: Seq<Effect>, b: Seq<Effect>)
    ensures
        adds(a + b) == adds(a) + adds(b),
        dels(a + b) == dels(a) + dels(b),
        releases(a + b) == releases(a) + releases(b),
    decreases b.len(),
{
    if b.len() == 0 {
        assert(a + b =~= a);
    } else {
        assert((a + b).drop_last() =~= a + b.drop_last());
        lemma_counts_concat(a, b.drop_last());
    }
}

proof fn lemma_counts_of_step(m: SessionModel, e: Event)
    ensures
        ({
            let s = m.step(e);
            &&& adds(s.1) == if m.state is Connected && s.0.state is Handshaking {
                1nat
            } else {
                0nat
            }
            &&& dels(s.1) == if m.registered() && s.0.state is Closed {
                1nat
            } else {
                0nat
            }
            &&& releases(s.1) == if !(m.state is Closed) && s.0.state is Closed {
                1nat
            } else {
                0nat
            }
            &&& m.registered() ==> !(s.0.state is Connected)
            &&& m.registered() && s.0.state is Closed ==> s.1 == m.cleanup()
            &&& s.0.client_ip == m.client_ip
        }),
{
    let s = m.step(e);
    let a = s.1;
    reveal_with_fuel(adds, 3);
    reveal_with_fuel(dels, 3);
    reveal_with_fuel(releases, 3);
    if a.len() == 1 {
        assert(a.drop_last() =~= Seq::<Effect>::empty());
    } else if a.len() == 2 {
        assert(a.drop_last().drop_last() =~= Seq::<Effect>::empty());
        assert(a.drop_last().last() == a[0]);
    }
}

/// An ended session stays ended and asks for nothing, whatever it is told.
pub proof fn lemma_closed_is_final(m: SessionModel, events: Seq<Event>)
    requires
        m.state is Closed,
    ensures
        run(m, events) == (m, Seq::<Effect>::empty()),
    decreases events.len(),
{
    if events.len() > 0 {
        lemma_closed_is_final(m, events.skip(1));
        assert(Seq::<Effect>::empty() + Seq::<Effect>::empty() =~= Seq::<Effect>::empty());
    }
}

/// The cleanup of a session that the router has a route to runs exactly
/// once. Whatever such a session is told, and in whatever order: if it has
/// ended, it has asked exactly once for its route to be dropped and exactly
/// once for its address to be given back, these were the last two things it
/// asked for, in this order, and both name its own address. If it has not
/// ended, it has asked for neither. It never asks for a second route.
pub proof fn lemma_cleanup_exactly_once(m: SessionModel, events: Seq<Event>)
    requires
        m.registered(),
    ensures
        ({
            let r = run(m, events);
            let n = r.1.len() as int;
            &&& adds(r.1) == 0
            &&& !(r.0.state is Connected)
            &&& r.0.state is Closed ==> {
                &&& dels(r.1) == 1
                &&& releases(r.1) == 1
                &&& n >= 2
                &&& r.1[n - 2] == Effect::DelRoute(m.client_ip)
                &&& r.1[n - 1] == Effect::Release(m.client_ip)
            }
            &&& !(r.0.state is Closed) ==> dels(r.1) == 0 && releases(r.1) == 0
        }),
    decreases events.len(),
{
    if events.len() > 0 {
        let first = m.step(events[0]);
        let rest = run(first.0, events.skip(1));
        lemma_counts_of_step(m, events[0]);
        lemma_counts_concat(first.1, rest.1);
        if first.0.state is Closed {
            lemma_closed_is_final(first.0, events.skip(1));
            assert(first.1 + rest.1 =~= first.1);
        } else {
            lemma_cleanup_exactly_once(first.0, events.skip(1));
        }
    }
}

/// A session asks for its address to be given back exactly once if it has
/// ended and not at all if it has not, and once it has ended it has asked
/// for its route to be dropped as often as it had asked for the route:
/// once if it was started, never if it was not.
pub proof fn lemma_fresh_session_accounts(m: SessionModel, events: Seq<Event>)
    requires
        m.state is Connected,
    ensures
        ({
            let r = run(m, events);
            &&& adds(r.1) <= 1
            &&& releases(r.1) == if r.0.state is Closed {
                1nat
            } else {
                0nat
            }
            &&& r.0.state is Closed ==> dels(r.1) == adds(r.1)
            &&& r.0.registered() ==> adds(r.1) == 1 && dels(r.1) == 0
            &&& r.0.state is Connected ==> r.1.len() == 0
        }),
    decreases events.len(),
{
    if events.len() > 0 {
        let first = m.step(events[0]);
        let rest = run(first.0, events.skip(1));
        lemma_counts_of_step(m, events[0]);
        lemma_counts_concat(first.1, rest.1);
        if first.0.state is Closed {
            lemma_closed_is_final(first.0, events.skip(1));
        } else {
            lemma_cleanup_exactly_once(first.0, events.skip(1));
        }
    }
}

/// The four inputs of a handshake in good order, each as the stream
/// yields it: the CONFIG header and magic, the CONNECT header and magic.
pub open spec fn good_handshake() -> Seq<Event> {
    seq![
        Event::Stream(CONFIG_BUF@.take(3)),
        Event::Stream(CONFIG_BUF@.skip(3)),
        Event::Stream(CONNECT_BUF@.take(3)),
        Event::Stream(CONNECT_BUF@.skip(3)),
    ]
}

/// A handshake in good order is answered with the client's configuration
/// and then with the CONNECT echo, and leads to the relay. The
/// configuration names the address that the session was leased and the
/// routes that it was built with.
pub proof fn lemma_handshake_in_good_order(m: SessionModel)
    requires
        m.state is Handshaking,
        m.pending is None,
        config_reply(m.client_ip, m.routes) is Ok,
    ensures
        run(m, good_handshake()).0.state is Relaying,
        run(m, good_handshake()).1 == seq![
            Effect::SendStream(config_reply(m.client_ip, m.routes)->Ok_0),
            Effect::SendStream(CONNECT_BUF@),
        ],
{
    let es = good_handshake();
    let e1 = es.skip(1);
    let e2 = e1.skip(1);
    let e3 = e2.skip(1);
    let e4 = e3.skip(1);
    let s1 = m.step(es[0]);
    let s2 = s1.0.step(e1[0]);
    let s3 = s2.0.step(e2[0]);
    let s4 = s3.0.step(e3[0]);
    assert(e4.len() == 0);
    assert(run(s4.0, e4) == (s4.0, Seq::<Effect>::empty()));
    assert(run(s3.0, e3) == (s4.0, s4.1 + Seq::<Effect>::empty()));
    assert(run(s2.0, e2).1 == s3.1 + run(s3.0, e3).1);
    assert(run(s1.0, e1).1 == s2.1 + run(s2.0, e2).1);
    assert(run(m, es).1 == s1.1 + run(s1.0, e1).1);
    assert(run(m, es).1 =~= seq![
        Effect::SendStream(config_reply(m.client_ip, m.routes)->Ok_0),
        Effect::SendStream(CONNECT_BUF@),
    ]);
}

/// A frame whose payload is not the magic of its action ends the session
/// at once: nothing is written to the stream, the cleanup runs, and the
/// relay is never reached, whatever the session is told afterwards.
pub proof fn lemma_bad_magic_ends_session(
    m: SessionModel,
    h: FrameHeader,
    payload: Seq<u8>,
    later: Seq<Event>,
)
    requires
        m.state is Handshaking,
        m.pending == Some(h),
        payload.len() == h.len,
        payload_check(h.action, payload) is Err,
    ensures
        m.step(Event::Stream(payload)).1 == m.cleanup(),
        m.step(Event::Stream(payload)).0.error == Some(
            TunnelError::ProtocolError(payload_check(h.action, payload)->Err_0),
        ),
        run(m, seq![Event::Stream(payload)] + later).0.state is Closed,
        run(m, seq![Event::Stream(payload)] + later).1 == m.cleanup(),
{
    let es = seq![Event::Stream(payload)] + later;
    let first = m.step(es[0]);
    assert(es.skip(1) =~= later);
    lemma_closed_is_final(first.0, later);
    assert(first.1 + Seq::<Effect>::empty() =~= first.1);
}

/// The part of a session that decides: who the peer is, which address it
/// was leased, and where in its life the session is.
pub struct SessionInner {
    name: String,
    client_ip: String,
    server_ip: String,
    routes: Vec<String>,
    state: SessionState,
    pending: Option<FrameHeader>,
    error: Option<TunnelError>,
}

impl View for SessionInner {
    type V = SessionModel;

    closed spec fn view(&self) -> SessionModel {
        SessionModel {
            state: self.state,
            pending: self.pending,
            client_ip: self.client_ip@,
            routes: strings_view(self.routes@),
            error: self.error,
        }
    }
}

impl SessionInner {
    /// The peer's identity.
    pub closed spec fn name_view(&self) -> Seq<char> {
        self.name@
    }

    /// The address of the server's end of the tunnel.
    pub closed spec fn server_ip_view(&self) -> Seq<char> {
        self.server_ip@
    }

    /// The decisions of a session for a peer that was leased an address.
    pub fn new(name: String, client_ip: String, server_ip: String, routes: Vec<String>) -> (r:
        SessionInner)
        ensures
            r@ == SessionModel::fresh(client_ip@, strings_view(routes@)),
            r.name_view() == name@,
            r.server_ip_view() == server_ip@,
    {
        SessionInner {
            name,
            client_ip,
            server_ip,
            routes,
            state: SessionState::Connected,
            pending: None,
            error: None,
        }
    }

    fn finish(&mut self, error: Option<TunnelError>) -> (out: Vec<SessionAction>)
        ensures
            final(self)@ == old(self)@.closed(error),
            effects(out@) == old(self)@.cleanup(),
            final(self).name_view() == old(self).name_view(),
            final(self).server_ip_view() == old(self).server_ip_view(),
    {
        self.state = SessionState::Closed;
        self.pending = None;
        self.error = error;
        let mut out: Vec<SessionAction> = Vec::new();
        out.push(SessionAction::DelRoute(self.client_ip.clone()));
        out.push(SessionAction::Release(self.client_ip.clone()));
        assert(effects(out@) =~= old(self)@.cleanup());
        out
    }

    /// Builds the CONFIG reply for this session's client.
    pub fn server_config(&self) -> (r: Result<Vec<u8>, TunnelError>)
        ensures
            match config_reply(self@.client_ip, self@.routes) {
                Ok(frame) => r is Ok && r->Ok_0@ == frame,
                Err(e) => r is Err && r->Err_0 == e,
            },
    {
        server_config(self.client_ip.as_str(), &self.routes)
    }

    /// Takes the next bytes of the handshake: a frame's header, or the
    /// payload that the last header announced.
    fn handle_params(&mut self, bytes: &[u8]) -> (out: Vec<SessionAction>)
        requires
            old(self)@.state is Handshaking,
        ensures
            (final(self)@, effects(out@)) == old(self)@.handshake(bytes@),
            final(self).name_view() == old(self).name_view(),
            final(self).server_ip_view() == old(self).server_ip_view(),
    {
        match self.pending {
            None => match decode_header(bytes) {
                Ok(h) => {
                    self.pending = Some(h);
                    let out: Vec<SessionAction> = Vec::new();
                    assert(effects(out@) =~= Seq::<Effect>::empty());
                    out
                },
                Err(e) => self.finish(Some(e)),
            },
            Some(h) => {
                if bytes.len() != h.len as usize {
                    return self.finish(Some(TunnelError::IoError));
                }
                match check_payload(h.action, bytes) {
                    Err(f) => self.finish(Some(TunnelError::ProtocolError(f))),
                    Ok(_) => match h.action {
                        Action::Config => match self.server_config() {
                            Ok(frame) => {
                                self.pending = None;
                                let mut out: Vec<SessionAction> = Vec::new();
                                out.push(SessionAction::SendStream(frame));
                                assert(effects(out@) =~= seq![Effect::SendStream(frame@)]);
                                out
                            },
                            Err(e) => self.finish(Some(e)),
                        },
                        Action::Connect => {
                            self.state = SessionState::Relaying;
                            self.pending = None;
                            let mut echo: Vec<u8> = Vec::new();
                            echo.extend_from_slice(CONNECT_BUF.as_slice());
                            assert(echo@ =~= CONNECT_BUF@);
                            let mut out: Vec<SessionAction> = Vec::new();
                            out.push(SessionAction::SendStream(echo));
                            assert(effects(out@) =~= seq![Effect::SendStream(CONNECT_BUF@)]);
                            out
                        },
                    },
                }
            },
        }
    }

    /// Takes what became ready during the relay.
    fn main_loop(&mut self, ev: LoopEvent) -> (out: Vec<SessionAction>)
        requires
            old(self)@.state is Relaying,
        ensures
            (final(self)@, effects(out@)) == old(self)@.step(relay_event(ev)),
            final(self).name_view() == old(self).name_view(),
            final(self).server_ip_view() == old(self).server_ip_view(),
    {
        match main_loop(ev) {
            LoopStep::Deliver(bytes) => {
                let mut out: Vec<SessionAction> = Vec::new();
                out.push(SessionAction::Forward(bytes));
                assert(effects(out@) =~= seq![Effect::Forward(bytes@)]);
                out
            },
            LoopStep::Write(pkt) => {
                let mut out: Vec<SessionAction> = Vec::new();
                out.push(SessionAction::SendStream(pkt));
                assert(effects(out@) =~= seq![Effect::SendStream(pkt@)]);
                out
            },
            LoopStep::Stop(LoopEnd::StreamFailed) => self.finish(Some(TunnelError::IoError)),
            LoopStep::Stop(_) => self.finish(None),
        }
    }

    /// Tells the session what happened, and returns what it asks for, in
    /// the order in which it is to be done.
    pub fn step(&mut self, ev: SessionEvent) -> (out: Vec<SessionAction>)
        ensures
            (final(self)@, effects(out@)) == old(self)@.step(ev@),
            final(self).name_view() == old(self).name_view(),
            final(self).server_ip_view() == old(self).server_ip_view(),
    {
        match self.state {
            SessionState::Closed => {
                let out: Vec<SessionAction> = Vec::new();
                assert(effects(out@) =~= Seq::<Effect>::empty());
                out
            },
            SessionState::Connected => match ev {
                SessionEvent::Start => {
                    self.state = SessionState::Handshaking;
                    let mut out: Vec<SessionAction> = Vec::new();
                    out.push(SessionAction::AddRoute(self.client_ip.clone()));
                    assert(effects(out@) =~= seq![Effect::AddRoute(self.client_ip@)]);
                    out
                },
                _ => {
                    self.state = SessionState::Closed;
                    self.pending = None;
                    self.error = Some(TunnelError::IoError);
                    let mut out: Vec<SessionAction> = Vec::new();
                    out.push(SessionAction::Release(self.client_ip.clone()));
                    assert(effects(out@) =~= seq![Effect::Release(self.client_ip@)]);
                    out
                },
            },
            SessionState::Handshaking => match ev {
                SessionEvent::Start | SessionEvent::Packet(_) => {
                    let out: Vec<SessionAction> = Vec::new();
                    assert(effects(out@) =~= Seq::<Effect>::empty());
                    out
                },
                SessionEvent::StreamFailed => self.finish(Some(TunnelError::IoError)),
                SessionEvent::ChannelClosed => self.finish(None),
                SessionEvent::Stream(bytes) => self.handle_params(bytes.as_slice()),
            },
            SessionState::Relaying => match ev {
                SessionEvent::Start => {
                    let out: Vec<SessionAction> = Vec::new();
                    assert(effects(out@) =~= Seq::<Effect>::empty());
                    out
                },
                SessionEvent::Stream(bytes) => self.main_loop(LoopEvent::StreamRead(bytes)),
                SessionEvent::StreamFailed => self.main_loop(LoopEvent::StreamFailed),
                SessionEvent::Packet(pkt) => self.main_loop(LoopEvent::Item(pkt)),
                SessionEvent::ChannelClosed => self.main_loop(LoopEvent::SourceClosed),
            },
        }
    }

    /// Begins the session: asks for the route to the session's channel.
    pub fn start(&mut self) -> (out: Vec<SessionAction>)
        ensures
            (final(self)@, effects(out@)) == old(self)@.step(Event::Start),
            final(self).name_view() == old(self).name_view(),
            final(self).server_ip_view() == old(self).server_ip_view(),
    {
        self.step(SessionEvent::Start)
    }

    /// How much of the stream to read next.
    pub fn wanted(&self) -> (r: ReadPlan)
        ensures
            r == self@.wanted(),
    {
        match self.state {
            SessionState::Handshaking => match self.pending {
                None => ReadPlan::Exact(HEADER_LEN),
                Some(h) => ReadPlan::Exact(h.len as usize),
            },
            SessionState::Relaying => ReadPlan::UpTo(RELAY_BUF_LEN),
            _ => ReadPlan::Nothing,
        }
    }

    pub fn state(&self) -> (r: SessionState)
        ensures
            r == self@.state,
    {
        self.state
    }

    /// Why the session ended, if it ended on an error.
    pub fn error(&self) -> (r: Option<TunnelError>)
        ensures
            r == self@.error,
    {
        self.error
    }

    pub fn name(&self) -> (r: &str)
        ensures
            r@ == self.name_view(),
    {
        self.name.as_str()
    }

    pub fn client_ip(&self) -> (r: &str)
        ensures
            r@ == self@.client_ip,
    {
        self.client_ip.as_str()
    }

    pub fn server_ip(&self) -> (r: &str)
        ensures
            r@ == self.server_ip_view(),
    {
        self.server_ip.as_str()
    }
}

/// What the session is told when this became ready during the relay.
pub open spec fn relay_event(ev: LoopEvent) -> Event {
    match ev {
        LoopEvent::StreamRead(bytes) => Event::Stream(bytes@),
        LoopEvent::StreamFailed => Event::StreamFailed,
        LoopEvent::Item(pkt) => Event::Packet(pkt@),
        LoopEvent::SourceClosed => Event::ChannelClosed,
    }
}

/// A session ready to run: its decisions, the authenticated stream of its
/// peer, and the handle by which it reaches the router.
pub struct Session<S, R> {
    inner: SessionInner,
    stream: S,
    router: R,
}

impl<S, R> Session<S, R> {
    pub closed spec fn inner(&self) -> SessionInner {
        self.inner
    }

    pub closed spec fn stream(&self) -> S {
        self.stream
    }

    pub closed spec fn router(&self) -> R {
        self.router
    }

    /// Begins the session. The decisions, the stream and the router's
    /// handle go to the task that runs it, with the first thing to do: to
    /// ask the router for the route.
    pub fn start(self) -> (r: (SessionInner, S, R, Vec<SessionAction>))
        ensures
            (r.0@, effects(r.3@)) == self.inner()@.step(Event::Start),
            r.0.name_view() == self.inner().name_view(),
            r.0.server_ip_view() == self.inner().server_ip_view(),
            r.1 == self.stream(),
            r.2 == self.router(),
    {
        let mut inner = self.inner;
        let first = inner.start();
        (inner, self.stream, self.router, first)
    }
}

/// Collects what a session is made of. All of it but the routes is
/// mandatory.
pub struct SessionBuilder<S, R> {
    name: Option<String>,
    server_ip: Option<String>,
    stream: Option<S>,
    router: Option<R>,
    routes: Vec<String>,
}

impl<S, R> Default for SessionBuilder<S, R> {
    fn default() -> (r: Self)
        ensures
            r.name_view() is None,
            r.server_ip_view() is None,
            r.stream_view() is None,
            r.router_view() is None,
            r.routes_view() == Seq::<Seq<char>>::empty(),
    {
        let r = SessionBuilder {
            name: None,
            server_ip: None,
            stream: None,
            router: None,
            routes: Vec::new(),
        };
        assert(r.routes_view() =~= Seq::<Seq<char>>::empty());
        r
    }
}

impl<S, R> SessionBuilder<S, R> {
    pub closed spec fn name_view(&self) -> Option<Seq<char>> {
        match self.name {
            Some(n) => Some(n@),
            None => None,
        }
    }

    pub closed spec fn server_ip_view(&self) -> Option<Seq<char>> {
        match self.server_ip {
            Some(n) => Some(n@),
            None => None,
        }
    }

    pub closed spec fn stream_view(&self) -> Option<S> {
        self.stream
    }

    pub closed spec fn router_view(&self) -> Option<R> {
        self.router
    }

    pub closed spec fn routes_view(&self) -> Seq<Seq<char>> {
        strings_view(self.routes@)
    }

    /// What is missing from the builder, if anything is, in the order in
    /// which `build` looks for it.
    pub open spec fn missing(&self) -> Option<TunnelError> {
        if self.name_view() is None {
            Some(TunnelError::PeerIdentityMissing)
        } else if self.server_ip_view() is None {
            Some(TunnelError::Incomplete(MissingField::ServerAddress))
        } else if self.stream_view() is None {
            Some(TunnelError::Incomplete(MissingField::Stream))
        } else if self.router_view() is None {
            Some(TunnelError::Incomplete(MissingField::Router))
        } else {
            None
        }
    }

    /// A builder with nothing set.
    pub fn new() -> (r: Self)
        ensures
            r.name_view() is None,
            r.server_ip_view() is None,
            r.stream_view() is None,
            r.router_view() is None,
            r.routes_view() == Seq::<Seq<char>>::empty(),
    {
        let r = SessionBuilder {
            name: None,
            server_ip: None,
            stream: None,
            router: None,
            routes: Vec::new(),
        };
        assert(r.routes_view() =~= Seq::<Seq<char>>::empty());
        r
    }

    /// Sets the peer's identity.
    pub fn name(self, name: &str) -> (r: Self)
        ensures
            r.name_view() == Some(name@),
            r.server_ip_view() == self.server_ip_view(),
            r.stream_view() == self.stream_view(),
            r.router_view() == self.router_view(),
            r.routes_view() == self.routes_view(),
    {
        SessionBuilder { name: Some(String::from_str(name)), ..self }
    }

    /// Sets the address of the server's end of the tunnel.
    pub fn server_ip(self, ip: &str) -> (r: Self)
        ensures
            r.name_view() == self.name_view(),
            r.server_ip_view() == Some(ip@),
            r.stream_view() == self.stream_view(),
            r.router_view() == self.router_view(),
            r.routes_view() == self.routes_view(),
    {
        SessionBuilder { server_ip: Some(String::from_str(ip)), ..self }
    }

    /// Sets the peer's authenticated stream.
    pub fn stream(self, stream: S) -> (r: Self)
        ensures
            r.name_view() == self.name_view(),
            r.server_ip_view() == self.server_ip_view(),
            r.stream_view() == Some(stream),
            r.router_view() == self.router_view(),
            r.routes_view() == self.routes_view(),
    {
        SessionBuilder { stream: Some(stream), ..self }
    }

    /// Sets the handle by which the session reaches the router.
    pub fn router(self, router: R) -> (r: Self)
        ensures
            r.name_view() == self.name_view(),
            r.server_ip_view() == self.server_ip_view(),
            r.stream_view() == self.stream_view(),
            r.router_view() == Some(router),
            r.routes_view() == self.routes_view(),
    {
        SessionBuilder { router: Some(router), ..self }
    }

    /// Sets the networks that the client is told to route into the tunnel.
    pub fn routes(self, routes: Vec<String>) -> (r: Self)
        ensures
            r.name_view() == self.name_view(),
            r.server_ip_view() == self.server_ip_view(),
            r.stream_view() == self.stream_view(),
            r.router_view() == self.router_view(),
            r.routes_view() == strings_view(routes@),
    {
        SessionBuilder { routes, ..self }
    }

    /// Builds the session and leases its address. A builder that lacks a
    /// mandatory part, or a pool without an address, gives an error, and
    /// then the pool is as it was: an address is leased only for a session
    /// that is really built.
    pub fn build(self, pool: &mut IpPool) -> (r: Result<Session<S, R>, TunnelError>)
        ensures
            final(pool).name_view() == old(pool).name_view(),
            match self.missing() {
                Some(e) => r is Err && r->Err_0 == e && final(pool)@ == old(pool)@,
                None => match old(pool)@.allocated() {
                    None => r is Err && r->Err_0 == TunnelError::PoolExhausted && final(pool)@
                        == old(pool)@,
                    Some(ip) => {
                        &&& r is Ok
                        &&& final(pool)@ == old(pool)@.after_allocate()
                        &&& r->Ok_0.inner()@ == SessionModel::fresh(ip, self.routes_view())
                        &&& Some(r->Ok_0.inner().name_view()) == self.name_view()
                        &&& Some(r->Ok_0.inner().server_ip_view()) == self.server_ip_view()
                        &&& Some(r->Ok_0.stream()) == self.stream_view()
                        &&& Some(r->Ok_0.router()) == self.router_view()
                    },
                },
            },
    {
        let name = match self.name {
            Some(n) => n,
            None => {
                return Err(TunnelError::PeerIdentityMissing);
            },
        };
        let server_ip = match self.server_ip {
            Some(ip) => ip,
            None => {
                return Err(TunnelError::Incomplete(MissingField::ServerAddress));
            },
        };
        let stream = match self.stream {
            Some(s) => s,
            None => {
                return Err(TunnelError::Incomplete(MissingField::Stream));
            },
        };
        let router = match self.router {
            Some(r) => r,
            None => {
                return Err(TunnelError::Incomplete(MissingField::Router));
            },
        };
        let client_ip = match pool.get_ip() {
            Ok(ip) => ip,
            Err(e) => {
                return Err(e);
            },
        };
        let inner = SessionInner::new(name, client_ip, server_ip, self.routes);
        Ok(Session { inner, stream, router })
    }
}

} // verus!
