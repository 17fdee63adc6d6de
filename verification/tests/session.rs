use tlstun::codec::{CONFIG_BUF, CONNECT_BUF};
use tlstun::error::{ConfigFault, MissingField, ProtocolFault, TunnelError};
use tlstun::forward::{main_loop, LoopEnd, LoopEvent, LoopStep, CHANNEL_CAPACITY, RELAY_BUF_LEN};
use tlstun::pool::IpPool;
use tlstun::router::{RouteMsg, RouterAction, RouterInner, Routing};
use tlstun::session::{
    ReadPlan, Session, SessionAction, SessionBuilder, SessionEvent, SessionInner, SessionState,
};

fn inner(ip: &str, routes: &[&str]) -> SessionInner {
    SessionInner::new(
        "alice".to_string(),
        ip.to_string(),
        "173.75.2.1".to_string(),
        routes.iter().map(|r| r.to_string()).collect(),
    )
}

fn started(ip: &str) -> SessionInner {
    let mut s = inner(ip, &["10.1.0.0/16"]);
    assert_eq!(s.start(), vec![SessionAction::AddRoute(ip.to_string())]);
    s
}

fn relaying(ip: &str) -> SessionInner {
    let mut s = started(ip);
    s.step(SessionEvent::Stream(CONFIG_BUF[..3].to_vec()));
    s.step(SessionEvent::Stream(CONFIG_BUF[3..].to_vec()));
    s.step(SessionEvent::Stream(CONNECT_BUF[..3].to_vec()));
    s.step(SessionEvent::Stream(CONNECT_BUF[3..].to_vec()));
    assert_eq!(s.state(), SessionState::Relaying);
    s
}

fn cleanup(ip: &str) -> Vec<SessionAction> {
    vec![SessionAction::DelRoute(ip.to_string()), SessionAction::Release(ip.to_string())]
}

fn count_cleanup(all: &[SessionAction]) -> (usize, usize) {
    let dels = all.iter().filter(|a| matches!(a, SessionAction::DelRoute(_))).count();
    let rels = all.iter().filter(|a| matches!(a, SessionAction::Release(_))).count();
    (dels, rels)
}

fn builder() -> SessionBuilder<&'static str, u32> {
    SessionBuilder::new().name("alice").server_ip("173.75.2.1").stream("stream").router(7)
}

#[test]
fn builder_builds_a_session_around_a_leased_address() {
    let mut pool = IpPool::new("clients", "10.0.0.0/29").unwrap();
    let session = builder().routes(vec!["10.1.0.0/16".to_string()]).build(&mut pool).unwrap();
    assert_eq!(pool.available(), 5);
    let (inner, stream, router, first) = session.start();
    assert_eq!(stream, "stream");
    assert_eq!(router, 7);
    assert_eq!(inner.name(), "alice");
    assert_eq!(inner.client_ip(), "10.0.0.1");
    assert_eq!(inner.server_ip(), "173.75.2.1");
    assert_eq!(inner.state(), SessionState::Handshaking);
    assert_eq!(first, vec![SessionAction::AddRoute("10.0.0.1".to_string())]);
}

#[test]
fn builder_without_name_reports_missing_identity() {
    let mut pool = IpPool::new("clients", "10.0.0.0/29").unwrap();
    let b: SessionBuilder<&str, u32> = SessionBuilder::new().server_ip("173.75.2.1").stream("s").router(7);
    assert_eq!(b.build(&mut pool).err(), Some(TunnelError::PeerIdentityMissing));
    assert_eq!(pool.available(), 6);
}

#[test]
fn builder_reports_each_missing_part() {
    let mut pool = IpPool::new("clients", "10.0.0.0/29").unwrap();
    let b: SessionBuilder<&str, u32> = SessionBuilder::new().name("alice").stream("s").router(7);
    assert_eq!(b.build(&mut pool).err(), Some(TunnelError::Incomplete(MissingField::ServerAddress)));
    let b: SessionBuilder<&str, u32> = SessionBuilder::new().name("alice").server_ip("1.1.1.1").router(7);
    assert_eq!(b.build(&mut pool).err(), Some(TunnelError::Incomplete(MissingField::Stream)));
    let b: SessionBuilder<&str, u32> = SessionBuilder::new().name("alice").server_ip("1.1.1.1").stream("s");
    assert_eq!(b.build(&mut pool).err(), Some(TunnelError::Incomplete(MissingField::Router)));
    let b: SessionBuilder<&str, u32> = SessionBuilder::new();
    assert_eq!(b.build(&mut pool).err(), Some(TunnelError::PeerIdentityMissing));
    assert_eq!(pool.available(), 6);
    assert_eq!(pool.get_ip().unwrap(), "10.0.0.1");
}

#[test]
fn builder_on_an_empty_pool_reports_exhaustion() {
    let mut pool = IpPool::new("clients", "10.0.0.0/30").unwrap();
    assert!(builder().build(&mut pool).is_ok());
    assert!(builder().build(&mut pool).is_ok());
    assert_eq!(builder().build(&mut pool).err(), Some(TunnelError::PoolExhausted));
    assert_eq!(pool.available(), 0);
}

#[test]
fn sessions_are_leased_different_addresses() {
    let mut pool = IpPool::new("clients", "10.0.0.0/29").unwrap();
    let a = builder().build(&mut pool).unwrap().start().0;
    let b = builder().build(&mut pool).unwrap().start().0;
    assert_eq!(a.client_ip(), "10.0.0.1");
    assert_eq!(b.client_ip(), "10.0.0.2");
}

#[test]
fn start_asks_for_the_route() {
    let mut s = inner("10.0.0.5", &[]);
    assert_eq!(s.state(), SessionState::Connected);
    assert_eq!(s.wanted(), ReadPlan::Nothing);
    assert_eq!(s.start(), vec![SessionAction::AddRoute("10.0.0.5".to_string())]);
    assert_eq!(s.state(), SessionState::Handshaking);
    assert_eq!(s.wanted(), ReadPlan::Exact(3));
    assert_eq!(s.start(), vec![]);
    assert_eq!(s.state(), SessionState::Handshaking);
}

#[test]
fn handshake_in_good_order_reaches_the_relay() {
    let mut s = inner("10.0.0.5", &["10.1.0.0/16", "10.2.0.0/16"]);
    s.start();
    assert_eq!(s.step(SessionEvent::Stream(vec![1, 0, 4])), vec![]);
    assert_eq!(s.wanted(), ReadPlan::Exact(4));
    let reply = s.step(SessionEvent::Stream(vec![0x53, 0x43, 0x52, 0x41]));
    let json = br#"{"ip":"10.0.0.5","routes":["10.1.0.0/16","10.2.0.0/16"]}"#;
    let mut frame = vec![1, 0, json.len() as u8];
    frame.extend_from_slice(json);
    assert_eq!(reply, vec![SessionAction::SendStream(frame)]);
    assert_eq!(s.state(), SessionState::Handshaking);
    assert_eq!(s.wanted(), ReadPlan::Exact(3));
    assert_eq!(s.step(SessionEvent::Stream(vec![2, 0, 4])), vec![]);
    assert_eq!(s.wanted(), ReadPlan::Exact(4));
    let echo = s.step(SessionEvent::Stream(vec![0x53, 0x43, 0x4E, 0x43]));
    assert_eq!(echo, vec![SessionAction::SendStream(CONNECT_BUF.to_vec())]);
    assert_eq!(s.state(), SessionState::Relaying);
    assert_eq!(s.wanted(), ReadPlan::UpTo(1600));
    assert_eq!(s.error(), None);
}

#[test]
fn config_reply_names_the_leased_address() {
    let mut pool = IpPool::new("clients", "10.0.0.4/30").unwrap();
    pool.get_ip().unwrap();
    let session = builder().routes(vec!["172.16.0.0/12".to_string()]).build(&mut pool).unwrap();
    let (mut s, _, _, _) = session.start();
    s.step(SessionEvent::Stream(CONFIG_BUF[..3].to_vec()));
    let reply = s.step(SessionEvent::Stream(CONFIG_BUF[3..].to_vec()));
    let bytes = match &reply[0] {
        SessionAction::SendStream(b) => b.clone(),
        other => panic!("{:?}", other),
    };
    assert_eq!(&bytes[3..], &br#"{"ip":"10.0.0.6","routes":["172.16.0.0/12"]}"#[..]);
    let server = s.server_config().unwrap();
    assert_eq!(server, bytes);
}

#[test]
fn config_may_be_asked_for_again() {
    let mut s = started("10.0.0.5");
    for _ in 0..3 {
        assert_eq!(s.step(SessionEvent::Stream(CONFIG_BUF[..3].to_vec())), vec![]);
        let reply = s.step(SessionEvent::Stream(CONFIG_BUF[3..].to_vec()));
        assert_eq!(reply.len(), 1);
        assert_eq!(s.state(), SessionState::Handshaking);
    }
}

#[test]
fn wrong_config_magic_fails_the_session() {
    let mut s = started("10.0.0.5");
    s.step(SessionEvent::Stream(vec![1, 0, 4]));
    let out = s.step(SessionEvent::Stream(vec![0x53, 0x43, 0x52, 0x42]));
    assert_eq!(out, cleanup("10.0.0.5"));
    assert_eq!(s.state(), SessionState::Closed);
    assert_eq!(s.error(), Some(TunnelError::ProtocolError(ProtocolFault::BadConfigMagic)));
    assert_eq!(s.wanted(), ReadPlan::Nothing);
    assert_eq!(s.step(SessionEvent::Stream(CONNECT_BUF[..3].to_vec())), vec![]);
    assert_eq!(s.step(SessionEvent::Stream(CONNECT_BUF[3..].to_vec())), vec![]);
    assert_eq!(s.state(), SessionState::Closed);
}

#[test]
fn wrong_connect_magic_fails_the_session() {
    let mut s = started("10.0.0.5");
    s.step(SessionEvent::Stream(CONFIG_BUF[..3].to_vec()));
    s.step(SessionEvent::Stream(CONFIG_BUF[3..].to_vec()));
    s.step(SessionEvent::Stream(vec![2, 0, 4]));
    let out = s.step(SessionEvent::Stream(CONFIG_BUF[3..].to_vec()));
    assert_eq!(out, cleanup("10.0.0.5"));
    assert_eq!(s.state(), SessionState::Closed);
    assert_eq!(s.error(), Some(TunnelError::ProtocolError(ProtocolFault::BadConnectMagic)));
}

#[test]
fn unknown_action_fails_the_session() {
    let mut s = started("10.0.0.5");
    let out = s.step(SessionEvent::Stream(vec![3, 0, 4]));
    assert_eq!(out, cleanup("10.0.0.5"));
    assert_eq!(s.state(), SessionState::Closed);
    assert_eq!(s.error(), Some(TunnelError::ProtocolError(ProtocolFault::UnknownAction(3))));
}

#[test]
fn stream_closing_during_handshake_is_an_io_error() {
    let mut s = started("10.0.0.5");
    assert_eq!(s.step(SessionEvent::Stream(vec![])), cleanup("10.0.0.5"));
    assert_eq!(s.error(), Some(TunnelError::IoError));
    let mut s = started("10.0.0.6");
    s.step(SessionEvent::Stream(vec![1, 0, 4]));
    assert_eq!(s.step(SessionEvent::Stream(vec![0x53, 0x43])), cleanup("10.0.0.6"));
    assert_eq!(s.error(), Some(TunnelError::IoError));
    let mut s = started("10.0.0.7");
    assert_eq!(s.step(SessionEvent::StreamFailed), cleanup("10.0.0.7"));
    assert_eq!(s.error(), Some(TunnelError::IoError));
    assert_eq!(s.state(), SessionState::Closed);
}

#[test]
fn payload_length_other_than_four_is_a_bad_magic() {
    let mut s = started("10.0.0.5");
    s.step(SessionEvent::Stream(vec![1, 0, 5]));
    assert_eq!(s.wanted(), ReadPlan::Exact(5));
    assert_eq!(s.step(SessionEvent::Stream(vec![0x53, 0x43, 0x52, 0x41, 0])), cleanup("10.0.0.5"));
    assert_eq!(s.error(), Some(TunnelError::ProtocolError(ProtocolFault::BadConfigMagic)));
}

#[test]
fn configuration_too_long_for_a_frame_fails_the_session() {
    let routes: Vec<String> = (0..6000).map(|i| format!("10.{}.{}.0/24", i / 256, i % 256)).collect();
    let mut s = SessionInner::new("alice".to_string(), "10.0.0.5".to_string(), "1.1.1.1".to_string(), routes);
    s.start();
    s.step(SessionEvent::Stream(CONFIG_BUF[..3].to_vec()));
    assert_eq!(s.step(SessionEvent::Stream(CONFIG_BUF[3..].to_vec())), cleanup("10.0.0.5"));
    assert_eq!(s.error(), Some(TunnelError::ConfigError(ConfigFault::TooLong)));
    assert_eq!(s.server_config(), Err(TunnelError::ConfigError(ConfigFault::TooLong)));
}

#[test]
fn packets_during_handshake_are_dropped() {
    let mut s = started("10.0.0.5");
    assert_eq!(s.step(SessionEvent::Packet(vec![1, 2, 3])), vec![]);
    assert_eq!(s.state(), SessionState::Handshaking);
    assert_eq!(s.wanted(), ReadPlan::Exact(3));
}

#[test]
fn relay_forwards_stream_bytes_and_writes_packets() {
    let mut s = relaying("10.0.0.5");
    assert_eq!(s.step(SessionEvent::Stream(vec![9, 8, 7])), vec![SessionAction::Forward(vec![9, 8, 7])]);
    assert_eq!(s.step(SessionEvent::Packet(vec![1, 2])), vec![SessionAction::SendStream(vec![1, 2])]);
    assert_eq!(s.step(SessionEvent::Packet(vec![])), vec![SessionAction::SendStream(vec![])]);
    assert_eq!(s.step(SessionEvent::Stream(vec![0])), vec![SessionAction::Forward(vec![0])]);
    assert_eq!(s.step(SessionEvent::Start), vec![]);
    assert_eq!(s.state(), SessionState::Relaying);
}

#[test]
fn relay_keeps_the_order_of_what_it_is_told() {
    let mut s = relaying("10.0.0.5");
    let mut out = Vec::new();
    for i in 1..=5u8 {
        out.extend(s.step(SessionEvent::Stream(vec![i; i as usize])));
        out.extend(s.step(SessionEvent::Packet(vec![100 + i])));
    }
    let expected: Vec<SessionAction> = (1..=5u8)
        .flat_map(|i| vec![SessionAction::Forward(vec![i; i as usize]), SessionAction::SendStream(vec![100 + i])])
        .collect();
    assert_eq!(out, expected);
}

#[test]
fn eof_runs_cleanup_exactly_once() {
    let mut s = relaying("10.0.0.5");
    let mut all = s.step(SessionEvent::Stream(vec![]));
    assert_eq!(all, cleanup("10.0.0.5"));
    assert_eq!(s.state(), SessionState::Closed);
    assert_eq!(s.error(), None);
    all.extend(s.step(SessionEvent::Stream(vec![])));
    all.extend(s.step(SessionEvent::StreamFailed));
    all.extend(s.step(SessionEvent::ChannelClosed));
    all.extend(s.step(SessionEvent::Packet(vec![1])));
    all.extend(s.step(SessionEvent::Start));
    assert_eq!(count_cleanup(&all), (1, 1));
    assert_eq!(all, cleanup("10.0.0.5"));
}

#[test]
fn stream_error_runs_cleanup_exactly_once() {
    let mut s = relaying("10.0.0.5");
    let mut all = s.step(SessionEvent::Stream(vec![1]));
    all.extend(s.step(SessionEvent::StreamFailed));
    assert_eq!(s.error(), Some(TunnelError::IoError));
    all.extend(s.step(SessionEvent::ChannelClosed));
    all.extend(s.step(SessionEvent::Stream(vec![])));
    assert_eq!(count_cleanup(&all), (1, 1));
    assert_eq!(all[1..], cleanup("10.0.0.5")[..]);
}

#[test]
fn channel_closed_runs_cleanup_exactly_once() {
    let mut s = relaying("10.0.0.5");
    let mut all = s.step(SessionEvent::ChannelClosed);
    assert_eq!(s.state(), SessionState::Closed);
    assert_eq!(s.error(), None);
    all.extend(s.step(SessionEvent::StreamFailed));
    all.extend(s.step(SessionEvent::Stream(vec![])));
    assert_eq!(count_cleanup(&all), (1, 1));
    assert_eq!(all, cleanup("10.0.0.5"));
}

#[test]
fn cleanup_drops_the_route_before_it_releases_the_address() {
    let mut s = relaying("10.0.0.9");
    let out = s.step(SessionEvent::Stream(vec![]));
    assert_eq!(out[0], SessionAction::DelRoute("10.0.0.9".to_string()));
    assert_eq!(out[1], SessionAction::Release("10.0.0.9".to_string()));
    assert_eq!(out.len(), 2);
}

#[test]
fn session_that_never_started_only_releases_its_address() {
    let mut s = inner("10.0.0.5", &[]);
    let out = s.step(SessionEvent::StreamFailed);
    assert_eq!(out, vec![SessionAction::Release("10.0.0.5".to_string())]);
    assert_eq!(s.state(), SessionState::Closed);
    assert_eq!(s.step(SessionEvent::Start), vec![]);
    assert_eq!(s.state(), SessionState::Closed);
}

#[test]
fn every_trace_of_a_started_session_cleans_up_at_most_once() {
    let event = |i: usize| match i {
        0 => SessionEvent::Start,
        1 => SessionEvent::Stream(CONFIG_BUF[..3].to_vec()),
        2 => SessionEvent::Stream(CONFIG_BUF[3..].to_vec()),
        3 => SessionEvent::Stream(CONNECT_BUF[..3].to_vec()),
        4 => SessionEvent::Stream(CONNECT_BUF[3..].to_vec()),
        5 => SessionEvent::Stream(vec![]),
        6 => SessionEvent::Stream(vec![1, 2, 3]),
        7 => SessionEvent::StreamFailed,
        8 => SessionEvent::Packet(vec![4, 5]),
        _ => SessionEvent::ChannelClosed,
    };
    let n = 10;
    for a in 0..n {
        for b in 0..n {
            for c in 0..n {
                for d in 0..n {
                    let mut s = started("10.0.0.5");
                    let mut all = Vec::new();
                    for i in [a, b, c, d] {
                        all.extend(s.step(event(i)));
                    }
                    let (dels, rels) = count_cleanup(&all);
                    let adds = all.iter().filter(|x| matches!(x, SessionAction::AddRoute(_))).count();
                    assert_eq!(adds, 0);
                    if s.state() == SessionState::Closed {
                        assert_eq!((dels, rels), (1, 1));
                        assert_eq!(all[all.len() - 2..], cleanup("10.0.0.5")[..]);
                    } else {
                        assert_eq!((dels, rels), (0, 0));
                    }
                }
            }
        }
    }
}

#[test]
fn forwarding_loop_turns() {
    assert_eq!(main_loop(LoopEvent::StreamRead(vec![1, 2, 3])), LoopStep::Deliver(vec![1, 2, 3]));
    assert_eq!(main_loop(LoopEvent::StreamRead(vec![])), LoopStep::Stop(LoopEnd::PeerClosed));
    assert_eq!(main_loop(LoopEvent::StreamFailed), LoopStep::Stop(LoopEnd::StreamFailed));
    assert_eq!(main_loop(LoopEvent::Item(vec![7; 1600])), LoopStep::Write(vec![7; 1600]));
    assert_eq!(main_loop(LoopEvent::Item(vec![])), LoopStep::Write(vec![]));
    assert_eq!(main_loop(LoopEvent::SourceClosed), LoopStep::Stop(LoopEnd::SourceClosed));
    assert_eq!(RELAY_BUF_LEN, 1600);
    assert_eq!(CHANNEL_CAPACITY, 100);
}

fn ipv4_to(dst: [u8; 4], payload: &[u8]) -> Vec<u8> {
    let mut p = vec![0x45, 0, 0, (20 + payload.len()) as u8, 0, 0, 0, 0, 64, 17, 0, 0, 8, 8, 8, 8];
    p.extend_from_slice(&dst);
    p.extend_from_slice(payload);
    p
}

#[test]
fn end_to_end_between_interface_and_stream() {
    let (_device, mut router): (&str, RouterInner<usize>) = tlstun::router::Router::new("fake").start();
    let mut pool = IpPool::new("clients", "10.0.0.4/29").unwrap();
    for _ in 0..4 {
        pool.get_ip().unwrap();
    }
    let session: Session<&str, u32> = builder().build(&mut pool).unwrap();
    let (mut s, _stream, _handle, first) = session.start();
    assert_eq!(s.client_ip(), "10.0.0.5");
    let channel = 42usize;
    for action in first {
        match action {
            SessionAction::AddRoute(ip) => {
                assert!(matches!(router.handle(RouteMsg::AddRoute(ip, channel)), RouterAction::RouteAdded(_)));
            }
            other => panic!("{:?}", other),
        }
    }
    for part in [&CONFIG_BUF[..3], &CONFIG_BUF[3..], &CONNECT_BUF[..3], &CONNECT_BUF[3..]] {
        s.step(SessionEvent::Stream(part.to_vec()));
    }
    assert_eq!(s.state(), SessionState::Relaying);

    let inbound = ipv4_to([10, 0, 0, 5], b"to the client");
    let to = match router.routing(&inbound) {
        Routing::Forward(ch) => *ch,
        other => panic!("{:?}", other),
    };
    assert_eq!(to, channel);
    assert_eq!(
        s.step(SessionEvent::Packet(inbound.clone())),
        vec![SessionAction::SendStream(inbound)]
    );

    let outbound = ipv4_to([93, 184, 216, 34], b"from the client");
    let asked = s.step(SessionEvent::Stream(outbound.clone()));
    assert_eq!(asked, vec![SessionAction::Forward(outbound.clone())]);
    let written = match asked.into_iter().next().unwrap() {
        SessionAction::Forward(pkt) => router.handle(RouteMsg::Forwarding(pkt)),
        other => panic!("{:?}", other),
    };
    assert_eq!(written, RouterAction::WriteDevice(outbound));

    let before = pool.available();
    for action in s.step(SessionEvent::Stream(vec![])) {
        match action {
            SessionAction::DelRoute(ip) => {
                assert!(matches!(router.handle(RouteMsg::DelRoute(ip)), RouterAction::RouteRemoved(_)));
            }
            SessionAction::Release(ip) => pool.free_ip(&ip).unwrap(),
            other => panic!("{:?}", other),
        }
    }
    assert_eq!(pool.available(), before + 1);
    assert!(matches!(router.routing(&ipv4_to([10, 0, 0, 5], b"late")), Routing::NoRoute(_)));
}
