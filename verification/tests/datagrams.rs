//! Datagrams of a connection.
use realm_virt::vsock_proxy::conhandler::{ListenAddress, VsockCid};
use realm_virt::vsock_proxy::datagram_handler::{
    connection_accept_loop, AcceptAction, AcceptEvent, AcceptPhase, DatagramHandler,
    DatagramHandlerConfig,
};
use realm_virt::vsock_proxy::frame::DatagramHeader;
use realm_virt::vsock_proxy::hostname_cache::{HostnameCache, IpAddr};
use realm_virt::vsock_proxy::session::{
    DatagramSession, SessionAction, SessionError, SessionEvent, SocketAddr,
};

fn addr(n: u32) -> SocketAddr {
    SocketAddr { ip: IpAddr::V4(n), port: 53, flowinfo: 0, scope_id: 0 }
}

fn frame(payload: &[u8]) -> SessionEvent {
    let header = DatagramHeader {
        hostname: "dns".to_string(),
        port: 53,
        payload_len: payload.len() as u32,
    };
    SessionEvent::Frame(Some((header, payload.to_vec())))
}

fn started(policed: bool, cache: &mut HostnameCache) -> DatagramSession {
    let (mut session, action) = DatagramSession::handle_vsock_datagrams_over_stream(policed);
    assert!(matches!(action, SessionAction::SetStreamTimeouts(60)));
    let action = session.step(cache, SessionEvent::StreamTimeoutsSet(true), 0);
    assert!(matches!(action, SessionAction::ReadFrame));
    session
}

#[test]
fn a_datagram_goes_to_the_server_and_back() {
    let mut cache = HostnameCache::new(1000);
    let mut s = started(true, &mut cache);
    let a = s.step(&mut cache, frame(b"ask"), 1);
    assert!(matches!(a, SessionAction::CheckPolicy(h, 53) if h == "dns"));
    let a = s.step(&mut cache, SessionEvent::Allowed(true), 2);
    assert!(matches!(a, SessionAction::Resolve(t) if t == "dns:53"));
    let a = s.step(&mut cache, SessionEvent::Resolved(Some(Some(addr(8)))), 3);
    assert!(matches!(a, SessionAction::Charge(h, 53, 3) if h == "dns"));
    let a = s.step(&mut cache, SessionEvent::Charged(true), 4);
    assert!(matches!(a, SessionAction::Send(to, d) if to == addr(8) && d == b"ask"));
    let a = s.step(&mut cache, SessionEvent::Sent(true), 5);
    assert!(matches!(a, SessionAction::SetResponseTimeout(1000)));
    let a = s.step(&mut cache, SessionEvent::ResponseTimeoutSet(true), 6);
    assert!(matches!(a, SessionAction::Receive));
    let a = s.step(&mut cache, SessionEvent::Received(Some((addr(8), b"re".to_vec()))), 7);
    let expected = vec![3, b'd', b'n', b's', 0, 53, 0, 0, 0, 2, b'r', b'e'];
    assert!(matches!(a, SessionAction::Write(bytes) if bytes == expected));
    let a = s.step(&mut cache, SessionEvent::Replied(true), 8);
    assert!(matches!(a, SessionAction::ReadFrame));
    // The second time the address is known.
    s.step(&mut cache, frame(b"x"), 9);
    let a = s.step(&mut cache, SessionEvent::Allowed(true), 10);
    assert!(matches!(a, SessionAction::Charge(..)));
    assert_eq!(cache.get_ip("dns", 53, 10), Some(IpAddr::V4(8)));
}

#[test]
fn refused_datagrams_are_skipped() {
    let mut cache = HostnameCache::new(1000);
    let mut s = started(true, &mut cache);
    s.step(&mut cache, frame(b"a"), 0);
    let a = s.step(&mut cache, SessionEvent::Allowed(false), 0);
    assert!(matches!(a, SessionAction::ReadFrame));
    s.step(&mut cache, frame(b"a"), 0);
    s.step(&mut cache, SessionEvent::Allowed(true), 0);
    s.step(&mut cache, SessionEvent::Resolved(Some(Some(addr(1)))), 0);
    let a = s.step(&mut cache, SessionEvent::Charged(false), 0);
    assert!(matches!(a, SessionAction::ReadFrame));
}

fn waiting(cache: &mut HostnameCache) -> DatagramSession {
    let mut s = started(false, cache);
    s.step(cache, frame(b"a"), 0);
    let a = s.step(cache, SessionEvent::Resolved(Some(Some(addr(1)))), 0);
    assert!(matches!(a, SessionAction::Send(..)));
    s.step(cache, SessionEvent::Sent(true), 0);
    s.step(cache, SessionEvent::ResponseTimeoutSet(true), 0);
    s
}

#[test]
fn foreign_answers_end_a_session() {
    let mut cache = HostnameCache::new(10);
    let mut s = waiting(&mut cache);
    let a = s.step(&mut cache, SessionEvent::Received(Some((addr(2), vec![]))), 1);
    assert!(matches!(a, SessionAction::End { result: Ok(()), log: false }));
}

#[test]
fn answers_of_forgotten_addresses_end_a_session() {
    let mut cache = HostnameCache::new(10);
    let mut s = waiting(&mut cache);
    let a = s.step(&mut cache, SessionEvent::Received(Some((addr(1), vec![]))), 11);
    assert!(matches!(a, SessionAction::End { result: Ok(()), log: false }));
}

#[test]
fn missing_answers_do_not_end_a_session() {
    let mut cache = HostnameCache::new(10);
    let mut s = waiting(&mut cache);
    let a = s.step(&mut cache, SessionEvent::Received(None), 1);
    assert!(matches!(a, SessionAction::ReadFrame));
    let a = s.step(&mut cache, SessionEvent::Frame(None), 1);
    assert!(matches!(a, SessionAction::End { result: Ok(()), log: false }));
}

#[test]
fn orderly_ends_are_logged_under_a_policy() {
    let mut cache = HostnameCache::new(10);
    let mut s = started(true, &mut cache);
    let a = s.step(&mut cache, SessionEvent::Frame(None), 0);
    assert!(matches!(a, SessionAction::End { result: Ok(()), log: true }));
}

#[test]
fn failed_replies_end_a_session() {
    let mut cache = HostnameCache::new(10);
    let mut s = waiting(&mut cache);
    s.step(&mut cache, SessionEvent::Received(Some((addr(1), vec![]))), 1);
    let a = s.step(&mut cache, SessionEvent::Replied(false), 1);
    assert!(matches!(a, SessionAction::End { result: Ok(()), log: false }));
}

fn failed(action: SessionAction, error: SessionError) -> bool {
    matches!(action, SessionAction::End { result: Err(e), log: false } if e == error)
}

#[test]
fn errors_end_a_session_without_a_log() {
    let mut cache = HostnameCache::new(10);
    let (mut s, _) = DatagramSession::handle_vsock_datagrams_over_stream(true);
    let a = s.step(&mut cache, SessionEvent::StreamTimeoutsSet(false), 0);
    assert!(failed(a, SessionError::StreamTimeout));

    for (found, error) in [(None, SessionError::Unresolved), (Some(None), SessionError::NoAddress)] {
        let mut s = started(false, &mut cache);
        s.step(&mut cache, frame(b"a"), 0);
        let a = s.step(&mut cache, SessionEvent::Resolved(found), 0);
        assert!(failed(a, error));
    }

    let mut s = started(false, &mut cache);
    s.step(&mut cache, frame(b"a"), 0);
    s.step(&mut cache, SessionEvent::Resolved(Some(Some(addr(1)))), 0);
    let a = s.step(&mut cache, SessionEvent::Sent(false), 0);
    assert!(failed(a, SessionError::Send));

    let mut s = started(false, &mut cache);
    let a = s.step(&mut cache, frame(b"a"), 0);
    assert!(matches!(a, SessionAction::Send(..)));
    s.step(&mut cache, SessionEvent::Sent(true), 0);
    let a = s.step(&mut cache, SessionEvent::ResponseTimeoutSet(false), 0);
    assert!(failed(a, SessionError::ResponseTimeout));
}

#[test]
fn datagram_listener_goes_on_after_failures() {
    let mut phase = AcceptPhase::StopFlag;
    let mut step = |e| connection_accept_loop(3, &mut phase, e);
    assert_eq!(step(AcceptEvent::StopFlag(false)), AcceptAction::Poll);
    assert_eq!(step(AcceptEvent::Polled(None)), AcceptAction::CheckStop);
    assert_eq!(step(AcceptEvent::StopFlag(false)), AcceptAction::Poll);
    assert_eq!(step(AcceptEvent::Polled(Some(true))), AcceptAction::Accept);
    assert_eq!(step(AcceptEvent::Accepted(None)), AcceptAction::CheckStop);
    assert_eq!(step(AcceptEvent::StopFlag(false)), AcceptAction::Poll);
    assert_eq!(step(AcceptEvent::Polled(Some(true))), AcceptAction::Accept);
    assert_eq!(step(AcceptEvent::Accepted(Some(4))), AcceptAction::CheckStop);
    assert_eq!(step(AcceptEvent::StopFlag(false)), AcceptAction::Poll);
    assert_eq!(step(AcceptEvent::Polled(Some(true))), AcceptAction::Accept);
    assert_eq!(step(AcceptEvent::Accepted(Some(3))), AcceptAction::Serve);
    assert_eq!(step(AcceptEvent::Served), AcceptAction::CheckStop);
    assert_eq!(step(AcceptEvent::StopFlag(true)), AcceptAction::End);
}

#[test]
fn datagram_handler_starts_and_stops() {
    let config = DatagramHandlerConfig::default();
    assert_eq!(config.vsock_cid, VsockCid::Host);
    assert_eq!((config.vsock_port, config.timeout_secs, config.cache_timeout_secs), (1338, 60, 300));
    assert_eq!((config.vm_cid, config.policed), (1, false));
    let mut handler = DatagramHandler::new(config);
    assert_eq!(handler.run().listen, ListenAddress { cid: 2, port: 1338 });
    assert_eq!(handler.run().udp_timeout_secs, 60);
    assert!(!handler.join());
    handler.listening();
    assert!(handler.stop());
    assert!(!handler.stop());
    let five_minutes = 300_000_000_000;
    handler.get_cache().insert(IpAddr::V4(1), "h".to_string(), 1, 0);
    assert!(handler.get_cache().get_ip("h", 1, five_minutes).is_some());
    assert!(handler.get_cache().get_ip("h", 1, five_minutes + 1).is_none());
}
