//! Connections to TCP servers.
use realm_virt::vsock_proxy::args::{Args, Logging, ProxyMode};
use realm_virt::vsock_proxy::conhandler::{
    connection_message, split_server_addr, Connection, ConnectionAction, ConnectionError,
    ConnectionEvent, ConnectionHandler, ConnectionHandlerConfig, ListenAddress, ListenerAction,
    ListenerEvent, ListenerPhase, VsockCid,
};

#[test]
fn contexts_have_numbers_and_names() {
    assert_eq!(u32::from(VsockCid::Any), 0);
    assert_eq!(u32::from(VsockCid::Local), 1);
    assert_eq!(u32::from(VsockCid::Host), 2);
    assert_eq!(VsockCid::Any.describe(), "any (CID=0)");
    assert_eq!(VsockCid::Local.describe(), "local (CID=1)");
    assert_eq!(VsockCid::Host.describe(), "host (CID=2)");
}

#[test]
fn default_configuration() {
    let config = ConnectionHandlerConfig::default();
    assert_eq!(config.vsock_cid, VsockCid::Host);
    assert_eq!(config.vsock_port, 1337);
    assert_eq!(config.server_addr.as_deref(), Some("127.0.0.1:1337"));
    assert!(!config.conproto);
    assert_eq!(config.timeout_secs, 60);
    assert!(!config.policed);
    assert_eq!(config.vm_cid, 1);
}

#[test]
fn server_addresses_are_split_at_the_last_colon() {
    let split = |s: &str| split_server_addr(s);
    assert_eq!(split("localhost:1337"), Some(("localhost".to_string(), 1337)));
    assert_eq!(split("[::1]:443"), Some(("::1".to_string(), 443)));
    assert_eq!(split("[[x]]:1"), Some(("x".to_string(), 1)));
    assert_eq!(split("a:b:+2"), Some(("a:b".to_string(), 2)));
    assert_eq!(split(":0"), Some((String::new(), 0)));
    assert_eq!(split("localhost"), None);
    assert_eq!(split("localhost:"), None);
    assert_eq!(split("localhost:65536"), None);
    assert_eq!(split("localhost:-1"), None);
    assert_eq!(split("localhost: 1"), None);
}

fn serve(handler: &ConnectionHandler, events: Vec<ListenerEvent>) -> (ListenerPhase, ListenerAction) {
    let mut phase = ListenerPhase::StopFlag;
    let mut action = ListenerAction::CheckStop;
    for event in events {
        action = handler.run(&mut phase, event);
    }
    (phase, action)
}

fn connected(peer: Option<u32>) -> Vec<ListenerEvent> {
    vec![
        ListenerEvent::StopFlag(false),
        ListenerEvent::Polled(Some(true)),
        ListenerEvent::Accepted(true),
        ListenerEvent::Peer(peer),
    ]
}

fn handler(conproto: bool, server: Option<&str>) -> ConnectionHandler {
    ConnectionHandler::new(ConnectionHandlerConfig {
        vsock_cid: VsockCid::Local,
        vsock_port: 1234,
        server_addr: server.map(|s| s.to_string()),
        conproto,
        timeout_secs: 9,
        policed: true,
        vm_cid: 33,
    })
}

#[test]
fn listener_serves_the_configured_vm_only() {
    let h = handler(false, Some("server:1"));
    assert!(matches!(serve(&h, connected(Some(33))).1, ListenerAction::Serve(s) if s == "server:1"));
    assert!(matches!(
        serve(&h, connected(Some(34))),
        (ListenerPhase::StopFlag, ListenerAction::CheckStop)
    ));
    assert!(matches!(
        serve(&h, connected(None)),
        (ListenerPhase::StopFlag, ListenerAction::CheckStop)
    ));
}

#[test]
fn listener_takes_the_server_of_the_connection_protocol() {
    let h = handler(true, None);
    let (phase, action) = serve(&h, connected(Some(33)));
    assert_eq!(phase, ListenerPhase::Request);
    assert!(matches!(action, ListenerAction::ReadRequest));
    let mut events = connected(Some(33));
    events.push(ListenerEvent::Request(Some("asked:2".to_string())));
    assert!(matches!(serve(&h, events).1, ListenerAction::Serve(s) if s == "asked:2"));
    let mut events = connected(Some(33));
    events.push(ListenerEvent::Request(None));
    events.push(ListenerEvent::StopFlag(false));
    assert!(matches!(serve(&h, events).1, ListenerAction::Poll));
}

#[test]
fn listener_ends_where_it_cannot_go_on() {
    let h = handler(false, None);
    assert!(matches!(serve(&h, connected(Some(33))).1, ListenerAction::End));
    assert!(matches!(serve(&h, vec![ListenerEvent::StopFlag(true)]).1, ListenerAction::End));
    assert!(matches!(
        serve(&h, vec![ListenerEvent::StopFlag(false), ListenerEvent::Polled(None)]).1,
        ListenerAction::End
    ));
    assert!(matches!(
        serve(
            &h,
            vec![
                ListenerEvent::StopFlag(false),
                ListenerEvent::Polled(Some(true)),
                ListenerEvent::Accepted(false),
            ]
        )
        .1,
        ListenerAction::End
    ));
    assert!(matches!(
        serve(&h, vec![ListenerEvent::StopFlag(false), ListenerEvent::Polled(Some(false))]).1,
        ListenerAction::CheckStop
    ));
}

#[test]
fn only_the_first_caller_waits_for_the_listener() {
    let mut h = handler(false, None);
    assert_eq!(h.listen_address(), ListenAddress { cid: 1, port: 1234 });
    assert!(!h.stop());
    h.listening();
    assert!(h.stop());
    assert!(!h.stop());
    h.listening();
    assert!(h.join());
    assert!(!h.join());
}

fn proxy(conproto: bool, policed: bool, events: &[ConnectionEvent]) -> ConnectionAction {
    let (mut c, mut action) = Connection::handle_vsock_connection("[h]:5", 7, conproto, policed);
    assert_eq!((c.host(), c.port()), ("h", 5));
    for event in events {
        action = c.step(*event);
    }
    action
}

#[test]
fn policy_is_asked_before_anything_else() {
    assert_eq!(proxy(false, true, &[]), ConnectionAction::CheckPolicy);
    assert_eq!(proxy(false, false, &[]), ConnectionAction::Resolve);
    assert_eq!(proxy(false, true, &[ConnectionEvent::Allowed(true)]), ConnectionAction::Resolve);
    assert_eq!(
        proxy(false, true, &[ConnectionEvent::Allowed(false)]),
        ConnectionAction::End(Err(ConnectionError::NotAllowed))
    );
}

#[test]
fn addresses_are_tried_in_turn() {
    let found = ConnectionEvent::Resolved(Some(2));
    let miss = ConnectionEvent::Connected(false);
    assert_eq!(
        proxy(false, false, &[found]),
        ConnectionAction::Connect { index: 0, timeout_secs: 7 }
    );
    assert_eq!(
        proxy(false, false, &[found, miss]),
        ConnectionAction::Connect { index: 1, timeout_secs: 7 }
    );
    assert_eq!(
        proxy(false, false, &[found, miss, miss]),
        ConnectionAction::End(Err(ConnectionError::Refused))
    );
    assert_eq!(
        proxy(false, false, &[ConnectionEvent::Resolved(Some(0))]),
        ConnectionAction::End(Err(ConnectionError::Refused))
    );
    assert_eq!(
        proxy(false, false, &[ConnectionEvent::Resolved(None)]),
        ConnectionAction::End(Err(ConnectionError::Unresolved))
    );
}

#[test]
fn connections_are_relayed_once_set_up() {
    let mut events = vec![ConnectionEvent::Resolved(Some(1)), ConnectionEvent::Connected(true)];
    assert_eq!(proxy(false, false, &events), ConnectionAction::SetReadTimeout(60));
    events.push(ConnectionEvent::TimeoutSet(true));
    assert_eq!(proxy(false, false, &events), ConnectionAction::SetWriteTimeout(60));
    events.push(ConnectionEvent::TimeoutSet(true));
    assert_eq!(proxy(false, false, &events), ConnectionAction::Relay);
    assert_eq!(proxy(true, false, &events), ConnectionAction::Respond);
    let mut plain = events.clone();
    plain.push(ConnectionEvent::Relayed);
    assert_eq!(proxy(false, false, &plain), ConnectionAction::End(Ok(())));
    events.push(ConnectionEvent::Responded(true));
    assert_eq!(proxy(true, false, &events), ConnectionAction::Relay);
}

#[test]
fn failures_while_setting_up_end_a_connection() {
    let mut events = vec![ConnectionEvent::Resolved(Some(1)), ConnectionEvent::Connected(true)];
    events.push(ConnectionEvent::TimeoutSet(false));
    assert_eq!(
        proxy(true, false, &events),
        ConnectionAction::End(Err(ConnectionError::ReadTimeout))
    );
    events[2] = ConnectionEvent::TimeoutSet(true);
    events.push(ConnectionEvent::TimeoutSet(false));
    assert_eq!(
        proxy(true, false, &events),
        ConnectionAction::End(Err(ConnectionError::WriteTimeout))
    );
    events[3] = ConnectionEvent::TimeoutSet(true);
    events.push(ConnectionEvent::Responded(false));
    assert_eq!(
        proxy(true, false, &events),
        ConnectionAction::End(Err(ConnectionError::Response))
    );
    let (_, action) = Connection::handle_vsock_connection("nowhere", 1, false, true);
    assert_eq!(action, ConnectionAction::End(Err(ConnectionError::InvalidAddress)));
}

#[test]
fn clients_are_told_where_they_are_connected_to() {
    assert_eq!(connection_message("1.2.3.4:5"), "Connection established to 1.2.3.4:5");
}

fn args(conproto: bool, verbose: bool, policy_file: Option<&str>) -> Args {
    Args {
        mode: ProxyMode::Stream,
        vsock_cid: VsockCid::Any,
        vsock_port: 2,
        server_addr: "s:3".to_string(),
        conproto,
        timeout_secs: 4,
        cache_timeout_secs: 5,
        verbose,
        policy_file: policy_file.map(|s| s.to_string()),
        vm_cid: 6,
    }
}

#[test]
fn command_line_becomes_configuration() {
    let config = args(false, false, Some("policy.json")).run_stream_mode();
    assert_eq!(config.server_addr.as_deref(), Some("s:3"));
    assert!(config.policed);
    assert_eq!((config.vsock_port, config.timeout_secs, config.vm_cid), (2, 4, 6));
    assert_eq!(args(true, false, None).run_stream_mode().server_addr, None);
    let config = args(true, false, None).run_datagram_mode();
    assert_eq!((config.timeout_secs, config.cache_timeout_secs, config.vm_cid), (4, 5, 6));
    assert!(!config.policed);
    assert_eq!(ProxyMode::Stream.name(), "stream");
    assert_eq!(ProxyMode::Datagram.name(), "datagram");
}

#[test]
fn logging_follows_the_command_line_and_the_environment() {
    assert_eq!(args(false, true, None).logging(true), Logging::Debug);
    assert_eq!(args(false, true, None).logging(false), Logging::Debug);
    assert_eq!(args(false, false, None).logging(true), Logging::Environment);
    assert_eq!(args(false, false, None).logging(false), Logging::Info);
}
