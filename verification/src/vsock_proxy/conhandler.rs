//! Connections from a virtual machine to TCP servers: who may connect, and to where.
use crate::text::{
    concat, decimal, decimal_parses_back, last_index, lemma_decimal, lemma_last_index, parse_u16,
    parse_unsigned, to_chars, trim_brackets, trim_end, trim_start,
};
use vstd::prelude::*;

verus! {

/// The context identifier of the same context.
pub const VMADDR_CID_LOCAL: u32 = 1;

/// The context identifier of the host.
pub const VMADDR_CID_HOST: u32 = 2;

/// The default port of the proxy.
pub const DEFAULT_PORT: u32 = 1337;

/// The default server.
pub const DEFAULT_SERVER_ADDR: &'static str = "127.0.0.1:1337";

/// The size of a buffer for relayed data.
pub const BUFFER_SIZE: usize = 65536;

/// How many seconds connecting to a server may take by default.
pub const DEFAULT_TIMEOUT_SECS: u64 = 60;

/// How many seconds a read or write on a connection to a server may take.
pub const TCP_READ_WRITE_TIMEOUT: u64 = 60;

/// How many milliseconds the listener waits for a connection before it looks whether to stop.
pub const ACCEPT_POLL_MILLIS: u16 = 100;

/// The contexts that the proxy can listen in.
#[derive(Debug, Clone, Copy, PartialEq, Eq, Structural)]
pub enum VsockCid {
    /// All local contexts.
    Any,
    /// The same context.
    Local,
    /// The host.
    Host,
}

impl VsockCid {
    /// The context identifier.
    pub open spec fn number(self) -> u32 {
        match self {
            VsockCid::Any => 0,
            VsockCid::Local => VMADDR_CID_LOCAL,
            VsockCid::Host => VMADDR_CID_HOST,
        }
    }

    /// The context in words.
    pub open spec fn text(self) -> Seq<char> {
        match self {
            VsockCid::Any => "any (CID=0)"@,
            VsockCid::Local => "local (CID=1)"@,
            VsockCid::Host => "host (CID=2)"@,
        }
    }

    /// The context in words.
    pub fn describe(&self) -> (r: String)
        ensures
            r@ == self.text(),
    {
        match self {
            VsockCid::Any => "any (CID=0)".to_owned(),
            VsockCid::Local => "local (CID=1)".to_owned(),
            VsockCid::Host => "host (CID=2)".to_owned(),
        }
    }
}

impl From<VsockCid> for u32 {
    fn from(cid: VsockCid) -> (r: u32) {
        match cid {
            VsockCid::Any => 0,
            VsockCid::Local => VMADDR_CID_LOCAL,
            VsockCid::Host => VMADDR_CID_HOST,
        }
    }
}

impl vstd::std_specs::convert::FromSpecImpl<VsockCid> for u32 {
    open spec fn obeys_from_spec() -> bool {
        true
    }

    open spec fn from_spec(cid: VsockCid) -> u32 {
        cid.number()
    }
}

/// How connections are handled.
#[derive(Debug)]
pub struct ConnectionHandlerConfig {
    /// Where the proxy listens.
    pub vsock_cid: VsockCid,
    pub vsock_port: u32,
    /// The server, where clients do not name it themselves.
    pub server_addr: Option<String>,
    /// Whether clients name the server by the connection protocol.
    pub conproto: bool,
    /// How many seconds connecting may take.
    pub timeout_secs: u64,
    /// Whether a policy decides on servers.
    pub policed: bool,
    /// The only virtual machine that may connect.
    pub vm_cid: u32,
}

impl Default for ConnectionHandlerConfig {
    fn default() -> (r: Self)
        ensures
            r.vsock_cid == VsockCid::Host,
            r.vsock_port == DEFAULT_PORT,
            r.server_addr matches Some(a) && a@ == DEFAULT_SERVER_ADDR@,
            !r.conproto,
            r.timeout_secs == DEFAULT_TIMEOUT_SECS,
            !r.policed,
            r.vm_cid == VMADDR_CID_LOCAL,
    {
        ConnectionHandlerConfig {
            vsock_cid: VsockCid::Host,
            vsock_port: DEFAULT_PORT,
            server_addr: Some(DEFAULT_SERVER_ADDR.to_owned()),
            conproto: false,
            timeout_secs: DEFAULT_TIMEOUT_SECS,
            policed: false,
            vm_cid: VMADDR_CID_LOCAL,
        }
    }
}

// ---------------------------------------------------------------------------
// Server addresses
// ---------------------------------------------------------------------------

/// The host and port of a server address: what stands before the last colon, without brackets
/// around it, and the number behind that colon.
pub open spec fn host_and_port(addr: Seq<char>) -> Option<(Seq<char>, u16)> {
    let colon = last_index(addr, ':');
    if colon < 0 {
        None
    } else {
        match parse_unsigned(addr.skip(colon + 1), u16::MAX as nat) {
            Some(port) => Some((trim_end(trim_start(addr.take(colon), '['), ']'), port as u16)),
            None => None,
        }
    }
}

/// Splits a server address into host and port.
pub fn split_server_addr(addr: &str) -> (r: Option<(String, u16)>)
    ensures
        match r {
            Some((h, p)) => host_and_port(addr@) == Some((h@, p)),
            None => host_and_port(addr@) is None,
        },
{
    let chars: Vec<char> = to_chars(addr);
    let mut i: usize = chars.len();
    proof {
        lemma_last_index(addr@, ':');
    }
    while i > 0 && chars[i - 1] != ':'
        invariant
            chars@ == addr@,
            i <= chars@.len(),
            forall|k: int| i <= k < chars@.len() ==> chars@[k] != ':',
        decreases i,
    {
        i = i - 1;
    }
    if i == 0 {
        return None;
    }
    assert(last_index(addr@, ':') == i - 1);
    let mut digits: Vec<char> = Vec::new();
    let mut j: usize = i;
    while j < chars.len()
        invariant
            i <= j <= chars@.len(),
            digits@ == chars@.subrange(i as int, j as int),
        decreases chars@.len() - j,
    {
        digits.push(chars[j]);
        j = j + 1;
        assert(digits@ =~= chars@.subrange(i as int, j as int));
    }
    assert(digits@ =~= addr@.skip(i as int));
    let host: String = trim_brackets(&chars, 0, i - 1, '[', ']');
    assert(chars@.subrange(0, i - 1) =~= addr@.take(i - 1));
    match parse_u16(&digits) {
        Some(port) => Some((host, port)),
        None => None,
    }
}

// ---------------------------------------------------------------------------
// Listening
// ---------------------------------------------------------------------------

/// What the listener waits for.
#[derive(Debug, Clone, Copy, PartialEq, Eq, Structural)]
pub enum ListenerPhase {
    /// Whether it was told to stop.
    StopFlag,
    /// Whether somebody connects.
    Poll,
    /// The connection.
    Accept,
    /// Who connected.
    Peer,
    /// Which server the client asks for.
    Request,
    /// That the connection was served.
    Served,
    /// Nothing: it has ended.
    Ended,
}

/// What happened to the listener.
#[derive(Debug)]
pub enum ListenerEvent {
    /// Whether it was told to stop.
    StopFlag(bool),
    /// Whether somebody connects; `None` where that could not be found out.
    Polled(Option<bool>),
    /// Whether the connection was accepted.
    Accepted(bool),
    /// Which context connected, where that could be found out.
    Peer(Option<u32>),
    /// Which server the client asks for, where it could be understood.
    Request(Option<String>),
    /// The connection was served, with or without success.
    Served,
}

/// What the listener does next.
#[derive(Debug)]
pub enum ListenerAction {
    /// Looks whether it was told to stop; a connection that is open is dropped.
    CheckStop,
    /// Waits for somebody to connect.
    Poll,
    /// Accepts the connection.
    Accept,
    /// Finds out who connected.
    GetPeer,
    /// Reads which server the client asks for.
    ReadRequest,
    /// Serves the connection with the given server.
    Serve(String),
    /// Ends.
    End,
}

/// What the listener does next.
pub enum ActionView {
    CheckStop,
    Poll,
    Accept,
    GetPeer,
    ReadRequest,
    Serve(Seq<char>),
    End,
}

impl View for ListenerAction {
    type V = ActionView;

    open spec fn view(&self) -> ActionView {
        match self {
            ListenerAction::CheckStop => ActionView::CheckStop,
            ListenerAction::Poll => ActionView::Poll,
            ListenerAction::Accept => ActionView::Accept,
            ListenerAction::GetPeer => ActionView::GetPeer,
            ListenerAction::ReadRequest => ActionView::ReadRequest,
            ListenerAction::Serve(s) => ActionView::Serve(s@),
            ListenerAction::End => ActionView::End,
        }
    }
}

/// Whether an event is one that the listener waits for.
pub open spec fn awaited(phase: ListenerPhase, event: ListenerEvent) -> bool {
    match phase {
        ListenerPhase::StopFlag => event is StopFlag,
        ListenerPhase::Poll => event is Polled,
        ListenerPhase::Accept => event is Accepted,
        ListenerPhase::Peer => event is Peer,
        ListenerPhase::Request => event is Request,
        ListenerPhase::Served => event is Served,
        ListenerPhase::Ended => false,
    }
}

/// What an event leads to. Connections of other virtual machines, of unknown origin or without an
/// understandable request are dropped; the listener ends where it was told to, where it cannot
/// wait or accept, and where there is no server to connect to.
pub open spec fn listener_next(config: ConnectionHandlerConfig, event: ListenerEvent) -> (
    ListenerPhase,
    ActionView,
) {
    match event {
        ListenerEvent::StopFlag(stop) => if stop {
            (ListenerPhase::Ended, ActionView::End)
        } else {
            (ListenerPhase::Poll, ActionView::Poll)
        },
        ListenerEvent::Polled(outcome) => match outcome {
            None => (ListenerPhase::Ended, ActionView::End),
            Some(ready) => if ready {
                (ListenerPhase::Accept, ActionView::Accept)
            } else {
                (ListenerPhase::StopFlag, ActionView::CheckStop)
            },
        },
        ListenerEvent::Accepted(ok) => if ok {
            (ListenerPhase::Peer, ActionView::GetPeer)
        } else {
            (ListenerPhase::Ended, ActionView::End)
        },
        ListenerEvent::Peer(cid) => if cid != Some(config.vm_cid) {
            (ListenerPhase::StopFlag, ActionView::CheckStop)
        } else if config.conproto {
            (ListenerPhase::Request, ActionView::ReadRequest)
        } else {
            match config.server_addr {
                Some(addr) => (ListenerPhase::Served, ActionView::Serve(addr@)),
                None => (ListenerPhase::Ended, ActionView::End),
            }
        },
        ListenerEvent::Request(addr) => match addr {
            Some(a) => (ListenerPhase::Served, ActionView::Serve(a@)),
            None => (ListenerPhase::StopFlag, ActionView::CheckStop),
        },
        ListenerEvent::Served => (ListenerPhase::StopFlag, ActionView::CheckStop),
    }
}

/// Where the proxy listens.
#[derive(Debug, Clone, Copy, PartialEq, Eq, Structural)]
pub struct ListenAddress {
    pub cid: u32,
    pub port: u32,
}

/// Handles connections.
#[derive(Debug)]
pub struct ConnectionHandler {
    config: ConnectionHandlerConfig,
    listening: bool,
}

impl ConnectionHandler {
    pub closed spec fn spec_config(&self) -> ConnectionHandlerConfig {
        self.config
    }

    /// Whether there is a listener that nobody has stopped or waited for.
    pub closed spec fn is_listening(&self) -> bool {
        self.listening
    }

    /// A handler that does not listen yet.
    pub fn new(config: ConnectionHandlerConfig) -> (r: Self)
        ensures
            r.spec_config() == config,
            !r.is_listening(),
    {
        ConnectionHandler { config, listening: false }
    }

    /// Where to listen.
    pub fn listen_address(&self) -> (r: ListenAddress)
        ensures
            r.cid == self.spec_config().vsock_cid.number(),
            r.port == self.spec_config().vsock_port,
    {
        ListenAddress { cid: u32::from(self.config.vsock_cid), port: self.config.vsock_port }
    }

    /// Records that a listener has been started.
    pub fn listening(&mut self)
        ensures
            final(self).is_listening(),
            final(self).spec_config() == old(self).spec_config(),
    {
        self.listening = true;
    }

    /// Decides what the listener does next.
    pub fn run(&self, phase: &mut ListenerPhase, event: ListenerEvent) -> (r: ListenerAction)
        requires
            awaited(*old(phase), event),
        ensures
            (*final(phase), r@) == listener_next(self.spec_config(), event),
    {
        match event {
            ListenerEvent::StopFlag(stop) => {
                if stop {
                    *phase = ListenerPhase::Ended;
                    ListenerAction::End
                } else {
                    *phase = ListenerPhase::Poll;
                    ListenerAction::Poll
                }
            },
            ListenerEvent::Polled(outcome) => match outcome {
                None => {
                    *phase = ListenerPhase::Ended;
                    ListenerAction::End
                },
                Some(ready) => {
                    if ready {
                        *phase = ListenerPhase::Accept;
                        ListenerAction::Accept
                    } else {
                        *phase = ListenerPhase::StopFlag;
                        ListenerAction::CheckStop
                    }
                },
            },
            ListenerEvent::Accepted(ok) => {
                if ok {
                    *phase = ListenerPhase::Peer;
                    ListenerAction::GetPeer
                } else {
                    *phase = ListenerPhase::Ended;
                    ListenerAction::End
                }
            },
            ListenerEvent::Peer(cid) => {
                let allowed: bool = match cid {
                    Some(c) => c == self.config.vm_cid,
                    None => false,
                };
                if !allowed {
                    *phase = ListenerPhase::StopFlag;
                    ListenerAction::CheckStop
                } else if self.config.conproto {
                    *phase = ListenerPhase::Request;
                    ListenerAction::ReadRequest
                } else {
                    match &self.config.server_addr {
                        Some(addr) => {
                            *phase = ListenerPhase::Served;
                            ListenerAction::Serve(addr.clone())
                        },
                        None => {
                            *phase = ListenerPhase::Ended;
                            ListenerAction::End
                        },
                    }
                }
            },
            ListenerEvent::Request(addr) => match addr {
                Some(a) => {
                    *phase = ListenerPhase::Served;
                    ListenerAction::Serve(a)
                },
                None => {
                    *phase = ListenerPhase::StopFlag;
                    ListenerAction::CheckStop
                },
            },
            ListenerEvent::Served => {
                *phase = ListenerPhase::StopFlag;
                ListenerAction::CheckStop
            },
        }
    }

    /// Whether the caller is to tell a listener to stop and to wait for it; only the first caller
    /// is.
    pub fn stop(&mut self) -> (r: bool)
        ensures
            r == old(self).is_listening(),
            !final(self).is_listening(),
            final(self).spec_config() == old(self).spec_config(),
    {
        let r: bool = self.listening;
        self.listening = false;
        r
    }

    /// Whether the caller is to wait for a listener; only the first caller is.
    pub fn join(&mut self) -> (r: bool)
        ensures
            r == old(self).is_listening(),
            !final(self).is_listening(),
            final(self).spec_config() == old(self).spec_config(),
    {
        let r: bool = self.listening;
        self.listening = false;
        r
    }
}

// ---------------------------------------------------------------------------
// One connection
// ---------------------------------------------------------------------------

/// Why a connection could not be served.
#[derive(Debug, Clone, Copy, PartialEq, Eq, Structural)]
pub enum ConnectionError {
    /// The server address is not a host and a port.
    InvalidAddress,
    /// The policy does not allow the server.
    NotAllowed,
    /// The server address cannot be resolved.
    Unresolved,
    /// None of the resolved addresses can be connected to.
    Refused,
    /// The timeout for reading cannot be set.
    ReadTimeout,
    /// The timeout for writing cannot be set.
    WriteTimeout,
    /// The client cannot be told of the connection.
    Response,
}

/// What a connection waits for.
#[derive(Debug, Clone, Copy, PartialEq, Eq, Structural)]
pub enum ConnectionPhase {
    /// Whether the policy allows the server.
    Policy,
    /// How many addresses the server has.
    Resolution,
    /// Whether the address at a position can be connected to; there are `count` of them.
    Connecting { index: usize, count: usize },
    /// That the timeout for reading was set.
    ReadTimeout,
    /// That the timeout for writing was set.
    WriteTimeout,
    /// That the client was told of the connection.
    Response,
    /// That one side has closed.
    Relaying,
    /// Nothing: it has ended.
    Ended,
}

/// What happened to a connection.
#[derive(Debug, Clone, Copy, PartialEq, Eq, Structural)]
pub enum ConnectionEvent {
    /// Whether the policy allows the server.
    Allowed(bool),
    /// How many addresses the server has, where it could be resolved.
    Resolved(Option<usize>),
    /// Whether the address could be connected to.
    Connected(bool),
    /// Whether the timeout was set.
    TimeoutSet(bool),
    /// Whether the client was told.
    Responded(bool),
    /// One side has closed, or relaying has failed.
    Relayed,
}

/// What is done next on a connection.
#[derive(Debug, Clone, Copy, PartialEq, Eq)]
pub enum ConnectionAction {
    /// Asks the policy about the host and port.
    CheckPolicy,
    /// Resolves the server address.
    Resolve,
    /// Connects to the address at the position.
    Connect { index: usize, timeout_secs: u64 },
    /// Sets the timeout for reading, in seconds.
    SetReadTimeout(u64),
    /// Sets the timeout for writing, in seconds.
    SetWriteTimeout(u64),
    /// Tells the client that the address at the position is connected to.
    Respond,
    /// Relays data both ways.
    Relay,
    /// Ends.
    End(Result<(), ConnectionError>),
}

/// A connection that is being served.
#[derive(Debug)]
pub struct Connection {
    host: String,
    port: u16,
    timeout_secs: u64,
    conproto: bool,
    phase: ConnectionPhase,
}

/// Whether an event is one that a connection waits for.
pub open spec fn connection_awaits(phase: ConnectionPhase, event: ConnectionEvent) -> bool {
    match phase {
        ConnectionPhase::Policy => event is Allowed,
        ConnectionPhase::Resolution => event is Resolved,
        ConnectionPhase::Connecting { .. } => event is Connected,
        ConnectionPhase::ReadTimeout => event is TimeoutSet,
        ConnectionPhase::WriteTimeout => event is TimeoutSet,
        ConnectionPhase::Response => event is Responded,
        ConnectionPhase::Relaying => event is Relayed,
        ConnectionPhase::Ended => false,
    }
}

/// What is done first on a connection.
pub open spec fn connection_start(addr: Seq<char>, policed: bool) -> (
    ConnectionPhase,
    ConnectionAction,
) {
    if host_and_port(addr) is None {
        (ConnectionPhase::Ended, ConnectionAction::End(Err(ConnectionError::InvalidAddress)))
    } else if policed {
        (ConnectionPhase::Policy, ConnectionAction::CheckPolicy)
    } else {
        (ConnectionPhase::Resolution, ConnectionAction::Resolve)
    }
}

/// Connecting to the address at a position, where there is one.
pub open spec fn try_address(index: usize, count: usize, timeout_secs: u64) -> (
    ConnectionPhase,
    ConnectionAction,
) {
    if index < count {
        (
            ConnectionPhase::Connecting { index, count },
            ConnectionAction::Connect { index, timeout_secs },
        )
    } else {
        (ConnectionPhase::Ended, ConnectionAction::End(Err(ConnectionError::Refused)))
    }
}

/// Ends a connection with an error.
pub open spec fn give_up(error: ConnectionError) -> (ConnectionPhase, ConnectionAction) {
    (ConnectionPhase::Ended, ConnectionAction::End(Err(error)))
}

/// What an event on a connection leads to. The addresses of the server are tried in order, and
/// the first that can be connected to is used.
pub open spec fn connection_next(
    timeout_secs: u64,
    conproto: bool,
    phase: ConnectionPhase,
    event: ConnectionEvent,
) -> (ConnectionPhase, ConnectionAction) {
    match (phase, event) {
        (ConnectionPhase::Policy, ConnectionEvent::Allowed(allowed)) => if allowed {
            (ConnectionPhase::Resolution, ConnectionAction::Resolve)
        } else {
            give_up(ConnectionError::NotAllowed)
        },
        (ConnectionPhase::Resolution, ConnectionEvent::Resolved(found)) => match found {
            None => give_up(ConnectionError::Unresolved),
            Some(count) => try_address(0, count, timeout_secs),
        },
        (
            ConnectionPhase::Connecting { index, count },
            ConnectionEvent::Connected(connected),
        ) => if connected {
            (
                ConnectionPhase::ReadTimeout,
                ConnectionAction::SetReadTimeout(TCP_READ_WRITE_TIMEOUT),
            )
        } else {
            try_address((index + 1) as usize, count, timeout_secs)
        },
        (ConnectionPhase::ReadTimeout, ConnectionEvent::TimeoutSet(ok)) => if ok {
            (
                ConnectionPhase::WriteTimeout,
                ConnectionAction::SetWriteTimeout(TCP_READ_WRITE_TIMEOUT),
            )
        } else {
            give_up(ConnectionError::ReadTimeout)
        },
        (ConnectionPhase::WriteTimeout, ConnectionEvent::TimeoutSet(ok)) => if !ok {
            give_up(ConnectionError::WriteTimeout)
        } else if conproto {
            (ConnectionPhase::Response, ConnectionAction::Respond)
        } else {
            (ConnectionPhase::Relaying, ConnectionAction::Relay)
        },
        (ConnectionPhase::Response, ConnectionEvent::Responded(ok)) => if ok {
            (ConnectionPhase::Relaying, ConnectionAction::Relay)
        } else {
            give_up(ConnectionError::Response)
        },
        _ => (ConnectionPhase::Ended, ConnectionAction::End(Ok(()))),
    }
}

impl Connection {
    pub closed spec fn spec_phase(&self) -> ConnectionPhase {
        self.phase
    }

    /// The host that the policy is asked about.
    pub closed spec fn spec_host(&self) -> Seq<char> {
        self.host@
    }

    /// The port that the policy is asked about.
    pub closed spec fn spec_port(&self) -> u16 {
        self.port
    }

    pub closed spec fn spec_timeout(&self) -> u64 {
        self.timeout_secs
    }

    pub closed spec fn spec_conproto(&self) -> bool {
        self.conproto
    }

    /// Whether the position among the addresses is one of them.
    pub closed spec fn wf(&self) -> bool {
        self.phase matches ConnectionPhase::Connecting { index, count } ==> index < count
    }

    /// Starts to serve a connection to the server `tcp_addr`.
    pub fn handle_vsock_connection(
        tcp_addr: &str,
        timeout_secs: u64,
        conproto: bool,
        policed: bool,
    ) -> (r: (Connection, ConnectionAction))
        ensures
            r.0.wf(),
            (r.0.spec_phase(), r.1) == connection_start(tcp_addr@, policed),
            host_and_port(tcp_addr@) matches Some((h, p)) ==> r.0.spec_host() == h
                && r.0.spec_port() == p,
            r.0.spec_timeout() == timeout_secs,
            r.0.spec_conproto() == conproto,
    {
        match split_server_addr(tcp_addr) {
            Some((host, port)) => {
                if policed {
                    let phase = ConnectionPhase::Policy;
                    (
                        Connection { host, port, timeout_secs, conproto, phase },
                        ConnectionAction::CheckPolicy,
                    )
                } else {
                    let phase = ConnectionPhase::Resolution;
                    (
                        Connection { host, port, timeout_secs, conproto, phase },
                        ConnectionAction::Resolve,
                    )
                }
            },
            None => {
                let phase = ConnectionPhase::Ended;
                (
                    Connection { host: String::new(), port: 0, timeout_secs, conproto, phase },
                    ConnectionAction::End(Err(ConnectionError::InvalidAddress)),
                )
            },
        }
    }

    /// The host that the policy is asked about, and that relayed data is charged to.
    pub fn host(&self) -> (r: &str)
        ensures
            r@ == self.spec_host(),
    {
        self.host.as_str()
    }

    /// The port that the policy is asked about, and that relayed data is charged to.
    pub fn port(&self) -> (r: u16)
        ensures
            r == self.spec_port(),
    {
        self.port
    }

    /// Decides what is done next.
    pub fn step(&mut self, event: ConnectionEvent) -> (r: ConnectionAction)
        requires
            old(self).wf(),
            connection_awaits(old(self).spec_phase(), event),
        ensures
            final(self).wf(),
            (final(self).spec_phase(), r) == connection_next(
                old(self).spec_timeout(),
                old(self).spec_conproto(),
                old(self).spec_phase(),
                event,
            ),
            final(self).spec_host() == old(self).spec_host(),
            final(self).spec_port() == old(self).spec_port(),
            final(self).spec_timeout() == old(self).spec_timeout(),
            final(self).spec_conproto() == old(self).spec_conproto(),
    {
        let (phase, action): (ConnectionPhase, ConnectionAction) = match (self.phase, event) {
            (ConnectionPhase::Policy, ConnectionEvent::Allowed(allowed)) => {
                if allowed {
                    (ConnectionPhase::Resolution, ConnectionAction::Resolve)
                } else {
                    fail(ConnectionError::NotAllowed)
                }
            },
            (ConnectionPhase::Resolution, ConnectionEvent::Resolved(found)) => match found {
                None => fail(ConnectionError::Unresolved),
                Some(count) => self.attempt(0, count),
            },
            (
                ConnectionPhase::Connecting { index, count },
                ConnectionEvent::Connected(connected),
            ) => {
                if connected {
                    (
                        ConnectionPhase::ReadTimeout,
                        ConnectionAction::SetReadTimeout(TCP_READ_WRITE_TIMEOUT),
                    )
                } else {
                    self.attempt(index + 1, count)
                }
            },
            (ConnectionPhase::ReadTimeout, ConnectionEvent::TimeoutSet(ok)) => {
                if ok {
                    (
                        ConnectionPhase::WriteTimeout,
                        ConnectionAction::SetWriteTimeout(TCP_READ_WRITE_TIMEOUT),
                    )
                } else {
                    fail(ConnectionError::ReadTimeout)
                }
            },
            (ConnectionPhase::WriteTimeout, ConnectionEvent::TimeoutSet(ok)) => {
                if !ok {
                    fail(ConnectionError::WriteTimeout)
                } else if self.conproto {
                    (ConnectionPhase::Response, ConnectionAction::Respond)
                } else {
                    (ConnectionPhase::Relaying, ConnectionAction::Relay)
                }
            },
            (ConnectionPhase::Response, ConnectionEvent::Responded(ok)) => {
                if ok {
                    (ConnectionPhase::Relaying, ConnectionAction::Relay)
                } else {
                    fail(ConnectionError::Response)
                }
            },
            _ => (ConnectionPhase::Ended, ConnectionAction::End(Ok(()))),
        };
        self.phase = phase;
        action
    }

    fn attempt(&self, index: usize, count: usize) -> (r: (ConnectionPhase, ConnectionAction))
        ensures
            r == try_address(index, count, self.spec_timeout()),
    {
        if index < count {
            (
                ConnectionPhase::Connecting { index, count },
                ConnectionAction::Connect { index, timeout_secs: self.timeout_secs },
            )
        } else {
            fail(ConnectionError::Refused)
        }
    }
}

fn fail(error: ConnectionError) -> (r: (ConnectionPhase, ConnectionAction))
    ensures
        r == give_up(error),
{
    (ConnectionPhase::Ended, ConnectionAction::End(Err(error)))
}

/// What a client is told once its server is connected to.
pub fn connection_message(connected_addr: &str) -> (r: String)
    ensures
        r@ == "Connection established to "@ + connected_addr@,
{
    concat("Connection established to ", connected_addr)
}

// ---------------------------------------------------------------------------
// Laws
// ---------------------------------------------------------------------------

/// What the listener has come to after the given events.
pub open spec fn listener_after(config: ConnectionHandlerConfig, events: Seq<ListenerEvent>) -> (
    ListenerPhase,
    ActionView,
) {
    if events.len() == 0 {
        (ListenerPhase::StopFlag, ActionView::CheckStop)
    } else {
        listener_next(config, events.last())
    }
}

/// Whether each of the events was one that the listener waited for.
pub open spec fn listener_accepts(config: ConnectionHandlerConfig, events: Seq<ListenerEvent>) -> bool
    decreases events.len(),
{
    events.len() > 0 ==> {
        &&& listener_accepts(config, events.drop_last())
        &&& awaited(listener_after(config, events.drop_last()).0, events.last())
    }
}

/// Who connected last.
pub open spec fn last_peer(events: Seq<ListenerEvent>) -> Option<u32>
    decreases events.len(),
{
    if events.len() == 0 {
        None
    } else {
        match events.last() {
            ListenerEvent::Peer(cid) => cid,
            _ => last_peer(events.drop_last()),
        }
    }
}

/// Whatever happens, only connections of the configured virtual machine are served, and only with
/// the configured server or, by the connection protocol, with the one that it asked for.
pub proof fn only_the_configured_vm_is_served(
    config: ConnectionHandlerConfig,
    events: Seq<ListenerEvent>,
)
    requires
        listener_accepts(config, events),
    ensures
        listener_after(config, events).1 matches ActionView::Serve(addr) ==> {
            &&& last_peer(events) == Some(config.vm_cid)
            &&& if config.conproto {
                events.last() matches ListenerEvent::Request(Some(a)) && a@ == addr
            } else {
                config.server_addr matches Some(a) && a@ == addr
            }
        },
        listener_after(config, events).0 is Request ==> config.conproto && last_peer(events)
            == Some(config.vm_cid),
    decreases events.len(),
{
    if events.len() > 0 {
        only_the_configured_vm_is_served(config, events.drop_last());
    }
}

/// What a connection has come to after the given events.
pub open spec fn connection_after(
    addr: Seq<char>,
    timeout_secs: u64,
    conproto: bool,
    policed: bool,
    events: Seq<ConnectionEvent>,
) -> (ConnectionPhase, ConnectionAction)
    decreases events.len(),
{
    if events.len() == 0 {
        connection_start(addr, policed)
    } else {
        connection_next(
            timeout_secs,
            conproto,
            connection_after(addr, timeout_secs, conproto, policed, events.drop_last()).0,
            events.last(),
        )
    }
}

/// Whether each of the events was one that the connection waited for.
pub open spec fn connection_accepts(
    addr: Seq<char>,
    timeout_secs: u64,
    conproto: bool,
    policed: bool,
    events: Seq<ConnectionEvent>,
) -> bool
    decreases events.len(),
{
    events.len() > 0 ==> {
        &&& connection_accepts(addr, timeout_secs, conproto, policed, events.drop_last())
        &&& connection_awaits(
            connection_after(addr, timeout_secs, conproto, policed, events.drop_last()).0,
            events.last(),
        )
    }
}

/// How many attempts to connect failed.
pub open spec fn failed_attempts(events: Seq<ConnectionEvent>) -> nat
    decreases events.len(),
{
    if events.len() == 0 {
        0
    } else if events.last() == ConnectionEvent::Connected(false) {
        failed_attempts(events.drop_last()) + 1
    } else {
        failed_attempts(events.drop_last())
    }
}

/// Under a policy, a server is neither looked up nor connected to nor written to before the policy
/// has allowed it.
pub proof fn policy_comes_first(
    addr: Seq<char>,
    timeout_secs: u64,
    conproto: bool,
    events: Seq<ConnectionEvent>,
)
    requires
        connection_accepts(addr, timeout_secs, conproto, true, events),
    ensures
        ({
            let after = connection_after(addr, timeout_secs, conproto, true, events);
            let allowed = events.len() > 0 && events[0] == ConnectionEvent::Allowed(true);
            &&& after.1 is Resolve || after.1 is Connect || after.1 is Respond || after.1 is Relay
                ==> allowed
            &&& after.0 !is Policy && after.0 !is Ended ==> allowed
            &&& after.0 is Policy ==> events.len() == 0
        }),
    decreases events.len(),
{
    if events.len() > 0 {
        policy_comes_first(addr, timeout_secs, conproto, events.drop_last());
        if events.len() > 1 {
            assert(events.drop_last()[0] == events[0]);
        }
    }
}

/// The addresses of a server are tried one after the other from the first on: the next one is
/// tried after just as many failures as there are addresses before it.
pub proof fn addresses_are_tried_in_order(
    addr: Seq<char>,
    timeout_secs: u64,
    conproto: bool,
    policed: bool,
    events: Seq<ConnectionEvent>,
)
    requires
        connection_accepts(addr, timeout_secs, conproto, policed, events),
    ensures
        ({
            let after = connection_after(addr, timeout_secs, conproto, policed, events);
            &&& after.0 matches ConnectionPhase::Connecting { index, count } ==> index
                == failed_attempts(events) && index < count && after.1 == (
            ConnectionAction::Connect { index, timeout_secs })
            &&& (after.0 is Policy || after.0 is Resolution) ==> failed_attempts(events) == 0
        }),
    decreases events.len(),
{
    if events.len() > 0 {
        addresses_are_tried_in_order(addr, timeout_secs, conproto, policed, events.drop_last());
    }
}

/// A host without brackets around it and a port, written with a colon between them, split into that
/// host and port.
pub proof fn host_and_port_split_back(host: Seq<char>, port: u16)
    requires
        host.len() > 0 ==> host[0] != '[' && host.last() != ']',
    ensures
        host_and_port(host + seq![':'] + decimal(port as nat)) == Some((host, port)),
{
    let digits = decimal(port as nat);
    let addr = host + seq![':'] + digits;
    lemma_decimal(port as nat);
    decimal_parses_back(port as nat, u16::MAX as nat);
    lemma_last_index(addr, ':');
    assert(addr[host.len() as int] == ':');
    assert forall|k: int| host.len() < k < addr.len() implies addr[k] != ':' by {
        assert(addr[k] == digits[k - host.len() - 1]);
    }
    assert(last_index(addr, ':') == host.len());
    assert(addr.skip(host.len() as int + 1) =~= digits);
    assert(addr.take(host.len() as int) =~= host);
}

/// The contexts have the numbers 0, 1 and 2, and are described by them.
pub proof fn contexts_are_numbered()
    ensures
        VsockCid::Any.number() == 0,
        VsockCid::Local.number() == 1,
        VsockCid::Host.number() == 2,
        VsockCid::Any.text() == "any (CID=0)"@,
        VsockCid::Local.text() == "local (CID=1)"@,
        VsockCid::Host.text() == "host (CID=2)"@,
{
}

/// A connection of the configured virtual machine is served wherever there is a server to serve it
/// with: the configured one or, by the connection protocol, the one that the client asks for. Any
/// other connection is dropped, and the listener goes on.
pub proof fn connections_of_the_configured_vm_are_served(
    config: ConnectionHandlerConfig,
    peer: Option<u32>,
    request: Option<String>,
)
    ensures
        ({
            let seen = listener_next(config, ListenerEvent::Peer(peer));
            let asked = listener_next(config, ListenerEvent::Request(request));
            &&& peer is None || peer->0 != config.vm_cid ==> seen == (
                ListenerPhase::StopFlag,
                ActionView::CheckStop,
            )
            &&& peer == Some(config.vm_cid) && config.conproto ==> seen == (
                ListenerPhase::Request,
                ActionView::ReadRequest,
            )
            &&& peer == Some(config.vm_cid) && !config.conproto && config.server_addr is Some
                ==> seen == (ListenerPhase::Served, ActionView::Serve((config.server_addr->0)@))
            &&& peer == Some(config.vm_cid) && !config.conproto && config.server_addr is None
                ==> seen == (ListenerPhase::Ended, ActionView::End)
            &&& request is Some ==> asked == (
                ListenerPhase::Served,
                ActionView::Serve((request->0)@),
            )
            &&& request is None ==> asked == (ListenerPhase::StopFlag, ActionView::CheckStop)
        }),
{
}

/// The listener looks whether to stop, waits for somebody, accepts and finds out who it is in turn;
/// after each connection it looks again, and it ends where it is told to, or cannot wait or accept.
pub proof fn the_listener_goes_round(
    config: ConnectionHandlerConfig,
    ready: Option<bool>,
    event: ListenerEvent,
)
    ensures
        listener_next(config, ListenerEvent::StopFlag(true)) == (
            ListenerPhase::Ended,
            ActionView::End,
        ),
        listener_next(config, ListenerEvent::StopFlag(false)) == (
            ListenerPhase::Poll,
            ActionView::Poll,
        ),
        ready is None ==> listener_next(config, ListenerEvent::Polled(ready)) == (
            ListenerPhase::Ended,
            ActionView::End,
        ),
        ready == Some(true) ==> listener_next(config, ListenerEvent::Polled(ready)) == (
            ListenerPhase::Accept,
            ActionView::Accept,
        ),
        ready == Some(false) ==> listener_next(config, ListenerEvent::Polled(ready)) == (
            ListenerPhase::StopFlag,
            ActionView::CheckStop,
        ),
        listener_next(config, ListenerEvent::Accepted(true)) == (
            ListenerPhase::Peer,
            ActionView::GetPeer,
        ),
        listener_next(config, ListenerEvent::Accepted(false)) == (
            ListenerPhase::Ended,
            ActionView::End,
        ),
        listener_next(config, ListenerEvent::Served) == (
            ListenerPhase::StopFlag,
            ActionView::CheckStop,
        ),
        awaited(ListenerPhase::StopFlag, event) <==> event is StopFlag,
        awaited(ListenerPhase::Poll, event) <==> event is Polled,
        awaited(ListenerPhase::Accept, event) <==> event is Accepted,
        awaited(ListenerPhase::Peer, event) <==> event is Peer,
        awaited(ListenerPhase::Request, event) <==> event is Request,
        awaited(ListenerPhase::Served, event) <==> event is Served,
        !awaited(ListenerPhase::Ended, event),
{
}

/// A connection to an address that is no host and port ends at once; any other starts with the
/// question to the policy, where there is one, and otherwise with looking the server up.
pub proof fn connections_start_with_the_policy(addr: Seq<char>)
    ensures
        host_and_port(addr) is None ==> connection_start(addr, true) == (
            ConnectionPhase::Ended,
            ConnectionAction::End(Err(ConnectionError::InvalidAddress)),
        ) && connection_start(addr, false) == connection_start(addr, true),
        host_and_port(addr) is Some ==> connection_start(addr, true) == (
            ConnectionPhase::Policy,
            ConnectionAction::CheckPolicy,
        ) && connection_start(addr, false) == (
            ConnectionPhase::Resolution,
            ConnectionAction::Resolve,
        ),
{
}

/// What is wrong on a connection ends it with just that error: a server that is not allowed, cannot
/// be looked up or has no address that can be connected to, timeouts that cannot be set and a client
/// that cannot be told.
pub proof fn failed_connections_tell_why(
    timeout_secs: u64,
    conproto: bool,
    index: usize,
    count: usize,
)
    requires
        index < count,
    ensures
        connection_next(
            timeout_secs,
            conproto,
            ConnectionPhase::Policy,
            ConnectionEvent::Allowed(false),
        ) == (
            ConnectionPhase::Ended,
            ConnectionAction::End(Err(ConnectionError::NotAllowed)),
        ),
        connection_next(
            timeout_secs,
            conproto,
            ConnectionPhase::Resolution,
            ConnectionEvent::Resolved(None),
        ) == (
            ConnectionPhase::Ended,
            ConnectionAction::End(Err(ConnectionError::Unresolved)),
        ),
        connection_next(
            timeout_secs,
            conproto,
            ConnectionPhase::Resolution,
            ConnectionEvent::Resolved(Some(0)),
        ) == (ConnectionPhase::Ended, ConnectionAction::End(Err(ConnectionError::Refused))),
        index + 1 == count ==> connection_next(
            timeout_secs,
            conproto,
            ConnectionPhase::Connecting { index, count },
            ConnectionEvent::Connected(false),
        ) == (ConnectionPhase::Ended, ConnectionAction::End(Err(ConnectionError::Refused))),
        connection_next(
            timeout_secs,
            conproto,
            ConnectionPhase::ReadTimeout,
            ConnectionEvent::TimeoutSet(false),
        ) == (
            ConnectionPhase::Ended,
            ConnectionAction::End(Err(ConnectionError::ReadTimeout)),
        ),
        connection_next(
            timeout_secs,
            conproto,
            ConnectionPhase::WriteTimeout,
            ConnectionEvent::TimeoutSet(false),
        ) == (
            ConnectionPhase::Ended,
            ConnectionAction::End(Err(ConnectionError::WriteTimeout)),
        ),
        connection_next(
            timeout_secs,
            conproto,
            ConnectionPhase::Response,
            ConnectionEvent::Responded(false),
        ) == (ConnectionPhase::Ended, ConnectionAction::End(Err(ConnectionError::Response))),
{
}

/// A server that is allowed is looked up, its addresses are tried from the first on with the given
/// timeout until one can be connected to, both timeouts are set to a minute, the client is told
/// where the connection protocol is in use, and data is relayed until a side closes.
pub proof fn allowed_connections_are_made(
    timeout_secs: u64,
    conproto: bool,
    index: usize,
    count: usize,
)
    requires
        index < count,
    ensures
        connection_next(
            timeout_secs,
            conproto,
            ConnectionPhase::Policy,
            ConnectionEvent::Allowed(true),
        ) == (ConnectionPhase::Resolution, ConnectionAction::Resolve),
        connection_next(
            timeout_secs,
            conproto,
            ConnectionPhase::Resolution,
            ConnectionEvent::Resolved(Some(count)),
        ) == (
            ConnectionPhase::Connecting { index: 0, count },
            ConnectionAction::Connect { index: 0, timeout_secs },
        ),
        index + 1 < count ==> connection_next(
            timeout_secs,
            conproto,
            ConnectionPhase::Connecting { index, count },
            ConnectionEvent::Connected(false),
        ) == (
            ConnectionPhase::Connecting { index: (index + 1) as usize, count },
            ConnectionAction::Connect { index: (index + 1) as usize, timeout_secs },
        ),
        connection_next(
            timeout_secs,
            conproto,
            ConnectionPhase::Connecting { index, count },
            ConnectionEvent::Connected(true),
        ) == (ConnectionPhase::ReadTimeout, ConnectionAction::SetReadTimeout(60)),
        connection_next(
            timeout_secs,
            conproto,
            ConnectionPhase::ReadTimeout,
            ConnectionEvent::TimeoutSet(true),
        ) == (ConnectionPhase::WriteTimeout, ConnectionAction::SetWriteTimeout(60)),
        connection_next(
            timeout_secs,
            true,
            ConnectionPhase::WriteTimeout,
            ConnectionEvent::TimeoutSet(true),
        ) == (ConnectionPhase::Response, ConnectionAction::Respond),
        connection_next(
            timeout_secs,
            false,
            ConnectionPhase::WriteTimeout,
            ConnectionEvent::TimeoutSet(true),
        ) == (ConnectionPhase::Relaying, ConnectionAction::Relay),
        connection_next(
            timeout_secs,
            conproto,
            ConnectionPhase::Response,
            ConnectionEvent::Responded(true),
        ) == (ConnectionPhase::Relaying, ConnectionAction::Relay),
        connection_next(
            timeout_secs,
            conproto,
            ConnectionPhase::Relaying,
            ConnectionEvent::Relayed,
        ) == (ConnectionPhase::Ended, ConnectionAction::End(Ok(()))),
{
}

/// A connection waits for just one kind of event at a time, and for nothing once it has ended.
pub proof fn connections_wait_for_what_they_asked_for(
    index: usize,
    count: usize,
    event: ConnectionEvent,
)
    ensures
        connection_awaits(ConnectionPhase::Policy, event) <==> event is Allowed,
        connection_awaits(ConnectionPhase::Resolution, event) <==> event is Resolved,
        connection_awaits(ConnectionPhase::Connecting { index, count }, event) <==> event
            is Connected,
        connection_awaits(ConnectionPhase::ReadTimeout, event) <==> event is TimeoutSet,
        connection_awaits(ConnectionPhase::WriteTimeout, event) <==> event is TimeoutSet,
        connection_awaits(ConnectionPhase::Response, event) <==> event is Responded,
        connection_awaits(ConnectionPhase::Relaying, event) <==> event is Relayed,
        !connection_awaits(ConnectionPhase::Ended, event),
{
}

/// A server address is split at its last colon: what stands before it is the host, without the
/// brackets that it starts and ends with, and what follows it has to be a port number. Without a
/// colon, or without such a number, it is no server address.
pub proof fn server_addresses_split_at_the_last_colon(before: Seq<char>, after: Seq<char>)
    requires
        forall|i: int| 0 <= i < after.len() ==> after[i] != ':',
    ensures
        host_and_port(after) is None,
        ({
            let r = host_and_port(before.push(':') + after);
            match parse_unsigned(after, 65535) {
                Some(port) => r == Some((trim_end(trim_start(before, '['), ']'), port as u16)),
                None => r is None,
            }
        }),
{
    lemma_last_index(after, ':');
    let addr = before.push(':') + after;
    lemma_last_index(addr, ':');
    let at = before.len() as int;
    assert(addr[at] == ':');
    assert forall|k: int| at < k < addr.len() implies addr[k] != ':' by {
        assert(addr[k] == after[k - at - 1]);
    }
    assert(last_index(addr, ':') == at);
    assert(addr.skip(at + 1) =~= after);
    assert(addr.take(at) =~= before);
}

/// What the listener does is told as it is, with the whole address of the server.
pub proof fn actions_of_the_listener_are_told(addr: String)
    ensures
        ListenerAction::Serve(addr)@ == ActionView::Serve(addr@),
        ListenerAction::CheckStop@ is CheckStop,
        ListenerAction::Poll@ is Poll,
        ListenerAction::Accept@ is Accept,
        ListenerAction::GetPeer@ is GetPeer,
        ListenerAction::ReadRequest@ is ReadRequest,
        ListenerAction::End@ is End,
{
}

} // verus!
