//! Datagrams of one connection: each frame that a virtual machine sends is passed on to a UDP
//! server, and what that server answers is sent back.
use crate::text::{concat, decimal, u64_to_text};
use crate::vsock_proxy::frame::{header_bytes, DatagramHeader, HeaderView};
use crate::vsock_proxy::hostname_cache::{
    cleaning_keeps_consistency, insert_keeps_consistency, CacheView, HostnameCache, IpAddr,
};
use vstd::prelude::*;

verus! {

/// The size of a buffer for a datagram.
pub const DATAGRAM_BUFFER_SIZE: usize = 65536;

/// How many seconds a read or write on the connection may take.
pub const STREAM_TIMEOUT_SECS: u64 = 60;

/// How many milliseconds an answer may take.
pub const RESPONSE_TIMEOUT_MILLIS: u64 = 1000;

/// The address of a UDP server; the last two parts belong to version 6 of the protocol and are
/// zero for version 4.
#[derive(Debug, Clone, Copy, PartialEq, Eq, Structural)]
pub struct SocketAddr {
    pub ip: IpAddr,
    pub port: u16,
    pub flowinfo: u32,
    pub scope_id: u32,
}

/// A datagram on its way to a server.
#[derive(Debug)]
pub struct Packet {
    pub hostname: String,
    pub port: u16,
    pub payload: Vec<u8>,
}

/// A datagram on its way to a server.
pub struct PacketView {
    pub hostname: Seq<char>,
    pub port: u16,
    pub payload: Seq<u8>,
}

impl View for Packet {
    type V = PacketView;

    open spec fn view(&self) -> PacketView {
        PacketView { hostname: self.hostname@, port: self.port, payload: self.payload@ }
    }
}

/// Why a session failed.
#[derive(Debug, Clone, Copy, PartialEq, Eq, Structural)]
pub enum SessionError {
    /// The timeouts of the connection cannot be set.
    StreamTimeout,
    /// The host name cannot be resolved.
    Unresolved,
    /// The host name has no address.
    NoAddress,
    /// The datagram cannot be sent.
    Send,
    /// The timeout of the answer cannot be set.
    ResponseTimeout,
}

/// What a session waits for.
#[derive(Debug)]
pub enum SessionPhase {
    /// That the timeouts of the connection were set.
    StreamTimeouts,
    /// A frame.
    Frame,
    /// Whether the policy allows the server.
    Policy(Packet),
    /// The address of the server.
    Resolution(Packet),
    /// Whether the policy allows as many bytes.
    Charge(Packet, SocketAddr),
    /// That the datagram was sent.
    Sending(SocketAddr),
    /// That the timeout of the answer was set.
    ResponseTimeout(SocketAddr),
    /// The answer.
    Reception(SocketAddr),
    /// That the answer was passed on.
    Reply,
    /// Nothing: it has ended.
    Ended,
}

/// What a session waits for.
pub enum PhaseView {
    StreamTimeouts,
    Frame,
    Policy(PacketView),
    Resolution(PacketView),
    Charge(PacketView, SocketAddr),
    Sending(SocketAddr),
    ResponseTimeout(SocketAddr),
    Reception(SocketAddr),
    Reply,
    Ended,
}

impl View for SessionPhase {
    type V = PhaseView;

    open spec fn view(&self) -> PhaseView {
        match self {
            SessionPhase::StreamTimeouts => PhaseView::StreamTimeouts,
            SessionPhase::Frame => PhaseView::Frame,
            SessionPhase::Policy(p) => PhaseView::Policy(p@),
            SessionPhase::Resolution(p) => PhaseView::Resolution(p@),
            SessionPhase::Charge(p, a) => PhaseView::Charge(p@, *a),
            SessionPhase::Sending(a) => PhaseView::Sending(*a),
            SessionPhase::ResponseTimeout(a) => PhaseView::ResponseTimeout(*a),
            SessionPhase::Reception(a) => PhaseView::Reception(*a),
            SessionPhase::Reply => PhaseView::Reply,
            SessionPhase::Ended => PhaseView::Ended,
        }
    }
}

/// What happened to a session.
#[derive(Debug)]
pub enum SessionEvent {
    /// Whether the timeouts of the connection were set.
    StreamTimeoutsSet(bool),
    /// A frame, where one could be read before the connection was closed.
    Frame(Option<(DatagramHeader, Vec<u8>)>),
    /// Whether the policy allows the server.
    Allowed(bool),
    /// The addresses of the host name could not be found out, or the first of them.
    Resolved(Option<Option<SocketAddr>>),
    /// Whether the policy allows as many bytes.
    Charged(bool),
    /// Whether the datagram was sent.
    Sent(bool),
    /// Whether the timeout of the answer was set.
    ResponseTimeoutSet(bool),
    /// An answer and where it came from, where one came in time.
    Received(Option<(SocketAddr, Vec<u8>)>),
    /// Whether the answer was passed on.
    Replied(bool),
}

/// What happened to a session.
pub enum EventView {
    StreamTimeoutsSet(bool),
    Frame(Option<(HeaderView, Seq<u8>)>),
    Allowed(bool),
    Resolved(Option<Option<SocketAddr>>),
    Charged(bool),
    Sent(bool),
    ResponseTimeoutSet(bool),
    Received(Option<(SocketAddr, Seq<u8>)>),
    Replied(bool),
}

impl View for SessionEvent {
    type V = EventView;

    open spec fn view(&self) -> EventView {
        match self {
            SessionEvent::StreamTimeoutsSet(b) => EventView::StreamTimeoutsSet(*b),
            SessionEvent::Frame(f) => EventView::Frame(
                match f {
                    Some((h, p)) => Some((h@, p@)),
                    None => None,
                },
            ),
            SessionEvent::Allowed(b) => EventView::Allowed(*b),
            SessionEvent::Resolved(a) => EventView::Resolved(*a),
            SessionEvent::Charged(b) => EventView::Charged(*b),
            SessionEvent::Sent(b) => EventView::Sent(*b),
            SessionEvent::ResponseTimeoutSet(b) => EventView::ResponseTimeoutSet(*b),
            SessionEvent::Received(d) => EventView::Received(
                match d {
                    Some((a, p)) => Some((*a, p@)),
                    None => None,
                },
            ),
            SessionEvent::Replied(b) => EventView::Replied(*b),
        }
    }
}

/// What is done next in a session.
#[derive(Debug)]
pub enum SessionAction {
    /// Sets the timeouts of the connection, in seconds.
    SetStreamTimeouts(u64),
    /// Reads a frame.
    ReadFrame,
    /// Asks the policy about a host name and port.
    CheckPolicy(String, u16),
    /// Resolves a host name and port, written with a colon between them.
    Resolve(String),
    /// Charges the policy for bytes sent to a host name and port.
    Charge(String, u16, u64),
    /// Sends a datagram.
    Send(SocketAddr, Vec<u8>),
    /// Sets the timeout of the answer, in milliseconds.
    SetResponseTimeout(u64),
    /// Waits for an answer.
    Receive,
    /// Writes the bytes of a frame to the connection.
    Write(Vec<u8>),
    /// Ends; `log` tells whether the policy is to log what was sent.
    End { result: Result<(), SessionError>, log: bool },
}

/// What is done next in a session.
pub enum SessionActionView {
    SetStreamTimeouts(u64),
    ReadFrame,
    CheckPolicy(Seq<char>, u16),
    Resolve(Seq<char>),
    Charge(Seq<char>, u16, u64),
    Send(SocketAddr, Seq<u8>),
    SetResponseTimeout(u64),
    Receive,
    Write(Seq<u8>),
    End { result: Result<(), SessionError>, log: bool },
}

impl View for SessionAction {
    type V = SessionActionView;

    open spec fn view(&self) -> SessionActionView {
        match self {
            SessionAction::SetStreamTimeouts(t) => SessionActionView::SetStreamTimeouts(*t),
            SessionAction::ReadFrame => SessionActionView::ReadFrame,
            SessionAction::CheckPolicy(h, p) => SessionActionView::CheckPolicy(h@, *p),
            SessionAction::Resolve(s) => SessionActionView::Resolve(s@),
            SessionAction::Charge(h, p, n) => SessionActionView::Charge(h@, *p, *n),
            SessionAction::Send(a, d) => SessionActionView::Send(*a, d@),
            SessionAction::SetResponseTimeout(t) => SessionActionView::SetResponseTimeout(*t),
            SessionAction::Receive => SessionActionView::Receive,
            SessionAction::Write(b) => SessionActionView::Write(b@),
            SessionAction::End { result, log } => SessionActionView::End {
                result: *result,
                log: *log,
            },
        }
    }
}

/// Whether an event is one that a session waits for. An answer is no longer than a buffer.
pub open spec fn session_awaits(phase: PhaseView, event: EventView) -> bool {
    match phase {
        PhaseView::StreamTimeouts => event is StreamTimeoutsSet,
        PhaseView::Frame => event is Frame,
        PhaseView::Policy(_) => event is Allowed,
        PhaseView::Resolution(_) => event is Resolved,
        PhaseView::Charge(_, _) => event is Charged,
        PhaseView::Sending(_) => event is Sent,
        PhaseView::ResponseTimeout(_) => event is ResponseTimeoutSet,
        PhaseView::Reception(_) => event matches EventView::Received(d) && (d matches Some((_, p))
            ==> p.len() <= DATAGRAM_BUFFER_SIZE),
        PhaseView::Reply => event is Replied,
        PhaseView::Ended => false,
    }
}

/// What a session has come to: the cache, what it waits for and what is done.
pub struct SessionOutcome {
    pub cache: CacheView,
    pub phase: PhaseView,
    pub action: SessionActionView,
}

/// The next frame is read.
pub open spec fn next_frame(cache: CacheView) -> SessionOutcome {
    SessionOutcome { cache, phase: PhaseView::Frame, action: SessionActionView::ReadFrame }
}

/// The session ends in an orderly way.
pub open spec fn session_finish(cache: CacheView, policed: bool) -> SessionOutcome {
    SessionOutcome {
        cache,
        phase: PhaseView::Ended,
        action: SessionActionView::End { result: Ok(()), log: policed },
    }
}

/// The session ends with an error.
pub open spec fn session_fail(cache: CacheView, error: SessionError) -> SessionOutcome {
    SessionOutcome {
        cache,
        phase: PhaseView::Ended,
        action: SessionActionView::End { result: Err(error), log: false },
    }
}

/// A datagram whose destination is known: it is charged for under a policy, else sent.
pub open spec fn dispatch(
    cache: CacheView,
    policed: bool,
    packet: PacketView,
    dest: SocketAddr,
) -> SessionOutcome {
    if policed {
        SessionOutcome {
            cache,
            phase: PhaseView::Charge(packet, dest),
            action: SessionActionView::Charge(
                packet.hostname,
                packet.port,
                packet.payload.len() as u64,
            ),
        }
    } else {
        SessionOutcome {
            cache,
            phase: PhaseView::Sending(dest),
            action: SessionActionView::Send(dest, packet.payload),
        }
    }
}

/// A datagram whose server may be looked up: in the cache, else by resolving the host name.
pub open spec fn locate(
    cache: CacheView,
    policed: bool,
    packet: PacketView,
    now: u128,
) -> SessionOutcome {
    let cleaned = cache.cleaned(now);
    match cleaned.ip_of(packet.hostname, packet.port) {
        Some(ip) => dispatch(
            cleaned,
            policed,
            packet,
            SocketAddr { ip, port: packet.port, flowinfo: 0, scope_id: 0 },
        ),
        None => SessionOutcome {
            cache: cleaned,
            phase: PhaseView::Resolution(packet),
            action: SessionActionView::Resolve(
                packet.hostname + ":"@ + decimal(packet.port as nat),
            ),
        },
    }
}

/// An answer: one of another origin than the destination ends the session, as does one of an
/// address that is no longer known; any other is passed on with the host name of the address.
pub open spec fn answer(
    cache: CacheView,
    policed: bool,
    dest: SocketAddr,
    origin: SocketAddr,
    data: Seq<u8>,
    now: u128,
) -> SessionOutcome {
    if origin != dest {
        session_finish(cache, policed)
    } else {
        let cleaned = cache.cleaned(now);
        let used = cleaned.touched(origin.ip, now);
        match cleaned.hostname_of(origin.ip) {
            None => session_finish(used, policed),
            Some((hostname, port)) => SessionOutcome {
                cache: used,
                phase: PhaseView::Reply,
                action: SessionActionView::Write(
                    header_bytes(HeaderView { hostname, port, payload_len: data.len() as u32 })
                        + data,
                ),
            },
        }
    }
}

/// What an event in a session leads to.
pub open spec fn session_next(
    cache: CacheView,
    policed: bool,
    phase: PhaseView,
    event: EventView,
    now: u128,
) -> SessionOutcome {
    match (phase, event) {
        (PhaseView::StreamTimeouts, EventView::StreamTimeoutsSet(ok)) => if ok {
            next_frame(cache)
        } else {
            session_fail(cache, SessionError::StreamTimeout)
        },
        (PhaseView::Frame, EventView::Frame(frame)) => match frame {
            None => session_finish(cache, policed),
            Some((header, payload)) => {
                let packet = PacketView { hostname: header.hostname, port: header.port, payload };
                if policed {
                    SessionOutcome {
                        cache,
                        phase: PhaseView::Policy(packet),
                        action: SessionActionView::CheckPolicy(packet.hostname, packet.port),
                    }
                } else {
                    locate(cache, policed, packet, now)
                }
            },
        },
        (PhaseView::Policy(packet), EventView::Allowed(allowed)) => if allowed {
            locate(cache, policed, packet, now)
        } else {
            next_frame(cache)
        },
        (PhaseView::Resolution(packet), EventView::Resolved(found)) => match found {
            None => session_fail(cache, SessionError::Unresolved),
            Some(None) => session_fail(cache, SessionError::NoAddress),
            Some(Some(addr)) => dispatch(
                cache.inserted(addr.ip, packet.hostname, packet.port, now),
                policed,
                packet,
                addr,
            ),
        },
        (PhaseView::Charge(packet, dest), EventView::Charged(allowed)) => if allowed {
            SessionOutcome {
                cache,
                phase: PhaseView::Sending(dest),
                action: SessionActionView::Send(dest, packet.payload),
            }
        } else {
            next_frame(cache)
        },
        (PhaseView::Sending(dest), EventView::Sent(ok)) => if ok {
            SessionOutcome {
                cache,
                phase: PhaseView::ResponseTimeout(dest),
                action: SessionActionView::SetResponseTimeout(RESPONSE_TIMEOUT_MILLIS),
            }
        } else {
            session_fail(cache, SessionError::Send)
        },
        (PhaseView::ResponseTimeout(dest), EventView::ResponseTimeoutSet(ok)) => if ok {
            SessionOutcome {
                cache,
                phase: PhaseView::Reception(dest),
                action: SessionActionView::Receive,
            }
        } else {
            session_fail(cache, SessionError::ResponseTimeout)
        },
        (PhaseView::Reception(dest), EventView::Received(received)) => match received {
            None => next_frame(cache),
            Some((origin, data)) => answer(cache, policed, dest, origin, data, now),
        },
        (PhaseView::Reply, EventView::Replied(ok)) => if ok {
            next_frame(cache)
        } else {
            session_finish(cache, policed)
        },
        _ => session_finish(cache, policed),
    }
}

/// The datagrams of one connection.
#[derive(Debug)]
pub struct DatagramSession {
    policed: bool,
    phase: SessionPhase,
}

impl DatagramSession {
    pub closed spec fn spec_policed(&self) -> bool {
        self.policed
    }

    pub closed spec fn spec_phase(&self) -> PhaseView {
        self.phase@
    }

    /// Starts a session, under a policy or without one: the timeouts of the connection are set
    /// first.
    pub fn handle_vsock_datagrams_over_stream(policed: bool) -> (r: (
        DatagramSession,
        SessionAction,
    ))
        ensures
            r.0.spec_policed() == policed,
            r.0.spec_phase() == PhaseView::StreamTimeouts,
            r.1@ == SessionActionView::SetStreamTimeouts(STREAM_TIMEOUT_SECS),
            r.1@ == SessionActionView::SetStreamTimeouts(60),
    {
        (
            DatagramSession { policed, phase: SessionPhase::StreamTimeouts },
            SessionAction::SetStreamTimeouts(STREAM_TIMEOUT_SECS),
        )
    }

    /// Decides what is done next, at the time `now`.
    pub fn step(&mut self, cache: &mut HostnameCache, event: SessionEvent, now: u128) -> (r:
        SessionAction)
        requires
            old(cache).wf(),
            session_awaits(old(self).spec_phase(), event@),
        ensures
            final(cache).wf(),
            final(self).spec_policed() == old(self).spec_policed(),
            (SessionOutcome {
                cache: final(cache)@,
                phase: final(self).spec_phase(),
                action: r@,
            }) == session_next(
                old(cache)@,
                old(self).spec_policed(),
                old(self).spec_phase(),
                event@,
                now,
            ),
    {
        let mut phase: SessionPhase = SessionPhase::Ended;
        core::mem::swap(&mut self.phase, &mut phase);
        match (phase, event) {
            (SessionPhase::StreamTimeouts, SessionEvent::StreamTimeoutsSet(ok)) => {
                if ok {
                    self.read_next()
                } else {
                    SessionAction::End { result: Err(SessionError::StreamTimeout), log: false }
                }
            },
            (SessionPhase::Frame, SessionEvent::Frame(frame)) => match frame {
                None => self.finish(),
                Some((header, payload)) => {
                    let packet = Packet { hostname: header.hostname, port: header.port, payload };
                    if self.policed {
                        let hostname: String = packet.hostname.clone();
                        let port: u16 = packet.port;
                        self.phase = SessionPhase::Policy(packet);
                        SessionAction::CheckPolicy(hostname, port)
                    } else {
                        self.look_up(cache, packet, now)
                    }
                },
            },
            (SessionPhase::Policy(packet), SessionEvent::Allowed(allowed)) => {
                if allowed {
                    self.look_up(cache, packet, now)
                } else {
                    self.read_next()
                }
            },
            (SessionPhase::Resolution(packet), SessionEvent::Resolved(found)) => match found {
                None => SessionAction::End { result: Err(SessionError::Unresolved), log: false },
                Some(None) => {
                    SessionAction::End { result: Err(SessionError::NoAddress), log: false }
                },
                Some(Some(addr)) => {
                    cache.insert(addr.ip, packet.hostname.clone(), packet.port, now);
                    self.send_to(packet, addr)
                },
            },
            (SessionPhase::Charge(packet, dest), SessionEvent::Charged(allowed)) => {
                if allowed {
                    self.phase = SessionPhase::Sending(dest);
                    SessionAction::Send(dest, packet.payload)
                } else {
                    self.read_next()
                }
            },
            (SessionPhase::Sending(dest), SessionEvent::Sent(ok)) => {
                if ok {
                    self.phase = SessionPhase::ResponseTimeout(dest);
                    SessionAction::SetResponseTimeout(RESPONSE_TIMEOUT_MILLIS)
                } else {
                    SessionAction::End { result: Err(SessionError::Send), log: false }
                }
            },
            (SessionPhase::ResponseTimeout(dest), SessionEvent::ResponseTimeoutSet(ok)) => {
                if ok {
                    self.phase = SessionPhase::Reception(dest);
                    SessionAction::Receive
                } else {
                    SessionAction::End { result: Err(SessionError::ResponseTimeout), log: false }
                }
            },
            (SessionPhase::Reception(dest), SessionEvent::Received(received)) => match received {
                None => self.read_next(),
                Some((origin, data)) => self.respond(cache, dest, origin, data, now),
            },
            (SessionPhase::Reply, SessionEvent::Replied(ok)) => {
                if ok {
                    self.read_next()
                } else {
                    self.finish()
                }
            },
            _ => self.finish(),
        }
    }

    fn read_next(&mut self) -> (r: SessionAction)
        ensures
            final(self).spec_policed() == old(self).spec_policed(),
            final(self).spec_phase() == PhaseView::Frame,
            r@ == SessionActionView::ReadFrame,
    {
        self.phase = SessionPhase::Frame;
        SessionAction::ReadFrame
    }

    fn finish(&mut self) -> (r: SessionAction)
        ensures
            final(self).spec_policed() == old(self).spec_policed(),
            final(self).spec_phase() == PhaseView::Ended,
            r@ == (SessionActionView::End { result: Ok(()), log: old(self).spec_policed() }),
    {
        self.phase = SessionPhase::Ended;
        SessionAction::End { result: Ok(()), log: self.policed }
    }

    fn send_to(&mut self, packet: Packet, dest: SocketAddr) -> (r: SessionAction)
        ensures
            final(self).spec_policed() == old(self).spec_policed(),
            forall|cache: CacheView|
                (SessionOutcome { cache, phase: final(self).spec_phase(), action: r@ })
                    == #[trigger] dispatch(cache, old(self).spec_policed(), packet@, dest),
    {
        if self.policed {
            let hostname: String = packet.hostname.clone();
            let port: u16 = packet.port;
            let bytes: u64 = packet.payload.len() as u64;
            self.phase = SessionPhase::Charge(packet, dest);
            SessionAction::Charge(hostname, port, bytes)
        } else {
            self.phase = SessionPhase::Sending(dest);
            SessionAction::Send(dest, packet.payload)
        }
    }

    fn look_up(&mut self, cache: &mut HostnameCache, packet: Packet, now: u128) -> (r:
        SessionAction)
        requires
            old(cache).wf(),
        ensures
            final(cache).wf(),
            final(self).spec_policed() == old(self).spec_policed(),
            (SessionOutcome {
                cache: final(cache)@,
                phase: final(self).spec_phase(),
                action: r@,
            }) == locate(old(cache)@, old(self).spec_policed(), packet@, now),
    {
        match cache.get_ip(packet.hostname.as_str(), packet.port, now) {
            Some(ip) => {
                let dest = SocketAddr { ip, port: packet.port, flowinfo: 0, scope_id: 0 };
                self.send_to(packet, dest)
            },
            None => {
                let target: String = concat(packet.hostname.as_str(), ":");
                let port: String = u64_to_text(packet.port as u64);
                let target: String = concat(target.as_str(), port.as_str());
                self.phase = SessionPhase::Resolution(packet);
                SessionAction::Resolve(target)
            },
        }
    }

    fn respond(
        &mut self,
        cache: &mut HostnameCache,
        dest: SocketAddr,
        origin: SocketAddr,
        data: Vec<u8>,
        now: u128,
    ) -> (r: SessionAction)
        requires
            old(cache).wf(),
            data@.len() <= DATAGRAM_BUFFER_SIZE,
        ensures
            final(cache).wf(),
            final(self).spec_policed() == old(self).spec_policed(),
            (SessionOutcome {
                cache: final(cache)@,
                phase: final(self).spec_phase(),
                action: r@,
            }) == answer(old(cache)@, old(self).spec_policed(), dest, origin, data@, now),
    {
        if origin != dest {
            return self.finish();
        }
        match cache.get_hostname(&origin.ip, origin.port, now) {
            None => self.finish(),
            Some((hostname, port)) => {
                let header = DatagramHeader { hostname, port, payload_len: data.len() as u32 };
                let mut frame: Vec<u8> = Vec::new();
                let _ = header.write_to_stream(&mut frame, data.as_slice());
                assert(frame@ =~= header_bytes(header@) + data@);
                self.phase = SessionPhase::Reply;
                SessionAction::Write(frame)
            },
        }
    }
}

// ---------------------------------------------------------------------------
// Laws
// ---------------------------------------------------------------------------

/// What a session has come to after the given events and the times at which they happened.
pub open spec fn session_after(
    cache: CacheView,
    policed: bool,
    events: Seq<(EventView, u128)>,
) -> SessionOutcome
    decreases events.len(),
{
    if events.len() == 0 {
        SessionOutcome {
            cache,
            phase: PhaseView::StreamTimeouts,
            action: SessionActionView::SetStreamTimeouts(STREAM_TIMEOUT_SECS),
        }
    } else {
        let before = session_after(cache, policed, events.drop_last());
        session_next(before.cache, policed, before.phase, events.last().0, events.last().1)
    }
}

/// Whether each of the events was one that the session waited for.
pub open spec fn session_accepts(
    cache: CacheView,
    policed: bool,
    events: Seq<(EventView, u128)>,
) -> bool
    decreases events.len(),
{
    events.len() > 0 ==> {
        &&& session_accepts(cache, policed, events.drop_last())
        &&& session_awaits(
            session_after(cache, policed, events.drop_last()).phase,
            events.last().0,
        )
    }
}

/// Whether the policy has allowed the server of the last frame.
pub open spec fn allowed_since_frame(events: Seq<(EventView, u128)>) -> bool
    decreases events.len(),
{
    if events.len() == 0 {
        false
    } else {
        match events.last().0 {
            EventView::Frame(_) => false,
            EventView::Allowed(allowed) => allowed,
            _ => allowed_since_frame(events.drop_last()),
        }
    }
}

/// The last frame.
pub open spec fn last_frame(events: Seq<(EventView, u128)>) -> Option<(HeaderView, Seq<u8>)>
    decreases events.len(),
{
    if events.len() == 0 {
        None
    } else {
        match events.last().0 {
            EventView::Frame(frame) => frame,
            _ => last_frame(events.drop_last()),
        }
    }
}

/// Whether a packet is the last frame.
pub open spec fn is_last_frame(packet: PacketView, events: Seq<(EventView, u128)>) -> bool {
    last_frame(events) matches Some((h, payload)) && packet.hostname == h.hostname && packet.port
        == h.port && packet.payload == payload
}

/// Under a policy, no host name is resolved and no datagram is sent before the policy has allowed
/// the server of the frame, and no datagram is sent before the policy has allowed its bytes.
/// Whatever is sent is the payload of the last frame.
pub proof fn datagrams_pass_the_policy(
    cache: CacheView,
    policed: bool,
    events: Seq<(EventView, u128)>,
)
    requires
        session_accepts(cache, policed, events),
    ensures
        ({
            let after = session_after(cache, policed, events);
            let allowed = policed ==> allowed_since_frame(events);
            &&& match after.action {
                SessionActionView::Resolve(_) => allowed,
                SessionActionView::Send(_, payload) => allowed && (policed ==> events.last().0
                    == EventView::Charged(true)) && (last_frame(events) matches Some((_, p)) && payload
                    == p),
                _ => true,
            }
            &&& match after.phase {
                PhaseView::Policy(p) => policed && is_last_frame(p, events),
                PhaseView::Resolution(p) => allowed && is_last_frame(p, events),
                PhaseView::Charge(p, _) => policed && allowed && is_last_frame(p, events),
                _ => true,
            }
        }),
    decreases events.len(),
{
    if events.len() > 0 {
        datagrams_pass_the_policy(cache, policed, events.drop_last());
    }
}

/// What is written back is an answer of the very address that the last datagram was sent to, under
/// the host name that the cache holds for that address.
pub proof fn replies_come_from_the_destination(
    cache: CacheView,
    policed: bool,
    phase: PhaseView,
    event: EventView,
    now: u128,
)
    requires
        session_awaits(phase, event),
    ensures
        session_next(cache, policed, phase, event, now).action matches SessionActionView::Write(
            frame,
        ) ==> {
            &&& phase matches PhaseView::Reception(dest)
            &&& event matches EventView::Received(Some((origin, data)))
            &&& origin == dest
            &&& cache.cleaned(now).hostname_of(dest.ip) matches Some((hostname, port))
            &&& frame == header_bytes(
                HeaderView { hostname, port, payload_len: data.len() as u32 },
            ) + data
        },
{
}

/// However a session goes on, the two directions of the cache stay together.
pub proof fn sessions_keep_the_cache_consistent(
    cache: CacheView,
    policed: bool,
    phase: PhaseView,
    event: EventView,
    now: u128,
)
    requires
        cache.consistent(),
    ensures
        session_next(cache, policed, phase, event, now).cache.consistent(),
{
    cleaning_keeps_consistency(cache, now);
    match (phase, event) {
        (PhaseView::Resolution(packet), EventView::Resolved(Some(Some(addr)))) => {
            insert_keeps_consistency(cache, addr.ip, packet.hostname, packet.port, now);
        },
        (PhaseView::Reception(_), EventView::Received(Some((origin, _)))) => {
            let cleaned = cache.cleaned(now);
            let used = cleaned.touched(origin.ip, now);
            assert forall|k: (Seq<char>, u16)| #[trigger]
                used.reverse.contains_key(k) implies used.forward.contains_key(used.reverse[k])
                && used.forward[used.reverse[k]].key() == k by {
                assert(cleaned.reverse.contains_key(k));
            }
        },
        _ => {},
    }
}

/// The server that the datagram of the last frame is for, as far as it is known: the address that
/// resolving its host name gave, or the one that the cache held for its host name and port, with the
/// port of the frame, when the frame was read or, under a policy, when its server was allowed.
pub open spec fn known_server(
    cache: CacheView,
    policed: bool,
    events: Seq<(EventView, u128)>,
) -> Option<SocketAddr>
    decreases events.len(),
{
    if events.len() == 0 {
        None
    } else {
        let earlier = events.drop_last();
        let looks_up = match events.last().0 {
            EventView::Frame(_) => !policed,
            EventView::Allowed(allowed) => policed && allowed,
            _ => false,
        };
        match events.last().0 {
            EventView::Resolved(found) => match found {
                Some(first) => first,
                None => None,
            },
            EventView::Frame(_) | EventView::Allowed(_) => match last_frame(events) {
                Some((h, _)) => {
                    let held = session_after(cache, policed, earlier).cache.cleaned(
                        events.last().1,
                    ).ip_of(h.hostname, h.port);
                    if looks_up && held is Some {
                        Some(SocketAddr { ip: held->0, port: h.port, flowinfo: 0, scope_id: 0 })
                    } else {
                        None
                    }
                },
                None => None,
            },
            _ => known_server(cache, policed, earlier),
        }
    }
}

/// Whatever is sent goes to the server that the last frame names: to the address that the cache held
/// for its host name, at the frame's own port, or to the address that resolving it gave. The same
/// address is charged for and waited for.
pub proof fn datagrams_go_to_the_server_of_their_frame(
    cache: CacheView,
    policed: bool,
    events: Seq<(EventView, u128)>,
)
    requires
        session_accepts(cache, policed, events),
    ensures
        ({
            let after = session_after(cache, policed, events);
            let server = known_server(cache, policed, events);
            &&& after.action matches SessionActionView::Send(dest, payload) ==> server == Some(dest)
                && (last_frame(events) matches Some((_, p)) && payload == p)
            &&& after.action matches SessionActionView::Charge(hostname, port, bytes) ==> server
                is Some && (last_frame(events) matches Some((h, p)) && hostname == h.hostname
                && port == h.port && bytes == p.len() as u64)
            &&& after.action matches SessionActionView::CheckPolicy(hostname, port) ==> (last_frame(
                events,
            ) matches Some((h, _)) && hostname == h.hostname && port == h.port)
            &&& after.action matches SessionActionView::Resolve(target) ==> (last_frame(
                events,
            ) matches Some((h, _)) && target == h.hostname.push(':') + decimal(h.port as nat))
            &&& match after.phase {
                PhaseView::Policy(p) => is_last_frame(p, events),
                PhaseView::Resolution(p) => is_last_frame(p, events),
                PhaseView::Charge(p, dest) => is_last_frame(p, events) && server == Some(dest),
                PhaseView::Sending(dest) => server == Some(dest),
                PhaseView::ResponseTimeout(dest) => server == Some(dest),
                PhaseView::Reception(dest) => server == Some(dest),
                _ => true,
            }
        }),
    decreases events.len(),
{
    if events.len() > 0 {
        datagrams_go_to_the_server_of_their_frame(cache, policed, events.drop_last());
        reveal_strlit(":");
        let after = session_after(cache, policed, events);
        if after.action is Resolve {
            let h = (last_frame(events)->0).0;
            assert(h.hostname + ":"@ + decimal(h.port as nat) =~= h.hostname.push(':') + decimal(
                h.port as nat,
            ));
        }
    }
}

/// A frame is passed on without delay where there is no policy, and after the policy has allowed its
/// server where there is one: to the address that the cache still holds for its host name and port,
/// else its host name and port are resolved. Looking it up drops what has expired and nothing else.
pub proof fn frames_are_looked_up(
    cache: CacheView,
    header: HeaderView,
    payload: Seq<u8>,
    now: u128,
)
    ensures
        ({
            let packet = PacketView { hostname: header.hostname, port: header.port, payload };
            let frame = EventView::Frame(Some((header, payload)));
            let free = session_next(cache, false, PhaseView::Frame, frame, now);
            let asked = session_next(cache, true, PhaseView::Frame, frame, now);
            let allowed = session_next(
                cache,
                true,
                PhaseView::Policy(packet),
                EventView::Allowed(true),
                now,
            );
            let held = cache.cleaned(now).ip_of(header.hostname, header.port);
            let dest = SocketAddr { ip: held->0, port: header.port, flowinfo: 0, scope_id: 0 };
            let target = header.hostname.push(':') + decimal(header.port as nat);
            &&& asked.cache == cache
            &&& asked.phase == PhaseView::Policy(packet)
            &&& asked.action == SessionActionView::CheckPolicy(header.hostname, header.port)
            &&& free.cache == cache.cleaned(now) && allowed.cache == cache.cleaned(now)
            &&& held is Some ==> {
                &&& free.phase == PhaseView::Sending(dest)
                &&& free.action == SessionActionView::Send(dest, payload)
                &&& allowed.phase == PhaseView::Charge(packet, dest)
                &&& allowed.action == SessionActionView::Charge(
                    header.hostname,
                    header.port,
                    payload.len() as u64,
                )
            }
            &&& held is None ==> {
                &&& free.phase == PhaseView::Resolution(packet)
                &&& free.action == SessionActionView::Resolve(target)
                &&& allowed.phase == free.phase
                &&& allowed.action == free.action
            }
        }),
{
    reveal_strlit(":");
    assert(header.hostname + ":"@ + decimal(header.port as nat) =~= header.hostname.push(':')
        + decimal(header.port as nat));
}

/// A server or a number of bytes that the policy refuses costs that one datagram: the next frame is
/// read, and the cache stays as it is.
pub proof fn refused_datagrams_are_skipped(
    cache: CacheView,
    packet: PacketView,
    dest: SocketAddr,
    now: u128,
)
    ensures
        ({
            let denied = session_next(
                cache,
                true,
                PhaseView::Policy(packet),
                EventView::Allowed(false),
                now,
            );
            let over_limit = session_next(
                cache,
                true,
                PhaseView::Charge(packet, dest),
                EventView::Charged(false),
                now,
            );
            let paid = session_next(
                cache,
                true,
                PhaseView::Charge(packet, dest),
                EventView::Charged(true),
                now,
            );
            &&& denied.phase is Frame && denied.action is ReadFrame && denied.cache == cache
            &&& over_limit.phase is Frame && over_limit.action is ReadFrame && over_limit.cache
                == cache
            &&& paid.phase == PhaseView::Sending(dest) && paid.action == SessionActionView::Send(
                dest,
                packet.payload,
            ) && paid.cache == cache
        }),
{
}

/// A host name that was resolved is remembered with the port of its frame, and the datagram goes to
/// the first of its addresses as that was given; one that cannot be resolved, or has no address,
/// ends the session.
pub proof fn resolved_addresses_are_used_and_remembered(
    cache: CacheView,
    policed: bool,
    packet: PacketView,
    addr: SocketAddr,
    now: u128,
)
    ensures
        ({
            let phase = PhaseView::Resolution(packet);
            let found = session_next(
                cache,
                policed,
                phase,
                EventView::Resolved(Some(Some(addr))),
                now,
            );
            let nothing = session_next(cache, policed, phase, EventView::Resolved(Some(None)), now);
            let failed = session_next(cache, policed, phase, EventView::Resolved(None), now);
            &&& found.cache == cache.inserted(addr.ip, packet.hostname, packet.port, now)
            &&& policed ==> found.phase == PhaseView::Charge(packet, addr) && found.action
                == SessionActionView::Charge(
                packet.hostname,
                packet.port,
                packet.payload.len() as u64,
            )
            &&& !policed ==> found.phase == PhaseView::Sending(addr) && found.action
                == SessionActionView::Send(addr, packet.payload)
            &&& nothing.action == (SessionActionView::End {
                result: Err(SessionError::NoAddress),
                log: false,
            }) && nothing.phase is Ended && nothing.cache == cache
            &&& failed.action == (SessionActionView::End {
                result: Err(SessionError::Unresolved),
                log: false,
            }) && failed.phase is Ended && failed.cache == cache
        }),
{
}

/// After a datagram was sent its answer is waited for, for a second; an answer that does not come
/// lets the session go on, while a datagram that cannot be sent ends it.
pub proof fn answers_are_waited_for(cache: CacheView, policed: bool, dest: SocketAddr, now: u128)
    ensures
        ({
            let sent = session_next(
                cache,
                policed,
                PhaseView::Sending(dest),
                EventView::Sent(true),
                now,
            );
            let stuck = session_next(
                cache,
                policed,
                PhaseView::Sending(dest),
                EventView::Sent(false),
                now,
            );
            let timed = session_next(
                cache,
                policed,
                PhaseView::ResponseTimeout(dest),
                EventView::ResponseTimeoutSet(true),
                now,
            );
            let untimed = session_next(
                cache,
                policed,
                PhaseView::ResponseTimeout(dest),
                EventView::ResponseTimeoutSet(false),
                now,
            );
            let silent = session_next(
                cache,
                policed,
                PhaseView::Reception(dest),
                EventView::Received(None),
                now,
            );
            &&& sent.phase == PhaseView::ResponseTimeout(dest) && sent.action
                == SessionActionView::SetResponseTimeout(1000) && sent.cache == cache
            &&& timed.phase == PhaseView::Reception(dest) && timed.action is Receive && timed.cache
                == cache
            &&& silent.phase is Frame && silent.action is ReadFrame && silent.cache == cache
            &&& stuck.phase is Ended && stuck.action == (SessionActionView::End {
                result: Err(SessionError::Send),
                log: false,
            }) && stuck.cache == cache
            &&& untimed.phase is Ended && untimed.action == (SessionActionView::End {
                result: Err(SessionError::ResponseTimeout),
                log: false,
            }) && untimed.cache == cache
        }),
{
}

/// An answer of the server is passed on whole, under the host name and port that are known of its
/// address, which thereby counts as used; an answer of any other address or port, or of an address
/// that is no longer known, is not passed on and ends the session.
pub proof fn answers_are_passed_on(
    cache: CacheView,
    policed: bool,
    dest: SocketAddr,
    origin: SocketAddr,
    data: Seq<u8>,
    now: u128,
)
    requires
        data.len() <= DATAGRAM_BUFFER_SIZE,
    ensures
        ({
            let r = session_next(
                cache,
                policed,
                PhaseView::Reception(dest),
                EventView::Received(Some((origin, data))),
                now,
            );
            let known = cache.cleaned(now).hostname_of(dest.ip);
            if origin != dest {
                r.phase is Ended && r.action == (SessionActionView::End {
                    result: Ok(()),
                    log: policed,
                }) && r.cache == cache
            } else if known is None {
                r.phase is Ended && r.action == (SessionActionView::End {
                    result: Ok(()),
                    log: policed,
                }) && r.cache == cache.cleaned(now).touched(dest.ip, now)
            } else {
                &&& r.phase is Reply
                &&& r.cache == cache.cleaned(now).touched(dest.ip, now)
                &&& r.action == SessionActionView::Write(
                    header_bytes(
                        HeaderView {
                            hostname: (known->0).0,
                            port: (known->0).1,
                            payload_len: data.len() as u32,
                        },
                    ) + data,
                )
            }
        }),
{
}

/// The session goes on with the next frame after the timeouts were set and after each answer that
/// was passed on; it ends in order when the connection is closed or cannot be written to, and then
/// tells a policy to log.
pub proof fn sessions_read_frame_after_frame(cache: CacheView, policed: bool, now: u128)
    ensures
        ({
            let ready = session_next(
                cache,
                policed,
                PhaseView::StreamTimeouts,
                EventView::StreamTimeoutsSet(true),
                now,
            );
            let unready = session_next(
                cache,
                policed,
                PhaseView::StreamTimeouts,
                EventView::StreamTimeoutsSet(false),
                now,
            );
            let replied = session_next(
                cache,
                policed,
                PhaseView::Reply,
                EventView::Replied(true),
                now,
            );
            let broken = session_next(
                cache,
                policed,
                PhaseView::Reply,
                EventView::Replied(false),
                now,
            );
            let closed = session_next(cache, policed, PhaseView::Frame, EventView::Frame(None), now);
            let orderly = SessionActionView::End { result: Ok(()), log: policed };
            &&& ready.phase is Frame && ready.action is ReadFrame && ready.cache == cache
            &&& replied.phase is Frame && replied.action is ReadFrame && replied.cache == cache
            &&& broken.phase is Ended && broken.action == orderly && broken.cache == cache
            &&& closed.phase is Ended && closed.action == orderly && closed.cache == cache
            &&& unready.phase is Ended && unready.action == (SessionActionView::End {
                result: Err(SessionError::StreamTimeout),
                log: false,
            }) && unready.cache == cache
        }),
{
}

/// A session waits for just one kind of event at a time, and for nothing once it has ended.
pub proof fn sessions_wait_for_what_they_asked_for(
    packet: PacketView,
    dest: SocketAddr,
    event: EventView,
)
    ensures
        session_awaits(PhaseView::StreamTimeouts, event) <==> event is StreamTimeoutsSet,
        session_awaits(PhaseView::Frame, event) <==> event is Frame,
        session_awaits(PhaseView::Policy(packet), event) <==> event is Allowed,
        session_awaits(PhaseView::Resolution(packet), event) <==> event is Resolved,
        session_awaits(PhaseView::Charge(packet, dest), event) <==> event is Charged,
        session_awaits(PhaseView::Sending(dest), event) <==> event is Sent,
        session_awaits(PhaseView::ResponseTimeout(dest), event) <==> event is ResponseTimeoutSet,
        session_awaits(PhaseView::Reception(dest), EventView::Received(None)),
        forall|origin: SocketAddr, data: Seq<u8>| #[trigger]
            session_awaits(PhaseView::Reception(dest), EventView::Received(Some((origin, data))))
                <==> data.len() <= 65536,
        session_awaits(PhaseView::Reception(dest), event) ==> event is Received,
        session_awaits(PhaseView::Reply, event) <==> event is Replied,
        !session_awaits(PhaseView::Ended, event),
{
}

/// What is said of a packet, of an event and of an action is all of what it holds: host names,
/// ports, addresses, and payloads of whatever length.
pub proof fn nothing_is_left_out_of_a_session(
    packet: Packet,
    header: DatagramHeader,
    payload: Vec<u8>,
    text: String,
    addr: SocketAddr,
    number: u64,
    port: u16,
    ok: bool,
)
    ensures
        packet@.hostname == packet.hostname@ && packet@.port == packet.port && packet@.payload
            == packet.payload@,
        SessionEvent::Frame(Some((header, payload)))@ == EventView::Frame(
            Some(
                (
                    HeaderView {
                        hostname: header.hostname@,
                        port: header.port,
                        payload_len: header.payload_len,
                    },
                    payload@,
                ),
            ),
        ),
        SessionEvent::Frame(None)@ == EventView::Frame(None),
        SessionEvent::Received(Some((addr, payload)))@ == EventView::Received(
            Some((addr, payload@)),
        ),
        SessionEvent::Received(None)@ == EventView::Received(None),
        SessionEvent::Resolved(Some(Some(addr)))@ == EventView::Resolved(Some(Some(addr))),
        SessionEvent::Resolved(Some(None))@ == EventView::Resolved(Some(None)),
        SessionEvent::Resolved(None)@ == EventView::Resolved(None),
        SessionEvent::StreamTimeoutsSet(ok)@ == EventView::StreamTimeoutsSet(ok),
        SessionEvent::Allowed(ok)@ == EventView::Allowed(ok),
        SessionEvent::Charged(ok)@ == EventView::Charged(ok),
        SessionEvent::Sent(ok)@ == EventView::Sent(ok),
        SessionEvent::ResponseTimeoutSet(ok)@ == EventView::ResponseTimeoutSet(ok),
        SessionEvent::Replied(ok)@ == EventView::Replied(ok),
        SessionAction::Send(addr, payload)@ == SessionActionView::Send(addr, payload@),
        SessionAction::Write(payload)@ == SessionActionView::Write(payload@),
        SessionAction::CheckPolicy(text, port)@ == SessionActionView::CheckPolicy(text@, port),
        SessionAction::Resolve(text)@ == SessionActionView::Resolve(text@),
        SessionAction::Charge(text, port, number)@ == SessionActionView::Charge(
            text@,
            port,
            number,
        ),
        SessionAction::SetStreamTimeouts(number)@ == SessionActionView::SetStreamTimeouts(number),
        SessionAction::SetResponseTimeout(number)@ == SessionActionView::SetResponseTimeout(number),
        SessionAction::ReadFrame@ is ReadFrame,
        SessionAction::Receive@ is Receive,
{
}

/// How a session ends is told as it is.
pub proof fn ends_of_sessions_are_told(result: Result<(), SessionError>, log: bool)
    ensures
        (SessionAction::End { result, log })@ == (SessionActionView::End { result, log }),
{
}

} // verus!
