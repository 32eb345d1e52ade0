//! Connections of a virtual machine that carry datagrams: who may connect, and for how long host
//! names are remembered.
use crate::vsock_proxy::conhandler::{ListenAddress, VsockCid, VMADDR_CID_LOCAL};
use crate::vsock_proxy::hostname_cache::{CacheView, HostnameCache};
use vstd::prelude::*;

verus! {

/// The default port for datagrams.
pub const DEFAULT_DATAGRAM_PORT: u32 = 1338;

/// How many nanoseconds a second has.
pub const NANOS_PER_SEC: u128 = 1_000_000_000;

/// How long sockets are waited for, in milliseconds.
pub const POLL_TIMEOUT_MS: u16 = 1000;

/// How long a connection is waited for before the listener looks whether to stop, in
/// milliseconds.
pub const ACCEPT_TIMEOUT_MS: u64 = 100;

/// How datagrams are handled.
#[derive(Debug, Clone, Copy)]
pub struct DatagramHandlerConfig {
    /// Where the proxy listens.
    pub vsock_cid: VsockCid,
    pub vsock_port: u32,
    /// How many seconds a read or write on the UDP socket may take.
    pub timeout_secs: u64,
    /// How many seconds a resolved host name is remembered.
    pub cache_timeout_secs: u64,
    /// Whether a policy decides on servers.
    pub policed: bool,
    /// The only virtual machine that may connect.
    pub vm_cid: u32,
}

impl Default for DatagramHandlerConfig {
    fn default() -> (r: Self)
        ensures
            r == (DatagramHandlerConfig {
                vsock_cid: VsockCid::Host,
                vsock_port: DEFAULT_DATAGRAM_PORT,
                timeout_secs: 60,
                cache_timeout_secs: 300,
                policed: false,
                vm_cid: VMADDR_CID_LOCAL,
            }),
    {
        DatagramHandlerConfig {
            vsock_cid: VsockCid::Host,
            vsock_port: DEFAULT_DATAGRAM_PORT,
            timeout_secs: 60,
            cache_timeout_secs: 300,
            policed: false,
            vm_cid: VMADDR_CID_LOCAL,
        }
    }
}

/// What the listener for datagrams waits for.
#[derive(Debug, Clone, Copy, PartialEq, Eq, Structural)]
pub enum AcceptPhase {
    /// Whether it was told to stop.
    StopFlag,
    /// Whether somebody connects.
    Poll,
    /// The connection.
    Accept,
    /// That the connection was served.
    Served,
    /// Nothing: it has ended.
    Ended,
}

/// What happened to the listener for datagrams.
#[derive(Debug, Clone, Copy, PartialEq, Eq, Structural)]
pub enum AcceptEvent {
    /// Whether it was told to stop.
    StopFlag(bool),
    /// Whether somebody connects; `None` where that could not be found out.
    Polled(Option<bool>),
    /// Which context connected, where the connection could be accepted.
    Accepted(Option<u32>),
    /// The connection was served, with or without success.
    Served,
}

/// What the listener for datagrams does next.
#[derive(Debug, Clone, Copy, PartialEq, Eq, Structural)]
pub enum AcceptAction {
    /// Looks whether it was told to stop; a connection that is open is dropped.
    CheckStop,
    /// Waits for somebody to connect.
    Poll,
    /// Accepts the connection.
    Accept,
    /// Serves the connection.
    Serve,
    /// Ends.
    End,
}

/// Whether an event is one that the listener waits for.
pub open spec fn accept_awaits(phase: AcceptPhase, event: AcceptEvent) -> bool {
    match phase {
        AcceptPhase::StopFlag => event is StopFlag,
        AcceptPhase::Poll => event is Polled,
        AcceptPhase::Accept => event is Accepted,
        AcceptPhase::Served => event is Served,
        AcceptPhase::Ended => false,
    }
}

/// What an event leads to. Only being told to stop ends the listener; connections of other virtual
/// machines are dropped.
pub open spec fn accept_next(vm_cid: u32, event: AcceptEvent) -> (AcceptPhase, AcceptAction) {
    match event {
        AcceptEvent::StopFlag(stop) => if stop {
            (AcceptPhase::Ended, AcceptAction::End)
        } else {
            (AcceptPhase::Poll, AcceptAction::Poll)
        },
        AcceptEvent::Polled(outcome) => if outcome == Some(true) {
            (AcceptPhase::Accept, AcceptAction::Accept)
        } else {
            (AcceptPhase::StopFlag, AcceptAction::CheckStop)
        },
        AcceptEvent::Accepted(cid) => if cid == Some(vm_cid) {
            (AcceptPhase::Served, AcceptAction::Serve)
        } else {
            (AcceptPhase::StopFlag, AcceptAction::CheckStop)
        },
        AcceptEvent::Served => (AcceptPhase::StopFlag, AcceptAction::CheckStop),
    }
}

/// Decides what the listener for datagrams does next.
pub fn connection_accept_loop(vm_cid: u32, phase: &mut AcceptPhase, event: AcceptEvent) -> (r:
    AcceptAction)
    requires
        accept_awaits(*old(phase), event),
    ensures
        (*final(phase), r) == accept_next(vm_cid, event),
{
    let (next, action): (AcceptPhase, AcceptAction) = match event {
        AcceptEvent::StopFlag(stop) => {
            if stop {
                (AcceptPhase::Ended, AcceptAction::End)
            } else {
                (AcceptPhase::Poll, AcceptAction::Poll)
            }
        },
        AcceptEvent::Polled(outcome) => match outcome {
            Some(true) => (AcceptPhase::Accept, AcceptAction::Accept),
            _ => (AcceptPhase::StopFlag, AcceptAction::CheckStop),
        },
        AcceptEvent::Accepted(cid) => {
            let allowed: bool = match cid {
                Some(c) => c == vm_cid,
                None => false,
            };
            if allowed {
                (AcceptPhase::Served, AcceptAction::Serve)
            } else {
                (AcceptPhase::StopFlag, AcceptAction::CheckStop)
            }
        },
        AcceptEvent::Served => (AcceptPhase::StopFlag, AcceptAction::CheckStop),
    };
    *phase = next;
    action
}

/// What the proxy binds when it starts.
#[derive(Debug, Clone, Copy, PartialEq, Eq, Structural)]
pub struct DatagramSockets {
    pub listen: ListenAddress,
    /// How many seconds a read or write on the UDP socket may take.
    pub udp_timeout_secs: u64,
}

/// Handles datagrams.
#[derive(Debug)]
pub struct DatagramHandler {
    config: DatagramHandlerConfig,
    hostname_cache: HostnameCache,
    listening: bool,
}

impl DatagramHandler {
    pub closed spec fn spec_config(&self) -> DatagramHandlerConfig {
        self.config
    }

    /// The host names that are remembered.
    pub closed spec fn spec_cache(&self) -> CacheView {
        self.hostname_cache@
    }

    /// Whether the cache is in order.
    pub closed spec fn wf(&self) -> bool {
        self.hostname_cache.wf()
    }

    /// Whether there is a listener that nobody has stopped or waited for.
    pub closed spec fn is_listening(&self) -> bool {
        self.listening
    }

    /// A handler that does not listen yet and remembers no host name.
    pub fn new(config: DatagramHandlerConfig) -> (r: Self)
        ensures
            r.wf(),
            r.spec_config() == config,
            r.spec_cache() == (CacheView {
                forward: Map::empty(),
                reverse: Map::empty(),
                timeout: (config.cache_timeout_secs * NANOS_PER_SEC) as u128,
            }),
            r.spec_cache().timeout == config.cache_timeout_secs * 1_000_000_000,
            !r.is_listening(),
    {
        let timeout: u128 = (config.cache_timeout_secs as u128) * NANOS_PER_SEC;
        DatagramHandler {
            config,
            hostname_cache: HostnameCache::new(timeout),
            listening: false,
        }
    }

    /// What to bind in order to start.
    pub fn run(&self) -> (r: DatagramSockets)
        ensures
            r.listen.cid == self.spec_config().vsock_cid.number(),
            r.listen.port == self.spec_config().vsock_port,
            r.udp_timeout_secs == self.spec_config().timeout_secs,
    {
        DatagramSockets {
            listen: ListenAddress {
                cid: u32::from(self.config.vsock_cid),
                port: self.config.vsock_port,
            },
            udp_timeout_secs: self.config.timeout_secs,
        }
    }

    /// Records that a listener has been started.
    pub fn listening(&mut self)
        ensures
            final(self).is_listening(),
            final(self).spec_config() == old(self).spec_config(),
            final(self).spec_cache() == old(self).spec_cache(),
            final(self).wf() == old(self).wf(),
    {
        self.listening = true;
    }

    /// Whether the caller is to tell a listener to stop and to wait for it; only the first caller
    /// is.
    pub fn stop(&mut self) -> (r: bool)
        ensures
            r == old(self).is_listening(),
            !final(self).is_listening(),
            final(self).spec_config() == old(self).spec_config(),
            final(self).spec_cache() == old(self).spec_cache(),
            final(self).wf() == old(self).wf(),
    {
        let r: bool = self.listening;
        self.listening = false;
        r
    }

    /// Whether the caller is to wait for a listener; only the first caller is.
    pub fn join(&mut self) -> (r: bool)
        ensures
            r == old(self).is_listening(),
            !final(self).is_listening(),
            final(self).spec_config() == old(self).spec_config(),
            final(self).spec_cache() == old(self).spec_cache(),
            final(self).wf() == old(self).wf(),
    {
        let r: bool = self.listening;
        self.listening = false;
        r
    }

    /// The host names that are remembered.
    pub fn get_cache(&mut self) -> (r: &mut HostnameCache)
        requires
            old(self).wf(),
        ensures
            r.wf(),
            r@ == old(self).spec_cache(),
            final(self).spec_cache() == final(r)@,
            final(self).wf() == final(r).wf(),
            final(self).spec_config() == old(self).spec_config(),
            final(self).is_listening() == old(self).is_listening(),
    {
        &mut self.hostname_cache
    }
}

// ---------------------------------------------------------------------------
// Laws
// ---------------------------------------------------------------------------

/// A connection is served exactly where it is the configured virtual machine's, and only being
/// told to stop ends the listener.
pub proof fn only_the_configured_vm_exchanges_datagrams(vm_cid: u32, event: AcceptEvent)
    ensures
        accept_next(vm_cid, event).1 is Serve <==> event == AcceptEvent::Accepted(Some(vm_cid)),
        accept_next(vm_cid, event).1 is End <==> event == AcceptEvent::StopFlag(true),
        accept_next(vm_cid, event).0 is Ended <==> accept_next(vm_cid, event).1 is End,
{
}

/// The listener looks whether to stop, waits, accepts and serves in turn; whatever goes wrong on the
/// way, and every connection of another virtual machine, brings it back to looking.
pub proof fn the_listener_for_datagrams_goes_round(
    vm_cid: u32,
    ready: Option<bool>,
    peer: Option<u32>,
    event: AcceptEvent,
)
    ensures
        accept_next(vm_cid, AcceptEvent::StopFlag(true)) == (AcceptPhase::Ended, AcceptAction::End),
        accept_next(vm_cid, AcceptEvent::StopFlag(false)) == (
            AcceptPhase::Poll,
            AcceptAction::Poll,
        ),
        ready is Some && ready->0 ==> accept_next(vm_cid, AcceptEvent::Polled(ready)) == (
            AcceptPhase::Accept,
            AcceptAction::Accept,
        ),
        !(ready is Some && ready->0) ==> accept_next(vm_cid, AcceptEvent::Polled(ready)) == (
            AcceptPhase::StopFlag,
            AcceptAction::CheckStop,
        ),
        peer is Some && peer->0 == vm_cid ==> accept_next(vm_cid, AcceptEvent::Accepted(peer)) == (
            AcceptPhase::Served,
            AcceptAction::Serve,
        ),
        !(peer is Some && peer->0 == vm_cid) ==> accept_next(vm_cid, AcceptEvent::Accepted(peer))
            == (AcceptPhase::StopFlag, AcceptAction::CheckStop),
        accept_next(vm_cid, AcceptEvent::Served) == (
            AcceptPhase::StopFlag,
            AcceptAction::CheckStop,
        ),
        accept_awaits(AcceptPhase::StopFlag, event) <==> event is StopFlag,
        accept_awaits(AcceptPhase::Poll, event) <==> event is Polled,
        accept_awaits(AcceptPhase::Accept, event) <==> event is Accepted,
        accept_awaits(AcceptPhase::Served, event) <==> event is Served,
        !accept_awaits(AcceptPhase::Ended, event),
{
}

} // verus!
