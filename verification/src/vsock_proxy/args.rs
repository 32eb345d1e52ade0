//! The command line of the proxy.
use crate::vsock_proxy::conhandler::{ConnectionHandlerConfig, VsockCid};
use crate::vsock_proxy::datagram_handler::DatagramHandlerConfig;
use vstd::prelude::*;

verus! {

/// What the proxy passes on.
#[derive(Debug, Clone, Copy, PartialEq, Eq, Structural)]
pub enum ProxyMode {
    /// Streams, to TCP servers.
    Stream,
    /// Datagrams, to UDP servers.
    Datagram,
}

impl ProxyMode {
    /// The name of the mode.
    pub open spec fn text(self) -> Seq<char> {
        match self {
            ProxyMode::Stream => "stream"@,
            ProxyMode::Datagram => "datagram"@,
        }
    }

    /// The name of the mode.
    pub fn name(&self) -> (r: String)
        ensures
            r@ == self.text(),
            *self == ProxyMode::Stream ==> r@ == "stream"@,
            *self == ProxyMode::Datagram ==> r@ == "datagram"@,
    {
        match self {
            ProxyMode::Stream => "stream".to_owned(),
            ProxyMode::Datagram => "datagram".to_owned(),
        }
    }
}

/// What the command line says.
#[derive(Debug)]
pub struct Args {
    pub mode: ProxyMode,
    pub vsock_cid: VsockCid,
    pub vsock_port: u32,
    pub server_addr: String,
    pub conproto: bool,
    pub timeout_secs: u64,
    pub cache_timeout_secs: u64,
    pub verbose: bool,
    pub policy_file: Option<String>,
    pub vm_cid: u32,
}

/// How logging is set up.
#[derive(Debug, Clone, Copy, PartialEq, Eq, Structural)]
pub enum Logging {
    /// As the environment says.
    Environment,
    /// As the environment says, else from level `debug` on.
    Debug,
    /// As the environment says, else from level `info` on.
    Info,
}

impl Args {
    /// How logging is set up, from whether the environment says anything of it.
    pub fn logging(&self, environment_set: bool) -> (r: Logging)
        ensures
            r == if self.verbose {
                Logging::Debug
            } else if environment_set {
                Logging::Environment
            } else {
                Logging::Info
            },
    {
        if !self.verbose && environment_set {
            Logging::Environment
        } else if self.verbose {
            Logging::Debug
        } else {
            Logging::Info
        }
    }

    /// How connections are handled. A server is given only where clients do not name it
    /// themselves.
    pub fn run_stream_mode(&self) -> (r: ConnectionHandlerConfig)
        ensures
            r.vsock_cid == self.vsock_cid,
            r.vsock_port == self.vsock_port,
            r.server_addr is None <==> self.conproto,
            r.server_addr matches Some(a) ==> a@ == self.server_addr@,
            r.conproto == self.conproto,
            r.timeout_secs == self.timeout_secs,
            r.policed == (self.policy_file is Some),
            r.vm_cid == self.vm_cid,
    {
        let server_addr: Option<String> = if self.conproto {
            None
        } else {
            Some(self.server_addr.clone())
        };
        ConnectionHandlerConfig {
            vsock_cid: self.vsock_cid,
            vsock_port: self.vsock_port,
            server_addr,
            conproto: self.conproto,
            timeout_secs: self.timeout_secs,
            policed: self.policy_file.is_some(),
            vm_cid: self.vm_cid,
        }
    }

    /// How datagrams are handled.
    pub fn run_datagram_mode(&self) -> (r: DatagramHandlerConfig)
        ensures
            r == (DatagramHandlerConfig {
                vsock_cid: self.vsock_cid,
                vsock_port: self.vsock_port,
                timeout_secs: self.timeout_secs,
                cache_timeout_secs: self.cache_timeout_secs,
                policed: self.policy_file is Some,
                vm_cid: self.vm_cid,
            }),
    {
        DatagramHandlerConfig {
            vsock_cid: self.vsock_cid,
            vsock_port: self.vsock_port,
            timeout_secs: self.timeout_secs,
            cache_timeout_secs: self.cache_timeout_secs,
            policed: self.policy_file.is_some(),
            vm_cid: self.vm_cid,
        }
    }
}

} // verus!
