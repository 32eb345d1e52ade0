//! A proxy between vsock connections of a virtual machine and TCP or UDP servers.
pub mod args;
pub mod conhandler;
pub mod datagram_handler;
pub mod frame;
pub mod hostname_cache;
pub mod session;
