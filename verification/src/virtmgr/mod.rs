//! The host side: configuration, command line and life cycle of virtual machines.
pub mod common;
pub mod exit_monitor;
pub mod instance;
pub mod kvmtool;
pub mod properties;
