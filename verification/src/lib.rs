//! Verified building blocks for running confidential virtual machines: realm measurements, the
//! realm services interface and its attestation tokens, the vsock proxy, the virtual machine
//! manager and the services inside the guest.
use vstd::prelude::*;

pub mod assoc;
pub mod bytes;
pub mod digest;
pub mod microdroid;
pub mod path;
pub mod rmm_measure;
pub mod rsi;
pub mod text;
pub mod virtmgr;
pub mod vsock_proxy;

verus! {

} // verus!
