//! The guest side: what a payload may ask of the virtual machine that it runs in.
pub mod arm_cca;
pub mod payload_service;
pub mod provisioning;
