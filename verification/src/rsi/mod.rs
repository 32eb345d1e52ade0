//! The interface of a realm to the realm management monitor, and the attestation tokens that it
//! hands out.
pub mod crypto;
pub mod kernel;
pub mod parser;
pub mod token;
