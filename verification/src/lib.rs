//! The signalling core of a SIP server for a fixed range of extensions: registration with Digest
//! authentication, call routing as a back-to-back user agent, transactions, and the handling of
//! its TLS certificates.
//!
//! The library decides; the program around it reads and writes. Nothing is assumed of what the
//! clocks show and of random bytes. What holds across functions is stated and proved in [`laws`].

pub mod clock;
pub mod laws;
pub mod number;
pub mod sip;
pub mod table;
pub mod text;
pub mod tls;
