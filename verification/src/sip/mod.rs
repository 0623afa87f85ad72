//! SIP: registration, calls and transactions.

pub mod call;
pub mod digest;
pub mod forward;
pub mod media;
pub mod message;
pub mod registrar;
pub mod router;
pub mod transaction;
