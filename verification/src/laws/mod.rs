//! What holds of the library as a whole, beyond the contracts of single functions.

pub mod authentication;
pub mod authorization;
pub mod calls;
pub mod certificates;
pub mod clocks;
pub mod keys;
pub mod lines;
pub mod registration;
pub mod requests;
pub mod responses;
pub mod routing;
pub mod texts;
pub mod transactions;
pub mod views;
