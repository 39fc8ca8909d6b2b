//! Subscription-license validation core for the CX terminal.
//!
//! The crate models one license record at a time: its hardware binding,
//! its expiry, the offline grace period, the canonical on-disk JSON form,
//! and the decisions of the online activation protocol. Environment
//! probing, file handling and network transport live outside the library
//! and hand it plain values.

pub mod codec;
pub mod license;
pub mod patterns;
pub mod protocol;
pub mod shortcuts;
mod strutil;
pub mod validator;
