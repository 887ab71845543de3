//! Framed, length-prefixed messaging between two peers of an rpc service.

pub mod buffer;
pub mod message;
pub mod error;
pub mod peer;
pub mod socket;
pub mod options;
pub mod service_macro;
