//! The errors of the peer and of the host.
use vstd::prelude::*;

pub mod host;
pub mod peer;

verus! {

/// `std::io::Error`, carried in the errors of setting up a socket.
#[verifier::external_type_specification]
#[verifier::external_body]
pub struct ExIoError(std::io::Error);

} // verus!
