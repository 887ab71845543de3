//! Errors of a host that accepts peers.
use vstd::prelude::*;

verus! {

/// Setting up the listening socket failed.
pub enum ErrorNew {
    /// Binding the socket failed.
    BindSocket(std::io::Error),
}

/// What setting up a host gives.
pub type ResultNew<T> = Result<T, ErrorNew>;

/// Accepting a peer failed.
pub enum ErrorAccept {
    /// Accepting the connection failed.
    AcceptSocket(std::io::Error),
}

/// What accepting a peer gives.
pub type ResultAccept<T> = Result<T, ErrorAccept>;

} // verus!
