//! Errors of a peer.
use vstd::prelude::*;

verus! {

/// Connecting to the host's socket failed.
pub enum ErrorNew {
    /// Connecting the socket failed.
    BindSocket(std::io::Error),
}

/// What connecting a peer gives.
pub type ResultNew<T> = Result<T, ErrorNew>;

/// Why an rpc gave no response.
pub enum ErrorRpc<Error> {
    /// The peer got something it did not expect.
    InternalError { message: &'static str },
    /// The connection to the other peer is closed.
    StreamClosed,
    /// The other peer's service answered with an error.
    RpcError(Error),
}

/// What an rpc gives.
pub type ResultRpc<T, Error> = Result<T, ErrorRpc<Error>>;

/// `err` with the service error it carries converted by `f`, the other errors kept.
pub open spec fn map_rpc_error<A, B>(err: ErrorRpc<A>, f: spec_fn(A) -> B) -> ErrorRpc<B> {
    match err {
        ErrorRpc::InternalError { message } => ErrorRpc::InternalError { message },
        ErrorRpc::StreamClosed => ErrorRpc::StreamClosed,
        ErrorRpc::RpcError(a) => ErrorRpc::RpcError(f(a)),
    }
}

/// Converts the service error that an rpc error carries with `for_rpc_error`, and
/// keeps the other errors as they are. When the conversion is a function `g` (every
/// result it may give is `g` of its argument), the result is `map_rpc_error(err, g)`.
pub fn error_rpc_match<A, B, FnRpcError>(err: ErrorRpc<A>, for_rpc_error: FnRpcError) -> (r:
    ErrorRpc<B>) where FnRpcError: Fn(A) -> B
    requires
        err matches ErrorRpc::RpcError(a) ==> for_rpc_error.requires((a,)),
    ensures
        match err {
            ErrorRpc::InternalError { message } => r == ErrorRpc::<B>::InternalError { message },
            ErrorRpc::StreamClosed => r == ErrorRpc::<B>::StreamClosed,
            ErrorRpc::RpcError(a) => r matches ErrorRpc::RpcError(b) && for_rpc_error.ensures(
                (a,),
                b,
            ),
        },
        forall|g: spec_fn(A) -> B|
            (forall|a: A, b: B| #[trigger] for_rpc_error.ensures((a,), b) ==> b == g(a)) ==> r
                == #[trigger] map_rpc_error(err, g),
{
    match err {
        ErrorRpc::InternalError { message } => ErrorRpc::InternalError { message },
        ErrorRpc::StreamClosed => ErrorRpc::StreamClosed,
        ErrorRpc::RpcError(a) => ErrorRpc::RpcError(for_rpc_error(a)),
    }
}

/// Converting with the identity keeps every error as it is.
pub proof fn lemma_map_rpc_error_identity<A>(err: ErrorRpc<A>)
    ensures
        map_rpc_error(err, |a: A| a) == err,
{
}

/// Converting twice is converting once with the composition: only the service error
/// is ever changed.
pub proof fn lemma_map_rpc_error_compose<A, B, C>(
    err: ErrorRpc<A>,
    f: spec_fn(A) -> B,
    g: spec_fn(B) -> C,
)
    ensures
        map_rpc_error(map_rpc_error(err, f), g) == map_rpc_error(err, |a: A| g(f(a))),
{
}

} // verus!
