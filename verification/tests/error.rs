use foliage::error::peer::{error_rpc_match, ErrorRpc};

#[test]
fn rpc_errors_are_converted() {
    let e: ErrorRpc<u32> = ErrorRpc::RpcError(41);
    let r: ErrorRpc<String> = error_rpc_match(e, |a| format!("error {}", a + 1));
    assert!(matches!(r, ErrorRpc::RpcError(ref s) if s == "error 42"));
}

#[test]
fn other_errors_are_kept() {
    let e: ErrorRpc<u32> = ErrorRpc::StreamClosed;
    let r: ErrorRpc<String> = error_rpc_match(e, |_| "internal error".to_string());
    assert!(matches!(r, ErrorRpc::StreamClosed));

    let e: ErrorRpc<u32> = ErrorRpc::InternalError { message: "unexpected response type" };
    let r: ErrorRpc<String> = error_rpc_match(e, |_| "internal error".to_string());
    assert!(
        matches!(r, ErrorRpc::InternalError { message } if message == "unexpected response type")
    );
}

#[test]
fn converting_with_identity_and_in_two_steps() {
    let e: ErrorRpc<u32> = ErrorRpc::RpcError(7);
    let same: ErrorRpc<u32> = error_rpc_match(e, |a| a);
    assert!(matches!(same, ErrorRpc::RpcError(7)));

    let twice: ErrorRpc<String> =
        error_rpc_match(error_rpc_match(ErrorRpc::RpcError(7u32), |a| a * 2), |b: u32| b.to_string());
    let once: ErrorRpc<String> = error_rpc_match(ErrorRpc::RpcError(7u32), |a| (a * 2).to_string());
    assert!(matches!((twice, once), (ErrorRpc::RpcError(ref x), ErrorRpc::RpcError(ref y)) if x == y && x == "14"));
}
