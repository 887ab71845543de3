use foliage::error::peer::ErrorRpc;
use foliage::message::{Message, Payload};
use foliage::peer::{response_message, rpc_result, Incoming, PeerState};

type Msg = Message<String, u32, String>;

fn response(id: u16, value: u32) -> Msg {
    Message { id, payload: Payload::Response(value) }
}

#[test]
fn requests_get_consecutive_ids() {
    let mut state: PeerState<&'static str> = PeerState::new();
    let m0: Msg = state.dispatch("a".to_string(), "first");
    let m1: Msg = state.dispatch("b".to_string(), "second");
    assert_eq!(m0.id, 0);
    assert_eq!(m1.id, 1);
    assert!(matches!(m0.payload, Payload::Request(ref r) if r == "a"));
    assert!(matches!(m1.payload, Payload::Request(ref r) if r == "b"));
}

#[test]
fn responses_reach_their_rpcs_in_order() {
    let mut state: PeerState<&'static str> = PeerState::new();
    let _: Msg = state.dispatch("a".to_string(), "first");
    let _: Msg = state.dispatch("b".to_string(), "second");

    match state.receive(response(0, 10)) {
        Incoming::Deliver { response_sender, result } => {
            assert_eq!(response_sender, "first");
            assert_eq!(result, Ok(10));
        }
        _ => panic!("expected a delivery"),
    }
    let error: Msg = Message { id: 1, payload: Payload::Error("bad".to_string()) };
    match state.receive(error) {
        Incoming::Deliver { response_sender, result } => {
            assert_eq!(response_sender, "second");
            assert_eq!(result, Err("bad".to_string()));
        }
        _ => panic!("expected a delivery"),
    }
    // Nothing waits any more
    assert!(matches!(state.receive(response(2, 0)), Incoming::Stop));
}

#[test]
fn a_response_with_the_wrong_id_stops_the_worker() {
    let mut state: PeerState<&'static str> = PeerState::new();
    let _: Msg = state.dispatch("a".to_string(), "first");
    assert!(matches!(state.receive(response(1, 10)), Incoming::Stop));
    // The rpc still waits, and the right id still reaches it
    match state.receive(response(0, 11)) {
        Incoming::Deliver { response_sender, result } => {
            assert_eq!(response_sender, "first");
            assert_eq!(result, Ok(11));
        }
        _ => panic!("expected a delivery"),
    }
}

#[test]
fn a_response_with_nothing_waiting_stops_the_worker() {
    let mut state: PeerState<&'static str> = PeerState::new();
    assert!(matches!(state.receive(response(0, 10)), Incoming::Stop));
}

#[test]
fn requests_are_served_under_their_id() {
    let mut state: PeerState<&'static str> = PeerState::new();
    let request: Msg = Message { id: 4052, payload: Payload::Request("hi".to_string()) };
    match state.receive(request) {
        Incoming::Serve { id, request } => {
            assert_eq!(id, 4052);
            assert_eq!(request, "hi");
        }
        _ => panic!("expected a request to serve"),
    }
    // Serving does not take an id of this peer's own requests
    let m: Msg = state.dispatch("a".to_string(), "first");
    assert_eq!(m.id, 0);
}

#[test]
fn ids_run_out_at_the_last_u16() {
    let mut state: PeerState<()> = PeerState::new();
    for i in 0..u16::MAX {
        assert!(state.can_dispatch());
        let m: Msg = state.dispatch(String::new(), ());
        assert_eq!(m.id, i);
        let _ = state.receive(response(i, 0));
    }
    assert!(!state.can_dispatch());
}

#[test]
fn answers_to_served_requests() {
    let ok: Msg = response_message(6184, Ok(7));
    assert_eq!(ok.id, 6184);
    assert!(matches!(ok.payload, Payload::Response(7)));
    let err: Msg = response_message(1943, Err("failed".to_string()));
    assert_eq!(err.id, 1943);
    assert!(matches!(err.payload, Payload::Error(ref e) if e == "failed"));
}

#[test]
fn rpc_results() {
    assert!(matches!(rpc_result::<u32, String>(None), Err(ErrorRpc::StreamClosed)));
    assert!(matches!(rpc_result::<u32, String>(Some(Ok(3))), Ok(3)));
    assert!(
        matches!(rpc_result::<u32, String>(Some(Err("no".to_string()))), Err(ErrorRpc::RpcError(ref e)) if e == "no")
    );
}
