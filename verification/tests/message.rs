use foliage::message::{
    read_id, read_kind, read_payload, Message, MessageError, Payload, PayloadKind, ERROR_KIND,
    REQUEST_KIND, RESPONSE_KIND,
};

type SimplePayload = Payload<String, String, String>;

#[test]
fn kind_bytes() {
    assert_eq!(PayloadKind::Request.to_kind(), 0x11);
    assert_eq!(PayloadKind::Response.to_kind(), 0x12);
    assert_eq!(PayloadKind::Error.to_kind(), 0x13);
    assert_eq!(REQUEST_KIND, 0x11);
    assert_eq!(RESPONSE_KIND, 0x12);
    assert_eq!(ERROR_KIND, 0x13);
}

#[test]
fn kind_bytes_are_read_back() {
    for kind in [PayloadKind::Request, PayloadKind::Response, PayloadKind::Error] {
        assert_eq!(PayloadKind::from_kind(kind.to_kind()), Some(kind));
        assert_eq!(read_kind(Some(kind.to_kind())), Ok(kind));
    }
}

#[test]
fn unknown_kind_bytes() {
    assert_eq!(PayloadKind::from_kind(0x00), None);
    assert_eq!(PayloadKind::from_kind(0x10), None);
    assert_eq!(PayloadKind::from_kind(0x14), None);
    assert_eq!(read_kind(Some(0xff)), Err(MessageError::UnknownKind));
}

#[test]
fn payload_kinds() {
    let request: SimplePayload = Payload::Request("Some random message".to_string());
    let response: SimplePayload = Payload::Response("Some random message".to_string());
    let error: SimplePayload = Payload::Error("Oh no something happened!".to_string());
    assert_eq!(request.kind(), PayloadKind::Request);
    assert_eq!(response.kind(), PayloadKind::Response);
    assert_eq!(error.kind(), PayloadKind::Error);
}

#[test]
fn missing_elements() {
    assert_eq!(read_id(None), Err(MessageError::InvalidLength(0)));
    assert_eq!(read_kind(None), Err(MessageError::InvalidLength(1)));
    let r: Result<Message<String, String, String>, MessageError> =
        read_payload(4052, PayloadKind::Request, None);
    assert!(matches!(r, Err(MessageError::InvalidLength(2))));
}

#[test]
fn elements_make_the_message() {
    assert_eq!(read_id(Some(6184)), Ok(6184));
    let m = read_payload::<String, String, String>(
        4932,
        PayloadKind::Error,
        Some(Payload::Error("Oh no something happened!".to_string())),
    )
    .unwrap();
    assert_eq!(m.id, 4932);
    match m.payload {
        Payload::Error(e) => assert_eq!(e, "Oh no something happened!"),
        _ => panic!("wrong payload"),
    }
}

#[test]
fn payload_must_match_its_kind() {
    let r = read_payload::<String, String, String>(
        1943,
        PayloadKind::Response,
        Some(Payload::Request("Some random message".to_string())),
    );
    assert!(matches!(r, Err(MessageError::PayloadMismatch)));
}
