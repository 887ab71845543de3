//! The messages two peers exchange, and the frames that carry them.
//!
//! A message is written as a tuple of three elements: its id, a kind byte that says
//! which payload follows, and the payload. The functions here make the decisions that
//! writing and reading such a tuple takes; turning the elements into bytes is serde's.
use vstd::prelude::*;

pub mod length;
pub mod decoder;
pub mod encoder;

pub use decoder::BincodeFrameDecoder;
pub use encoder::BincodeFrameEncoder;

verus! {

/// The id of a message, which pairs a response with its request.
pub type Id = u16;

/// The byte that tells which payload a message carries.
pub type Kind = u8;

/// Kind byte of a request.
pub const REQUEST_KIND: Kind = 0x11;

/// Kind byte of a response.
pub const RESPONSE_KIND: Kind = 0x12;

/// Kind byte of an error response.
pub const ERROR_KIND: Kind = 0x13;

/// What a message carries.
#[derive(Debug, PartialEq, Eq)]
pub enum Payload<Request, Response, Error> {
    Request(Request),
    Response(Response),
    Error(Error),
}

/// A message between two peers.
pub struct Message<Request, Response, Error> {
    pub id: Id,
    pub payload: Payload<Request, Response, Error>,
}

/// Which of the three payloads a message carries.
#[derive(PartialEq, Eq, Structural, Clone, Copy, Debug)]
pub enum PayloadKind {
    Request,
    Response,
    Error,
}

/// Why the elements of a message tuple do not make a message.
#[derive(PartialEq, Eq, Structural, Clone, Copy, Debug)]
pub enum MessageError {
    /// The tuple ended before the element at this index.
    InvalidLength(usize),
    /// The kind byte is none of the three known ones.
    UnknownKind,
    /// The payload is not the one that the kind byte announced.
    PayloadMismatch,
}

/// The kind byte of a payload kind.
pub open spec fn kind_byte(kind: PayloadKind) -> Kind {
    match kind {
        PayloadKind::Request => REQUEST_KIND,
        PayloadKind::Response => RESPONSE_KIND,
        PayloadKind::Error => ERROR_KIND,
    }
}

/// The payload kind that a kind byte stands for, if any.
pub open spec fn kind_of_byte(kind: Kind) -> Option<PayloadKind> {
    if kind == REQUEST_KIND {
        Some(PayloadKind::Request)
    } else if kind == RESPONSE_KIND {
        Some(PayloadKind::Response)
    } else if kind == ERROR_KIND {
        Some(PayloadKind::Error)
    } else {
        None
    }
}

/// The kind of a payload.
pub open spec fn payload_kind<Request, Response, Error>(
    payload: Payload<Request, Response, Error>,
) -> PayloadKind {
    match payload {
        Payload::Request(_) => PayloadKind::Request,
        Payload::Response(_) => PayloadKind::Response,
        Payload::Error(_) => PayloadKind::Error,
    }
}

/// The message that the three elements of a tuple make, read in order: the id, the kind
/// byte, then the payload that the kind byte announces.
pub open spec fn read_message<Request, Response, Error>(
    id: Option<Id>,
    kind: Option<Kind>,
    payload: Option<Payload<Request, Response, Error>>,
) -> Result<Message<Request, Response, Error>, MessageError> {
    match id {
        None => Err(MessageError::InvalidLength(0)),
        Some(id) => match kind {
            None => Err(MessageError::InvalidLength(1)),
            Some(kind) => match kind_of_byte(kind) {
                None => Err(MessageError::UnknownKind),
                Some(k) => match payload {
                    None => Err(MessageError::InvalidLength(2)),
                    Some(payload) => if payload_kind(payload) == k {
                        Ok(Message { id, payload })
                    } else {
                        Err(MessageError::PayloadMismatch)
                    },
                },
            },
        },
    }
}

impl PayloadKind {
    /// The kind byte written for this kind.
    pub fn to_kind(self) -> (k: Kind)
        ensures
            k == kind_byte(self),
    {
        match self {
            PayloadKind::Request => REQUEST_KIND,
            PayloadKind::Response => RESPONSE_KIND,
            PayloadKind::Error => ERROR_KIND,
        }
    }

    /// The kind that a kind byte stands for; `None` for an unknown byte.
    pub fn from_kind(kind: Kind) -> (r: Option<PayloadKind>)
        ensures
            r == kind_of_byte(kind),
    {
        if kind == REQUEST_KIND {
            Some(PayloadKind::Request)
        } else if kind == RESPONSE_KIND {
            Some(PayloadKind::Response)
        } else if kind == ERROR_KIND {
            Some(PayloadKind::Error)
        } else {
            None
        }
    }
}

impl<Request, Response, Error> Payload<Request, Response, Error> {
    /// The kind of this payload.
    pub fn kind(&self) -> (k: PayloadKind)
        ensures
            k == payload_kind(*self),
    {
        match self {
            Payload::Request(_) => PayloadKind::Request,
            Payload::Response(_) => PayloadKind::Response,
            Payload::Error(_) => PayloadKind::Error,
        }
    }
}

/// The first element of a message tuple, the id; the tuple must not end before it.
pub fn read_id(id: Option<Id>) -> (r: Result<Id, MessageError>)
    ensures
        match id {
            Some(id) => r == Ok::<Id, MessageError>(id),
            None => r == Err::<Id, MessageError>(MessageError::InvalidLength(0)),
        },
{
    match id {
        Some(id) => Ok(id),
        None => Err(MessageError::InvalidLength(0)),
    }
}

/// The second element of a message tuple, the kind byte, which says which payload
/// follows; the tuple must not end before it and the byte must be a known one.
pub fn read_kind(kind: Option<Kind>) -> (r: Result<PayloadKind, MessageError>)
    ensures
        match kind {
            None => r == Err::<PayloadKind, MessageError>(MessageError::InvalidLength(1)),
            Some(kind) => match kind_of_byte(kind) {
                Some(k) => r == Ok::<PayloadKind, MessageError>(k),
                None => r == Err::<PayloadKind, MessageError>(MessageError::UnknownKind),
            },
        },
{
    match kind {
        None => Err(MessageError::InvalidLength(1)),
        Some(kind) => match PayloadKind::from_kind(kind) {
            Some(k) => Ok(k),
            None => Err(MessageError::UnknownKind),
        },
    }
}

/// The last element of a message tuple, the payload that the kind byte announced,
/// completes the message; the tuple must not end before it, and the payload must be of
/// that kind.
pub fn read_payload<Request, Response, Error>(
    id: Id,
    kind: PayloadKind,
    payload: Option<Payload<Request, Response, Error>>,
) -> (r: Result<Message<Request, Response, Error>, MessageError>)
    ensures
        match payload {
            Some(p) => if payload_kind(p) == kind {
                r == Ok::<Message<Request, Response, Error>, MessageError>(
                    Message { id, payload: p },
                )
            } else {
                r == Err::<Message<Request, Response, Error>, MessageError>(
                    MessageError::PayloadMismatch,
                )
            },
            None => r == Err::<Message<Request, Response, Error>, MessageError>(
                MessageError::InvalidLength(2),
            ),
        },
{
    match payload {
        Some(payload) => if payload.kind() == kind {
            Ok(Message { id, payload })
        } else {
            Err(MessageError::PayloadMismatch)
        },
        None => Err(MessageError::InvalidLength(2)),
    }
}

/// A kind byte is read back as the kind it was written for.
pub proof fn lemma_kind_roundtrip(kind: PayloadKind)
    ensures
        kind_of_byte(kind_byte(kind)) == Some(kind),
{
}

/// Only the three kind bytes are known: any byte that is read as a kind is the byte
/// written for that kind.
pub proof fn lemma_kind_byte_unique(kind: Kind)
    ensures
        kind_of_byte(kind) matches Some(k) ==> kind_byte(k) == kind,
{
}

/// Reading back the elements that a message is written as (its id, the kind byte of
/// its payload, its payload) gives the message back.
pub proof fn lemma_message_roundtrip<Request, Response, Error>(
    m: Message<Request, Response, Error>,
)
    ensures
        read_message(Some(m.id), Some(kind_byte(payload_kind(m.payload))), Some(m.payload))
            == Ok::<Message<Request, Response, Error>, MessageError>(m),
{
}

} // verus!
