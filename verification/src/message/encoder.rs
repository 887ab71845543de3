//! Appends frames to a send buffer.
use vstd::prelude::*;
use core::marker::PhantomData;
use crate::buffer::{bytes_mut_contents, buffer_len, buffer_put_slice, buffer_reserve};
use super::length::{encode_len, len_header, lemma_len_header_len, lemma_len_roundtrip, MAX_LEN_BYTES};
use super::decoder::{frame_decodable, next_frame};

verus! {

/// The bytes of the frame that carries `body`: its length header, then the body.
pub open spec fn frame(body: Seq<u8>) -> Seq<u8> {
    len_header(body.len()) + body
}

/// Writes frames of a stream: a length header, then the bincode encoding of a `T`. The
/// caller encodes the `T`; the encoder frames its bytes.
pub struct BincodeFrameEncoder<T> {
    phantom_data: PhantomData<T>,
}

impl<T> BincodeFrameEncoder<T> {
    /// Tells whether `encode` can append the frame of `payload` to `buffer`: the condition
    /// that it requires.
    pub fn can_encode(&self, payload: &[u8], buffer: &bytes::BytesMut) -> (b: bool)
        ensures
            b == (payload@.len() + MAX_LEN_BYTES <= usize::MAX && bytes_mut_contents(
                *buffer,
            ).len() + payload@.len() + MAX_LEN_BYTES <= isize::MAX),
    {
        let n = payload.len();
        if n > usize::MAX - MAX_LEN_BYTES {
            return false;
        }
        let held = buffer_len(buffer);
        held <= isize::MAX as usize && n + MAX_LEN_BYTES <= isize::MAX as usize - held
    }

    /// Appends to `buffer` the frame whose body is `payload`: room is reserved for the
    /// body and the longest header, then the header and the body are written.
    pub fn encode(&mut self, payload: &[u8], buffer: &mut bytes::BytesMut)
        requires
            payload@.len() + MAX_LEN_BYTES <= usize::MAX,
            bytes_mut_contents(*old(buffer)).len() + payload@.len() + MAX_LEN_BYTES <= isize::MAX,
        ensures
            bytes_mut_contents(*final(buffer)) == bytes_mut_contents(*old(buffer)) + frame(
                payload@,
            ),
    {
        let enc_len = payload.len();
        proof {
            lemma_len_header_len(enc_len);
        }
        buffer_reserve(buffer, enc_len + MAX_LEN_BYTES);
        encode_len(enc_len, buffer);
        buffer_put_slice(buffer, payload);
        assert(bytes_mut_contents(*buffer) =~= bytes_mut_contents(*old(buffer)) + frame(payload@));
    }
}

impl<T> Default for BincodeFrameEncoder<T> {
    fn default() -> Self {
        Self { phantom_data: PhantomData }
    }
}

/// What a frame carries is what is read back: a buffer that starts with the frame of
/// `body`, whatever follows it, gives up `body` to `BincodeFrameDecoder::decode` and keeps
/// what followed; and `decode` can take it.
pub proof fn lemma_frame_roundtrip(body: Seq<u8>, rest: Seq<u8>)
    requires
        body.len() + len_header(body.len()).len() <= usize::MAX,
    ensures
        next_frame(frame(body) + rest) == Some((body, rest)),
        frame_decodable(frame(body) + rest),
{
    let n = body.len() as usize;
    let h = len_header(body.len());
    lemma_len_roundtrip(n, body + rest);
    assert(frame(body) + rest =~= h + (body + rest));
    let s = frame(body) + rest;
    assert(s.subrange(h.len() as int, (n + h.len()) as int) =~= body);
    assert(s.skip((n + h.len()) as int) =~= rest);
}

} // verus!
