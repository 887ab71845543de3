//! Cuts frames off the front of a receive buffer.
use vstd::prelude::*;
use core::marker::PhantomData;
use crate::buffer::{
    bytes_mut_contents, buffer_advance, buffer_as_slice, buffer_len, buffer_reserve,
};
use super::length::{decode_len, decoded_len, decoded_len_fits, decoded_len_in_range};

verus! {

/// The frame at the front of `s`, as the body and what follows the frame; `None` when
/// `s` does not yet hold a complete header and body.
pub open spec fn next_frame(s: Seq<u8>) -> Option<(Seq<u8>, Seq<u8>)> {
    match decoded_len(s) {
        Some((len, k)) => if len <= s.len() {
            Some((s.subrange(k as int, len as int), s.skip(len as int)))
        } else {
            None
        },
        None => None,
    }
}

/// `decode` can work on `s` without panicking: the header's frame size fits in a `usize`,
/// and when the frame is not complete yet, room for it can be reserved.
pub open spec fn frame_decodable(s: Seq<u8>) -> bool {
    &&& decoded_len_fits(s)
    &&& match decoded_len(s) {
        Some((len, _)) => len > s.len() ==> len <= isize::MAX,
        None => true,
    }
}

/// Reads frames of a stream: a length header, then that many bytes of a bincode-encoded
/// `T`. The decoder hands out the frame's bytes; turning them into a `T` is the caller's.
pub struct BincodeFrameDecoder<T> {
    phantom_data: PhantomData<T>,
}

impl<T> BincodeFrameDecoder<T> {
    /// Tells whether `decode` can take `buffer` as it is: the condition that it requires.
    pub fn can_decode(&self, buffer: &bytes::BytesMut) -> (b: bool)
        ensures
            b == frame_decodable(bytes_mut_contents(*buffer)),
    {
        let src = buffer_as_slice(buffer);
        if !decoded_len_in_range(src) {
            return false;
        }
        match decode_len(src) {
            None => true,
            Some((len, _)) => len <= buffer_len(buffer) || len <= isize::MAX as usize,
        }
    }

    /// Takes the next complete frame off the front of `buffer` and returns its body.
    /// When the buffer holds no complete frame yet, it is left as it is (room is reserved
    /// for the rest of a frame whose header has arrived) and `None` is returned.
    pub fn decode(&mut self, buffer: &mut bytes::BytesMut) -> (r: Option<Vec<u8>>)
        requires
            frame_decodable(bytes_mut_contents(*old(buffer))),
        ensures
            match next_frame(bytes_mut_contents(*old(buffer))) {
                Some((body, rest)) => {
                    &&& r is Some
                    &&& r.unwrap()@ == body
                    &&& bytes_mut_contents(*final(buffer)) == rest
                },
                None => {
                    &&& r is None
                    &&& bytes_mut_contents(*final(buffer)) == bytes_mut_contents(*old(buffer))
                },
            },
    {
        let (len, len_len) = match decode_len(buffer_as_slice(buffer)) {
            None => return None,
            Some(len) => len,
        };

        let buffered = buffer_len(buffer);
        if buffered < len {
            buffer_reserve(buffer, len - buffered);
            return None;
        }

        let data = vstd::slice::slice_to_vec(
            vstd::slice::slice_subrange(buffer_as_slice(buffer), len_len, len),
        );
        buffer_advance(buffer, len);
        Some(data)
    }
}

impl<T> Default for BincodeFrameDecoder<T> {
    fn default() -> Self {
        Self { phantom_data: PhantomData }
    }
}

/// `decode` takes every buffer whose header announces a frame that can be held in
/// memory (at most `isize::MAX` bytes): a complete frame, a frame of which only part has
/// arrived (room for the rest is reserved and the buffer is kept), and a buffer without a
/// complete header.
pub proof fn lemma_decodable_when_frame_fits(s: Seq<u8>)
    requires
        decoded_len(s) matches Some((len, _)) ==> len <= isize::MAX,
    ensures
        frame_decodable(s),
{
}

/// A complete frame whose size fits in a `usize` can always be taken.
pub proof fn lemma_complete_frame_decodable(s: Seq<u8>)
    requires
        decoded_len(s) matches Some((len, _)) && len <= s.len() && len <= usize::MAX,
    ensures
        frame_decodable(s),
{
}

/// A frame of which fewer bytes than its size have arrived is not taken: `decode` gives
/// nothing and keeps the buffer.
pub proof fn lemma_partial_frame_kept(s: Seq<u8>)
    requires
        decoded_len(s) matches Some((len, _)) && s.len() < len,
    ensures
        next_frame(s) is None,
{
}

} // verus!
