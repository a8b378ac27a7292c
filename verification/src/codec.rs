//! The frame codec: commands to bytes, buffered bytes to readings.

use crate::buffer::{advance, as_slice, buf_bytes, put_slice, MAX_BUFFERED};
use crate::command::Command;
use crate::frame::{
    first_sentinel, is_first_sentinel, lemma_first_sentinel_at, lemma_first_sentinel_none,
    outcome, remainder, window_outcome, Outcome, FRAME_LEN, READ_RESPONSE, SENTINEL, WINDOW_LEN,
};
use bytes::BytesMut;
use vstd::prelude::*;
use vstd::slice::slice_to_vec;

verus! {

/// The result of one decoding attempt.
#[derive(Debug, PartialEq, Eq)]
pub enum Decoded {
    /// No complete frame is buffered yet.
    NeedMoreData,
    /// A reading, in parts per million.
    Frame(u32),
    /// A complete frame with an unexpected response code; the eight bytes
    /// that followed its sentinel.
    Malformed(Vec<u8>),
}

impl View for Decoded {
    type V = Outcome;

    open spec fn view(&self) -> Outcome {
        match self {
            Decoded::NeedMoreData => Outcome::NeedMoreData,
            Decoded::Frame(ppm) => Outcome::Frame(*ppm),
            Decoded::Malformed(window) => Outcome::Malformed(window@),
        }
    }
}

/// The position of the first sentinel byte in `bytes`, if there is one.
pub fn find_sentinel(bytes: &[u8]) -> (found: Option<usize>)
    ensures
        match found {
            Some(p) => first_sentinel(bytes@) == Some(p as int),
            None => first_sentinel(bytes@) is None,
        },
{
    let mut i: usize = 0;
    while i < bytes.len()
        invariant
            i <= bytes@.len(),
            forall|k: int| 0 <= k < i ==> bytes@[k] != SENTINEL,
        decreases bytes@.len() - i,
    {
        if bytes[i] == SENTINEL {
            proof {
                assert(is_first_sentinel(bytes@, i as int));
                lemma_first_sentinel_at(bytes@, i as int);
            }
            return Some(i);
        }
        i += 1;
    }
    proof {
        lemma_first_sentinel_none(bytes@);
    }
    None
}

/// Reads the eight bytes that followed a sentinel: a reading when the
/// response code is the expected one, else the bytes themselves.
pub fn read_window(window: Vec<u8>) -> (decoded: Decoded)
    requires
        window@.len() == WINDOW_LEN,
    ensures
        decoded@ == window_outcome(window@),
{
    if window[0] == READ_RESPONSE {
        let high: u32 = window[1] as u32;
        let low: u32 = window[2] as u32;
        assert(high << 8 == high * 256) by (bit_vector)
            requires
                high < 256,
        ;
        Decoded::Frame((high << 8) + low)
    } else {
        Decoded::Malformed(window)
    }
}

/// The codec of the sensor's protocol. It keeps no state of its own: what
/// has arrived and is not yet decoded stays in the caller's buffer.
#[derive(Debug)]
pub struct Codec {}

impl Codec {
    /// A codec.
    pub fn new() -> (codec: Codec) {
        Codec {  }
    }

    /// Appends the frame of `item` to `dst`, which must have room for it.
    pub fn encode(&mut self, item: Command, dst: &mut BytesMut)
        requires
            buf_bytes(*old(dst)).len() + FRAME_LEN <= MAX_BUFFERED,
        ensures
            buf_bytes(*final(dst)) == buf_bytes(*old(dst)) + item.wire(),
    {
        put_slice(dst, item.into_bytes());
    }

    /// Takes the next frame out of `src`, if a complete one is buffered.
    ///
    /// Bytes before the first sentinel are noise and are dropped once a
    /// sentinel is seen. A sentinel that is not yet followed by eight bytes
    /// stays in the buffer with what follows it, so that the frame can be
    /// completed by later arrivals. A complete frame is removed whether or
    /// not its response code is the expected one.
    pub fn decode(&mut self, src: &mut BytesMut) -> (decoded: Decoded)
        ensures
            decoded@ == outcome(buf_bytes(*old(src))),
            buf_bytes(*final(src)) == remainder(buf_bytes(*old(src))),
    {
        let ghost before = buf_bytes(*src);
        let start = match find_sentinel(as_slice(src)) {
            Some(p) => p,
            None => {
                return Decoded::NeedMoreData;
            },
        };
        advance(src, start);
        if src.len() < FRAME_LEN {
            return Decoded::NeedMoreData;
        }
        advance(src, 1);
        let head = src.split_to(WINDOW_LEN);
        assert(buf_bytes(head) == before.subrange(start + 1, start + FRAME_LEN));
        read_window(slice_to_vec(as_slice(&head)))
    }
}

impl Default for Codec {
    fn default() -> (codec: Codec) {
        Codec {  }
    }
}

} // verus!
