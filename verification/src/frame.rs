//! The framing rule of the sensor's byte stream, as a mathematical model.
//!
//! A frame is a sentinel byte followed by eight more bytes: a response code,
//! the concentration as two big-endian bytes, four unused bytes and a
//! checksum. The stream may start in the middle of a frame or carry noise, so
//! a frame is looked for at the first sentinel, wherever it stands.
//!
//! `outcome` and `remainder` say what one decoding attempt on a buffer
//! yields and leaves behind; the proof functions at the end state what
//! follows for frames, partial frames and noise.

use vstd::prelude::*;

verus! {

/// The byte that starts every frame.
pub const SENTINEL: u8 = 0xff;

/// The response code of a concentration reading.
pub const READ_RESPONSE: u8 = 0x86;

/// Number of bytes that follow the sentinel in a frame.
pub const WINDOW_LEN: usize = 8;

/// Number of bytes in a frame, the sentinel included.
pub const FRAME_LEN: usize = 9;

/// What one decoding attempt yields.
pub enum Outcome {
    /// No complete frame is buffered yet.
    NeedMoreData,
    /// A reading, in parts per million.
    Frame(u32),
    /// A complete frame with an unexpected response code; the eight bytes
    /// that followed its sentinel.
    Malformed(Seq<u8>),
}

/// `p` is the position of the first sentinel in `s`.
pub open spec fn is_first_sentinel(s: Seq<u8>, p: int) -> bool {
    &&& 0 <= p < s.len()
    &&& s[p] == SENTINEL
    &&& forall|i: int| 0 <= i < p ==> s[i] != SENTINEL
}

/// `s` holds no sentinel byte.
pub open spec fn is_noise(s: Seq<u8>) -> bool {
    forall|i: int| 0 <= i < s.len() ==> s[i] != SENTINEL
}

/// The position of the first sentinel in `s`, if there is one.
pub open spec fn first_sentinel(s: Seq<u8>) -> Option<int> {
    if exists|p: int| is_first_sentinel(s, p) {
        Some(choose|p: int| is_first_sentinel(s, p))
    } else {
        None
    }
}

/// The concentration that two payload bytes stand for, high byte first.
pub open spec fn concentration(high: u8, low: u8) -> u32 {
    (high * 256 + low) as u32
}

/// What the eight bytes that follow a sentinel decode to: a reading when
/// the first of them is the expected response code, else the bytes
/// themselves as a malformed frame.
pub open spec fn window_outcome(window: Seq<u8>) -> Outcome {
    if window[0] == READ_RESPONSE {
        Outcome::Frame(concentration(window[1], window[2]))
    } else {
        Outcome::Malformed(window)
    }
}

/// `s` holds a complete frame: a sentinel with eight bytes after it.
pub open spec fn has_frame(s: Seq<u8>) -> bool {
    first_sentinel(s) matches Some(p) && p + FRAME_LEN <= s.len()
}

/// The eight bytes after the first sentinel of `s`.
pub open spec fn window(s: Seq<u8>) -> Seq<u8> {
    let p = first_sentinel(s).unwrap();
    s.subrange(p + 1, p + FRAME_LEN)
}

/// What decoding the buffer `s` yields.
pub open spec fn outcome(s: Seq<u8>) -> Outcome {
    if has_frame(s) {
        window_outcome(window(s))
    } else {
        Outcome::NeedMoreData
    }
}

/// What decoding the buffer `s` leaves in it: without a sentinel, all of it;
/// with a sentinel but no complete frame, the sentinel and what follows;
/// with a frame, what follows the frame.
pub open spec fn remainder(s: Seq<u8>) -> Seq<u8> {
    match first_sentinel(s) {
        None => s,
        Some(p) => if p + FRAME_LEN <= s.len() {
            s.skip(p + FRAME_LEN)
        } else {
            s.skip(p)
        },
    }
}

/// The first sentinel is where `is_first_sentinel` says it is.
pub proof fn lemma_first_sentinel_at(s: Seq<u8>, p: int)
    requires
        is_first_sentinel(s, p),
    ensures
        first_sentinel(s) == Some(p),
{
    let q = choose|q: int| is_first_sentinel(s, q);
    assert(is_first_sentinel(s, q));
    if q < p {
        assert(s[q] != SENTINEL);
    } else if p < q {
        assert(s[p] != SENTINEL);
    }
}

/// A buffer without a sentinel byte has no first sentinel.
pub proof fn lemma_first_sentinel_none(s: Seq<u8>)
    requires
        is_noise(s),
    ensures
        first_sentinel(s) is None,
{
    if exists|p: int| is_first_sentinel(s, p) {
        let p = choose|p: int| is_first_sentinel(s, p);
        assert(s[p] != SENTINEL);
    }
}

/// What `first_sentinel` returns is the position of the first sentinel, and
/// `None` means that no byte is a sentinel.
pub proof fn lemma_first_sentinel_is_first(s: Seq<u8>)
    ensures
        match first_sentinel(s) {
            Some(p) => is_first_sentinel(s, p),
            None => is_noise(s),
        },
{
    if first_sentinel(s) is None {
        assert forall|i: int| 0 <= i < s.len() implies s[i] != SENTINEL by {
            if s[i] == SENTINEL {
                lemma_sentinel_exists(s, i);
            }
        }
    }
}

/// A sentinel at `at` means that there is a first one, at or before `at`.
pub proof fn lemma_sentinel_exists(s: Seq<u8>, at: int)
    requires
        0 <= at < s.len(),
        s[at] == SENTINEL,
    ensures
        first_sentinel(s) matches Some(p) && p <= at,
    decreases at,
{
    if forall|i: int| 0 <= i < at ==> s[i] != SENTINEL {
        assert(is_first_sentinel(s, at));
        lemma_first_sentinel_at(s, at);
    } else {
        let i = choose|i: int| 0 <= i < at && s[i] == SENTINEL;
        lemma_sentinel_exists(s, i);
    }
}

/// `s` is a frame: nine bytes, the first of them a sentinel.
pub open spec fn is_frame(s: Seq<u8>) -> bool {
    s.len() == FRAME_LEN && s[0] == SENTINEL
}

/// A frame is found behind any amount of noise: decoding reads the eight
/// bytes after its sentinel and leaves exactly what follows the frame.
pub proof fn lemma_frame_after_noise(noise: Seq<u8>, frame: Seq<u8>, rest: Seq<u8>)
    requires
        is_noise(noise),
        is_frame(frame),
    ensures
        first_sentinel(noise + frame + rest) == Some(noise.len() as int),
        outcome(noise + frame + rest) == window_outcome(frame.skip(1)),
        remainder(noise + frame + rest) == rest,
{
    let s = noise + frame + rest;
    let n = noise.len() as int;
    assert(s[n] == frame[0]);
    assert forall|i: int| 0 <= i < n implies s[i] != SENTINEL by {
        assert(s[i] == noise[i]);
    }
    lemma_first_sentinel_at(s, n);
    assert(window(s) =~= frame.skip(1));
    assert(s.skip(n + FRAME_LEN) =~= rest);
}

/// Every frame with the response code of a reading decodes to the
/// concentration that its third and fourth byte spell, high byte first,
/// whatever noise stands before it, and is consumed up to its last byte.
pub proof fn lemma_reading_decoded(noise: Seq<u8>, frame: Seq<u8>, rest: Seq<u8>)
    requires
        is_noise(noise),
        is_frame(frame),
        frame[1] == READ_RESPONSE,
    ensures
        outcome(noise + frame + rest) == Outcome::Frame(concentration(frame[2], frame[3])),
        concentration(frame[2], frame[3]) == frame[2] * 256 + frame[3],
        remainder(noise + frame + rest) == rest,
{
    lemma_frame_after_noise(noise, frame, rest);
}

/// Every frame with another response code is reported as malformed, with
/// the eight bytes after its sentinel, and is consumed like any frame: the
/// next attempt starts at the byte that follows it.
pub proof fn lemma_malformed_consumed(noise: Seq<u8>, frame: Seq<u8>, rest: Seq<u8>)
    requires
        is_noise(noise),
        is_frame(frame),
        frame[1] != READ_RESPONSE,
    ensures
        outcome(noise + frame + rest) == Outcome::Malformed(frame.skip(1)),
        remainder(noise + frame + rest) == rest,
        outcome(remainder(noise + frame + rest)) == outcome(rest),
{
    lemma_frame_after_noise(noise, frame, rest);
}

/// An attempt that yields a reading or a malformed frame takes at least a
/// whole frame out of the buffer, and what it leaves is the end of what was
/// there; an attempt that needs more data leaves no complete frame behind.
pub proof fn lemma_decode_progress(s: Seq<u8>)
    ensures
        remainder(s).len() <= s.len(),
        remainder(s) == s.skip(s.len() - remainder(s).len()),
        outcome(s) is NeedMoreData <==> !has_frame(s),
        has_frame(s) ==> remainder(s).len() + FRAME_LEN <= s.len(),
        !has_frame(s) ==> !has_frame(remainder(s)),
{
    lemma_first_sentinel_is_first(s);
    match first_sentinel(s) {
        None => {
            assert(s.skip(0) =~= s);
        },
        Some(p) => {
            if p + FRAME_LEN > s.len() {
                let r = s.skip(p);
                assert(is_first_sentinel(r, 0));
                lemma_first_sentinel_at(r, 0);
            }
        },
    }
}

/// Nothing of a frame is lost while it arrives: after an attempt that
/// needed more data, the buffer decodes, once `more` has been appended, to
/// what the untouched buffer would have decoded to.
pub proof fn lemma_partial_frame_kept(s: Seq<u8>, more: Seq<u8>)
    requires
        !has_frame(s),
    ensures
        outcome(s) is NeedMoreData,
        outcome(remainder(s) + more) == outcome(s + more),
        remainder(remainder(s) + more) == remainder(s + more),
{
    lemma_first_sentinel_is_first(s);
    match first_sentinel(s) {
        None => {},
        Some(p) => {
            let r = s.skip(p);
            let before = s + more;
            let after = r + more;
            assert(remainder(s) == r);
            assert forall|i: int| 0 <= i < p implies before[i] != SENTINEL by {
                assert(before[i] == s[i]);
            }
            assert(before[p] == s[p]);
            lemma_first_sentinel_at(before, p);
            assert(after[0] == s[p]);
            assert(is_first_sentinel(after, 0));
            lemma_first_sentinel_at(after, 0);
            if has_frame(before) {
                assert(window(before) =~= window(after));
                assert(before.skip(p + FRAME_LEN) =~= after.skip(FRAME_LEN as int));
            } else {
                assert(before.skip(p) =~= after.skip(0));
            }
        },
    }
}

/// The chunks one after the other, as one sequence of bytes.
pub open spec fn joined(chunks: Seq<Seq<u8>>) -> Seq<u8>
    decreases chunks.len(),
{
    if chunks.len() == 0 {
        Seq::empty()
    } else {
        joined(chunks.drop_last()) + chunks.last()
    }
}

/// The buffer once the chunks have arrived one by one, with a decoding
/// attempt after each arrival but the last.
pub open spec fn buffered(chunks: Seq<Seq<u8>>) -> Seq<u8>
    decreases chunks.len(),
{
    if chunks.len() == 0 {
        Seq::empty()
    } else {
        remainder(buffered(chunks.drop_last())) + chunks.last()
    }
}

/// None of the attempts made before the last chunk arrived found a
/// complete frame.
pub open spec fn arrives_in_parts(chunks: Seq<Seq<u8>>) -> bool {
    forall|k: int| 0 <= k < chunks.len() ==> !has_frame(#[trigger] buffered(chunks.take(k)))
}

/// As `lemma_arrival_in_parts`, with `more` appended on both sides.
pub proof fn lemma_arrival_in_parts_then(chunks: Seq<Seq<u8>>, more: Seq<u8>)
    requires
        arrives_in_parts(chunks),
    ensures
        outcome(buffered(chunks) + more) == outcome(joined(chunks) + more),
        remainder(buffered(chunks) + more) == remainder(joined(chunks) + more),
    decreases chunks.len(),
{
    if chunks.len() > 0 {
        let init = chunks.drop_last();
        let last = chunks.last();
        assert(init =~= chunks.take(chunks.len() - 1));
        assert forall|k: int| 0 <= k < init.len() implies !has_frame(
            #[trigger] buffered(init.take(k)),
        ) by {
            assert(init.take(k) =~= chunks.take(k));
        }
        assert(!has_frame(buffered(init)));
        lemma_partial_frame_kept(buffered(init), last + more);
        lemma_arrival_in_parts_then(init, last + more);
        assert(buffered(chunks) + more =~= remainder(buffered(init)) + (last + more));
        assert(joined(chunks) + more =~= joined(init) + (last + more));
    }
}

/// However a stream is cut into arrivals, down to one byte at a time, the
/// attempts that need more data lose nothing: the attempt after the last
/// arrival yields and leaves what one attempt on the whole stream would.
pub proof fn lemma_arrival_in_parts(chunks: Seq<Seq<u8>>)
    requires
        arrives_in_parts(chunks),
    ensures
        outcome(buffered(chunks)) == outcome(joined(chunks)),
        remainder(buffered(chunks)) == remainder(joined(chunks)),
{
    lemma_arrival_in_parts_then(chunks, Seq::empty());
    assert(buffered(chunks) + Seq::<u8>::empty() =~= buffered(chunks));
    assert(joined(chunks) + Seq::<u8>::empty() =~= joined(chunks));
}

} // verus!
