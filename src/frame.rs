//! Sentinel-delimited framing: a frame is a payload followed by the frame
//! boundary, and a [`Reassembler`] turns the chunks read from a stream back
//! into the payloads, in order.

use vstd::prelude::*;

verus! {

/// Number of bytes in the frame boundary.
pub const FRAME_BOUNDARY_LEN: usize = 18;

/// The frame boundary: the ASCII bytes `AAAAAA031320050421`.
pub open spec fn frame_boundary() -> Seq<u8> {
    seq![65u8, 65u8, 65u8, 65u8, 65u8, 65u8, 48u8, 51u8, 49u8, 51u8, 50u8, 48u8, 48u8, 53u8, 48u8, 52u8, 50u8, 49u8]
}

/// The boundary starts at position `i` of `b`.
pub open spec fn boundary_at(b: Seq<u8>, i: int) -> bool {
    0 <= i && i + 18 <= b.len() && b.subrange(i, i + 18) == frame_boundary()
}

/// No boundary starts anywhere inside `b`.
pub open spec fn boundary_free(b: Seq<u8>) -> bool {
    forall|i: int| !#[trigger] boundary_at(b, i)
}

/// The first position at or after `from` where a boundary starts.
pub open spec fn first_boundary_from(b: Seq<u8>, from: int) -> Option<int>
    decreases b.len() - from,
{
    if from < 0 || from + 18 > b.len() {
        None
    } else if boundary_at(b, from) {
        Some(from)
    } else {
        first_boundary_from(b, from + 1)
    }
}

/// Splits `b` at each boundary, left to right, without overlap: the spans
/// before each boundary, empty ones dropped, and the bytes after the last one.
pub open spec fn split_frames(b: Seq<u8>) -> (Seq<Seq<u8>>, Seq<u8>)
    decreases b.len(),
{
    match first_boundary_from(b, 0) {
        None => (Seq::empty(), b),
        Some(p) => {
            if 0 <= p && p + 18 <= b.len() {
                let rest = split_frames(b.subrange(p + 18, b.len() as int));
                let f = b.subrange(0, p);
                (if f.len() == 0 { rest.0 } else { seq![f] + rest.0 }, rest.1)
            } else {
                (Seq::empty(), b)
            }
        }
    }
}

/// The bytes written for one payload.
pub open spec fn encode(payload: Seq<u8>) -> Seq<u8> {
    payload + frame_boundary()
}

/// The bytes written for a sequence of payloads, one after the other.
pub open spec fn encode_all(msgs: Seq<Seq<u8>>) -> Seq<u8>
    decreases msgs.len(),
{
    if msgs.len() == 0 {
        Seq::empty()
    } else {
        encode(msgs[0]) + encode_all(msgs.drop_first())
    }
}

/// What a reassembler that holds `pending` emits, and what it holds after,
/// when it is handed `chunks` one by one.
pub open spec fn reassemble(pending: Seq<u8>, chunks: Seq<Seq<u8>>) -> (Seq<Seq<u8>>, Seq<u8>)
    decreases chunks.len(),
{
    if chunks.len() == 0 {
        (Seq::empty(), pending)
    } else {
        let step = split_frames(pending + chunks[0]);
        let rest = reassemble(step.1, chunks.drop_first());
        (step.0 + rest.0, rest.1)
    }
}

/// The byte sequences held by a vector of buffers.
pub open spec fn buffers_view(v: Seq<Vec<u8>>) -> Seq<Seq<u8>> {
    v.map_values(|f: Vec<u8>| f@)
}

proof fn lemma_first_boundary_facts(b: Seq<u8>, from: int)
    requires
        0 <= from,
    ensures
        match first_boundary_from(b, from) {
            Some(p) => from <= p && boundary_at(b, p) && forall|j: int|
                from <= j < p ==> !#[trigger] boundary_at(b, j),
            None => forall|j: int| from <= j ==> !#[trigger] boundary_at(b, j),
        },
    decreases b.len() - from,
{
    if from + 18 > b.len() {
    } else if boundary_at(b, from) {
    } else {
        lemma_first_boundary_facts(b, from + 1);
    }
}

/// Pins down `first_boundary_from` by the positions it skips.
proof fn lemma_first_boundary_is(b: Seq<u8>, from: int, r: Option<int>)
    requires
        0 <= from,
        match r {
            Some(p) => from <= p && boundary_at(b, p) && forall|j: int|
                from <= j < p ==> !#[trigger] boundary_at(b, j),
            None => forall|j: int| from <= j ==> !#[trigger] boundary_at(b, j),
        },
    ensures
        first_boundary_from(b, from) == r,
    decreases b.len() - from,
{
    if from + 18 > b.len() {
        if let Some(p) = r {
            assert(boundary_at(b, p));
        }
    } else if boundary_at(b, from) {
    } else {
        lemma_first_boundary_is(b, from + 1, r);
    }
}

/// A window that lies inside `x` reads the same in `x + y`.
proof fn lemma_boundary_at_append(x: Seq<u8>, y: Seq<u8>, i: int)
    requires
        0 <= i,
        i + 18 <= x.len(),
    ensures
        boundary_at(x + y, i) == boundary_at(x, i),
{
    assert((x + y).subrange(i, i + 18) =~= x.subrange(i, i + 18));
}

/// A window read in a suffix of `b` reads the same in `b`.
proof fn lemma_boundary_at_suffix(b: Seq<u8>, s: int, i: int)
    requires
        0 <= s <= b.len(),
        0 <= i,
    ensures
        boundary_at(b.subrange(s, b.len() as int), i) == boundary_at(b, s + i),
{
    let r = b.subrange(s, b.len() as int);
    if i + 18 <= r.len() {
        assert(r.subrange(i, i + 18) =~= b.subrange(s + i, s + i + 18));
    }
}

/// Splitting `x + y` splits `x` first, then what `x` left over followed by `y`.
pub proof fn lemma_split_append(x: Seq<u8>, y: Seq<u8>)
    ensures
        split_frames(x + y) == ({
            let sx = split_frames(x);
            let sr = split_frames(sx.1 + y);
            (sx.0 + sr.0, sr.1)
        }),
    decreases x.len(),
{
    lemma_first_boundary_facts(x, 0);
    match first_boundary_from(x, 0) {
        None => {
            assert(split_frames(x) == (Seq::<Seq<u8>>::empty(), x));
            assert(split_frames(x).0 + split_frames(x + y).0 =~= split_frames(x + y).0);
        },
        Some(p) => {
            let xy = x + y;
            assert forall|j: int| 0 <= j < p implies !#[trigger] boundary_at(xy, j) by {
                lemma_boundary_at_append(x, y, j);
            }
            lemma_boundary_at_append(x, y, p);
            lemma_first_boundary_is(xy, 0, Some(p));
            let x2 = x.subrange(p + 18, x.len() as int);
            assert(xy.subrange(p + 18, xy.len() as int) =~= x2 + y);
            assert(xy.subrange(0, p) =~= x.subrange(0, p));
            lemma_split_append(x2, y);
            let f = x.subrange(0, p);
            let s2 = split_frames(x2);
            let sr = split_frames(s2.1 + y);
            if f.len() == 0 {
                assert(split_frames(xy).0 =~= s2.0 + sr.0);
            } else {
                assert(split_frames(xy).0 =~= seq![f] + (s2.0 + sr.0));
                assert(seq![f] + (s2.0 + sr.0) =~= (seq![f] + s2.0) + sr.0);
            }
        },
    }
}

/// What is left over after a split holds no boundary.
proof fn lemma_split_rest_free(b: Seq<u8>)
    ensures
        split_frames(split_frames(b).1) == (Seq::<Seq<u8>>::empty(), split_frames(b).1),
    decreases b.len(),
{
    lemma_first_boundary_facts(b, 0);
    match first_boundary_from(b, 0) {
        None => {},
        Some(p) => {
            lemma_split_rest_free(b.subrange(p + 18, b.len() as int));
        },
    }
}

/// Handing a reassembler its chunks one by one gives what splitting their
/// concatenation at once gives, for pending bytes that hold no boundary (as
/// a reassembler's never do).
pub proof fn lemma_reassemble_is_split(pending: Seq<u8>, chunks: Seq<Seq<u8>>)
    requires
        split_frames(pending) == (Seq::<Seq<u8>>::empty(), pending),
    ensures
        reassemble(pending, chunks) == split_frames(pending + chunks.flatten()),
    decreases chunks.len(),
{
    if chunks.len() == 0 {
        assert(pending + chunks.flatten() =~= pending);
    } else {
        let c0 = chunks[0];
        let rest = chunks.drop_first();
        lemma_split_append(pending + c0, rest.flatten());
        lemma_split_rest_free(pending + c0);
        lemma_reassemble_is_split(split_frames(pending + c0).1, rest);
        assert(pending + chunks.flatten() =~= (pending + c0) + rest.flatten());
    }
}

/// The bytes of the boundary: six `A`s, then digits.
proof fn lemma_boundary_bytes()
    ensures
        frame_boundary().len() == 18,
        forall|t: int| 0 <= t < 6 ==> #[trigger] frame_boundary()[t] == 65u8,
        forall|t: int| 6 <= t < 18 ==> #[trigger] frame_boundary()[t] != 65u8,
        frame_boundary()[6] == 48u8,
{
    let s = frame_boundary();
    assert(s[0] == 65u8);
    assert(s[1] == 65u8);
    assert(s[2] == 65u8);
    assert(s[3] == 65u8);
    assert(s[4] == 65u8);
    assert(s[5] == 65u8);
    assert(s[6] == 48u8);
    assert(s[7] == 51u8);
    assert(s[8] == 49u8);
    assert(s[9] == 51u8);
    assert(s[10] == 50u8);
    assert(s[11] == 48u8);
    assert(s[12] == 48u8);
    assert(s[13] == 53u8);
    assert(s[14] == 48u8);
    assert(s[15] == 52u8);
    assert(s[16] == 50u8);
    assert(s[17] == 49u8);
}

/// A boundary cannot start inside a payload that holds none and end in the
/// boundary that follows it: the boundary overlaps itself nowhere.
proof fn lemma_no_straddle(m: Seq<u8>, rest: Seq<u8>, j: int)
    requires
        boundary_free(m),
        0 <= j < m.len(),
    ensures
        !boundary_at(m + frame_boundary() + rest, j),
{
    let b = m + frame_boundary() + rest;
    let s = frame_boundary();
    lemma_boundary_bytes();
    if j + 18 <= m.len() {
        assert(!boundary_at(m, j));
        assert(b.subrange(j, j + 18) =~= m.subrange(j, j + 18));
    } else if boundary_at(b, j) {
        let k = m.len() - j;
        let t = if k <= 6 { 6 } else { k };
        assert(b.subrange(j, j + 18)[t] == b[j + t]);
        assert(b[j + t] == s[t - k]);
        assert(b[j + t] == s[t]);
    }
}

/// In one payload followed by the boundary and more bytes, the first
/// boundary is the one right after the payload.
proof fn lemma_first_boundary_after_payload(m: Seq<u8>, rest: Seq<u8>)
    requires
        boundary_free(m),
    ensures
        first_boundary_from(m + frame_boundary() + rest, 0) == Some(m.len() as int),
{
    let b = m + frame_boundary() + rest;
    assert forall|j: int| 0 <= j < m.len() implies !#[trigger] boundary_at(b, j) by {
        lemma_no_straddle(m, rest, j);
    }
    assert(b.subrange(m.len() as int, m.len() + 18int) =~= frame_boundary());
    lemma_first_boundary_is(b, 0, Some(m.len() as int));
}

/// The bytes written for payloads that are not empty and hold no boundary
/// split back into exactly those payloads, with nothing left over.
pub proof fn lemma_split_encoded(msgs: Seq<Seq<u8>>)
    requires
        forall|i: int| 0 <= i < msgs.len() ==> #[trigger] msgs[i].len() > 0,
        forall|i: int| 0 <= i < msgs.len() ==> boundary_free(#[trigger] msgs[i]),
    ensures
        split_frames(encode_all(msgs)) == (msgs, Seq::<u8>::empty()),
    decreases msgs.len(),
{
    if msgs.len() == 0 {
        assert(first_boundary_from(Seq::<u8>::empty(), 0) == None::<int>);
    } else {
        let m = msgs[0];
        let tail = msgs.drop_first();
        assert forall|i: int| 0 <= i < tail.len() implies #[trigger] tail[i].len() > 0 by {
            assert(tail[i] == msgs[i + 1]);
        }
        assert forall|i: int| 0 <= i < tail.len() implies boundary_free(#[trigger] tail[i]) by {
            assert(tail[i] == msgs[i + 1]);
        }
        lemma_split_encoded(tail);
        let b = encode_all(msgs);
        assert(b =~= m + frame_boundary() + encode_all(tail));
        lemma_first_boundary_after_payload(m, encode_all(tail));
        assert(b.subrange(m.len() + 18int, b.len() as int) =~= encode_all(tail));
        assert(b.subrange(0, m.len() as int) =~= m);
        assert(seq![m] + tail =~= msgs);
    }
}

/// Frame integrity: payloads that are not empty and hold no boundary, written
/// one after the other and read back in chunks cut anywhere (inside a
/// boundary too), come out of a new reassembler exactly, in order, with
/// nothing left pending.
pub proof fn lemma_frame_integrity(msgs: Seq<Seq<u8>>, chunks: Seq<Seq<u8>>)
    requires
        forall|i: int| 0 <= i < msgs.len() ==> #[trigger] msgs[i].len() > 0,
        forall|i: int| 0 <= i < msgs.len() ==> boundary_free(#[trigger] msgs[i]),
        chunks.flatten() == encode_all(msgs),
    ensures
        reassemble(Seq::empty(), chunks) == (msgs, Seq::<u8>::empty()),
{
    assert(first_boundary_from(Seq::<u8>::empty(), 0) == None::<int>);
    lemma_reassemble_is_split(Seq::empty(), chunks);
    assert(Seq::<u8>::empty() + chunks.flatten() =~= encode_all(msgs));
    lemma_split_encoded(msgs);
}

/// The frame boundary as bytes.
pub fn frame_boundary_bytes() -> (r: Vec<u8>)
    ensures
        r@ == frame_boundary(),
{
    let r: Vec<u8> = vec![65u8, 65u8, 65u8, 65u8, 65u8, 65u8, 48u8, 51u8, 49u8, 51u8, 50u8, 48u8, 48u8, 53u8, 48u8, 52u8, 50u8, 49u8];
    assert(r@ =~= frame_boundary());
    r
}

/// The bytes to write for one payload: the payload, then the boundary.
pub fn encode_frame(payload: &Vec<u8>) -> (r: Vec<u8>)
    ensures
        r@ == encode(payload@),
{
    let mut r: Vec<u8> = Vec::new();
    let mut i: usize = 0;
    while i < payload.len()
        invariant
            i <= payload.len(),
            r@ == payload@.subrange(0, i as int),
        decreases payload.len() - i,
    {
        r.push(payload[i]);
        i = i + 1;
    }
    let boundary = frame_boundary_bytes();
    let mut k: usize = 0;
    while k < boundary.len()
        invariant
            k <= boundary.len(),
            boundary@ == frame_boundary(),
            r@ == payload@ + boundary@.subrange(0, k as int),
        decreases boundary.len() - k,
    {
        r.push(boundary[k]);
        k = k + 1;
    }
    assert(payload@.subrange(0, payload@.len() as int) =~= payload@);
    assert(boundary@.subrange(0, boundary@.len() as int) =~= boundary@);
    r
}

/// Whether the boundary starts at position `i` of `b`.
fn is_boundary_at(b: &Vec<u8>, boundary: &Vec<u8>, i: usize) -> (r: bool)
    requires
        boundary@ == frame_boundary(),
        i + 18 <= b.len(),
    ensures
        r == boundary_at(b@, i as int),
{
    let mut k: usize = 0;
    while k < 18
        invariant
            k <= 18,
            i + 18 <= b.len(),
            boundary@ == frame_boundary(),
            forall|t: int| 0 <= t < k ==> b@[i + t] == frame_boundary()[t],
        decreases 18 - k,
    {
        if b[i + k] != boundary[k] {
            assert(b@.subrange(i as int, i + 18)[k as int] != frame_boundary()[k as int]);
            return false;
        }
        k = k + 1;
    }
    assert(b@.subrange(i as int, i + 18) =~= frame_boundary());
    true
}

/// Copies `b[lo..hi]` into a new buffer.
fn copy_range(b: &Vec<u8>, lo: usize, hi: usize) -> (r: Vec<u8>)
    requires
        lo <= hi <= b.len(),
    ensures
        r@ == b@.subrange(lo as int, hi as int),
{
    let mut r: Vec<u8> = Vec::new();
    let mut i: usize = lo;
    while i < hi
        invariant
            lo <= i <= hi <= b.len(),
            r@ == b@.subrange(lo as int, i as int),
        decreases hi - i,
    {
        r.push(b[i]);
        i = i + 1;
    }
    r
}

/// Splits a buffer as [`split_frames`] does.
pub fn split_buffer(b: &Vec<u8>) -> (r: (Vec<Vec<u8>>, Vec<u8>))
    ensures
        buffers_view(r.0@) == split_frames(b@).0,
        r.1@ == split_frames(b@).1,
{
    let boundary = frame_boundary_bytes();
    let mut frames: Vec<Vec<u8>> = Vec::new();
    let mut start: usize = 0;
    let mut i: usize = 0;
    let n = b.len();
    assert(b@.subrange(0, n as int) =~= b@);
    while n >= 18 && i <= n - 18
        invariant
            n == b.len(),
            boundary@ == frame_boundary(),
            start <= i,
            i <= n || start == i,
            start <= n,
            forall|j: int| start <= j < i ==> !#[trigger] boundary_at(b@, j),
            split_frames(b@).0 == buffers_view(frames@) + split_frames(b@.subrange(start as int, n as int)).0,
            split_frames(b@).1 == split_frames(b@.subrange(start as int, n as int)).1,
        decreases n - i,
    {
        if is_boundary_at(b, &boundary, i) {
            let ghost rest = b@.subrange(start as int, n as int);
            proof {
                assert forall|j: int| 0 <= j < i - start implies !#[trigger] boundary_at(rest, j) by {
                    lemma_boundary_at_suffix(b@, start as int, j);
                }
                lemma_boundary_at_suffix(b@, start as int, i - start);
                lemma_first_boundary_is(rest, 0, Some(i - start));
                assert(rest.subrange(i - start + 18, rest.len() as int) =~= b@.subrange(i + 18, n as int));
                assert(rest.subrange(0, i - start) =~= b@.subrange(start as int, i as int));
            }
            if start < i {
                let f = copy_range(b, start, i);
                let ghost before = frames@;
                frames.push(f);
                proof {
                    assert(buffers_view(frames@) =~= buffers_view(before) + seq![f@]);
                    let tail = split_frames(b@.subrange(i + 18, n as int)).0;
                    assert(buffers_view(before) + (seq![f@] + tail) =~= buffers_view(frames@) + tail);
                }
            }
            start = i + 18;
            i = i + 18;
        } else {
            i = i + 1;
        }
    }
    let ghost rest = b@.subrange(start as int, n as int);
    proof {
        assert forall|j: int| 0 <= j implies !#[trigger] boundary_at(rest, j) by {
            lemma_boundary_at_suffix(b@, start as int, j);
        }
        lemma_first_boundary_is(rest, 0, None);
        assert(split_frames(rest).0 =~= Seq::<Seq<u8>>::empty());
        assert(buffers_view(frames@) + split_frames(rest).0 =~= buffers_view(frames@));
    }
    let pending = copy_range(b, start, n);
    (frames, pending)
}

/// Turns the chunks read from one stream back into frames. It holds the
/// bytes after the last boundary seen until the chunk that completes them.
pub struct Reassembler {
    pending: Vec<u8>,
}

impl Reassembler {
    /// The bytes held back, waiting for the rest of their frame.
    pub closed spec fn pending_view(&self) -> Seq<u8> {
        self.pending@
    }

    /// A reassembler that holds nothing.
    pub fn new() -> (r: Reassembler)
        ensures
            r.pending_view() == Seq::<u8>::empty(),
    {
        Reassembler { pending: Vec::new() }
    }

    /// The bytes held back.
    pub fn pending(&self) -> (r: &Vec<u8>)
        ensures
            r@ == self.pending_view(),
    {
        &self.pending
    }

    /// Takes the next chunk of the stream: returns the frames it completes,
    /// in order, and keeps what follows the last boundary.
    pub fn push_chunk(&mut self, chunk: &Vec<u8>) -> (frames: Vec<Vec<u8>>)
        ensures
            buffers_view(frames@) == split_frames(old(self).pending_view() + chunk@).0,
            final(self).pending_view() == split_frames(old(self).pending_view() + chunk@).1,
    {
        let mut buf: Vec<u8> = Vec::new();
        std::mem::swap(&mut buf, &mut self.pending);
        let mut i: usize = 0;
        let ghost start = buf@;
        while i < chunk.len()
            invariant
                i <= chunk.len(),
                buf@ == start + chunk@.subrange(0, i as int),
            decreases chunk.len() - i,
        {
            buf.push(chunk[i]);
            i = i + 1;
        }
        assert(chunk@.subrange(0, chunk@.len() as int) =~= chunk@);
        let (frames, rest) = split_buffer(&buf);
        self.pending = rest;
        frames
    }
}

} // verus!
