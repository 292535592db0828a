//! The framing codec: request frames out, response frames in.
//!
//! A response frame is `(` ++ payload ++ CRC ++ carriage return. The CRC is
//! CRC-16/XMODEM over the start byte and the payload, stored big-endian: the
//! start byte belongs to the checked window.
use vstd::prelude::*;
use bytes::BytesMut;
use std::marker::PhantomData;
use vstd::slice::slice_subrange;
use crate::buffer::{append_bytes, buffer_advance, buffer_bytes, buffer_contents, buffer_extend, buffer_from_slice};
use crate::command::{payload_or_empty, Command, Request, Response, ResponseWire};
use crate::crc::{compute_crc, crc16_xmodem, crc_bytes, crc_high, crc_low, crc_matches};
use crate::error::Error;
use crate::text::find_byte;

verus! {

/// The byte that ends every frame: carriage return.
pub const STOP_BYTE: u8 = 0x0D;

/// The byte that starts every response frame: `(`.
pub const START_BYTE: u8 = 0x28;

/// What the front of a buffer holds.
#[derive(Debug, PartialEq, Eq, Structural)]
pub enum FrameScan {
    /// No stop byte yet: more bytes are needed.
    Incomplete,
    /// A stop byte, with no start byte before it.
    Unframed,
    /// A frame whose checksum matched at none of the candidate ends.
    BadCrc,
    /// A frame from the start byte at `start` to the stop byte at `end`.
    Found { start: usize, end: usize },
}

/// Whether `buf[start..end]` is a frame whose last two bytes hold the checksum
/// of the bytes before them, and `buf[end]` is a stop byte.
pub open spec fn candidate_ok(buf: Seq<u8>, start: int, end: int) -> bool {
    &&& 0 <= start
    &&& start + 3 <= end < buf.len()
    &&& buf[end] == STOP_BYTE
    &&& crc_bytes(crc16_xmodem(buf.subrange(start, end - 2))) == buf.subrange(end - 2, end)
}

/// Whether a frame from `start` to `end` may still arrive: its stop byte
/// lies past the buffered bytes, its checksum window has arrived, and the
/// checksum bytes that have arrived match that window.
pub open spec fn candidate_pending(buf: Seq<u8>, start: int, end: int) -> bool {
    &&& 0 <= start
    &&& start + 3 <= end
    &&& buf.len() <= end <= buf.len() + 2
    &&& forall|j: int|
        end - 2 <= j < buf.len() ==> buf[j] == #[trigger] crc_bytes(
            crc16_xmodem(buf.subrange(start, end - 2)),
        )[j - (end - 2)]
}

/// The frame at the front of `buf`. The first stop byte ends the candidate;
/// leading bytes before the first start byte are skipped; since a checksum
/// byte may itself be a stop byte, the frame may also end at one of the next
/// two bytes, when that byte is a stop byte. Where no candidate matches but a
/// longer one may still arrive, the decision waits for more bytes.
pub open spec fn scan(buf: Seq<u8>) -> FrameScan {
    match buf.index_of_first(STOP_BYTE) {
        None => FrameScan::Incomplete,
        Some(i) => match buf.subrange(0, i).index_of_first(START_BYTE) {
            None => FrameScan::Unframed,
            Some(k) => if candidate_ok(buf, k, i) {
                FrameScan::Found { start: k as usize, end: i as usize }
            } else if candidate_ok(buf, k, i + 1) {
                FrameScan::Found { start: k as usize, end: (i + 1) as usize }
            } else if candidate_ok(buf, k, i + 2) {
                FrameScan::Found { start: k as usize, end: (i + 2) as usize }
            } else if candidate_pending(buf, k, i + 1) || candidate_pending(buf, k, i + 2) {
                FrameScan::Incomplete
            } else {
                FrameScan::BadCrc
            },
        },
    }
}

/// The payload of the frame from `start` to `end`: between the start byte
/// and the checksum.
pub open spec fn frame_payload(buf: Seq<u8>, start: int, end: int) -> Seq<u8> {
    buf.subrange(start + 1, end - 2)
}

/// What decoding `buf` returns, and what is left in the buffer after it.
pub open spec fn decode_result<R: Response>(buf: Seq<u8>) -> (Result<Option<R>, Error>, Seq<u8>) {
    match scan(buf) {
        FrameScan::Incomplete => (Ok(None), buf),
        FrameScan::Unframed => (Err(Error::InvalidResponseFormat), Seq::empty()),
        FrameScan::BadCrc => (Err(Error::InvalidResponseCrcSum), Seq::empty()),
        FrameScan::Found { start, end } => (
            match R::parse(frame_payload(buf, start as int, end as int)) {
                Ok(v) => Ok(Some(v)),
                Err(e) => Err(e),
            },
            buf.subrange(end + 1, buf.len() as int),
        ),
    }
}

/// The bytes of a request frame whose identifier and payload are `body`.
pub open spec fn request_frame(body: Seq<u8>) -> Seq<u8> {
    body + crc_bytes(crc16_xmodem(body)) + seq![STOP_BYTE]
}

/// The bytes of a response frame carrying `payload`.
pub open spec fn response_frame(payload: Seq<u8>) -> Seq<u8> {
    let window = seq![START_BYTE] + payload;
    window + crc_bytes(crc16_xmodem(window)) + seq![STOP_BYTE]
}

/// Whether `buf[start..end]` is a frame whose checksum matches, ended by a stop
/// byte at `end`.
fn candidate_matches(buf: &[u8], start: usize, end: usize) -> (r: bool)
    ensures
        r == candidate_ok(buf@, start as int, end as int),
{
    if end >= buf.len() || buf[end] != STOP_BYTE || start > end || end - start < 3 {
        return false;
    }
    let window = slice_subrange(buf, start, end - 2);
    let crc = compute_crc(window);
    let r = crc_matches(crc, buf[end - 2], buf[end - 1]);
    proof {
        assert(buf@.subrange(end - 2, end as int) =~= seq![buf@[end - 2], buf@[end - 1]]);
    }
    r
}

/// Whether a frame from `start` to `cut + 2` may still arrive.
fn candidate_pending_at(buf: &[u8], start: usize, cut: usize) -> (r: bool)
    requires
        cut <= buf@.len(),
    ensures
        r == candidate_pending(buf@, start as int, cut + 2),
{
    if buf.len() - cut > 2 || start >= cut {
        return false;
    }
    let window = slice_subrange(buf, start, cut);
    let crc = compute_crc(window);
    let high_ok = cut >= buf.len() || buf[cut] as u16 == crc / 256;
    let low_ok = buf.len() - cut <= 1 || buf[cut + 1] as u16 == crc % 256;
    let r = high_ok && low_ok;
    proof {
        let c = crc_bytes(crc16_xmodem(buf@.subrange(start as int, cut + 2 - 2)));
        assert(buf@.subrange(start as int, cut + 2 - 2) == window@);
        assert(c[0] == crc_high(crc) && c[1] == crc_low(crc));
        if candidate_pending(buf@, start as int, cut + 2) {
            if cut < buf@.len() {
                assert(buf@[cut as int] == c[cut - (cut + 2 - 2)]);
            }
            if cut + 1 < buf@.len() {
                assert(buf@[cut + 1] == c[cut + 1 - (cut + 2 - 2)]);
            }
        }
    }
    r
}

/// Finds the frame at the front of `buf`.
pub fn scan_frame(buf: &[u8]) -> (r: FrameScan)
    ensures
        r == scan(buf@),
{
    let i = find_byte(buf, STOP_BYTE);
    if i == buf.len() {
        return FrameScan::Incomplete;
    }
    let head = slice_subrange(buf, 0, i);
    let k = find_byte(head, START_BYTE);
    if k == i {
        return FrameScan::Unframed;
    }
    // At most three candidate ends: the first stop byte, and the next two bytes.
    let mut step: usize = 0;
    while step < 3
        invariant
            step <= 3,
            i < buf@.len(),
            head@ == buf@.subrange(0, i as int),
            buf@.index_of_first(STOP_BYTE) == Some(i as int),
            head@.index_of_first(START_BYTE) == Some(k as int),
            k < i,
            step > 0 ==> !candidate_ok(buf@, k as int, i as int),
            step > 1 ==> !candidate_ok(buf@, k as int, i + 1),
            step > 2 ==> !candidate_ok(buf@, k as int, i + 2),
        decreases 3 - step,
    {
        if step < buf.len() - i && candidate_matches(buf, k, i + step) {
            return FrameScan::Found { start: k, end: i + step };
        }
        step = step + 1;
    }
    if candidate_pending_at(buf, k, i - 1) || candidate_pending_at(buf, k, i) {
        return FrameScan::Incomplete;
    }
    FrameScan::BadCrc
}

/// The bytes of a request frame: `body`, then the checksum `crc` big-endian,
/// then the stop byte.
pub fn frame_request(body: &[u8], crc: u16) -> (r: Vec<u8>)
    ensures
        r@ == body@ + crc_bytes(crc) + seq![STOP_BYTE],
{
    let mut r: Vec<u8> = Vec::new();
    append_bytes(&mut r, body);
    r.push((crc / 256) as u8);
    r.push((crc % 256) as u8);
    r.push(STOP_BYTE);
    proof {
        assert(r@ =~= body@ + crc_bytes(crc) + seq![STOP_BYTE]);
    }
    r
}

/// No reading of the response frame carrying `payload` that ends early, at a
/// checksum byte that happens to be a stop byte, carries a matching checksum.
/// It holds in particular where neither checksum byte is a stop byte.
pub open spec fn no_early_match(payload: Seq<u8>) -> bool {
    let f = response_frame(payload);
    forall|e: int| 0 <= e < f.len() - 1 ==> !#[trigger] candidate_ok(f, 0, e)
}

proof fn lemma_crc_bytes_injective(a: u16, b: u16)
    requires
        crc_bytes(a) == crc_bytes(b),
    ensures
        a == b,
{
    assert(crc_bytes(a)[0] == crc_bytes(b)[0]);
    assert(crc_bytes(a)[1] == crc_bytes(b)[1]);
    assert(a / 256 == b / 256);
    assert(a % 256 == b % 256);
}

/// A candidate that ends inside `a` reads the same with bytes after `a`.
proof fn lemma_candidate_extend(a: Seq<u8>, b: Seq<u8>, start: int, e: int)
    requires
        0 <= e < a.len(),
    ensures
        candidate_ok(a + b, start, e) == candidate_ok(a, start, e),
{
    assert((a + b)[e] == a[e]);
    if 0 <= start && start + 3 <= e {
        assert((a + b).subrange(start, e - 2) =~= a.subrange(start, e - 2));
        assert((a + b).subrange(e - 2, e) =~= a.subrange(e - 2, e));
    }
}

/// A candidate reads the same with bytes before it.
proof fn lemma_candidate_shift(j: Seq<u8>, f: Seq<u8>, e: int)
    requires
        0 <= e < f.len(),
    ensures
        candidate_ok(j + f, j.len() as int, j.len() + e) == candidate_ok(f, 0, e),
{
    let n = j.len() as int;
    assert((j + f)[n + e] == f[e]);
    if 3 <= e {
        assert((j + f).subrange(n, n + e - 2) =~= f.subrange(0, e - 2));
        assert((j + f).subrange(n + e - 2, n + e) =~= f.subrange(e - 2, e));
    }
}

/// The first stop byte of a response frame: the first checksum byte that is
/// a stop byte, or else the frame's last byte.
pub open spec fn first_stop_of_frame(payload: Seq<u8>) -> int {
    let c = crc16_xmodem(seq![START_BYTE] + payload);
    if crc_high(c) == STOP_BYTE {
        payload.len() + 1 as int
    } else if crc_low(c) == STOP_BYTE {
        payload.len() + 2 as int
    } else {
        payload.len() + 3 as int
    }
}

proof fn lemma_frame_bytes(payload: Seq<u8>)
    requires
        !payload.contains(STOP_BYTE),
    ensures
        ({
            let f = response_frame(payload);
            let c = crc16_xmodem(seq![START_BYTE] + payload);
            let i = first_stop_of_frame(payload);
            &&& f.len() == payload.len() + 4
            &&& f[0] == START_BYTE
            &&& f[payload.len() + 1 as int] == crc_high(c)
            &&& f[payload.len() + 2 as int] == crc_low(c)
            &&& f[payload.len() + 3 as int] == STOP_BYTE
            &&& f.subrange(0, payload.len() + 1 as int) == seq![START_BYTE] + payload
            &&& f[i] == STOP_BYTE
            &&& forall|j: int| 0 <= j < i ==> f[j] != STOP_BYTE
        }),
{
    let f = response_frame(payload);
    assert(f.subrange(0, payload.len() + 1 as int) =~= seq![START_BYTE] + payload);
    assert forall|j: int| 0 < j < payload.len() + 1 implies f[j] != STOP_BYTE by {
        assert(f[j] == payload[j - 1]);
    }
}

/// Locates a response frame that follows `junk` and is followed by `rest`.
proof fn lemma_scan_framed(junk: Seq<u8>, payload: Seq<u8>, rest: Seq<u8>)
    requires
        !junk.contains(STOP_BYTE),
        !junk.contains(START_BYTE),
        !payload.contains(STOP_BYTE),
        no_early_match(payload),
        junk.len() + payload.len() + rest.len() + 4 <= usize::MAX,
    ensures
        ({
            let buf = junk + response_frame(payload) + rest;
            let end = junk.len() + payload.len() + 3 as int;
            &&& scan(buf) == FrameScan::Found { start: junk.len() as usize, end: end as usize }
            &&& frame_payload(buf, junk.len() as int, end) == payload
            &&& buf.subrange(end + 1, buf.len() as int) == rest
        }),
{
    let f = response_frame(payload);
    let jf = junk + f;
    let buf = jf + rest;
    let n = junk.len() as int;
    let end = n + payload.len() + 3 as int;
    let window = seq![START_BYTE] + payload;
    let c = crc16_xmodem(window);
    let i = n + first_stop_of_frame(payload);
    lemma_frame_bytes(payload);
    assert(buf[n] == START_BYTE);
    assert(buf[i] == f[i - n]);
    assert forall|j: int| 0 <= j < i implies buf[j] != STOP_BYTE by {
        if j < n {
            assert(buf[j] == junk[j]);
        } else {
            assert(buf[j] == f[j - n]);
        }
    }
    buf.index_of_first_ensures(STOP_BYTE);
    assert(buf.contains(STOP_BYTE));
    let head = buf.subrange(0, i);
    assert forall|j: int| 0 <= j < n implies head[j] != START_BYTE by {
        assert(head[j] == junk[j]);
    }
    head.index_of_first_ensures(START_BYTE);
    assert(head[n] == START_BYTE);
    assert(head.contains(START_BYTE));
    assert forall|e: int| i <= e < end implies !candidate_ok(buf, n, e) by {
        lemma_candidate_extend(jf, rest, n, e);
        lemma_candidate_shift(junk, f, e - n);
        assert(!candidate_ok(f, 0, e - n));
    }
    assert(buf.subrange(n, end - 2) =~= window);
    assert(buf.subrange(end - 2, end) =~= crc_bytes(c));
    assert(buf[end] == STOP_BYTE);
    assert(candidate_ok(buf, n, end));
    assert(frame_payload(buf, n, end) =~= payload);
    assert(buf.subrange(end + 1, buf.len() as int) =~= rest);
}

/// Round trip: the response frame that a device sends for a legal value
/// decodes to that value, and exactly that frame leaves the buffer.
pub proof fn lemma_response_round_trip<R: ResponseWire>(v: R, rest: Seq<u8>)
    requires
        v.legal(),
        no_early_match(v.wire()),
        v.wire().len() + rest.len() + 4 <= usize::MAX,
    ensures
        decode_result::<R>(response_frame(v.wire()) + rest) == (
            Ok::<Option<R>, Error>(Some(v)),
            rest,
        ),
{
    R::lemma_wire_round_trip(v);
    let junk = Seq::<u8>::empty();
    lemma_scan_framed(junk, v.wire(), rest);
    assert(junk + response_frame(v.wire()) + rest == response_frame(v.wire()) + rest);
}

/// Resynchronisation: bytes that hold neither a start nor a stop byte, in
/// front of a valid frame, are skipped; the frame decodes, and the skipped
/// bytes and the frame leave the buffer.
pub proof fn lemma_resync<R: ResponseWire>(junk: Seq<u8>, v: R, rest: Seq<u8>)
    requires
        !junk.contains(STOP_BYTE),
        !junk.contains(START_BYTE),
        v.legal(),
        no_early_match(v.wire()),
        junk.len() + v.wire().len() + rest.len() + 4 <= usize::MAX,
    ensures
        decode_result::<R>(junk + response_frame(v.wire()) + rest) == (
            Ok::<Option<R>, Error>(Some(v)),
            rest,
        ),
{
    R::lemma_wire_round_trip(v);
    lemma_scan_framed(junk, v.wire(), rest);
}

/// Incremental delivery: every proper prefix of a valid frame decodes to
/// "incomplete" and leaves the buffer as it is; the whole frame decodes to its
/// value and drains the buffer.
pub proof fn lemma_incremental_delivery<R: ResponseWire>(v: R, m: int)
    requires
        v.legal(),
        no_early_match(v.wire()),
        v.wire().len() + 4 <= usize::MAX,
        0 <= m < response_frame(v.wire()).len(),
    ensures
        decode_result::<R>(response_frame(v.wire()).subrange(0, m)) == (
            Ok::<Option<R>, Error>(None),
            response_frame(v.wire()).subrange(0, m),
        ),
        decode_result::<R>(response_frame(v.wire())) == (
            Ok::<Option<R>, Error>(Some(v)),
            Seq::<u8>::empty(),
        ),
{
    R::lemma_wire_round_trip(v);
    let payload = v.wire();
    let f = response_frame(payload);
    let prefix = f.subrange(0, m);
    let c = crc16_xmodem(seq![START_BYTE] + payload);
    let i = first_stop_of_frame(payload);
    let end = payload.len() + 3 as int;
    lemma_frame_bytes(payload);
    prefix.index_of_first_ensures(STOP_BYTE);
    if i < m {
        assert(prefix[i] == STOP_BYTE);
        assert(prefix.contains(STOP_BYTE));
        let head = prefix.subrange(0, i);
        head.index_of_first_ensures(START_BYTE);
        assert(head[0] == START_BYTE);
        assert(head.contains(START_BYTE));
        assert(f == prefix + f.subrange(m, f.len() as int));
        assert forall|e: int| i <= e <= i + 2 implies !candidate_ok(prefix, 0, e) by {
            if e < m {
                lemma_candidate_extend(prefix, f.subrange(m, f.len() as int), 0, e);
            }
        }
        assert(prefix.subrange(0, end - 2) =~= seq![START_BYTE] + payload);
        assert forall|j: int| end - 2 <= j < prefix.len() implies prefix[j] == #[trigger] crc_bytes(
            crc16_xmodem(prefix.subrange(0, end - 2)),
        )[j - (end - 2)] by {
            assert(prefix[j] == f[j]);
        }
        assert(candidate_pending(prefix, 0, end));
    } else {
        assert forall|j: int| 0 <= j < prefix.len() implies prefix[j] != STOP_BYTE by {
            assert(prefix[j] == f[j]);
        }
    }
    lemma_response_round_trip(v, Seq::<u8>::empty());
    assert(f + Seq::<u8>::empty() == f);
}

/// A frame whose stored checksum is not the checksum of its start byte and
/// payload, and whose only stop byte is its last, is rejected with a checksum
/// error, and the whole buffer is dropped; unless a longer reading of the
/// frame, with the stop byte as a checksum byte, could still close with a
/// matching checksum, in which case more bytes are awaited.
pub proof fn lemma_checksum_mismatch_rejected<R: Response>(payload: Seq<u8>, stored: u16)
    requires
        !payload.contains(STOP_BYTE),
        crc_high(stored) != STOP_BYTE,
        crc_low(stored) != STOP_BYTE,
        stored != crc16_xmodem(seq![START_BYTE] + payload),
        crc_bytes(crc16_xmodem(seq![START_BYTE] + payload + seq![crc_high(stored)])) != seq![
            crc_low(stored),
            STOP_BYTE,
        ],
        crc_high(crc16_xmodem(seq![START_BYTE] + payload + crc_bytes(stored))) != STOP_BYTE,
        payload.len() + 4 <= usize::MAX,
    ensures
        decode_result::<R>(seq![START_BYTE] + payload + crc_bytes(stored) + seq![STOP_BYTE]) == (
            Err::<Option<R>, Error>(Error::InvalidResponseCrcSum),
            Seq::<u8>::empty(),
        ),
{
    let window = seq![START_BYTE] + payload;
    let buf = window + crc_bytes(stored) + seq![STOP_BYTE];
    let end = payload.len() + 3 as int;
    assert(buf.len() == end + 1);
    assert(buf[end - 2] == crc_high(stored));
    assert(buf[end - 1] == crc_low(stored));
    assert(buf[end] == STOP_BYTE);
    assert forall|j: int| 0 <= j < end implies buf[j] != STOP_BYTE by {
        if 0 < j < end - 2 {
            assert(buf[j] == payload[j - 1]);
        }
    }
    buf.index_of_first_ensures(STOP_BYTE);
    assert(buf.contains(STOP_BYTE));
    let head = buf.subrange(0, end);
    head.index_of_first_ensures(START_BYTE);
    assert(head[0] == START_BYTE);
    assert(head.contains(START_BYTE));
    assert(buf.subrange(0, end - 2) =~= window);
    assert(buf.subrange(end - 2, end) =~= crc_bytes(stored));
    if candidate_ok(buf, 0, end) {
        lemma_crc_bytes_injective(crc16_xmodem(window), stored);
    }
    assert(buf.subrange(0, end + 1 - 2) =~= window + seq![crc_high(stored)]);
    assert(buf.subrange(0, end + 2 - 2) =~= window + crc_bytes(stored));
    if candidate_pending(buf, 0, end + 1) {
        let c = crc_bytes(crc16_xmodem(buf.subrange(0, end + 1 - 2)));
        assert(buf[end - 1] == c[end - 1 - (end + 1 - 2)]);
        assert(buf[end] == c[end - (end + 1 - 2)]);
        assert(c =~= seq![crc_low(stored), STOP_BYTE]);
    }
    if candidate_pending(buf, 0, end + 2) {
        let c = crc_bytes(crc16_xmodem(buf.subrange(0, end + 2 - 2)));
        assert(buf[end] == c[end - (end + 2 - 2)]);
    }
}

/// Encoder and decoder of the frames of command `C`.
pub struct Codec<C> {
    phantom: PhantomData<C>,
}

impl<C: Command> Codec<C> {
    pub fn new() -> Self {
        Codec { phantom: PhantomData }
    }

    /// Takes the next response out of `src`.
    ///
    /// `Ok(None)`: no stop byte yet, and `src` is untouched. A frame with no
    /// start byte, or with no matching checksum, empties `src` and fails. A
    /// frame found is removed from `src`, with the bytes skipped before it and
    /// its stop byte, and its payload is decoded; a payload that fails to
    /// decode is removed all the same.
    pub fn decode(&mut self, src: &mut BytesMut) -> (r: Result<Option<C::Response>, Error>)
        ensures
            (r, buffer_contents(*final(src))) == decode_result::<C::Response>(
                buffer_contents(*old(src)),
            ),
    {
        let s = buffer_bytes(src);
        let n = s.len();
        match scan_frame(s) {
            FrameScan::Incomplete => Ok(None),
            FrameScan::Unframed => {
                buffer_advance(src, n);
                proof {
                    assert(buffer_contents(*src) =~= Seq::<u8>::empty());
                }
                Err(Error::InvalidResponseFormat)
            },
            FrameScan::BadCrc => {
                buffer_advance(src, n);
                proof {
                    assert(buffer_contents(*src) =~= Seq::<u8>::empty());
                }
                Err(Error::InvalidResponseCrcSum)
            },
            FrameScan::Found { start, end } => {
                let payload = slice_subrange(s, start + 1, end - 2);
                let mut payload_buf = buffer_from_slice(payload);
                let parsed = C::Response::decode(&mut payload_buf);
                buffer_advance(src, end + 1);
                match parsed {
                    Ok(v) => Ok(Some(v)),
                    Err(e) => Err(e),
                }
            },
        }
    }

    /// Appends to `dst` the request frame of `item`: the command identifier,
    /// the request's payload if any, their CRC-16/XMODEM big-endian, and the
    /// stop byte. Fails, leaving `dst` as it was, only where the request's own
    /// payload cannot be serialised.
    pub fn encode(&mut self, item: C::Request, dst: &mut BytesMut) -> (r: Result<(), Error>)
        ensures
            match item.spec_payload() {
                Ok(p) => r is Ok && buffer_contents(*final(dst)) == buffer_contents(*old(dst))
                    + request_frame(C::spec_protocol_id() + payload_or_empty(p)),
                Err(e) => r == Err::<(), Error>(e) && buffer_contents(*final(dst))
                    == buffer_contents(*old(dst)),
            },
    {
        let mut body = C::protocol_id();
        match item.encode() {
            Err(e) => {
                return Err(e);
            },
            Ok(Some(p)) => {
                append_bytes(&mut body, buffer_bytes(&p));
            },
            Ok(None) => {
                proof {
                    assert(body@ =~= C::spec_protocol_id() + Seq::<u8>::empty());
                }
            },
        }
        let crc = compute_crc(body.as_slice());
        let frame = frame_request(body.as_slice(), crc);
        buffer_extend(dst, frame.as_slice());
        Ok(())
    }
}

impl<C: Command> Default for Codec<C> {
    fn default() -> Self {
        Codec::new()
    }
}

} // verus!
