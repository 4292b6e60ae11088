//! Byte layouts of the protocol's primitive values and of frames.
//!
//! Integers inside a message are little-endian; strings are a little-endian
//! `u64` byte count followed by their UTF-8 bytes. A frame is a big-endian
//! `u64` byte count followed by that many bytes.
use vstd::prelude::*;
use vstd::utf8::*;
use crate::utf8_text::string_from_utf8;

verus! {

pub open spec fn u32_le(v: u32) -> Seq<u8> {
    seq![v as u8, (v >> 8u32) as u8, (v >> 16u32) as u8, (v >> 24u32) as u8]
}

pub open spec fn u64_le(v: u64) -> Seq<u8> {
    seq![
        v as u8,
        (v >> 8u64) as u8,
        (v >> 16u64) as u8,
        (v >> 24u64) as u8,
        (v >> 32u64) as u8,
        (v >> 40u64) as u8,
        (v >> 48u64) as u8,
        (v >> 56u64) as u8,
    ]
}

pub open spec fn u64_be(v: u64) -> Seq<u8> {
    seq![
        (v >> 56u64) as u8,
        (v >> 48u64) as u8,
        (v >> 40u64) as u8,
        (v >> 32u64) as u8,
        (v >> 24u64) as u8,
        (v >> 16u64) as u8,
        (v >> 8u64) as u8,
        v as u8,
    ]
}

pub open spec fn bool_wire(v: bool) -> Seq<u8> {
    seq![if v { 1u8 } else { 0u8 }]
}

pub open spec fn str_wire(s: Seq<char>) -> Seq<u8> {
    u64_le(encode_utf8(s).len() as u64) + encode_utf8(s)
}

/// A frame holding `payload`.
pub open spec fn frame_wire(payload: Seq<u8>) -> Seq<u8> {
    u64_be(payload.len() as u64) + payload
}

/// `b` holds `x` from position `p` on.
pub open spec fn holds_at(b: Seq<u8>, p: int, x: Seq<u8>) -> bool {
    0 <= p && p + x.len() <= b.len() && b.subrange(p, p + x.len()) == x
}

pub open spec fn u32_at(b: Seq<u8>, p: int) -> u32 {
    (b[p] as u32) | ((b[p + 1] as u32) << 8u32) | ((b[p + 2] as u32) << 16u32) | ((b[p + 3] as u32)
        << 24u32)
}

pub open spec fn u64_le_at(b: Seq<u8>, p: int) -> u64 {
    (b[p] as u64) | ((b[p + 1] as u64) << 8u64) | ((b[p + 2] as u64) << 16u64) | ((b[p + 3] as u64)
        << 24u64) | ((b[p + 4] as u64) << 32u64) | ((b[p + 5] as u64) << 40u64) | ((b[p + 6] as u64)
        << 48u64) | ((b[p + 7] as u64) << 56u64)
}

pub open spec fn u64_be_at(b: Seq<u8>, p: int) -> u64 {
    (b[p + 7] as u64) | ((b[p + 6] as u64) << 8u64) | ((b[p + 5] as u64) << 16u64) | ((b[p
        + 4] as u64) << 24u64) | ((b[p + 3] as u64) << 32u64) | ((b[p + 2] as u64) << 40u64) | ((b[p
        + 1] as u64) << 48u64) | ((b[p] as u64) << 56u64)
}

/// What a reader finds at `p`: a value and the position after it, or nothing.
pub open spec fn parse_u32(b: Seq<u8>, p: int) -> Option<(u32, int)> {
    if 0 <= p && p + 4 <= b.len() {
        Some((u32_at(b, p), p + 4))
    } else {
        None
    }
}

pub open spec fn parse_u64(b: Seq<u8>, p: int) -> Option<(u64, int)> {
    if 0 <= p && p + 8 <= b.len() {
        Some((u64_le_at(b, p), p + 8))
    } else {
        None
    }
}

pub open spec fn parse_bool(b: Seq<u8>, p: int) -> Option<(bool, int)> {
    if 0 <= p && p + 1 <= b.len() && (b[p] == 0 || b[p] == 1) {
        Some((b[p] == 1, p + 1))
    } else {
        None
    }
}

pub open spec fn parse_str(b: Seq<u8>, p: int) -> Option<(Seq<char>, int)> {
    match parse_u64(b, p) {
        Some((n, q)) => if q + n <= b.len() && valid_utf8(b.subrange(q, q + n)) {
            Some((decode_utf8(b.subrange(q, q + n)), q + n))
        } else {
            None
        },
        None => None,
    }
}

pub open spec fn parse_frame(b: Seq<u8>, p: int) -> Option<(Seq<u8>, int)> {
    if 0 <= p && p + 8 <= b.len() && p + 8 + u64_be_at(b, p) <= b.len() {
        Some((b.subrange(p + 8, p + 8 + u64_be_at(b, p)), p + 8 + u64_be_at(b, p)))
    } else {
        None
    }
}

pub proof fn lemma_holds_concat(b: Seq<u8>, p: int, x: Seq<u8>, y: Seq<u8>)
    requires
        holds_at(b, p, x + y),
    ensures
        holds_at(b, p, x),
        holds_at(b, p + x.len(), y),
{
    let whole = b.subrange(p, p + x.len() + y.len());
    assert(b.subrange(p, p + x.len()) =~= whole.subrange(0, x.len() as int));
    assert((x + y).subrange(0, x.len() as int) =~= x);
    assert(b.subrange(p + x.len(), p + x.len() + y.len()) =~= whole.subrange(
        x.len() as int,
        (x.len() + y.len()) as int,
    ));
    assert((x + y).subrange(x.len() as int, (x.len() + y.len()) as int) =~= y);
}

pub proof fn lemma_u32(b: Seq<u8>, p: int, v: u32)
    requires
        holds_at(b, p, u32_le(v)),
    ensures
        parse_u32(b, p) == Some((v, p + 4)),
{
    let x = u32_le(v);
    assert(b.subrange(p, p + 4)[0] == b[p]);
    assert(b.subrange(p, p + 4)[1] == b[p + 1]);
    assert(b.subrange(p, p + 4)[2] == b[p + 2]);
    assert(b.subrange(p, p + 4)[3] == b[p + 3]);
    let (b0, b1, b2, b3) = (b[p], b[p + 1], b[p + 2], b[p + 3]);
    assert(b0 == v as u8 && b1 == (v >> 8u32) as u8 && b2 == (v >> 16u32) as u8 && b3 == (v
        >> 24u32) as u8 ==> (b0 as u32) | ((b1 as u32) << 8u32) | ((b2 as u32) << 16u32) | ((
    b3 as u32) << 24u32) == v) by (bit_vector);
}

pub proof fn lemma_u64(b: Seq<u8>, p: int, v: u64)
    requires
        holds_at(b, p, u64_le(v)),
    ensures
        parse_u64(b, p) == Some((v, p + 8)),
{
    let s = b.subrange(p, p + 8);
    assert(s[0] == b[p] && s[1] == b[p + 1] && s[2] == b[p + 2] && s[3] == b[p + 3]);
    assert(s[4] == b[p + 4] && s[5] == b[p + 5] && s[6] == b[p + 6] && s[7] == b[p + 7]);
    let (b0, b1, b2, b3, b4, b5, b6, b7) = (
        b[p],
        b[p + 1],
        b[p + 2],
        b[p + 3],
        b[p + 4],
        b[p + 5],
        b[p + 6],
        b[p + 7],
    );
    assert(b0 == v as u8 && b1 == (v >> 8u64) as u8 && b2 == (v >> 16u64) as u8 && b3 == (v
        >> 24u64) as u8 && b4 == (v >> 32u64) as u8 && b5 == (v >> 40u64) as u8 && b6 == (v
        >> 48u64) as u8 && b7 == (v >> 56u64) as u8 ==> (b0 as u64) | ((b1 as u64) << 8u64) | ((
    b2 as u64) << 16u64) | ((b3 as u64) << 24u64) | ((b4 as u64) << 32u64) | ((b5 as u64)
        << 40u64) | ((b6 as u64) << 48u64) | ((b7 as u64) << 56u64) == v) by (bit_vector);
}

pub proof fn lemma_u64_be(b: Seq<u8>, p: int, v: u64)
    requires
        holds_at(b, p, u64_be(v)),
    ensures
        u64_be_at(b, p) == v,
{
    let s = b.subrange(p, p + 8);
    assert(s[0] == b[p] && s[1] == b[p + 1] && s[2] == b[p + 2] && s[3] == b[p + 3]);
    assert(s[4] == b[p + 4] && s[5] == b[p + 5] && s[6] == b[p + 6] && s[7] == b[p + 7]);
    let (b0, b1, b2, b3, b4, b5, b6, b7) = (
        b[p],
        b[p + 1],
        b[p + 2],
        b[p + 3],
        b[p + 4],
        b[p + 5],
        b[p + 6],
        b[p + 7],
    );
    assert(b7 == v as u8 && b6 == (v >> 8u64) as u8 && b5 == (v >> 16u64) as u8 && b4 == (v
        >> 24u64) as u8 && b3 == (v >> 32u64) as u8 && b2 == (v >> 40u64) as u8 && b1 == (v
        >> 48u64) as u8 && b0 == (v >> 56u64) as u8 ==> (b7 as u64) | ((b6 as u64) << 8u64) | ((
    b5 as u64) << 16u64) | ((b4 as u64) << 24u64) | ((b3 as u64) << 32u64) | ((b2 as u64)
        << 40u64) | ((b1 as u64) << 48u64) | ((b0 as u64) << 56u64) == v) by (bit_vector);
}

pub proof fn lemma_bool(b: Seq<u8>, p: int, v: bool)
    requires
        holds_at(b, p, bool_wire(v)),
    ensures
        parse_bool(b, p) == Some((v, p + 1)),
{
    assert(b.subrange(p, p + 1)[0] == b[p]);
}

pub proof fn lemma_str(b: Seq<u8>, p: int, s: Seq<char>)
    requires
        holds_at(b, p, str_wire(s)),
        b.len() <= u64::MAX,
    ensures
        parse_str(b, p) == Some((s, p + str_wire(s).len())),
{
    let e = encode_utf8(s);
    lemma_holds_concat(b, p, u64_le(e.len() as u64), e);
    lemma_u64(b, p, e.len() as u64);
    encode_utf8_valid_utf8(s);
    encode_utf8_decode_utf8(s);
}

pub proof fn lemma_frame(b: Seq<u8>, p: int, payload: Seq<u8>)
    requires
        holds_at(b, p, frame_wire(payload)),
        b.len() <= u64::MAX,
    ensures
        parse_frame(b, p) == Some((payload, p + frame_wire(payload).len())),
{
    lemma_holds_concat(b, p, u64_be(payload.len() as u64), payload);
    lemma_u64_be(b, p, payload.len() as u64);
}

/// Two frames written one after the other are read back in order, and the
/// second ends where the bytes end.
pub proof fn lemma_frames_in_sequence(x: Seq<u8>, y: Seq<u8>)
    requires
        frame_wire(x).len() + frame_wire(y).len() <= u64::MAX,
    ensures
        parse_frame(frame_wire(x) + frame_wire(y), 0) == Some((x, frame_wire(x).len() as int)),
        parse_frame(frame_wire(x) + frame_wire(y), frame_wire(x).len() as int) == Some(
            (y, (frame_wire(x).len() + frame_wire(y).len()) as int),
        ),
{
    let b = frame_wire(x) + frame_wire(y);
    assert(b.subrange(0, b.len() as int) =~= b);
    lemma_holds_concat(b, 0, frame_wire(x), frame_wire(y));
    lemma_frame(b, 0, x);
    lemma_frame(b, frame_wire(x).len() as int, y);
}

// Writers.
pub fn write_u32(out: &mut Vec<u8>, v: u32)
    ensures
        final(out)@ == old(out)@ + u32_le(v),
{
    out.push(v as u8);
    out.push((v >> 8u32) as u8);
    out.push((v >> 16u32) as u8);
    out.push((v >> 24u32) as u8);
    assert(final(out)@ =~= old(out)@ + u32_le(v));
}

pub fn write_u64(out: &mut Vec<u8>, v: u64)
    ensures
        final(out)@ == old(out)@ + u64_le(v),
{
    out.push(v as u8);
    out.push((v >> 8u64) as u8);
    out.push((v >> 16u64) as u8);
    out.push((v >> 24u64) as u8);
    out.push((v >> 32u64) as u8);
    out.push((v >> 40u64) as u8);
    out.push((v >> 48u64) as u8);
    out.push((v >> 56u64) as u8);
    assert(final(out)@ =~= old(out)@ + u64_le(v));
}

pub fn write_bool(out: &mut Vec<u8>, v: bool)
    ensures
        final(out)@ == old(out)@ + bool_wire(v),
{
    out.push(if v { 1u8 } else { 0u8 });
    assert(final(out)@ =~= old(out)@ + bool_wire(v));
}

/// Appends the bytes of `bytes` to `out`.
pub fn write_bytes(out: &mut Vec<u8>, bytes: &[u8])
    ensures
        final(out)@ == old(out)@ + bytes@,
{
    let ghost start = out@;
    let mut i: usize = 0;
    while i < bytes.len()
        invariant
            i <= bytes.len(),
            out@ == start + bytes@.subrange(0, i as int),
        decreases bytes.len() - i,
    {
        out.push(bytes[i]);
        i = i + 1;
        assert(out@ =~= start + bytes@.subrange(0, i as int));
    }
    assert(bytes@.subrange(0, i as int) =~= bytes@);
}

pub fn write_str(out: &mut Vec<u8>, s: &String)
    ensures
        final(out)@ == old(out)@ + str_wire(s@),
{
    let bytes = s.as_str().as_bytes();
    write_u64(out, bytes.len() as u64);
    write_bytes(out, bytes);
    assert(final(out)@ =~= old(out)@ + str_wire(s@));
}

/// Frames `payload`.
pub fn encode_frame(payload: &[u8]) -> (out: Vec<u8>)
    ensures
        out@ == frame_wire(payload@),
{
    let n = payload.len() as u64;
    let mut out: Vec<u8> = Vec::new();
    out.push((n >> 56u64) as u8);
    out.push((n >> 48u64) as u8);
    out.push((n >> 40u64) as u8);
    out.push((n >> 32u64) as u8);
    out.push((n >> 24u64) as u8);
    out.push((n >> 16u64) as u8);
    out.push((n >> 8u64) as u8);
    out.push(n as u8);
    write_bytes(&mut out, payload);
    assert(out@ =~= frame_wire(payload@));
    out
}

// Readers: each finds what the matching spec parser finds.
pub fn read_u32(b: &[u8], pos: usize) -> (r: Option<(u32, usize)>)
    ensures
        match r {
            Some((v, q)) => parse_u32(b@, pos as int) == Some((v, q as int)),
            None => parse_u32(b@, pos as int) is None,
        },
{
    if b.len() >= 4 && pos <= b.len() - 4 {
        let v = (b[pos] as u32) | ((b[pos + 1] as u32) << 8u32) | ((b[pos + 2] as u32) << 16u32)
            | ((b[pos + 3] as u32) << 24u32);
        Some((v, pos + 4))
    } else {
        None
    }
}

pub fn read_u64(b: &[u8], pos: usize) -> (r: Option<(u64, usize)>)
    ensures
        match r {
            Some((v, q)) => parse_u64(b@, pos as int) == Some((v, q as int)),
            None => parse_u64(b@, pos as int) is None,
        },
{
    if b.len() >= 8 && pos <= b.len() - 8 {
        let v = (b[pos] as u64) | ((b[pos + 1] as u64) << 8u64) | ((b[pos + 2] as u64) << 16u64)
            | ((b[pos + 3] as u64) << 24u64) | ((b[pos + 4] as u64) << 32u64) | ((b[pos
            + 5] as u64) << 40u64) | ((b[pos + 6] as u64) << 48u64) | ((b[pos + 7] as u64)
            << 56u64);
        Some((v, pos + 8))
    } else {
        None
    }
}

pub fn read_bool(b: &[u8], pos: usize) -> (r: Option<(bool, usize)>)
    ensures
        match r {
            Some((v, q)) => parse_bool(b@, pos as int) == Some((v, q as int)),
            None => parse_bool(b@, pos as int) is None,
        },
{
    if pos < b.len() && (b[pos] == 0 || b[pos] == 1) {
        Some((b[pos] == 1, pos + 1))
    } else {
        None
    }
}

/// Copies `b[from..to]`.
pub fn copy_range(b: &[u8], from: usize, to: usize) -> (r: Vec<u8>)
    requires
        from <= to <= b.len(),
    ensures
        r@ == b@.subrange(from as int, to as int),
{
    let mut r: Vec<u8> = Vec::new();
    let mut i = from;
    while i < to
        invariant
            from <= i <= to <= b.len(),
            r@ == b@.subrange(from as int, i as int),
        decreases to - i,
    {
        r.push(b[i]);
        i = i + 1;
        assert(r@ =~= b@.subrange(from as int, i as int));
    }
    r
}

pub fn read_str(b: &[u8], pos: usize) -> (r: Option<(String, usize)>)
    ensures
        match r {
            Some((s, q)) => parse_str(b@, pos as int) == Some((s@, q as int)),
            None => parse_str(b@, pos as int) is None,
        },
{
    let (n, q) = match read_u64(b, pos) {
        Some(found) => found,
        None => return None,
    };
    if n > (b.len() - q) as u64 {
        return None;
    }
    let end = q + n as usize;
    let bytes = copy_range(b, q, end);
    match string_from_utf8(bytes) {
        Some(s) => Some((s, end)),
        None => None,
    }
}

/// Reads the frame that starts at `pos`: its payload and the position after it.
pub fn decode_frame(b: &[u8], pos: usize) -> (r: Option<(Vec<u8>, usize)>)
    ensures
        match r {
            Some((payload, q)) => parse_frame(b@, pos as int) == Some((payload@, q as int)),
            None => parse_frame(b@, pos as int) is None,
        },
{
    if b.len() < 8 || pos > b.len() - 8 {
        return None;
    }
    let n = frame_length(b, pos);
    let start = pos + 8;
    if n > (b.len() - start) as u64 {
        return None;
    }
    let end = start + n as usize;
    Some((copy_range(b, start, end), end))
}

/// The payload length that the frame header at `pos` announces.
pub fn frame_length(b: &[u8], pos: usize) -> (n: u64)
    requires
        pos + 8 <= b.len(),
    ensures
        n == u64_be_at(b@, pos as int),
{
    (b[pos + 7] as u64) | ((b[pos + 6] as u64) << 8u64) | ((b[pos + 5] as u64) << 16u64) | ((b[pos
        + 4] as u64) << 24u64) | ((b[pos + 3] as u64) << 32u64) | ((b[pos + 2] as u64) << 40u64)
        | ((b[pos + 1] as u64) << 48u64) | ((b[pos] as u64) << 56u64)
}

} // verus!
