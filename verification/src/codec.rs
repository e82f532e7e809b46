//! The persisted gallery snapshot: a flat byte encoding of a sequence of
//! drawings, and its parser. One snapshot holds every field of every drawing,
//! little-endian, counts first; decoding demands that every byte is consumed,
//! and encoding then decoding gives back exactly the drawings that went in.

use vstd::prelude::*;

use vstd::arithmetic::div_mod::lemma_fundamental_div_mod;

use crate::drawing::Drawing;
use crate::drawing::DrawingModel;
use crate::gallery::Gallery;

verus! {

/// A 16-bit value as two little-endian bytes.
pub open spec fn u16_bytes(v: u16) -> Seq<u8> {
    seq![(v % 256) as u8, (v / 256) as u8]
}

/// A 32-bit value as four little-endian bytes.
pub open spec fn u32_bytes(v: u32) -> Seq<u8> {
    u16_bytes((v % 0x10000) as u16) + u16_bytes((v / 0x10000) as u16)
}

/// A 64-bit value as eight little-endian bytes.
pub open spec fn u64_bytes(v: u64) -> Seq<u8> {
    u32_bytes((v % 0x1_0000_0000) as u32) + u32_bytes((v / 0x1_0000_0000) as u32)
}

/// A 16-bit signed value, shifted into the unsigned range before encoding.
pub open spec fn i16_bytes(v: i16) -> Seq<u8> {
    u16_bytes((v + 0x8000) as u16)
}

/// Reads a 16-bit value off the front of `b`, returning it with the
/// remaining bytes.
pub open spec fn parse_u16(b: Seq<u8>) -> Option<(u16, Seq<u8>)> {
    if b.len() >= 2 {
        Some(((b[0] + 256 * b[1]) as u16, b.skip(2)))
    } else {
        None
    }
}

/// Reads a 32-bit value off the front of `b`.
pub open spec fn parse_u32(b: Seq<u8>) -> Option<(u32, Seq<u8>)> {
    match parse_u16(b) {
        Some((lo, r)) => match parse_u16(r) {
            Some((hi, r2)) => Some(((lo + 0x10000 * hi) as u32, r2)),
            None => None,
        },
        None => None,
    }
}

/// Reads a 64-bit value off the front of `b`.
pub open spec fn parse_u64(b: Seq<u8>) -> Option<(u64, Seq<u8>)> {
    match parse_u32(b) {
        Some((lo, r)) => match parse_u32(r) {
            Some((hi, r2)) => Some(((lo + 0x1_0000_0000 * hi) as u64, r2)),
            None => None,
        },
        None => None,
    }
}

/// Reads a 16-bit signed value off the front of `b`.
pub open spec fn parse_i16(b: Seq<u8>) -> Option<(i16, Seq<u8>)> {
    match parse_u16(b) {
        Some((u, r)) => Some(((u - 0x8000) as i16, r)),
        None => None,
    }
}

/// Parsing the encoding of a 16-bit value gives the value back and leaves
/// exactly the trailing bytes.
proof fn lemma_parse_u16_round_trip(v: u16, rest: Seq<u8>)
    ensures
        parse_u16(u16_bytes(v) + rest) == Some((v, rest)),
{
    let b = u16_bytes(v) + rest;
    lemma_fundamental_div_mod(v as int, 256);
    assert(v / 256 < 256) by (nonlinear_arith)
        requires
            v <= 0xffff,
    ;
    assert(b[0] == v % 256 && b[1] == v / 256);
    assert(b.skip(2) =~= rest);
}

/// Parsing the encoding of a 32-bit value gives the value back.
proof fn lemma_parse_u32_round_trip(v: u32, rest: Seq<u8>)
    ensures
        parse_u32(u32_bytes(v) + rest) == Some((v, rest)),
{
    let lo = (v % 0x10000) as u16;
    let hi = (v / 0x10000) as u16;
    lemma_fundamental_div_mod(v as int, 0x10000);
    assert(v / 0x10000 < 0x10000) by (nonlinear_arith)
        requires
            v <= 0xffff_ffff,
    ;
    assert(u32_bytes(v) + rest =~= u16_bytes(lo) + (u16_bytes(hi) + rest));
    lemma_parse_u16_round_trip(lo, u16_bytes(hi) + rest);
    lemma_parse_u16_round_trip(hi, rest);
}

/// Parsing the encoding of a 64-bit value gives the value back.
proof fn lemma_parse_u64_round_trip(v: u64, rest: Seq<u8>)
    ensures
        parse_u64(u64_bytes(v) + rest) == Some((v, rest)),
{
    let lo = (v % 0x1_0000_0000) as u32;
    let hi = (v / 0x1_0000_0000) as u32;
    lemma_fundamental_div_mod(v as int, 0x1_0000_0000);
    assert(v / 0x1_0000_0000 < 0x1_0000_0000) by (nonlinear_arith)
        requires
            v <= 0xffff_ffff_ffff_ffff,
    ;
    assert(u64_bytes(v) + rest =~= u32_bytes(lo) + (u32_bytes(hi) + rest));
    lemma_parse_u32_round_trip(lo, u32_bytes(hi) + rest);
    lemma_parse_u32_round_trip(hi, rest);
}

/// Parsing the encoding of a 16-bit signed value gives the value back.
proof fn lemma_parse_i16_round_trip(v: i16, rest: Seq<u8>)
    ensures
        parse_i16(i16_bytes(v) + rest) == Some((v, rest)),
{
    lemma_parse_u16_round_trip((v + 0x8000) as u16, rest);
}

/// Appends the two-byte encoding of `v`.
fn push_u16(out: &mut Vec<u8>, v: u16)
    ensures
        final(out)@ == old(out)@ + u16_bytes(v),
{
    out.push((v % 256) as u8);
    out.push((v / 256) as u8);
    proof {
        assert(final(out)@ =~= old(out)@ + u16_bytes(v));
    }
}

/// Appends the four-byte encoding of `v`.
fn push_u32(out: &mut Vec<u8>, v: u32)
    ensures
        final(out)@ == old(out)@ + u32_bytes(v),
{
    push_u16(out, (v % 0x10000) as u16);
    push_u16(out, (v / 0x10000) as u16);
    proof {
        assert(v / 0x10000 < 0x10000) by (nonlinear_arith)
            requires
                v <= 0xffff_ffff,
        ;
        assert(final(out)@ =~= old(out)@ + u32_bytes(v));
    }
}

/// Appends the eight-byte encoding of `v`.
fn push_u64(out: &mut Vec<u8>, v: u64)
    ensures
        final(out)@ == old(out)@ + u64_bytes(v),
{
    push_u32(out, (v % 0x1_0000_0000) as u32);
    push_u32(out, (v / 0x1_0000_0000) as u32);
    proof {
        assert(v / 0x1_0000_0000 < 0x1_0000_0000) by (nonlinear_arith)
            requires
                v <= 0xffff_ffff_ffff_ffff,
        ;
        assert(final(out)@ =~= old(out)@ + u64_bytes(v));
    }
}

/// Appends the two-byte encoding of the signed value `v`.
fn push_i16(out: &mut Vec<u8>, v: i16)
    ensures
        final(out)@ == old(out)@ + i16_bytes(v),
{
    push_u16(out, ((v as i32) + 0x8000) as u16);
}

/// Reads two bytes at `pos` as a 16-bit value, mirroring `parse_u16` on the
/// bytes from `pos` on.
fn read_u16(b: &Vec<u8>, pos: usize) -> (r: Option<(u16, usize)>)
    requires
        pos <= b@.len(),
    ensures
        match r {
            Some((v, p2)) => p2 == pos + 2 && p2 <= b@.len() && parse_u16(b@.skip(pos as int))
                == Some((v, b@.skip(p2 as int))),
            None => parse_u16(b@.skip(pos as int)) is None,
        },
{
    if b.len() - pos >= 2 {
        let v: u16 = (b[pos] as u16) + 256 * (b[pos + 1] as u16);
        proof {
            assert(b@.skip(pos as int).skip(2) =~= b@.skip(pos as int + 2));
        }
        Some((v, pos + 2))
    } else {
        None
    }
}

/// Reads four bytes at `pos` as a 32-bit value, mirroring `parse_u32`.
fn read_u32(b: &Vec<u8>, pos: usize) -> (r: Option<(u32, usize)>)
    requires
        pos <= b@.len(),
    ensures
        match r {
            Some((v, p2)) => pos <= p2 <= b@.len() && parse_u32(b@.skip(pos as int)) == Some(
                (v, b@.skip(p2 as int)),
            ),
            None => parse_u32(b@.skip(pos as int)) is None,
        },
{
    match read_u16(b, pos) {
        Some((lo, p1)) => match read_u16(b, p1) {
            Some((hi, p2)) => Some(((lo as u32) + 0x10000 * (hi as u32), p2)),
            None => None,
        },
        None => None,
    }
}

/// Reads eight bytes at `pos` as a 64-bit value, mirroring `parse_u64`.
fn read_u64(b: &Vec<u8>, pos: usize) -> (r: Option<(u64, usize)>)
    requires
        pos <= b@.len(),
    ensures
        match r {
            Some((v, p2)) => pos <= p2 <= b@.len() && parse_u64(b@.skip(pos as int)) == Some(
                (v, b@.skip(p2 as int)),
            ),
            None => parse_u64(b@.skip(pos as int)) is None,
        },
{
    match read_u32(b, pos) {
        Some((lo, p1)) => match read_u32(b, p1) {
            Some((hi, p2)) => Some(((lo as u64) + 0x1_0000_0000 * (hi as u64), p2)),
            None => None,
        },
        None => None,
    }
}

/// Reads two bytes at `pos` as a 16-bit signed value, mirroring `parse_i16`.
fn read_i16(b: &Vec<u8>, pos: usize) -> (r: Option<(i16, usize)>)
    requires
        pos <= b@.len(),
    ensures
        match r {
            Some((v, p2)) => pos <= p2 <= b@.len() && parse_i16(b@.skip(pos as int)) == Some(
                (v, b@.skip(p2 as int)),
            ),
            None => parse_i16(b@.skip(pos as int)) is None,
        },
{
    match read_u16(b, pos) {
        Some((u, p2)) => Some((((u as i32) - 0x8000) as i16, p2)),
        None => None,
    }
}

/// One segment as eight bytes: both endpoints, column before row.
pub open spec fn line_bytes(l: ((i16, i16), (i16, i16))) -> Seq<u8> {
    i16_bytes(l.0.0) + i16_bytes(l.0.1) + i16_bytes(l.1.0) + i16_bytes(l.1.1)
}

/// A sequence of segments, one after the other.
pub open spec fn lines_bytes(ls: Seq<((i16, i16), (i16, i16))>) -> Seq<u8>
    decreases ls.len(),
{
    if ls.len() == 0 {
        Seq::empty()
    } else {
        line_bytes(ls[0]) + lines_bytes(ls.drop_first())
    }
}

/// One drawing: its dimensions and flag, then its segment count, then its
/// segments.
#[verifier::opaque]
pub open spec fn drawing_bytes(m: DrawingModel) -> Seq<u8> {
    u16_bytes(m.grid_width) + u16_bytes(m.grid_height) + u32_bytes(m.view_width) + u32_bytes(
        m.view_height,
    ) + seq![if m.includes_points { 1u8 } else { 0u8 }] + u64_bytes(m.lines.len() as u64)
        + lines_bytes(m.lines)
}

/// A sequence of drawings, one after the other.
pub open spec fn drawings_bytes(s: Seq<DrawingModel>) -> Seq<u8>
    decreases s.len(),
{
    if s.len() == 0 {
        Seq::empty()
    } else {
        drawing_bytes(s[0]) + drawings_bytes(s.drop_first())
    }
}

/// The full snapshot: the drawing count, then every drawing.
pub open spec fn gallery_bytes(s: Seq<DrawingModel>) -> Seq<u8> {
    u64_bytes(s.len() as u64) + drawings_bytes(s)
}

/// Reads one segment off the front of `b`.
pub open spec fn parse_line(b: Seq<u8>) -> Option<(((i16, i16), (i16, i16)), Seq<u8>)> {
    match parse_i16(b) {
        Some((fx, r1)) => match parse_i16(r1) {
            Some((fy, r2)) => match parse_i16(r2) {
                Some((tx, r3)) => match parse_i16(r3) {
                    Some((ty, r4)) => Some((((fx, fy), (tx, ty)), r4)),
                    None => None,
                },
                None => None,
            },
            None => None,
        },
        None => None,
    }
}

/// Reads exactly `n` segments off the front of `b`.
pub open spec fn parse_lines(b: Seq<u8>, n: nat) -> Option<
    (Seq<((i16, i16), (i16, i16))>, Seq<u8>),
>
    decreases n,
{
    if n == 0 {
        Some((Seq::empty(), b))
    } else {
        match parse_line(b) {
            Some((l, r)) => match parse_lines(r, (n - 1) as nat) {
                Some((ls, r2)) => Some((seq![l] + ls, r2)),
                None => None,
            },
            None => None,
        }
    }
}

/// Reads one drawing off the front of `b`, fields in encoding order.
#[verifier::opaque]
pub open spec fn parse_drawing(b: Seq<u8>) -> Option<(DrawingModel, Seq<u8>)> {
    match parse_u16(b) {
        Some((gw, r1)) => match parse_u16(r1) {
            Some((gh, r2)) => match parse_u32(r2) {
                Some((vw, r3)) => match parse_u32(r3) {
                    Some((vh, r4)) => if r4.len() >= 1 && (r4[0] == 0 || r4[0] == 1) {
                        let pts = r4[0] == 1;
                        match parse_u64(r4.skip(1)) {
                            Some((n, r5)) => match parse_lines(r5, n as nat) {
                                Some((ls, r6)) => Some(
                                    (
                                        DrawingModel {
                                            grid_width: gw,
                                            grid_height: gh,
                                            view_width: vw,
                                            view_height: vh,
                                            includes_points: pts,
                                            lines: ls,
                                        },
                                        r6,
                                    ),
                                ),
                                None => None,
                            },
                            None => None,
                        }
                    } else {
                        None
                    },
                    None => None,
                },
                None => None,
            },
            None => None,
        },
        None => None,
    }
}

/// Reads exactly `n` drawings off the front of `b`.
pub open spec fn parse_drawings(b: Seq<u8>, n: nat) -> Option<(Seq<DrawingModel>, Seq<u8>)>
    decreases n,
{
    if n == 0 {
        Some((Seq::empty(), b))
    } else {
        match parse_drawing(b) {
            Some((d, r)) => match parse_drawings(r, (n - 1) as nat) {
                Some((ds, r2)) => Some((seq![d] + ds, r2)),
                None => None,
            },
            None => None,
        }
    }
}

/// Decodes a full snapshot: the count, that many drawings, and nothing left
/// over; anything else is malformed.
pub open spec fn parse_gallery(b: Seq<u8>) -> Option<Seq<DrawingModel>> {
    match parse_u64(b) {
        Some((n, r)) => match parse_drawings(r, n as nat) {
            Some((ds, r2)) => if r2.len() == 0 {
                Some(ds)
            } else {
                None
            },
            None => None,
        },
        None => None,
    }
}

/// Appending a segment to a sequence appends its bytes to the encoding.
proof fn lemma_lines_bytes_snoc(ls: Seq<((i16, i16), (i16, i16))>, l: ((i16, i16), (i16, i16)))
    ensures
        lines_bytes(ls.push(l)) == lines_bytes(ls) + line_bytes(l),
    decreases ls.len(),
{
    let p = ls.push(l);
    assert(p[0] == if ls.len() == 0 {
        l
    } else {
        ls[0]
    });
    if ls.len() == 0 {
        assert(p.drop_first() =~= Seq::<((i16, i16), (i16, i16))>::empty());
        assert(lines_bytes(p.drop_first()) == Seq::<u8>::empty());
        assert(lines_bytes(p) =~= lines_bytes(ls) + line_bytes(l));
    } else {
        assert(p.drop_first() =~= ls.drop_first().push(l));
        lemma_lines_bytes_snoc(ls.drop_first(), l);
        assert(lines_bytes(p) == line_bytes(ls[0]) + (lines_bytes(ls.drop_first()) + line_bytes(
            l,
        )));
        assert(lines_bytes(p) =~= lines_bytes(ls) + line_bytes(l));
    }
}

/// Appending a drawing to a sequence appends its bytes to the encoding.
proof fn lemma_drawings_bytes_snoc(s: Seq<DrawingModel>, d: DrawingModel)
    ensures
        drawings_bytes(s.push(d)) == drawings_bytes(s) + drawing_bytes(d),
    decreases s.len(),
{
    let p = s.push(d);
    assert(p[0] == if s.len() == 0 {
        d
    } else {
        s[0]
    });
    if s.len() == 0 {
        assert(p.drop_first() =~= Seq::<DrawingModel>::empty());
        assert(drawings_bytes(p.drop_first()) == Seq::<u8>::empty());
        assert(drawings_bytes(p) =~= drawings_bytes(s) + drawing_bytes(d));
    } else {
        assert(p.drop_first() =~= s.drop_first().push(d));
        lemma_drawings_bytes_snoc(s.drop_first(), d);
        assert(drawings_bytes(p) == drawing_bytes(s[0]) + (drawings_bytes(s.drop_first())
            + drawing_bytes(d)));
        assert(drawings_bytes(p) =~= drawings_bytes(s) + drawing_bytes(d));
    }
}

/// Parsing the encoding of a segment gives the segment back.
proof fn lemma_parse_line_round_trip(l: ((i16, i16), (i16, i16)), rest: Seq<u8>)
    ensures
        parse_line(line_bytes(l) + rest) == Some((l, rest)),
{
    let r3 = i16_bytes(l.1.1) + rest;
    let r2 = i16_bytes(l.1.0) + r3;
    let r1 = i16_bytes(l.0.1) + r2;
    assert(line_bytes(l) + rest =~= i16_bytes(l.0.0) + r1);
    lemma_parse_i16_round_trip(l.0.0, r1);
    lemma_parse_i16_round_trip(l.0.1, r2);
    lemma_parse_i16_round_trip(l.1.0, r3);
    lemma_parse_i16_round_trip(l.1.1, rest);
}

/// Parsing the encoding of a segment sequence gives the sequence back.
proof fn lemma_parse_lines_round_trip(ls: Seq<((i16, i16), (i16, i16))>, rest: Seq<u8>)
    ensures
        parse_lines(lines_bytes(ls) + rest, ls.len()) == Some((ls, rest)),
    decreases ls.len(),
{
    if ls.len() == 0 {
        assert(lines_bytes(ls) + rest =~= rest);
        assert(parse_lines(rest, 0) == Some((Seq::<((i16, i16), (i16, i16))>::empty(), rest)));
        assert(Seq::<((i16, i16), (i16, i16))>::empty() =~= ls);
    } else {
        let tail = ls.drop_first();
        assert(lines_bytes(ls) + rest =~= line_bytes(ls[0]) + (lines_bytes(tail) + rest));
        lemma_parse_line_round_trip(ls[0], lines_bytes(tail) + rest);
        lemma_parse_lines_round_trip(tail, rest);
        assert(seq![ls[0]] + tail =~= ls);
    }
}

/// Concatenating seven pieces and a remainder associates to the right.
proof fn lemma_seq_assoc7(
    a: Seq<u8>,
    b: Seq<u8>,
    c: Seq<u8>,
    d: Seq<u8>,
    e: Seq<u8>,
    f: Seq<u8>,
    g: Seq<u8>,
    rest: Seq<u8>,
)
    ensures
        ((((((a + b) + c) + d) + e) + f) + g) + rest == a + (b + (c + (d + (e + (f + (g
            + rest)))))),
{
    assert(((((((a + b) + c) + d) + e) + f) + g) + rest =~= a + (b + (c + (d + (e + (f + (g
        + rest)))))));
}

/// Parsing the encoding of a drawing gives the drawing back, provided its
/// segment count fits the 64-bit count field.
#[verifier::rlimit(100)]
proof fn lemma_parse_drawing_round_trip(m: DrawingModel, rest: Seq<u8>)
    requires
        m.lines.len() <= u64::MAX,
    ensures
        parse_drawing(drawing_bytes(m) + rest) == Some((m, rest)),
{
    let flag = seq![if m.includes_points { 1u8 } else { 0u8 }];
    let r6 = rest;
    let r5 = lines_bytes(m.lines) + r6;
    let r4a = u64_bytes(m.lines.len() as u64) + r5;
    let r4 = flag + r4a;
    let r3 = u32_bytes(m.view_height) + r4;
    let r2 = u32_bytes(m.view_width) + r3;
    let r1 = u16_bytes(m.grid_height) + r2;
    reveal(drawing_bytes);
    reveal(parse_drawing);
    let b = drawing_bytes(m) + rest;
    lemma_seq_assoc7(
        u16_bytes(m.grid_width),
        u16_bytes(m.grid_height),
        u32_bytes(m.view_width),
        u32_bytes(m.view_height),
        flag,
        u64_bytes(m.lines.len() as u64),
        lines_bytes(m.lines),
        rest,
    );
    assert(b == u16_bytes(m.grid_width) + r1);
    lemma_parse_u16_round_trip(m.grid_width, r1);
    assert(parse_u16(b) == Some((m.grid_width, r1)));
    lemma_parse_u16_round_trip(m.grid_height, r2);
    assert(parse_u16(r1) == Some((m.grid_height, r2)));
    lemma_parse_u32_round_trip(m.view_width, r3);
    assert(parse_u32(r2) == Some((m.view_width, r3)));
    lemma_parse_u32_round_trip(m.view_height, r4);
    assert(parse_u32(r3) == Some((m.view_height, r4)));
    assert(r4.len() >= 1 && r4[0] == (if m.includes_points {
        1u8
    } else {
        0u8
    }));
    assert(r4.skip(1) =~= r4a);
    lemma_parse_u64_round_trip(m.lines.len() as u64, r5);
    assert(parse_u64(r4.skip(1)) == Some((m.lines.len() as u64, r5)));
    lemma_parse_lines_round_trip(m.lines, r6);
    assert((m.lines.len() as u64) as nat == m.lines.len());
    assert(parse_lines(r5, (m.lines.len() as u64) as nat) == Some((m.lines, r6)));
}

/// Parsing the encoding of a drawing sequence gives the sequence back.
#[verifier::rlimit(100)]
proof fn lemma_parse_drawings_round_trip(s: Seq<DrawingModel>, rest: Seq<u8>)
    requires
        forall|i: int| 0 <= i < s.len() ==> #[trigger] s[i].lines.len() <= u64::MAX,
    ensures
        parse_drawings(drawings_bytes(s) + rest, s.len()) == Some((s, rest)),
    decreases s.len(),
{
    if s.len() == 0 {
        assert(drawings_bytes(s) + rest =~= rest);
        assert(Seq::<DrawingModel>::empty() =~= s);
    } else {
        let tail = s.drop_first();
        let head_bytes = drawing_bytes(s[0]);
        let tail_bytes = drawings_bytes(tail);
        assert(drawings_bytes(s) == head_bytes + tail_bytes);
        assert((head_bytes + tail_bytes) + rest =~= head_bytes + (tail_bytes + rest));
        lemma_parse_drawing_round_trip(s[0], tail_bytes + rest);
        assert(forall|i: int|
            0 <= i < tail.len() ==> #[trigger] tail[i].lines.len() <= u64::MAX) by {
            assert(forall|i: int| 0 <= i < tail.len() ==> tail[i] == s[i + 1]);
        }
        lemma_parse_drawings_round_trip(tail, rest);
        assert(parse_drawings(drawings_bytes(s) + rest, s.len()) == Some((seq![s[0]] + tail, rest)));
        assert(seq![s[0]] + tail =~= s);
    }
}

/// The snapshot round-trips: decoding the encoding of any drawing sequence
/// whose counts fit their 64-bit fields gives back exactly that sequence.
pub proof fn lemma_gallery_round_trip(s: Seq<DrawingModel>)
    requires
        s.len() <= u64::MAX,
        forall|i: int| 0 <= i < s.len() ==> #[trigger] s[i].lines.len() <= u64::MAX,
    ensures
        parse_gallery(gallery_bytes(s)) == Some(s),
{
    lemma_parse_u64_round_trip(s.len() as u64, drawings_bytes(s));
    assert(gallery_bytes(s) == u64_bytes(s.len() as u64) + drawings_bytes(s));
    lemma_parse_drawings_round_trip(s, Seq::empty());
    assert(drawings_bytes(s) + Seq::<u8>::empty() =~= drawings_bytes(s));
    assert((s.len() as u64) as nat == s.len());
}

/// Prepending pieces one at a time associates to the right.
proof fn lemma_push_assoc7(
    base: Seq<u8>,
    a: Seq<u8>,
    b: Seq<u8>,
    c: Seq<u8>,
    d: Seq<u8>,
    e: Seq<u8>,
    f: Seq<u8>,
    g: Seq<u8>,
)
    ensures
        ((((((base + a) + b) + c) + d) + e) + f) + g == base + ((((((a + b) + c) + d) + e) + f)
            + g),
{
    assert(((((((base + a) + b) + c) + d) + e) + f) + g =~= base + ((((((a + b) + c) + d) + e) + f)
        + g));
}

/// Appends the eight-byte encoding of one segment.
fn push_line(out: &mut Vec<u8>, l: ((i16, i16), (i16, i16)))
    ensures
        final(out)@ == old(out)@ + line_bytes(l),
{
    push_i16(out, l.0.0);
    push_i16(out, l.0.1);
    push_i16(out, l.1.0);
    push_i16(out, l.1.1);
    proof {
        assert(final(out)@ =~= old(out)@ + line_bytes(l));
    }
}

/// Appends the full encoding of one drawing.
fn encode_drawing(out: &mut Vec<u8>, d: &Drawing)
    ensures
        final(out)@ == old(out)@ + drawing_bytes(d@),
{
    push_u16(out, d.grid_width);
    push_u16(out, d.grid_height);
    push_u32(out, d.view_width);
    push_u32(out, d.view_height);
    out.push(
        if d.includes_points {
            1
        } else {
            0
        },
    );
    push_u64(out, d.lines.len() as u64);
    let ghost base = out@;
    proof {
        assert(d.lines@.take(0) =~= Seq::<((i16, i16), (i16, i16))>::empty());
        assert(base + lines_bytes(d.lines@.take(0)) =~= base);
    }
    let mut t: usize = 0;
    while t < d.lines.len()
        invariant
            t <= d.lines.len(),
            out@ == base + lines_bytes(d.lines@.take(t as int)),
        decreases d.lines.len() - t,
    {
        push_line(out, d.lines[t]);
        proof {
            lemma_lines_bytes_snoc(d.lines@.take(t as int), d.lines@[t as int]);
            assert(d.lines@.take(t as int + 1) =~= d.lines@.take(t as int).push(
                d.lines@[t as int],
            ));
            assert((base + lines_bytes(d.lines@.take(t as int))) + line_bytes(d.lines@[t as int])
                =~= base + lines_bytes(d.lines@.take(t as int + 1)));
        }
        t = t + 1;
    }
    proof {
        assert(d.lines@.take(d.lines@.len() as int) =~= d.lines@);
        reveal(drawing_bytes);
        lemma_push_assoc7(
            old(out)@,
            u16_bytes(d.grid_width),
            u16_bytes(d.grid_height),
            u32_bytes(d.view_width),
            u32_bytes(d.view_height),
            seq![if d.includes_points { 1u8 } else { 0u8 }],
            u64_bytes(d.lines@.len() as u64),
            lines_bytes(d.lines@),
        );
        assert(base == (((((old(out)@ + u16_bytes(d.grid_width)) + u16_bytes(d.grid_height))
            + u32_bytes(d.view_width)) + u32_bytes(d.view_height)) + seq![
            if d.includes_points {
                1u8
            } else {
                0u8
            },
        ]) + u64_bytes(d.lines@.len() as u64)) by {
            assert((((((old(out)@ + u16_bytes(d.grid_width)) + u16_bytes(d.grid_height))
                + u32_bytes(d.view_width)) + u32_bytes(d.view_height)).push(
                if d.includes_points {
                    1u8
                } else {
                    0u8
                },
            )) =~= ((((old(out)@ + u16_bytes(d.grid_width)) + u16_bytes(d.grid_height))
                + u32_bytes(d.view_width)) + u32_bytes(d.view_height)) + seq![
                if d.includes_points {
                    1u8
                } else {
                    0u8
                },
            ]);
        }
        assert(final(out)@ == old(out)@ + drawing_bytes(d@));
    }
}

/// Reads one segment at `pos`, mirroring `parse_line`.
fn read_line(b: &Vec<u8>, pos: usize) -> (r: Option<(((i16, i16), (i16, i16)), usize)>)
    requires
        pos <= b@.len(),
    ensures
        match r {
            Some((l, p2)) => pos <= p2 <= b@.len() && parse_line(b@.skip(pos as int)) == Some(
                (l, b@.skip(p2 as int)),
            ),
            None => parse_line(b@.skip(pos as int)) is None,
        },
{
    match read_i16(b, pos) {
        Some((fx, p1)) => match read_i16(b, p1) {
            Some((fy, p2)) => match read_i16(b, p2) {
                Some((tx, p3)) => match read_i16(b, p3) {
                    Some((ty, p4)) => Some((((fx, fy), (tx, ty)), p4)),
                    None => None,
                },
                None => None,
            },
            None => None,
        },
        None => None,
    }
}

/// Reads exactly `n` segments at `pos`, mirroring `parse_lines`.
fn read_lines(b: &Vec<u8>, pos: usize, n: u64) -> (r: Option<
    (Vec<((i16, i16), (i16, i16))>, usize),
>)
    requires
        pos <= b@.len(),
    ensures
        match r {
            Some((ls, p2)) => p2 <= b@.len() && parse_lines(b@.skip(pos as int), n as nat) == Some(
                (ls@, b@.skip(p2 as int)),
            ),
            None => parse_lines(b@.skip(pos as int), n as nat) is None,
        },
{
    let mut acc: Vec<((i16, i16), (i16, i16))> = Vec::new();
    let mut cur: usize = pos;
    let mut i: u64 = 0;
    proof {
        assert(acc@ =~= Seq::<((i16, i16), (i16, i16))>::empty());
    }
    while i < n
        invariant
            i <= n,
            cur <= b@.len(),
            acc@.len() == i,
            match parse_lines(b@.skip(cur as int), (n - i) as nat) {
                Some((ls, rest)) => parse_lines(b@.skip(pos as int), n as nat) == Some(
                    (acc@ + ls, rest),
                ),
                None => parse_lines(b@.skip(pos as int), n as nat) is None,
            },
        decreases n - i,
    {
        match read_line(b, cur) {
            Some((l, p2)) => {
                proof {
                    let remaining = (n - i) as nat;
                    assert(parse_lines(b@.skip(cur as int), remaining) == (match parse_lines(
                        b@.skip(p2 as int),
                        (remaining - 1) as nat,
                    ) {
                        Some((ls2, rest)) => Some((seq![l] + ls2, rest)),
                        None => None::<(Seq<((i16, i16), (i16, i16))>, Seq<u8>)>,
                    }));
                    if let Some((ls2, rest)) = parse_lines(b@.skip(p2 as int), (n - i - 1) as nat) {
                        assert(acc@ + (seq![l] + ls2) =~= (acc@.push(l)) + ls2);
                    }
                }
                acc.push(l);
                cur = p2;
                i = i + 1;
            },
            None => {
                return None;
            },
        }
    }
    proof {
        assert(parse_lines(b@.skip(cur as int), 0) == Some(
            (Seq::<((i16, i16), (i16, i16))>::empty(), b@.skip(cur as int)),
        ));
        assert(acc@ + Seq::<((i16, i16), (i16, i16))>::empty() =~= acc@);
    }
    Some((acc, cur))
}

/// Reads one drawing at `pos`, mirroring `parse_drawing`.
fn read_drawing(b: &Vec<u8>, pos: usize) -> (r: Option<(Drawing, usize)>)
    requires
        pos <= b@.len(),
    ensures
        match r {
            Some((d, p2)) => p2 <= b@.len() && parse_drawing(b@.skip(pos as int)) == Some(
                (d@, b@.skip(p2 as int)),
            ),
            None => parse_drawing(b@.skip(pos as int)) is None,
        },
{
    proof {
        reveal(parse_drawing);
    }
    let (gw, p1) = match read_u16(b, pos) {
        Some(x) => x,
        None => {
            return None;
        },
    };
    let (gh, p2) = match read_u16(b, p1) {
        Some(x) => x,
        None => {
            return None;
        },
    };
    let (vw, p3) = match read_u32(b, p2) {
        Some(x) => x,
        None => {
            return None;
        },
    };
    let (vh, p4) = match read_u32(b, p3) {
        Some(x) => x,
        None => {
            return None;
        },
    };
    if p4 >= b.len() {
        return None;
    }
    let flag = b[p4];
    if flag > 1 {
        return None;
    }
    let pts = flag == 1;
    proof {
        assert(b@.skip(p4 as int)[0] == flag);
        assert(b@.skip(p4 as int).skip(1) =~= b@.skip(p4 as int + 1));
    }
    let (n, p5) = match read_u64(b, p4 + 1) {
        Some(x) => x,
        None => {
            return None;
        },
    };
    let (lines, p6) = match read_lines(b, p5, n) {
        Some(x) => x,
        None => {
            return None;
        },
    };
    let d = Drawing {
        grid_width: gw,
        grid_height: gh,
        view_width: vw,
        view_height: vh,
        includes_points: pts,
        lines,
    };
    proof {
        let parsed = parse_drawing(b@.skip(pos as int));
        assert(parsed matches Some((m, rest)) && m =~= d@ && rest == b@.skip(p6 as int));
    }
    Some((d, p6))
}

/// Decodes a full snapshot, mirroring `parse_gallery`: the count, that many
/// drawings, and no bytes left over.
pub fn decode(b: &Vec<u8>) -> (r: Option<Vec<Drawing>>)
    ensures
        match r {
            Some(ds) => parse_gallery(b@) == Some(ds@.map_values(|d: Drawing| d@)),
            None => parse_gallery(b@) is None,
        },
{
    proof {
        assert(b@.skip(0) =~= b@);
    }
    let (n, start) = match read_u64(b, 0) {
        Some(x) => x,
        None => {
            return None;
        },
    };
    let mut acc: Vec<Drawing> = Vec::new();
    let mut cur: usize = start;
    let mut i: u64 = 0;
    proof {
        assert(acc@.map_values(|d: Drawing| d@) =~= Seq::<DrawingModel>::empty());
    }
    while i < n
        invariant
            i <= n,
            cur <= b@.len(),
            parse_u64(b@) == Some((n, b@.skip(start as int))),
            match parse_drawings(b@.skip(cur as int), (n - i) as nat) {
                Some((ds, rest)) => parse_drawings(b@.skip(start as int), n as nat) == Some(
                    (acc@.map_values(|d: Drawing| d@) + ds, rest),
                ),
                None => parse_drawings(b@.skip(start as int), n as nat) is None,
            },
        decreases n - i,
    {
        match read_drawing(b, cur) {
            Some((d, p2)) => {
                proof {
                    let remaining = (n - i) as nat;
                    assert(parse_drawings(b@.skip(cur as int), remaining) == (match parse_drawings(
                        b@.skip(p2 as int),
                        (remaining - 1) as nat,
                    ) {
                        Some((ds2, rest)) => Some((seq![d@] + ds2, rest)),
                        None => None::<(Seq<DrawingModel>, Seq<u8>)>,
                    }));
                    if let Some((ds2, rest)) = parse_drawings(
                        b@.skip(p2 as int),
                        (n - i - 1) as nat,
                    ) {
                        assert(acc@.map_values(|dd: Drawing| dd@) + (seq![d@] + ds2) =~= (acc@.push(
                            d,
                        )).map_values(|dd: Drawing| dd@) + ds2);
                    } else {
                        assert((acc@.push(d)).map_values(|dd: Drawing| dd@) =~= acc@.map_values(
                            |dd: Drawing| dd@,
                        ).push(d@));
                    }
                }
                acc.push(d);
                cur = p2;
                i = i + 1;
            },
            None => {
                return None;
            },
        }
    }
    if cur != b.len() {
        proof {
            assert(b@.skip(cur as int).len() != 0);
            assert(parse_drawings(b@.skip(cur as int), 0) == Some(
                (Seq::<DrawingModel>::empty(), b@.skip(cur as int)),
            ));
            assert(acc@.map_values(|d: Drawing| d@) + Seq::<DrawingModel>::empty()
                =~= acc@.map_values(|d: Drawing| d@));
        }
        return None;
    }
    proof {
        assert(parse_drawings(b@.skip(cur as int), 0) == Some(
            (Seq::<DrawingModel>::empty(), b@.skip(cur as int)),
        ));
        assert(acc@.map_values(|d: Drawing| d@) + Seq::<DrawingModel>::empty() =~= acc@.map_values(
            |d: Drawing| d@,
        ));
        assert(b@.skip(cur as int).len() == 0);
    }
    Some(acc)
}

impl Gallery {
    /// Serializes the complete collection into one snapshot, overwriting
    /// semantics left to the caller: the snapshot holds every stored drawing
    /// and nothing else. The selection is not persisted.
    pub fn save(&self) -> (out: Vec<u8>)
        ensures
            out@ == gallery_bytes(self@.drawings),
    {
        let ghost models = self@.drawings;
        let mut out: Vec<u8> = Vec::new();
        push_u64(&mut out, self.drawings.len() as u64);
        proof {
            assert(Seq::<u8>::empty() + u64_bytes(models.len() as u64) =~= u64_bytes(
                models.len() as u64,
            ));
            assert(models.take(0) =~= Seq::<DrawingModel>::empty());
            assert(out@ + drawings_bytes(models.take(0)) =~= out@);
        }
        let ghost header = out@;
        let mut t: usize = 0;
        while t < self.drawings.len()
            invariant
                t <= self.drawings.len(),
                models == self@.drawings,
                models.len() == self.drawings.len(),
                header == u64_bytes(models.len() as u64),
                out@ == header + drawings_bytes(models.take(t as int)),
            decreases self.drawings.len() - t,
        {
            encode_drawing(&mut out, &self.drawings[t]);
            proof {
                assert(models[t as int] == self.drawings@[t as int]@);
                lemma_drawings_bytes_snoc(models.take(t as int), models[t as int]);
                assert(models.take(t as int + 1) =~= models.take(t as int).push(
                    models[t as int],
                ));
                assert((header + drawings_bytes(models.take(t as int))) + drawing_bytes(
                    models[t as int],
                ) =~= header + drawings_bytes(models.take(t as int + 1)));
            }
            t = t + 1;
        }
        proof {
            assert(models.take(models.len() as int) =~= models);
        }
        out
    }

    /// Deserializes a snapshot into a gallery with nothing selected. A
    /// malformed snapshot is treated as absent: the gallery comes back
    /// empty, never an error.
    pub fn load(bytes: &Vec<u8>) -> (g: Gallery)
        ensures
            g@.selected is None,
            g@.drawings == (match parse_gallery(bytes@) {
                Some(s) => s,
                None => Seq::<DrawingModel>::empty(),
            }),
    {
        match decode(bytes) {
            Some(ds) => Gallery { drawings: ds, selected: None },
            None => Gallery::new(),
        }
    }
}

} // verus!
