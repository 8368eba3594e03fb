//! The kitty graphics protocol: a bitmap crosses as base64 inside APC
//! sequences and the terminal keeps it as a placement of its own.
//!
//! Everything here writes bytes and nothing here reads any: the terminal is
//! told to stay quiet with `q=2`, so its answers cannot land in the middle of
//! the key loop and be taken for keystrokes.

use vstd::prelude::*;

use crate::fs::preview::Bitmap;
use crate::text::{chars_of, decimal_of, push_decimal};
use crate::ui::geometry::Area;

verus! {

/// The most base64 one sequence carries. The protocol caps a chunk at 4096
/// bytes and wants every chunk but the last to be a multiple of four, which
/// this is.
pub const CHUNK: usize = 4096;

/// The bytes of text that is ASCII, one for each character.
pub open spec fn ascii_of(s: Seq<char>) -> Seq<u8> {
    Seq::new(s.len(), |i: int| s[i] as u8)
}

/// Appends the bytes of `s`, one for each character, to `out`.
pub fn push_text(out: &mut Vec<u8>, s: &str)
    ensures
        final(out)@ == old(out)@ + ascii_of(s@),
{
    let chars = chars_of(s);
    let ghost start = out@;
    let mut i: usize = 0;
    while i < chars.len()
        invariant
            i <= chars@.len(),
            chars@ == s@,
            out@ == start + ascii_of(chars@.subrange(0, i as int)),
        decreases chars.len() - i,
    {
        let c = chars[i];
        out.push(c as u8);
        assert(ascii_of(chars@.subrange(0, i + 1)) =~= ascii_of(chars@.subrange(0, i as int)).push(
            c as u8,
        ));
        i += 1;
    }
    assert(chars@.subrange(0, chars@.len() as int) =~= chars@);
}

/// Appends `n` in decimal to `out`.
pub fn push_number(out: &mut Vec<u8>, n: u64)
    ensures
        final(out)@ == old(out)@ + ascii_of(decimal_of(n as nat)),
{
    let mut digits: Vec<char> = Vec::new();
    push_decimal(&mut digits, n);
    assert(digits@ =~= decimal_of(n as nat));
    let ghost start = out@;
    let mut i: usize = 0;
    while i < digits.len()
        invariant
            i <= digits@.len(),
            out@ == start + ascii_of(digits@.subrange(0, i as int)),
        decreases digits.len() - i,
    {
        let c = digits[i];
        out.push(c as u8);
        assert(ascii_of(digits@.subrange(0, i + 1)) =~= ascii_of(digits@.subrange(0, i as int)).push(
            c as u8,
        ));
        i += 1;
    }
    assert(digits@.subrange(0, digits@.len() as int) =~= digits@);
}

/// The character of the base64 alphabet that spells the six bits `v`.
pub open spec fn alphabet(v: nat) -> u8 {
    if v < 26 {
        (0x41 + v) as u8
    } else if v < 52 {
        (0x61 + v - 26) as u8
    } else if v < 62 {
        (0x30 + v - 52) as u8
    } else if v == 62 {
        0x2b
    } else {
        0x2f
    }
}

/// Pads a short group out to four characters.
pub open spec fn pad() -> u8 {
    0x3d
}

/// The four characters a group of one to three bytes is spelled with: the
/// bytes it does not have count as zero, and the characters it has no byte
/// for at all are padding.
pub open spec fn group_spec(g: Seq<u8>) -> Seq<u8> {
    let a = g[0] as nat;
    let b = if g.len() > 1 { g[1] as nat } else { 0 };
    let c = if g.len() > 2 { g[2] as nat } else { 0 };
    seq![
        alphabet(a / 4),
        alphabet((a % 4) * 16 + b / 16),
        if g.len() > 1 { alphabet((b % 16) * 4 + c / 64) } else { pad() },
        if g.len() > 2 { alphabet(c % 64) } else { pad() },
    ]
}

/// Standard base64 with padding, which is how the protocol spells a payload.
pub open spec fn base64_spec(bytes: Seq<u8>) -> Seq<u8>
    decreases bytes.len(),
{
    if bytes.len() == 0 {
        Seq::empty()
    } else if bytes.len() <= 3 {
        group_spec(bytes)
    } else {
        group_spec(bytes.take(3)) + base64_spec(bytes.skip(3))
    }
}

fn alphabet_of(v: u8) -> (c: u8)
    requires
        v < 64,
    ensures
        c == alphabet(v as nat),
{
    if v < 26 {
        0x41 + v
    } else if v < 52 {
        0x61 + v - 26
    } else if v < 62 {
        0x30 + v - 52
    } else if v == 62 {
        0x2b
    } else {
        0x2f
    }
}

/// Standard base64 with padding, which is how the protocol spells a payload.
pub fn base64(bytes: &[u8]) -> (out: Vec<u8>)
    ensures
        out@ == base64_spec(bytes@),
{
    let mut out: Vec<u8> = Vec::new();
    let mut i: usize = 0;
    assert(bytes@.skip(0) =~= bytes@);
    while i < bytes.len()
        invariant
            i <= bytes@.len(),
            base64_spec(bytes@) == out@ + base64_spec(bytes@.skip(i as int)),
        decreases bytes.len() - i,
    {
        let rest = bytes.len() - i;
        let a = bytes[i];
        let b: u8 = if rest > 1 { bytes[i + 1] } else { 0 };
        let c: u8 = if rest > 2 { bytes[i + 2] } else { 0 };
        let ghost g = if rest <= 3 { bytes@.skip(i as int) } else { bytes@.skip(i as int).take(3) };
        assert(g.len() == if rest < 3 { rest } else { 3 });
        assert(g[0] == a);
        assert(g.len() > 1 ==> g[1] == b);
        assert(g.len() > 2 ==> g[2] == c);
        let ghost before = out@;
        out.push(alphabet_of(a / 4));
        out.push(alphabet_of((a % 4) * 16 + b / 16));
        if rest > 1 {
            out.push(alphabet_of((b % 16) * 4 + c / 64));
        } else {
            out.push(0x3d);
        }
        if rest > 2 {
            out.push(alphabet_of(c % 64));
        } else {
            out.push(0x3d);
        }
        assert(out@ =~= before + group_spec(g));
        if rest <= 3 {
            assert(bytes@.skip(i as int + rest as int) =~= Seq::<u8>::empty());
            i = bytes.len();
        } else {
            assert(bytes@.skip(i as int).skip(3) =~= bytes@.skip(i + 3));
            i = i + 3;
        }
    }
    assert(bytes@.skip(i as int) =~= Seq::<u8>::empty());
    out
}

/// `payload` cut into chunks of at most `CHUNK` bytes, in order.
pub open spec fn chunks_spec(payload: Seq<u8>) -> Seq<Seq<u8>>
    decreases payload.len(),
{
    if payload.len() == 0 {
        Seq::empty()
    } else if payload.len() <= CHUNK {
        seq![payload]
    } else {
        seq![payload.take(CHUNK as int)] + chunks_spec(payload.skip(CHUNK as int))
    }
}

/// The sequences that carry `chunks` after the first: each says only whether
/// another follows, since the control data was settled by the one that opened
/// the transmission.
pub open spec fn continuations(chunks: Seq<Seq<u8>>) -> Seq<u8>
    decreases chunks.len(),
{
    if chunks.len() == 0 {
        Seq::empty()
    } else {
        ascii_of("\x1b_Gq=2,m="@) + ascii_of(decimal_of(if chunks.len() > 1 { 1 } else { 0 })) + ascii_of(
            ";"@,
        ) + chunks[0] + ascii_of("\x1b\\"@) + continuations(chunks.drop_first())
    }
}

/// Where the cursor goes before a placement: the area's corner, counting
/// from one as `CUP` does.
pub open spec fn cursor_to(area: Area) -> Seq<u8> {
    ascii_of("\x1b["@) + ascii_of(decimal_of((area.y + 1) as nat)) + ascii_of(";"@) + ascii_of(
        decimal_of((area.x + 1) as nat),
    ) + ascii_of("H"@)
}

/// The control data of a placement: the size of the bitmap, the image and
/// placement it is, the cells it is scaled into, and whether more follows.
pub open spec fn control(width: u32, height: u32, area: Area, more: bool) -> Seq<u8> {
    ascii_of("\x1b_Ga=T,f=32,s="@) + ascii_of(decimal_of(width as nat)) + ascii_of(",v="@)
        + ascii_of(decimal_of(height as nat)) + ascii_of(",i=1,p=1,c="@) + ascii_of(
        decimal_of(area.width as nat),
    ) + ascii_of(",r="@) + ascii_of(decimal_of(area.height as nat)) + ascii_of(",q=2,C=1,m="@)
        + ascii_of(decimal_of(if more { 1 } else { 0 })) + ascii_of(";"@)
}

/// What opens the transmission of `chunks` over `area`: the cursor moved to
/// the area's corner, then the sequence that carries the control data and the
/// first chunk.
pub open spec fn opening(width: u32, height: u32, area: Area, chunks: Seq<Seq<u8>>) -> Seq<u8> {
    cursor_to(area) + control(width, height, area, chunks.len() > 1) + chunks[0] + ascii_of(
        "\x1b\\"@,
    )
}

/// What placing `bitmap` over `area` writes: nothing for a bitmap with no
/// pixels; otherwise the opening, then a sequence for every further chunk.
pub open spec fn place_spec(bitmap: Bitmap, area: Area) -> Seq<u8> {
    let chunks = chunks_spec(base64_spec(bitmap.pixels_spec()));
    if chunks.len() == 0 {
        Seq::empty()
    } else {
        opening(bitmap.width_spec(), bitmap.height_spec(), area, chunks) + continuations(
            chunks.drop_first(),
        )
    }
}

/// Appends `payload[from..to]` to `out`.
fn push_bytes(out: &mut Vec<u8>, payload: &Vec<u8>, from: usize, to: usize)
    requires
        from <= to <= payload@.len(),
    ensures
        final(out)@ == old(out)@ + payload@.subrange(from as int, to as int),
{
    let ghost start = out@;
    let mut i = from;
    while i < to
        invariant
            from <= i <= to,
            to <= payload@.len(),
            out@ == start + payload@.subrange(from as int, i as int),
        decreases to - i,
    {
        out.push(payload[i]);
        assert(payload@.subrange(from as int, i + 1) =~= payload@.subrange(from as int, i as int).push(
            payload@[i as int],
        ));
        i += 1;
    }
}

proof fn chunks_unfold(payload: Seq<u8>)
    requires
        payload.len() > 0,
    ensures
        chunks_spec(payload).len() > 0,
        chunks_spec(payload)[0] == payload.take(
            if payload.len() > CHUNK { CHUNK as int } else { payload.len() as int },
        ),
        chunks_spec(payload).drop_first() == chunks_spec(
            payload.skip(if payload.len() > CHUNK { CHUNK as int } else { payload.len() as int }),
        ),
        chunks_spec(payload).len() > 1 <==> payload.len() > CHUNK,
{
    if payload.len() <= CHUNK {
        assert(payload.take(payload.len() as int) =~= payload);
        assert(payload.skip(payload.len() as int) =~= Seq::<u8>::empty());
        assert(chunks_spec(payload).drop_first() =~= Seq::<Seq<u8>>::empty());
    } else {
        let rest = payload.skip(CHUNK as int);
        assert(rest.len() > 0);
        assert((seq![payload.take(CHUNK as int)] + chunks_spec(rest)).drop_first() =~= chunks_spec(
            rest,
        ));
    }
}

fn push_cursor(out: &mut Vec<u8>, area: Area)
    requires
        area.x < u16::MAX,
        area.y < u16::MAX,
    ensures
        final(out)@ == old(out)@ + cursor_to(area),
{
    let ghost start = out@;
    push_text(out, "\x1b[");
    let ghost p1 = out@;
    push_number(out, (area.y + 1) as u64);
    let ghost p2 = out@;
    push_text(out, ";");
    let ghost p3 = out@;
    push_number(out, (area.x + 1) as u64);
    let ghost p4 = out@;
    push_text(out, "H");
    assert(out@ =~= start + cursor_to(area));
}

#[verifier::rlimit(40)]
fn push_control(out: &mut Vec<u8>, width: u32, height: u32, area: Area, more: bool)
    ensures
        final(out)@ == old(out)@ + control(width, height, area, more),
{
    let ghost start = out@;
    push_text(out, "\x1b_Ga=T,f=32,s=");
    push_number(out, width as u64);
    push_text(out, ",v=");
    push_number(out, height as u64);
    push_text(out, ",i=1,p=1,c=");
    let ghost half = out@;
    assert(half =~= start + (ascii_of("\x1b_Ga=T,f=32,s="@) + ascii_of(decimal_of(width as nat))
        + ascii_of(",v="@) + ascii_of(decimal_of(height as nat)) + ascii_of(",i=1,p=1,c="@)));
    push_number(out, area.width as u64);
    push_text(out, ",r=");
    push_number(out, area.height as u64);
    push_text(out, ",q=2,C=1,m=");
    push_number(out, if more { 1 } else { 0 });
    push_text(out, ";");
    assert(out@ =~= start + control(width, height, area, more));
}

/// Puts `bitmap` on the screen over `area`, scaled to fill it.
///
/// The cursor is moved first: a placement is anchored wherever the cursor
/// stands when the sequence arrives. `C=1` leaves it there afterwards, so what
/// the frame believes about the screen stays true.
///
/// `a=T` transmits and places in one go, `f=32` says the payload is the four
/// bytes a pixel this carries, and `c`/`r` give the terminal the cells to
/// scale into so it does the fitting itself. One picture is on the screen at a
/// time, so one number does for both the image and the placement.
pub fn place(bitmap: &Bitmap, area: Area, out: &mut Vec<u8>)
    requires
        area.x < u16::MAX,
        area.y < u16::MAX,
    ensures
        final(out)@ == old(out)@ + place_spec(*bitmap, area),
{
    let payload = base64(bitmap.rgba());
    if payload.len() == 0 {
        assert(place_spec(*bitmap, area) =~= Seq::<u8>::empty());
        return;
    }
    proof {
        chunks_unfold(payload@);
    }
    let ghost start = out@;
    let ghost chunks = chunks_spec(payload@);
    let first_end = if payload.len() > CHUNK { CHUNK } else { payload.len() };
    assert(payload@.take(first_end as int) =~= payload@.subrange(0, first_end as int));
    push_cursor(out, area);
    push_control(out, bitmap.width(), bitmap.height(), area, payload.len() > CHUNK);
    push_bytes(out, &payload, 0, first_end);
    push_text(out, "\x1b\\");
    assert(out@ =~= start + opening(bitmap.width_spec(), bitmap.height_spec(), area, chunks));
    assert(payload@.skip(first_end as int) == payload@.skip(
        if payload@.len() > CHUNK { CHUNK as int } else { payload@.len() as int },
    ));
    let mut at = first_end;
    while at < payload.len()
        invariant
            0 < at <= payload@.len(),
            start + place_spec(*bitmap, area) == out@ + continuations(chunks_spec(payload@.skip(at as int))),
        decreases payload.len() - at,
    {
        let ghost rest = payload@.skip(at as int);
        proof {
            chunks_unfold(rest);
        }
        let end = if payload.len() - at > CHUNK { at + CHUNK } else { payload.len() };
        assert(rest.take((end - at) as int) =~= payload@.subrange(at as int, end as int));
        assert(rest.skip((end - at) as int) =~= payload@.skip(end as int));
        let ghost before = out@;
        push_text(out, "\x1b_Gq=2,m=");
        push_number(out, if end < payload.len() { 1 } else { 0 });
        push_text(out, ";");
        push_bytes(out, &payload, at, end);
        push_text(out, "\x1b\\");
        assert(out@ + continuations(chunks_spec(payload@.skip(end as int))) =~= before + continuations(
            chunks_spec(rest),
        ));
        at = end;
    }
    assert(payload@.skip(at as int) =~= Seq::<u8>::empty());
    assert(continuations(chunks_spec(payload@.skip(at as int))) =~= Seq::<u8>::empty());
}

/// Takes the picture back off the screen. The capital `I` frees the pixels
/// with it; the next placement brings its own.
pub fn forget(out: &mut Vec<u8>)
    ensures
        final(out)@ == old(out)@ + ascii_of("\x1b_Ga=d,d=I,i=1,q=2\x1b\\"@),
{
    push_text(out, "\x1b_Ga=d,d=I,i=1,q=2\x1b\\");
}

/// Takes back every picture the terminal is showing, named or not.
///
/// `d=A` is what a caller reaches for when it cannot say what is on the
/// screen, which on the way out of a panic nothing can.
pub fn forget_all(out: &mut Vec<u8>)
    ensures
        final(out)@ == old(out)@ + ascii_of("\x1b_Ga=d,d=A,q=2\x1b\\"@),
{
    push_text(out, "\x1b_Ga=d,d=A,q=2\x1b\\");
}

} // verus!
