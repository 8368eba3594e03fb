//! The Quick View panel: whatever is under the cursor, laid out for the area
//! the opposite listing would take.
//!
//! Everything it draws was settled by the reading thread; nothing here opens
//! a path. What is left is laying it out for an area whose size only this side
//! knows: how many lines fit, how many bytes fit on a dump row, and how a
//! bitmap fits a grid of half-pixels or of cells.

use vstd::prelude::*;

use crate::fs::directory::{DirEntry, DirEntryKind};
use crate::fs::preview::{Bitmap, Content, LinkTarget, Refused};
use crate::text::{chars_of, string_of};
use crate::ui::geometry::Area;
use crate::ui::graphics::capabilities::CellSize;
use crate::ui::icon::{icon_of, Icon, Rgb};
use crate::ui::label::{name_of, name_of_spec};

verus! {

/// Alpha at or above which a pixel is painted at all. Below it the panel shows
/// through, which is what makes a logo on transparency look like one.
pub const OPAQUE_ENOUGH: u8 = 0x20;

/// One row of a hex dump: the offset, the bytes as hex, and the same bytes as
/// text.
#[derive(Debug)]
pub struct HexRow {
    pub offset: String,
    pub hex: String,
    pub text: String,
}

/// One line of the panel's body.
#[derive(Debug)]
pub enum BodyLine {
    /// A line that explains rather than shows.
    Muted(String),
    /// Text as it stands.
    Plain(String),
    /// An entry of a directory: its icon and its name.
    Entry { icon: Icon, name: String },
    Hex(HexRow),
}

/// What a line of the body says, for the contracts.
pub enum LineView {
    Muted(Seq<char>),
    Plain(Seq<char>),
    Entry(Icon, Seq<char>),
    Hex(Seq<char>, Seq<char>, Seq<char>),
}

impl View for BodyLine {
    type V = LineView;

    open spec fn view(&self) -> LineView {
        match self {
            BodyLine::Muted(s) => LineView::Muted(s@),
            BodyLine::Plain(s) => LineView::Plain(s@),
            BodyLine::Entry { icon, name } => LineView::Entry(*icon, name@),
            BodyLine::Hex(row) => LineView::Hex(row.offset@, row.hex@, row.text@),
        }
    }
}

pub open spec fn lines_view(v: Seq<BodyLine>) -> Seq<LineView> {
    Seq::new(v.len(), |i: int| v[i]@)
}

/// What the panel puts in its area: lines, or the picture.
#[derive(Debug)]
pub enum Body {
    Lines(Vec<BodyLine>),
    Image,
}

pub open spec fn more_word() -> Seq<char> {
    "\u{2026}"@
}

/// How many bytes fit on one dump row of this width. A row is a six-digit
/// offset, two spaces, `3n - 1` columns of hex, two spaces and `n` characters
/// of text: `9 + 4n` in all. Rounded down to four, so rows break at the same
/// places whatever the width, and never less than four, so a panel too narrow
/// to be useful draws a short row rather than nothing.
pub open spec fn bytes_per_row_spec(width: u16) -> nat {
    let fits: nat = if width >= 9 { ((width - 9) / 4) as nat } else { 0 };
    let rounded = fits / 4 * 4;
    if rounded < 4 { 4 } else { rounded }
}

/// How many bytes fit on one dump row of this width.
pub fn bytes_per_row(width: u16) -> (n: usize)
    ensures
        n == bytes_per_row_spec(width),
        n >= 4,
{
    let fits: usize = if width >= 9 { ((width - 9) / 4) as usize } else { 0 };
    let rounded = fits / 4 * 4;
    if rounded < 4 { 4 } else { rounded }
}

/// The character that writes the hexadecimal digit `d`.
pub open spec fn hex_digit(d: nat) -> char {
    if d == 0 {
        '0'
    } else if d == 1 {
        '1'
    } else if d == 2 {
        '2'
    } else if d == 3 {
        '3'
    } else if d == 4 {
        '4'
    } else if d == 5 {
        '5'
    } else if d == 6 {
        '6'
    } else if d == 7 {
        '7'
    } else if d == 8 {
        '8'
    } else if d == 9 {
        '9'
    } else if d == 10 {
        'a'
    } else if d == 11 {
        'b'
    } else if d == 12 {
        'c'
    } else if d == 13 {
        'd'
    } else if d == 14 {
        'e'
    } else {
        'f'
    }
}

/// `n` in lower-case hexadecimal, with no leading zeros.
pub open spec fn hex_of(n: nat) -> Seq<char>
    decreases n,
{
    if n < 16 {
        seq![hex_digit(n)]
    } else {
        hex_of(n / 16).push(hex_digit(n % 16))
    }
}

/// `n` in hexadecimal, zero-padded to at least `width` digits.
pub open spec fn hex_padded(n: nat, width: nat) -> Seq<char> {
    let digits = hex_of(n);
    if digits.len() < width {
        Seq::new((width - digits.len()) as nat, |i: int| '0') + digits
    } else {
        digits
    }
}

/// How a byte stands in the text column: printable ASCII as itself, anything
/// else as a dot.
pub open spec fn shown_as(b: u8) -> char {
    if 0x20 <= b <= 0x7e {
        b as char
    } else {
        '.'
    }
}

/// Each byte of `chunk` in two hex digits, with a space before all but the
/// first.
pub open spec fn hex_pieces(chunk: Seq<u8>) -> Seq<Seq<char>> {
    Seq::new(chunk.len(), |i: int| if i == 0 {
        hex_padded(chunk[i] as nat, 2)
    } else {
        seq![' '] + hex_padded(chunk[i] as nat, 2)
    })
}

pub open spec fn spaces(n: nat) -> Seq<char> {
    Seq::new(n, |i: int| ' ')
}

/// The hex column of `chunk`: two digits a byte, a space between, and three
/// spaces for each byte a short last row lacks, so the text column stays in
/// line.
pub open spec fn hex_column(chunk: Seq<u8>, per_row: nat) -> Seq<char> {
    let pad: nat = if chunk.len() < per_row { (per_row - chunk.len()) as nat } else { 0 };
    hex_pieces(chunk).flatten() + spaces(3 * pad)
}

/// The text column of `chunk`.
pub open spec fn shown_text(chunk: Seq<u8>) -> Seq<char> {
    Seq::new(chunk.len(), |i: int| shown_as(chunk[i]))
}

/// One row of the dump, as `hex_line` writes it.
pub open spec fn hex_row_spec(offset: nat, chunk: Seq<u8>, per_row: nat) -> LineView {
    LineView::Hex(hex_padded(offset, 6) + seq![' ', ' '], hex_column(chunk, per_row), shown_text(chunk))
}

fn hex_char(d: u64) -> (c: char)
    requires
        d < 16,
    ensures
        c == hex_digit(d as nat),
{
    match d {
        0 => '0',
        1 => '1',
        2 => '2',
        3 => '3',
        4 => '4',
        5 => '5',
        6 => '6',
        7 => '7',
        8 => '8',
        9 => '9',
        10 => 'a',
        11 => 'b',
        12 => 'c',
        13 => 'd',
        14 => 'e',
        _ => 'f',
    }
}

fn push_hex(out: &mut Vec<char>, n: u64)
    ensures
        final(out)@ == old(out)@ + hex_of(n as nat),
    decreases n,
{
    if n >= 16 {
        push_hex(out, n / 16);
    }
    out.push(hex_char(n % 16));
    proof {
        if n >= 16 {
            assert(old(out)@ + hex_of(n as nat) =~= old(out)@ + hex_of((n / 16) as nat) + seq![hex_digit((n % 16) as nat)]);
        } else {
            assert(old(out)@ + hex_of(n as nat) =~= old(out)@.push(hex_digit(n as nat)));
        }
    }
}

fn push_hex_padded(out: &mut Vec<char>, n: u64, width: usize)
    ensures
        final(out)@ == old(out)@ + hex_padded(n as nat, width as nat),
{
    let mut digits: Vec<char> = Vec::new();
    push_hex(&mut digits, n);
    assert(digits@ =~= hex_of(n as nat));
    let ghost start = out@;
    if digits.len() < width {
        let pad = width - digits.len();
        let mut i: usize = 0;
        while i < pad
            invariant
                i <= pad,
                out@ == start + Seq::new(i as nat, |k: int| '0'),
            decreases pad - i,
        {
            out.push('0');
            assert(Seq::new((i + 1) as nat, |k: int| '0') =~= Seq::new(i as nat, |k: int| '0').push('0'));
            i += 1;
        }
    }
    let ghost mid = out@;
    let mut j: usize = 0;
    while j < digits.len()
        invariant
            j <= digits@.len(),
            out@ == mid + digits@.subrange(0, j as int),
        decreases digits.len() - j,
    {
        out.push(digits[j]);
        assert(digits@.subrange(0, j + 1) =~= digits@.subrange(0, j as int).push(digits@[j as int]));
        j += 1;
    }
    assert(digits@.subrange(0, digits@.len() as int) =~= digits@);
    if digits.len() < width {
        assert(out@ =~= start + (Seq::new((width - digits@.len()) as nat, |k: int| '0') + hex_of(n as nat)));
    } else {
        assert(out@ =~= start + hex_of(n as nat));
    }
}

/// One row of the dump: the offset, the bytes as hex, and the same bytes as
/// text with everything unprintable as a dot. `per_row` holds the text column
/// in line under a short last row.
pub fn hex_line(offset: usize, chunk: &[u8], per_row: usize) -> (row: HexRow)
    requires
        3 * per_row <= usize::MAX,
    ensures
        BodyLine::Hex(row)@ == hex_row_spec(offset as nat, chunk@, per_row as nat),
{
    let mut head: Vec<char> = Vec::new();
    push_hex_padded(&mut head, offset as u64, 6);
    head.push(' ');
    head.push(' ');
    assert(head@ =~= hex_padded(offset as nat, 6) + seq![' ', ' ']);
    let mut hex: Vec<char> = Vec::new();
    let mut text: Vec<char> = Vec::new();
    let ghost pieces = hex_pieces(chunk@);
    let mut i: usize = 0;
    while i < chunk.len()
        invariant
            i <= chunk@.len(),
            pieces == hex_pieces(chunk@),
            hex@ == pieces.take(i as int).flatten(),
            text@ == shown_text(chunk@.take(i as int)),
        decreases chunk.len() - i,
    {
        let ghost before = hex@;
        if i > 0 {
            hex.push(' ');
        }
        let byte = chunk[i];
        push_hex_padded(&mut hex, byte as u64, 2);
        proof {
            assert(pieces.take(i + 1) =~= pieces.take(i as int).push(pieces[i as int]));
            pieces.take(i as int).lemma_flatten_push(pieces[i as int]);
            assert(hex@ =~= before + pieces[i as int]);
        }
        let shown = if 0x20 <= byte && byte <= 0x7e { byte as char } else { '.' };
        text.push(shown);
        assert(text@ =~= shown_text(chunk@.take(i + 1)));
        i += 1;
    }
    assert(pieces.take(chunk@.len() as int) =~= pieces);
    assert(chunk@.take(chunk@.len() as int) =~= chunk@);
    let ghost bytes_part = hex@;
    if chunk.len() < per_row {
        let pad = per_row - chunk.len();
        let mut k: usize = 0;
        while k < pad
            invariant
                k <= pad,
                3 * per_row <= usize::MAX,
                pad <= per_row,
                hex@ == bytes_part + spaces(3 * k as nat),
            decreases pad - k,
        {
            hex.push(' ');
            hex.push(' ');
            hex.push(' ');
            assert(hex@ =~= bytes_part + spaces(3 * (k + 1) as nat));
            k += 1;
        }
    } else {
        assert(hex@ =~= bytes_part + spaces(0));
    }
    HexRow {
        offset: string_of(head.as_slice()),
        hex: string_of(hex.as_slice()),
        text: string_of(text.as_slice()),
    }
}

/// The largest size with the shape of `width` by `height` that fits inside
/// `max_width` by `max_height`. Compared as cross products, so nothing rounds
/// through a float, and never smaller than one, so a very wide picture comes
/// out as a line rather than as nothing.
pub open spec fn scaled_spec(width: nat, height: nat, max_width: nat, max_height: nat) -> (nat, nat) {
    if width * max_height <= max_width * height {
        let w = width * max_height / height;
        (if w < 1 { 1 } else { w }, max_height)
    } else {
        let h = height * max_width / width;
        (max_width, if h < 1 { 1 } else { h })
    }
}

/// The largest size with the shape of `width` by `height` that fits inside
/// `max_width` by `max_height`.
pub fn scaled(width: u32, height: u32, max_width: u32, max_height: u32) -> (size: (u32, u32))
    requires
        width > 0,
        height > 0,
        width * max_height <= u32::MAX,
        max_width * height <= u32::MAX,
    ensures
        (size.0 as nat, size.1 as nat) == scaled_spec(width as nat, height as nat, max_width as nat, max_height as nat),
{
    if width * max_height <= max_width * height {
        let w = width * max_height / height;
        (if w < 1 { 1 } else { w }, max_height)
    } else {
        let h = height * max_width / width;
        (max_width, if h < 1 { 1 } else { h })
    }
}

/// The shape is kept: a picture scaled to fit is never wider or taller than
/// what it fits in, unless that is nothing at all, and the side that binds is
/// filled.
pub proof fn scaled_fits(width: nat, height: nat, max_width: nat, max_height: nat)
    requires
        width > 0,
        height > 0,
        max_width > 0,
        max_height > 0,
    ensures
        1 <= scaled_spec(width, height, max_width, max_height).0 <= max_width,
        1 <= scaled_spec(width, height, max_width, max_height).1 <= max_height,
        scaled_spec(width, height, max_width, max_height).0 == max_width
            || scaled_spec(width, height, max_width, max_height).1 == max_height,
{
    if width * max_height <= max_width * height {
        assert(width * max_height / height <= max_width) by (nonlinear_arith)
            requires
                width * max_height <= max_width * height,
                height > 0,
        ;
    } else {
        assert(height * max_width / width <= max_height) by (nonlinear_arith)
            requires
                width * max_height > max_width * height,
                width > 0,
        ;
    }
}

/// Where the picture sits in the grid of half-pixels a panel offers.
#[derive(Clone, Copy, Debug, PartialEq, Eq)]
pub struct Placement {
    pub left: u32,
    pub top: u32,
    pub width: u32,
    pub height: u32,
}

impl Placement {
    /// Centres a picture of `width` by `height` in a grid `columns` across and
    /// `rows` of half-pixels tall, keeping its shape. The top is rounded down
    /// to a whole cell: starting on the lower half of one would put every row
    /// of the picture in the wrong half of its own.
    pub fn fit(bitmap: &Bitmap, columns: u32, rows: u32) -> (p: Self)
        requires
            bitmap.width_spec() > 0,
            bitmap.height_spec() > 0,
            columns > 0,
            rows > 0,
            bitmap.width_spec() * rows <= u32::MAX,
            columns * bitmap.height_spec() <= u32::MAX,
        ensures
            (p.width as nat, p.height as nat) == scaled_spec(
                bitmap.width_spec() as nat,
                bitmap.height_spec() as nat,
                columns as nat,
                rows as nat,
            ),
            p.left == (columns - p.width) / 2,
            p.top == (rows - p.height) / 2 / 2 * 2,
    {
        let (width, height) = scaled(bitmap.width(), bitmap.height(), columns, rows);
        proof {
            scaled_fits(bitmap.width_spec() as nat, bitmap.height_spec() as nat, columns as nat, rows as nat);
        }
        Placement { left: (columns - width) / 2, top: (rows - height) / 2 / 2 * 2, width, height }
    }
}

/// The sum of channel `ch` over the pixels `x0..x1` of row `y`.
pub open spec fn row_sum(b: Bitmap, ch: int, y: u32, x0: nat, x1: nat) -> nat
    decreases x1,
{
    if x1 <= x0 {
        0
    } else {
        row_sum(b, ch, y, x0, (x1 - 1) as nat) + b.pixel_spec((x1 - 1) as u32, y)[ch] as nat
    }
}

/// The sum of channel `ch` over the box `x0..x1` by `y0..y1`.
pub open spec fn box_sum(b: Bitmap, ch: int, x0: nat, x1: nat, y0: nat, y1: nat) -> nat
    decreases y1,
{
    if y1 <= y0 {
        0
    } else {
        box_sum(b, ch, x0, x1, y0, (y1 - 1) as nat) + row_sum(b, ch, (y1 - 1) as u32, x0, x1)
    }
}

/// `v` held between `lo` and `hi`, as `clamp` holds it.
pub open spec fn clamp_spec(v: nat, lo: nat, hi: nat) -> nat {
    if v < lo { lo } else if v > hi { hi } else { v }
}

/// The box of source pixels the grid point `i` of `n` stands for, along a
/// side of `len` pixels.
pub open spec fn span_of(i: nat, n: nat, len: nat) -> (nat, nat) {
    let lo = i * len / n;
    (lo, clamp_spec((i + 1) * len / n, lo + 1, len))
}

/// The colour the grid point `(x, y)` shows of `b` placed at `p`: nothing
/// outside the picture or where it is too transparent to show, and otherwise
/// the average of the box of source pixels it stands for, composited onto
/// black.
pub open spec fn sample_spec(p: Placement, b: Bitmap, x: u32, y: u32) -> Option<Rgb> {
    if x < p.left || x - p.left >= p.width || y < p.top || y - p.top >= p.height {
        None
    } else {
        let (x0, x1) = span_of((x - p.left) as nat, p.width as nat, b.width_spec() as nat);
        let (y0, y1) = span_of((y - p.top) as nat, p.height as nat, b.height_spec() as nat);
        let count = ((x1 - x0) * (y1 - y0)) as nat;
        let alpha = box_sum(b, 3, x0, x1, y0, y1) / count;
        if alpha < OPAQUE_ENOUGH as nat {
            None
        } else {
            Some(Rgb {
                r: ((box_sum(b, 0, x0, x1, y0, y1) / count) * alpha / 255) as u8,
                g: ((box_sum(b, 1, x0, x1, y0, y1) / count) * alpha / 255) as u8,
                b: ((box_sum(b, 2, x0, x1, y0, y1) / count) * alpha / 255) as u8,
            })
        }
    }
}

/// The sums of each channel over the box `x0..x1` by `y0..y1` of `bitmap`,
/// and the number of pixels in it.
fn box_sums(bitmap: &Bitmap, x0: u32, x1: u32, y0: u32, y1: u32) -> (r: ([u128; 4], u128))
    requires
        x0 < x1 <= bitmap.width_spec(),
        y0 < y1 <= bitmap.height_spec(),
    ensures
        r.1 == (x1 - x0) * (y1 - y0),
        r.1 > 0,
        forall|ch: int| 0 <= ch < 4 ==> r.0@[ch] == box_sum(*bitmap, ch, x0 as nat, x1 as nat, y0 as nat, y1 as nat),
        forall|ch: int| 0 <= ch < 4 ==> r.0@[ch] <= 255 * r.1,
{
    let bw = bitmap.width();
    let bh = bitmap.height();
        let ghost b = *bitmap;
        let mut sums: [u128; 4] = [0, 0, 0, 0];
        let mut count: u128 = 0;
        let mut sy = y0;
        while sy < y1
            invariant
                y0 <= sy <= y1,
                x0 < x1 <= bw,
                y1 <= bh,
                b == *bitmap,
                count == (sy - y0) * (x1 - x0),
                count <= (sy - y0) * 0x1_0000_0000,
                forall|ch: int| 0 <= ch < 4 ==> sums@[ch] == box_sum(b, ch, x0 as nat, x1 as nat, y0 as nat, sy as nat),
                forall|ch: int| 0 <= ch < 4 ==> sums@[ch] <= 255 * count,
            decreases y1 - sy,
        {
            let mut sx = x0;
            let ghost row_start = sums@;
            let ghost count_start = count;
            while sx < x1
                invariant
                    x0 <= sx <= x1,
                    y0 <= sy < y1,
                    x0 < x1 <= bw,
                    y1 <= bh,
                    b == *bitmap,
                    count == count_start + (sx - x0),
                    count_start == (sy - y0) * (x1 - x0),
                    count_start <= (sy - y0) * 0x1_0000_0000,
                    forall|ch: int| 0 <= ch < 4 ==> sums@[ch] == row_start[ch] + row_sum(b, ch, sy, x0 as nat, sx as nat),
                    forall|ch: int| 0 <= ch < 4 ==> row_start[ch] == box_sum(b, ch, x0 as nat, x1 as nat, y0 as nat, sy as nat),
                    forall|ch: int| 0 <= ch < 4 ==> sums@[ch] <= 255 * count,
                decreases x1 - sx,
            {
                let px = bitmap.pixel(sx, sy);
                let ghost before = sums@;
                sums[0] = sums[0] + px[0] as u128;
                sums[1] = sums[1] + px[1] as u128;
                sums[2] = sums[2] + px[2] as u128;
                sums[3] = sums[3] + px[3] as u128;
                count = count + 1;
                sx = sx + 1;
                assert forall|ch: int| 0 <= ch < 4 implies sums@[ch] == row_start[ch] + row_sum(b, ch, sy, x0 as nat, sx as nat) by {
                    assert(px@ == b.pixel_spec((sx - 1) as u32, sy));
                }
            }
            proof {
                assert(count == (sy + 1 - y0) * (x1 - x0)) by (nonlinear_arith)
                    requires count == count_start + (x1 - x0), count_start == (sy - y0) * (x1 - x0);
                assert(count <= (sy + 1 - y0) * 0x1_0000_0000) by (nonlinear_arith)
                    requires count == count_start + (x1 - x0), count_start <= (sy - y0) * 0x1_0000_0000, x1 - x0 <= 0x1_0000_0000;
            }
            sy = sy + 1;
        }
    assert(sy == y1);
    proof {
        assert(count == (x1 - x0) * (y1 - y0) && count > 0) by (nonlinear_arith)
            requires count == (sy - y0) * (x1 - x0), sy == y1, y1 > y0, x1 > x0;
    }
    (sums, count)
}

impl Placement {
    /// The colour the grid point `(x, y)` shows: `None` outside the picture
    /// and where it is too transparent to draw. The box of source pixels a
    /// point stands for is averaged, which is what keeps this second scaling,
    /// after the one the reader already did, from turning every edge into
    /// stairs; what is only partly transparent is composited onto black, since
    /// the colour behind the panel is the terminal's own.
    pub fn sample(&self, bitmap: &Bitmap, x: u32, y: u32) -> (c: Option<Rgb>)
        requires
            bitmap.width_spec() > 0,
            bitmap.height_spec() > 0,
            self.width * bitmap.width_spec() <= u32::MAX,
            self.height * bitmap.height_spec() <= u32::MAX,
        ensures
            c == sample_spec(*self, *bitmap, x, y),
    {
        if x < self.left || x - self.left >= self.width || y < self.top || y - self.top >= self.height {
            return None;
        }
        let bw = bitmap.width();
        let bh = bitmap.height();
        let xs = x - self.left;
        let ys = y - self.top;
        proof {
            assert((xs + 1) * bw <= self.width * bw) by (nonlinear_arith)
                requires xs < self.width;
            assert((ys + 1) * bh <= self.height * bh) by (nonlinear_arith)
                requires ys < self.height;
            assert(xs * bw <= (xs + 1) * bw) by (nonlinear_arith);
            assert(ys * bh <= (ys + 1) * bh) by (nonlinear_arith);
            assert(xs * bw / (self.width as int) < bw) by (nonlinear_arith)
                requires xs < self.width, bw > 0;
            assert(ys * bh / (self.height as int) < bh) by (nonlinear_arith)
                requires ys < self.height, bh > 0;
        }
        let x0 = xs * bw / self.width;
        let xe = (xs + 1) * bw / self.width;
        let x1 = if xe < x0 + 1 { x0 + 1 } else if xe > bw { bw } else { xe };
        let y0 = ys * bh / self.height;
        let ye = (ys + 1) * bh / self.height;
        let y1 = if ye < y0 + 1 { y0 + 1 } else if ye > bh { bh } else { ye };
        let (sums, count) = box_sums(bitmap, x0, x1, y0, y1);
        proof {
            let (sx0, sx1) = span_of(xs as nat, self.width as nat, bw as nat);
            let (sy0, sy1) = span_of(ys as nat, self.height as nat, bh as nat);
            assert(sx0 == x0 && sx1 == x1 && sy0 == y0 && sy1 == y1);
        }
        let alpha = sums[3] / count;
        if alpha < OPAQUE_ENOUGH as u128 {
            return None;
        }
        proof {
            assert forall|ch: int| 0 <= ch < 4 implies sums@[ch] / count <= 255 by {
                assert(sums@[ch] / count <= 255) by (nonlinear_arith)
                    requires sums@[ch] <= 255 * count, count > 0;
            }
            assert((sums@[0] / count) * alpha <= 255 * 255) by (nonlinear_arith)
                requires sums@[0] / count <= 255, alpha <= 255;
            assert((sums@[1] / count) * alpha <= 255 * 255) by (nonlinear_arith)
                requires sums@[1] / count <= 255, alpha <= 255;
            assert((sums@[2] / count) * alpha <= 255 * 255) by (nonlinear_arith)
                requires sums@[2] / count <= 255, alpha <= 255;
        }
        let r = ((sums[0] / count) * alpha / 255) as u8;
        let g = ((sums[1] / count) * alpha / 255) as u8;
        let bl = ((sums[2] / count) * alpha / 255) as u8;
        Some(Rgb { r, g, b: bl })
    }
}

/// A length in pixels as one in cells, to the nearest whole cell.
pub open spec fn cells_spec(pixels: nat, per_cell: nat) -> nat {
    (pixels + per_cell / 2) / per_cell
}

/// The cells a picture the terminal draws itself is placed into: centred in
/// `area` and as near its own shape as whole cells allow. The fit is worked
/// out in pixels, which is where the shape is, and rounded back to cells
/// after.
pub open spec fn placement_area_spec(bw: nat, bh: nat, area: Area, cell: CellSize) -> Area {
    let (w, h) = scaled_spec(bw, bh, (area.width * cell.width) as nat, (area.height * cell.height) as nat);
    let col_max: nat = if area.width == 0 { 1 } else { area.width as nat };
    let row_max: nat = if area.height == 0 { 1 } else { area.height as nat };
    let c = cells_spec(w, cell.width as nat);
    let r = cells_spec(h, cell.height as nat);
    let columns: nat = if c < 1 { 1 } else if c > col_max { col_max } else { c };
    let rows: nat = if r < 1 { 1 } else if r > row_max { row_max } else { r };
    Area {
        x: (area.x + (if area.width >= columns { area.width - columns } else { 0 }) / 2) as u16,
        y: (area.y + (if area.height >= rows { area.height - rows } else { 0 }) / 2) as u16,
        width: columns as u16,
        height: rows as u16,
    }
}

/// The cells a picture the terminal draws itself is placed into.
pub fn placement_area(bitmap: &Bitmap, area: Area, cell: CellSize) -> (placed: Area)
    requires
        bitmap.width_spec() > 0,
        bitmap.height_spec() > 0,
        cell.width > 0,
        cell.height > 0,
        bitmap.width_spec() * (area.height * cell.height) <= u32::MAX,
        (area.width * cell.width) * bitmap.height_spec() <= u32::MAX,
        area.x + area.width <= u16::MAX,
        area.y + area.height <= u16::MAX,
    ensures
        placed == placement_area_spec(bitmap.width_spec() as nat, bitmap.height_spec() as nat, area, cell),
        placed.width >= 1,
        placed.height >= 1,
        area.width > 0 ==> placed.x + placed.width <= area.x + area.width,
        area.height > 0 ==> placed.y + placed.height <= area.y + area.height,
{
    assert((area.width as u32) * (cell.width as u32) <= 0xffff * 0xffff) by (nonlinear_arith)
        requires
            area.width <= 0xffff,
            cell.width <= 0xffff,
    ;
    assert((area.height as u32) * (cell.height as u32) <= 0xffff * 0xffff) by (nonlinear_arith)
        requires
            area.height <= 0xffff,
            cell.height <= 0xffff,
    ;
    let max_w: u32 = (area.width as u32) * (cell.width as u32);
    let max_h: u32 = (area.height as u32) * (cell.height as u32);
    let (w, h) = scaled(bitmap.width(), bitmap.height(), max_w, max_h);
    let per_w = cell.width as u32;
    let per_h = cell.height as u32;
    let c = ((w as u64 + (per_w / 2) as u64) / (per_w as u64)) as u64;
    let r = ((h as u64 + (per_h / 2) as u64) / (per_h as u64)) as u64;
    let col_max: u64 = if area.width == 0 { 1 } else { area.width as u64 };
    let row_max: u64 = if area.height == 0 { 1 } else { area.height as u64 };
    let columns: u64 = if c < 1 { 1 } else if c > col_max { col_max } else { c };
    let rows: u64 = if r < 1 { 1 } else if r > row_max { row_max } else { r };
    let x_slack: u64 = if (area.width as u64) >= columns { area.width as u64 - columns } else { 0 };
    let y_slack: u64 = if (area.height as u64) >= rows { area.height as u64 - rows } else { 0 };
    Area {
        x: (area.x as u64 + x_slack / 2) as u16,
        y: (area.y as u64 + y_slack / 2) as u16,
        width: columns as u16,
        height: rows as u16,
    }
}

/// A line for each of the first `n` entries of `want`.
pub open spec fn entry_lines(want: Seq<DirEntry>, n: nat) -> Seq<LineView> {
    Seq::new(n, |j: int| LineView::Entry(icon_of(want[j].kind, want[j].path@), name_of_spec(want[j].path@)))
}

/// A line for each of the first `n` texts.
pub open spec fn plain_lines(texts: Seq<Seq<char>>, n: nat) -> Seq<LineView> {
    Seq::new(n, |i: int| LineView::Plain(texts[i]))
}

/// The first `n` rows of a dump of `bytes`, `per` to a row.
pub open spec fn hex_rows(bytes: Seq<u8>, per: nat, n: nat) -> Seq<LineView> {
    Seq::new(n, |i: int| hex_row_spec(
        (i * per) as nat,
        bytes.subrange(i * per, if (i + 1) * per < bytes.len() { (i + 1) * per } else { bytes.len() as int }),
        per,
    ))
}

/// The entries a directory preview lists: all but the parent, in order.
pub open spec fn shown_entries(entries: Seq<DirEntry>) -> Seq<DirEntry>
    decreases entries.len(),
{
    if entries.len() == 0 {
        Seq::empty()
    } else {
        let rest = shown_entries(entries.drop_last());
        if entries.last().kind == DirEntryKind::Parent {
            rest
        } else {
            rest.push(entries.last())
        }
    }
}

/// The lines of a listing that fit in `rows`: a line for each entry that fits,
/// and the last of them given over to a `…` where some are left out.
pub open spec fn listing_lines(entries: Seq<DirEntry>, rows: nat) -> Seq<LineView> {
    let shown = shown_entries(entries);
    if shown.len() == 0 {
        seq![LineView::Muted("Empty directory"@)]
    } else {
        let n: nat = if shown.len() < rows { shown.len() } else { rows };
        let lines = entry_lines(shown, n);
        if shown.len() > n {
            (if n > 0 { lines.drop_last() } else { lines }).push(LineView::Muted(more_word()))
        } else {
            lines
        }
    }
}

/// `drawn` cut down to make room for a `…` on the last row there is.
pub open spec fn with_more(drawn: Seq<LineView>, rows: nat) -> Seq<LineView> {
    let keep: nat = if rows >= 1 { (rows - 1) as nat } else { 0 };
    (if drawn.len() > keep { drawn.take(keep as int) } else { drawn }).push(LineView::Muted(more_word()))
}

/// The lines of a text that fit in `rows`, with a `…` where the file goes on.
pub open spec fn text_lines(lines: Seq<Seq<char>>, clipped: bool, rows: nat) -> Seq<LineView> {
    if lines.len() == 0 && !clipped {
        seq![LineView::Muted("Empty file"@)]
    } else {
        let n: nat = if lines.len() < rows { lines.len() } else { rows };
        let drawn = plain_lines(lines, n);
        if clipped || lines.len() > n {
            with_more(drawn, rows)
        } else {
            drawn
        }
    }
}

/// The rows of a dump of `bytes`, `per_row` at a time, that fit in `rows`,
/// with a `…` where there is more than they show.
pub open spec fn dump_lines(bytes: Seq<u8>, clipped: bool, rows: nat, per_row: nat) -> Seq<LineView> {
    if bytes.len() == 0 {
        seq![LineView::Muted("Empty file"@)]
    } else {
        let chunks = (bytes.len() + per_row - 1) / per_row as int;
        let n: nat = if chunks < rows { chunks as nat } else { rows };
        let drawn = hex_rows(bytes, per_row, n);
        if clipped || bytes.len() > n * per_row {
            with_more(drawn, rows)
        } else {
            drawn
        }
    }
}

/// What a symlink's second line says of where it points.
pub open spec fn link_word(t: LinkTarget) -> Seq<char> {
    match t {
        LinkTarget::Directory => "directory"@,
        LinkTarget::File => "file"@,
        LinkTarget::Other => "special file"@,
        LinkTarget::Broken => "broken link"@,
    }
}

/// The body of the panel for an area `rows` tall and `width` wide: `None` for
/// the picture, and otherwise its lines.
pub open spec fn body_spec(has_path: bool, content: Option<Content>, rows: nat, width: u16) -> Option<Seq<LineView>> {
    match content {
        None => Some(seq![LineView::Muted(if has_path { more_word() } else { "Nothing to preview"@ })]),
        Some(Content::Image(_)) => None,
        Some(Content::Directory(listing)) => Some(listing_lines(listing@.entries, rows)),
        Some(Content::Symlink { target, points_to }) => Some(seq![LineView::Plain(target@), LineView::Muted(link_word(points_to))]),
        Some(Content::Text { lines, clipped }) => Some(text_lines(lines@.map_values(|l: String| l@), clipped, rows)),
        Some(Content::Binary { bytes, clipped }) => Some(dump_lines(bytes@, clipped, rows, bytes_per_row_spec(width))),
        Some(Content::Refused(Refused::NotAFile)) => Some(seq![LineView::Muted("Not a regular file"@)]),
        Some(Content::Unreadable(reason)) => Some(seq![LineView::Muted(reason@)]),
    }
}

fn muted(text: &str) -> (line: BodyLine)
    ensures
        line@ == LineView::Muted(text@),
{
    BodyLine::Muted(string_of(chars_of(text).as_slice()))
}

proof fn lemma_chunk_count(k: nat, len: nat, per: nat)
    requires
        per > 0,
    ensures
        k * per < len <==> k < (len + per - 1) / (per as int),
{
    assert(k * per < len <==> k < (len + per - 1) / (per as int)) by (nonlinear_arith)
        requires
            per > 0,
    {
        vstd::arithmetic::div_mod::lemma_fundamental_div_mod((len + per - 1) as int, per as int);
    }
}

fn listing_body(entries: &[DirEntry], rows: usize) -> (lines: Vec<BodyLine>)
    ensures
        lines_view(lines@) == listing_lines(entries@, rows as nat),
{
    let mut shown: Vec<&DirEntry> = Vec::new();
    let mut i: usize = 0;
    while i < entries.len()
        invariant
            i <= entries@.len(),
            shown@.len() == shown_entries(entries@.take(i as int)).len(),
            forall|k: int| 0 <= k < shown@.len() ==> *shown@[k] == shown_entries(entries@.take(i as int))[k],
        decreases entries.len() - i,
    {
        assert(entries@.take(i + 1).drop_last() =~= entries@.take(i as int));
        assert(entries@.take(i + 1).last() == entries@[i as int]);
        let ghost before = shown@;
        if entries[i].kind != DirEntryKind::Parent {
            shown.push(&entries[i]);
            assert(forall|k: int| 0 <= k < before.len() ==> shown@[k] == before[k]);
        }
        i += 1;
    }
    assert(entries@.take(entries@.len() as int) =~= entries@);
    let ghost want = shown_entries(entries@);
    if shown.len() == 0 {
        let mut lines: Vec<BodyLine> = Vec::new();
        lines.push(muted("Empty directory"));
        assert(lines_view(lines@) =~= seq![LineView::Muted("Empty directory"@)]);
        return lines;
    }
    let n = if shown.len() < rows { shown.len() } else { rows };
    let mut lines: Vec<BodyLine> = Vec::new();
    let mut k: usize = 0;
    while k < n
        invariant
            k <= n,
            n <= shown@.len(),
            shown@.len() == want.len(),
            forall|j: int| 0 <= j < shown@.len() ==> *shown@[j] == want[j],
            lines@.len() == k,
            lines_view(lines@) == entry_lines(want, k as nat),
        decreases n - k,
    {
        let entry = shown[k];
        let ghost before = lines@;
        lines.push(BodyLine::Entry { icon: Icon::icon_for(entry), name: name_of(entry.path.as_str()) });
        assert(lines_view(lines@) =~= entry_lines(want, (k + 1) as nat)) by {
            assert forall|j: int| 0 <= j < k + 1 implies lines_view(lines@)[j] == entry_lines(want, (k + 1) as nat)[j] by {
                if j < k {
                    assert(lines@[j] == before[j]);
                    assert(lines_view(before)[j] == entry_lines(want, k as nat)[j]);
                }
            }
        }
        k += 1;
    }
    if shown.len() > n {
        let ghost before = lines@;
        if n > 0 {
            lines.pop();
        }
        lines.push(muted("\u{2026}"));
        assert(lines_view(lines@) =~= (if n > 0 { lines_view(before).drop_last() } else { lines_view(before) }).push(LineView::Muted(more_word())));
    }
    lines
}

fn cut_for_more(drawn: &mut Vec<BodyLine>, rows: usize)
    ensures
        lines_view(final(drawn)@) == with_more(lines_view(old(drawn)@), rows as nat),
{
    let keep: usize = if rows >= 1 { rows - 1 } else { 0 };
    let ghost before = drawn@;
    drawn.truncate(keep);
    let ghost cut = drawn@;
    drawn.push(muted("\u{2026}"));
    assert(lines_view(cut) =~= (if lines_view(before).len() > keep { lines_view(before).take(keep as int) } else { lines_view(before) }));
    assert(lines_view(drawn@) =~= lines_view(cut).push(LineView::Muted(more_word())));
}

fn text_body(lines: &Vec<String>, clipped: bool, rows: usize) -> (body: Vec<BodyLine>)
    ensures
        lines_view(body@) == text_lines(lines@.map_values(|l: String| l@), clipped, rows as nat),
{
    let ghost texts = lines@.map_values(|l: String| l@);
    if lines.len() == 0 && !clipped {
        let mut body: Vec<BodyLine> = Vec::new();
        body.push(muted("Empty file"));
        assert(lines_view(body@) =~= seq![LineView::Muted("Empty file"@)]);
        return body;
    }
    let n = if lines.len() < rows { lines.len() } else { rows };
    let mut drawn: Vec<BodyLine> = Vec::new();
    let mut k: usize = 0;
    while k < n
        invariant
            k <= n,
            n <= lines@.len(),
            texts == lines@.map_values(|l: String| l@),
            drawn@.len() == k,
            lines_view(drawn@) == plain_lines(texts, k as nat),
        decreases n - k,
    {
        let ghost before = drawn@;
        drawn.push(BodyLine::Plain(string_of(chars_of(lines[k].as_str()).as_slice())));
        assert(lines_view(drawn@) =~= plain_lines(texts, (k + 1) as nat)) by {
            assert forall|j: int| 0 <= j < k + 1 implies lines_view(drawn@)[j] == plain_lines(texts, (k + 1) as nat)[j] by {
                if j < k {
                    assert(drawn@[j] == before[j]);
                    assert(lines_view(before)[j] == plain_lines(texts, k as nat)[j]);
                }
            }
        }
        k += 1;
    }
    if clipped || lines.len() > n {
        cut_for_more(&mut drawn, rows);
    }
    drawn
}

fn dump_body(bytes: &Vec<u8>, clipped: bool, rows: usize, width: u16) -> (body: Vec<BodyLine>)
    ensures
        lines_view(body@) == dump_lines(bytes@, clipped, rows as nat, bytes_per_row_spec(width)),
{
    if bytes.len() == 0 {
        let mut body: Vec<BodyLine> = Vec::new();
        body.push(muted("Empty file"));
        assert(lines_view(body@) =~= seq![LineView::Muted("Empty file"@)]);
        return body;
    }
    let per_row = bytes_per_row(width);
    let ghost per = per_row as nat;
    let ghost len = bytes@.len();
    let ghost chunks = (len + per - 1) / per as int;
    let ghost n: nat = if chunks < rows { chunks as nat } else { rows as nat };
    let mut drawn: Vec<BodyLine> = Vec::new();
    let mut k: usize = 0;
    let mut start: usize = 0;
    proof {
        lemma_chunk_count(0, len, per);
    }
    while k < rows && start < bytes.len()
        invariant
            per_row == per,
            per >= 4,
            per <= 0x4000,
            start == (if k * per < len { k * per } else { len as int }),
            k <= rows,
            start < bytes@.len() ==> k < chunks,
            k <= n,
            len == bytes@.len(),
            chunks == (len + per - 1) / per as int,
            n == (if chunks < rows { chunks as nat } else { rows as nat }),
            drawn@.len() == k,
            lines_view(drawn@) == hex_rows(bytes@, per, k as nat),
        decreases rows - k,
    {
        let end = if bytes.len() - start > per_row { start + per_row } else { bytes.len() };
        let row = hex_line(start, &bytes.as_slice()[start..end], per_row);
        let ghost before = drawn@;
        drawn.push(BodyLine::Hex(row));
        proof {
            assert((k + 1) * per == k * per + per) by (nonlinear_arith);
            assert(end as int == (if (k + 1) * per < len { (k + 1) * per } else { len as int }));
            assert(lines_view(drawn@) =~= hex_rows(bytes@, per, (k + 1) as nat)) by {
                assert forall|j: int| 0 <= j < k + 1 implies lines_view(drawn@)[j] == hex_rows(bytes@, per, (k + 1) as nat)[j] by {
                    if j < k {
                        assert(drawn@[j] == before[j]);
                        assert(lines_view(before)[j] == hex_rows(bytes@, per, k as nat)[j]);
                    }
                }
            }
            lemma_chunk_count((k + 1) as nat, len, per);
            lemma_chunk_count(k as nat, len, per);
        }
        k += 1;
        start = end;
    }
    proof {
        lemma_chunk_count(k as nat, len, per);
        assert(k == n);
    }
    if clipped || start < bytes.len() {
        cut_for_more(&mut drawn, rows);
    }
    drawn
}

/// The body, laid out for an area `rows` tall and `width` wide: `Image` for
/// a picture, and otherwise the lines that say what is there. Nothing that
/// has arrived says `…` while there is a path to wait for and `Nothing to
/// preview` while there is none.
pub fn body(has_path: bool, content: Option<&Content>, rows: usize, width: u16) -> (b: Body)
    ensures
        match body_spec(has_path, match content { Some(c) => Some(*c), None => None }, rows as nat, width) {
            None => b is Image,
            Some(lines) => b matches Body::Lines(v) && lines_view(v@) == lines,
        },
{
    let lines = match content {
        None => {
            let mut v: Vec<BodyLine> = Vec::new();
            v.push(if has_path { muted("\u{2026}") } else { muted("Nothing to preview") });
            assert(lines_view(v@) =~= seq![LineView::Muted(if has_path { more_word() } else { "Nothing to preview"@ })]);
            v
        },
        Some(Content::Image(_)) => {
            return Body::Image;
        },
        Some(Content::Directory(listing)) => listing_body(listing.entries(), rows),
        Some(Content::Symlink { target, points_to }) => {
            let mut v: Vec<BodyLine> = Vec::new();
            v.push(BodyLine::Plain(string_of(chars_of(target.as_str()).as_slice())));
            let word = match points_to {
                LinkTarget::Directory => muted("directory"),
                LinkTarget::File => muted("file"),
                LinkTarget::Other => muted("special file"),
                LinkTarget::Broken => muted("broken link"),
            };
            v.push(word);
            assert(lines_view(v@) =~= seq![LineView::Plain(target@), LineView::Muted(link_word(*points_to))]);
            v
        },
        Some(Content::Text { lines, clipped }) => text_body(lines, *clipped, rows),
        Some(Content::Binary { bytes, clipped }) => dump_body(bytes, *clipped, rows, width),
        Some(Content::Refused(Refused::NotAFile)) => {
            let mut v: Vec<BodyLine> = Vec::new();
            v.push(muted("Not a regular file"));
            assert(lines_view(v@) =~= seq![LineView::Muted("Not a regular file"@)]);
            v
        },
        Some(Content::Unreadable(reason)) => {
            let mut v: Vec<BodyLine> = Vec::new();
            v.push(muted(reason.as_str()));
            assert(lines_view(v@) =~= seq![LineView::Muted(reason@)]);
            v
        },
    };
    Body::Lines(lines)
}

} // verus!
