//! What a pane row shows to the right of the name.
//!
//! A cycle rather than a setting, because the columns are worth their cost
//! only while they are being read: `Columns::Name` is one `read_dir` per
//! directory, and anything wider is a `stat` per entry on top of it. What the
//! panes ask the reader for follows from the value here, so turning the columns
//! off turns the syscalls off with them.
//!
//! Every cell is padded to a fixed width, so the columns line up down the pane
//! whatever the names above and below are.

use vstd::prelude::*;

use crate::fs::directory::{Detail, DirEntry, DirEntryKind};
use crate::text::{decimal_of, digit, digit_char, push_decimal, string_of};
use crate::ui::sort::size_spec;

verus! {

/// Columns of the size cell. `1023B` is the widest thing it holds; `bytes`
/// keeps everything else inside it.
pub const SIZE_WIDTH: usize = 5;

/// Columns of the time cell: `2026-08-28 18:45`.
pub const TIME_WIDTH: usize = 16;

/// Blank columns between the name and a cell, and between two cells.
pub const GAP: usize = 1;

/// What each row of a listing shows besides its name.
#[derive(Clone, Copy, Debug, PartialEq, Eq)]
pub enum Columns {
    Name,
    Size,
    SizeAndTime,
}

/// How a cell is coloured: a size in the colour sizes have, or quiet, as the
/// time is and as a size cell with no size in it is.
#[derive(Clone, Copy, Debug, PartialEq, Eq)]
pub enum Tone {
    Size,
    Muted,
}

pub open spec fn next_of(c: Columns) -> Columns {
    match c {
        Columns::SizeAndTime => Columns::Size,
        Columns::Size => Columns::Name,
        Columns::Name => Columns::SizeAndTime,
    }
}

pub open spec fn width_of(c: Columns) -> nat {
    match c {
        Columns::Name => 0,
        Columns::Size => (GAP + SIZE_WIDTH) as nat,
        Columns::SizeAndTime => (GAP + SIZE_WIDTH + GAP + TIME_WIDTH) as nat,
    }
}

impl Columns {
    /// The next setting in the cycle: one column fewer each time, and back to
    /// all of them from the name alone.
    ///
    /// Narrowing rather than widening, because a listing starts with every
    /// column drawn, and what the key is reached for is room for the names.
    pub fn next(self) -> (n: Self)
        ensures
            n == next_of(self),
    {
        match self {
            Columns::SizeAndTime => Columns::Size,
            Columns::Size => Columns::Name,
            Columns::Name => Columns::SizeAndTime,
        }
    }

    /// How much of each entry a listing has to be read with to fill these
    /// columns.
    pub fn detail(self) -> (d: Detail)
        ensures
            d == (if self == Columns::Name { Detail::NamesOnly } else { Detail::WithMetadata }),
    {
        match self {
            Columns::Name => Detail::NamesOnly,
            Columns::Size | Columns::SizeAndTime => Detail::WithMetadata,
        }
    }

    /// Columns taken to the right of the name, the gaps in front of each cell
    /// included. What is left of a row's width after this is the name's.
    pub fn width(self) -> (w: usize)
        ensures
            w == width_of(self),
    {
        match self {
            Columns::Name => 0,
            Columns::Size => GAP + SIZE_WIDTH,
            Columns::SizeAndTime => GAP + SIZE_WIDTH + GAP + TIME_WIDTH,
        }
    }

    /// Whether the size column is drawn, and so whether directories are worth
    /// measuring.
    pub fn show_size(self) -> (shown: bool)
        ensures
            shown == (self != Columns::Name),
    {
        match self {
            Columns::Name => false,
            Columns::Size | Columns::SizeAndTime => true,
        }
    }
}

/// The cycle comes back to where it started after three steps, and every step
/// in it draws fewer columns, except the one from the name alone, which brings
/// them all back.
pub proof fn columns_cycle(c: Columns)
    ensures
        next_of(next_of(next_of(c))) == c,
        c != Columns::Name ==> width_of(next_of(c)) < width_of(c),
        c == Columns::Name ==> next_of(c) == Columns::SizeAndTime,
{
}

/// The size of the `k`-th unit a byte count is scaled to: a kibibyte first, an
/// exbibyte last.
pub open spec fn unit_size(k: nat) -> nat {
    if k <= 1 {
        0x400
    } else if k == 2 {
        0x10_0000
    } else if k == 3 {
        0x4000_0000
    } else if k == 4 {
        0x100_0000_0000
    } else if k == 5 {
        0x4_0000_0000_0000
    } else {
        0x1000_0000_0000_0000
    }
}

/// The letter of the `k`-th unit.
pub open spec fn unit_letter(k: nat) -> char {
    if k <= 1 {
        'K'
    } else if k == 2 {
        'M'
    } else if k == 3 {
        'G'
    } else if k == 4 {
        'T'
    } else if k == 5 {
        'P'
    } else {
        'E'
    }
}

/// How many times a value is divided by 1024 before it is shown: once at
/// least, and again while it still reaches 1024 of the unit and a larger
/// unit is left.
pub open spec fn unit_for(value: nat, k: nat) -> nat
    decreases 6 - k,
{
    if k < 6 && value >= unit_size(k + 1) {
        unit_for(value, k + 1)
    } else {
        k
    }
}

/// How many low bits of `n` a 64-bit float has no room for: it keeps 53
/// significant bits.
pub open spec fn dropped_bits(n: nat) -> nat
    decreases n,
{
    if n < 0x20_0000_0000_0000 {
        0
    } else {
        1 + dropped_bits(n / 2)
    }
}

pub open spec fn two_to(e: nat) -> nat
    decreases e,
{
    if e == 0 {
        1
    } else {
        2 * two_to((e - 1) as nat)
    }
}

/// `n / d` rounded to the nearest whole number, a tie going to the even one.
pub open spec fn round_half_even(n: nat, d: nat) -> nat {
    let q = n / d;
    let rem = n % d;
    if 2 * rem > d || (2 * rem == d && q % 2 == 1) {
        q + 1
    } else {
        q
    }
}

/// The value a 64-bit float holds for the count `n`: `n` rounded to 53
/// significant bits, a tie going to the even one.
pub open spec fn as_float(n: nat) -> nat {
    let p = two_to(dropped_bits(n));
    round_half_even(n, p) * p
}

/// A byte count in at most `SIZE_WIDTH` columns: exact below a kibibyte, then
/// scaled to the largest unit it reaches, with one decimal while it stays
/// under ten of them. The scaled value is the one a 64-bit float holds, and
/// its last digit is rounded to the nearest, a tie going to the even one.
pub open spec fn bytes_text(count: nat) -> Seq<char> {
    if count < 1024 {
        decimal_of(count).push('B')
    } else {
        let value = as_float(count);
        let k = unit_for(value, 1);
        let d = unit_size(k);
        if value < 10 * d {
            let tenths = round_half_even(value * 10, d);
            decimal_of(tenths / 10).push('.').push(digit_char(tenths % 10)).push(unit_letter(k))
        } else {
            decimal_of(round_half_even(value, d)).push(unit_letter(k))
        }
    }
}

proof fn unit_for_bounds(value: nat, k: nat)
    requires
        1 <= k <= 6,
    ensures
        k <= unit_for(value, k) <= 6,
        unit_for(value, k) < 6 ==> value < unit_size(unit_for(value, k) + 1),
    decreases 6 - k,
{
    if k < 6 && value >= unit_size(k + 1) {
        unit_for_bounds(value, k + 1);
    }
}

proof fn round_half_even_bound(n: nat, d: nat, m: nat)
    requires
        d > 0,
        n < m * d,
    ensures
        round_half_even(n, d) <= m,
{
    assert(n / d < m) by (nonlinear_arith)
        requires
            d > 0,
            n < m * d,
    ;
}

proof fn decimal_len(n: nat)
    ensures
        n < 10 ==> decimal_of(n).len() == 1,
        n < 100 ==> decimal_of(n).len() <= 2,
        n < 1000 ==> decimal_of(n).len() <= 3,
        n < 10000 ==> decimal_of(n).len() <= 4,
    decreases n,
{
    if n >= 10 {
        decimal_len(n / 10);
    }
}

fn unit_letter_of(k: u64) -> (c: char)
    ensures
        c == unit_letter(k as nat),
{
    if k <= 1 {
        'K'
    } else if k == 2 {
        'M'
    } else if k == 3 {
        'G'
    } else if k == 4 {
        'T'
    } else if k == 5 {
        'P'
    } else {
        'E'
    }
}

fn rounded_quotient(n: u128, d: u128) -> (q: u128)
    requires
        d > 0,
        d < 0x1_0000_0000_0000_0000_0000,
        n < 0x1_0000_0000_0000_0000_0000,
    ensures
        q == round_half_even(n as nat, d as nat),
{
    let q = n / d;
    let rem = n % d;
    assert(q <= n) by (nonlinear_arith)
        requires
            d > 0,
            q == n / d,
    ;
    if 2 * rem > d || (2 * rem == d && q % 2 == 1) {
        q + 1
    } else {
        q
    }
}

/// The value a 64-bit float holds for `count`, as an exact integer.
fn float_value(count: u64) -> (v: u128)
    ensures
        v == as_float(count as nat),
        v < 0x2_0000_0000_0000_0000,
{
    let mut n: u128 = count as u128;
    let mut p: u128 = 1;
    let ghost mut s: nat = 0;
    while n >= 0x20_0000_0000_0000
        invariant
            p == two_to(s),
            dropped_bits(count as nat) == s + dropped_bits(n as nat),
            n == (count as nat) / (p as nat),
            1 <= p,
            p == 1 || 0x10_0000_0000_0000 * p <= count,
        decreases n,
    {
        proof {
            vstd::arithmetic::div_mod::lemma_div_denominator(count as int, p as int, 2);
            assert(n * p <= count) by (nonlinear_arith)
                requires
                    n == (count as nat) / (p as nat),
                    p >= 1,
            {
                vstd::arithmetic::div_mod::lemma_fundamental_div_mod(count as int, p as int);
            }
            assert(0x10_0000_0000_0000 * (p * 2) <= count) by (nonlinear_arith)
                requires
                    n >= 0x20_0000_0000_0000,
                    n * p <= count,
            ;
        }
        n = n / 2;
        p = p * 2;
        proof {
            s = s + 1;
        }
    }
    let r = rounded_quotient(count as u128, p);
    proof {
        vstd::arithmetic::div_mod::lemma_fundamental_div_mod(count as int, p as int);
        assert(count < (n + 1) * p) by (nonlinear_arith)
            requires
                count == p * n + (count as int) % (p as int),
                (count as int) % (p as int) < p,
        ;
        round_half_even_bound(count as nat, p as nat, n as nat + 1);
        assert(r * p <= count + p) by (nonlinear_arith)
            requires
                r <= n + 1,
                count == p * n + (count as int) % (p as int),
                (count as int) % (p as int) >= 0,
                p >= 1,
        ;
    }
    r * p
}

/// A byte count in at most `SIZE_WIDTH` columns: exact below a kibibyte, then
/// scaled to the largest unit it reaches, with one decimal while it stays
/// under ten of them.
pub fn bytes(count: u64) -> (text: String)
    ensures
        text@ == bytes_text(count as nat),
        text@.len() <= SIZE_WIDTH,
{
    let mut out: Vec<char> = Vec::new();
    if count < 1024 {
        push_decimal(&mut out, count);
        out.push('B');
        proof {
            decimal_len(count as nat);
        }
        return string_of(out.as_slice());
    }
    let value = float_value(count);
    let mut k: u64 = 1;
    let mut d: u128 = 0x400;
    while k < 6 && value >= d * 1024
        invariant
            1 <= k <= 6,
            d == unit_size(k as nat),
            unit_for(value as nat, 1) == unit_for(value as nat, k as nat),
        decreases 6 - k,
    {
        d = d * 1024;
        k = k + 1;
    }
    proof {
        unit_for_bounds(value as nat, 1);
    }
    if value < 10 * d {
        let tenths = rounded_quotient(value * 10, d);
        proof {
            round_half_even_bound((value * 10) as nat, d as nat, 100);
        }
        push_decimal(&mut out, (tenths / 10) as u64);
        out.push('.');
        out.push(digit((tenths % 10) as u64));
        out.push(unit_letter_of(k));
        proof {
            decimal_len((tenths / 10) as nat);
        }
    } else {
        let whole = rounded_quotient(value, d);
        proof {
            if k < 6 {
                round_half_even_bound(value as nat, d as nat, 1024);
            } else {
                round_half_even_bound(value as nat, d as nat, 32);
            }
            decimal_len(whole as nat);
        }
        push_decimal(&mut out, whole as u64);
        out.push(unit_letter_of(k));
    }
    string_of(out.as_slice())
}

/// What the size cell of an entry says, and how it is coloured.
///
/// A directory shows `total`, what its files add up to; its own `st_size` is
/// the size of the record the filesystem keeps. Until it is measured it draws
/// an ellipsis, and the parent a dash, both quiet so they stay under the sizes
/// that mean something. A file read without metadata leaves the cell blank.
pub open spec fn size_text_of(kind: DirEntryKind, meta_size: Option<u64>, total: Option<u64>) -> (
    Seq<char>,
    Tone,
) {
    match kind {
        DirEntryKind::Parent => (seq!['\u{2014}'], Tone::Muted),
        DirEntryKind::Directory => match total {
            Some(t) => (bytes_text(t as nat), Tone::Size),
            None => (seq!['\u{2026}'], Tone::Muted),
        },
        _ => match meta_size {
            Some(size) => (bytes_text(size as nat), Tone::Size),
            None => (Seq::empty(), Tone::Size),
        },
    }
}

/// The text of the size column of `entry` and its tone. `total` is what a
/// directory measured to, `None` while it is being measured.
pub fn size_text(entry: &DirEntry, total: Option<u64>) -> (cell: (String, Tone))
    ensures
        (cell.0@, cell.1) == size_text_of(
            entry.kind,
            match entry.meta {
                Some(m) => Some(m.size),
                None => None,
            },
            total,
        ),
{
    match entry.kind {
        DirEntryKind::Parent => (string_of(vec!['\u{2014}'].as_slice()), Tone::Muted),
        DirEntryKind::Directory => match total {
            Some(t) => (bytes(t), Tone::Size),
            None => (string_of(vec!['\u{2026}'].as_slice()), Tone::Muted),
        },
        _ => match entry.meta {
            Some(meta) => (bytes(meta.size), Tone::Size),
            None => (string_of(Vec::new().as_slice()), Tone::Size),
        },
    }
}

/// `text` right-aligned in `width` columns behind the gap that holds it off
/// whatever is in front of it, counting characters; a longer text is left
/// whole.
pub open spec fn padded_of(text: Seq<char>, width: nat) -> Seq<char> {
    let total = width + GAP;
    if text.len() < total {
        Seq::new((total - text.len()) as nat, |i: int| ' ') + text
    } else {
        text
    }
}

/// One cell's text: `text` right-aligned in `width` columns, behind the gap.
pub fn padded(text: &str, width: usize) -> (cell: String)
    requires
        width + GAP <= usize::MAX,
    ensures
        cell@ == padded_of(text@, width as nat),
{
    let chars = crate::text::chars_of(text);
    let total = width + GAP;
    let mut out: Vec<char> = Vec::new();
    if chars.len() < total {
        let pad = total - chars.len();
        let mut i: usize = 0;
        while i < pad
            invariant
                i <= pad,
                out@ == Seq::new(i as nat, |j: int| ' '),
            decreases pad - i,
        {
            out.push(' ');
            i += 1;
        }
    }
    let mut j: usize = 0;
    let ghost before = out@;
    while j < chars.len()
        invariant
            j <= chars@.len(),
            out@ == before + chars@.subrange(0, j as int),
        decreases chars.len() - j,
    {
        out.push(chars[j]);
        j += 1;
    }
    proof {
        assert(chars@.subrange(0, chars@.len() as int) =~= chars@);
        if chars@.len() < total {
            assert(before =~= Seq::new((total - chars@.len()) as nat, |i: int| ' '));
        } else {
            assert(before =~= Seq::<char>::empty());
        }
        assert(out@ =~= padded_of(text@, width as nat));
    }
    string_of(out.as_slice())
}

/// A directory shows what it measured to: once its total is known, its size
/// cell is that total written out, whatever size its own record gives.
pub proof fn a_directory_shows_its_measured_total(meta_size: Option<u64>, total: u64)
    ensures
        size_text_of(DirEntryKind::Directory, meta_size, Some(total)) == (bytes_text(total as nat), Tone::Size),
{
}

/// The size column shows the size a listing is sorted by: wherever an entry
/// has a size to sort by, its cell is that size written out.
pub proof fn the_column_shows_the_size_sorted_by(entry: DirEntry, total: Option<u64>)
    ensures
        size_spec(entry, total) matches Some(n) ==> size_text_of(
            entry.kind,
            match entry.meta {
                Some(m) => Some(m.size),
                None => None,
            },
            total,
        ).0 == bytes_text(n as nat),
{
}

} // verus!
