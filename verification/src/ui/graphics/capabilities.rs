//! What the terminal can draw, read out of what it answered.
//!
//! Three questions go out in one write: how big a cell is, whether the kitty
//! protocol is there, and a Primary Device Attributes request, which every
//! VT-compatible terminal answers, so its arrival ends the read without
//! waiting out a timeout. A terminal that ignores one of the other two sends
//! nothing for it and the rest still lands where this can find it: each
//! answer is matched by its own shape rather than by its place in the queue.

use vstd::prelude::*;

verus! {

/// Final byte of the Device Attributes reply, which is the fence.
pub const ATTRIBUTES: u8 = 0x63;

/// Final byte of the window-op reply that carries the cell size.
pub const WINDOW_OP: u8 = 0x74;

/// Room for the three answers and then some. A terminal still talking past
/// this is answering something nobody asked.
pub const MAX_REPLY: usize = 1024;

/// A way of putting a picture on the screen that the panel knows how to write.
///
/// Names what this can do rather than what terminals can: one the panel cannot
/// write is one the panel must not choose, or it would blank the half blocks
/// and put nothing in their place.
#[derive(Clone, Copy, Debug, PartialEq, Eq)]
pub enum Protocol {
    /// Kitty graphics: the bitmap crosses as base64 inside an APC sequence and
    /// the terminal keeps it as a placement of its own.
    Kitty,
}

/// The size of one cell in pixels, which is what turns an area measured in
/// cells into one measured in pixels. Neither side is ever zero where this
/// module made one, so dividing an area by one is always an answer.
#[derive(Clone, Copy, Debug, PartialEq, Eq)]
pub struct CellSize {
    pub width: u16,
    pub height: u16,
}

/// What the terminal answered. Both halves are missing from a terminal that
/// says nothing, which is where half blocks are the answer.
#[derive(Clone, Copy, Debug, PartialEq, Eq)]
pub struct Capabilities {
    pub protocol: Option<Protocol>,
    pub cell: Option<CellSize>,
}

impl Default for Capabilities {
    fn default() -> (c: Self)
        ensures
            c.protocol is None,
            c.cell is None,
    {
        Capabilities { protocol: None, cell: None }
    }
}

/// What it takes to place a picture: a protocol to carry it and the size of a
/// cell to lay it out in.
///
/// Held together rather than as two answers either of which could be missing,
/// so the panel asks once and gets everything or nothing.
#[derive(Clone, Copy, Debug, PartialEq, Eq)]
pub struct Graphics {
    pub protocol: Protocol,
    pub cell: CellSize,
}

/// Whether `needle` sits in `hay` at `i`.
pub open spec fn sits_at(hay: Seq<u8>, needle: Seq<u8>, i: int) -> bool {
    0 <= i && i + needle.len() <= hay.len() && hay.subrange(i, i + needle.len()) == needle
}

/// Where `needle` first sits in `hay` at `i` or after.
pub open spec fn find_from(hay: Seq<u8>, needle: Seq<u8>, i: nat) -> Option<nat>
    decreases hay.len() + 1 - i,
{
    if i + needle.len() > hay.len() {
        None
    } else if sits_at(hay, needle, i as int) {
        Some(i)
    } else {
        find_from(hay, needle, i + 1)
    }
}

/// Where `needle` first sits in `hay`.
pub open spec fn find_spec(hay: Seq<u8>, needle: Seq<u8>) -> Option<nat> {
    find_from(hay, needle, 0)
}

pub open spec fn csi_opener() -> Seq<u8> {
    seq![0x1bu8, 0x5bu8]
}

pub open spec fn apc_opener() -> Seq<u8> {
    seq![0x1bu8, 0x5fu8, 0x47u8]
}

pub open spec fn string_terminator() -> Seq<u8> {
    seq![0x1bu8, 0x5cu8]
}

/// Whether `b` can stand inside a control sequence: a parameter byte
/// (`0x30..=0x3f`) or an intermediate (`0x20..=0x2f`).
pub open spec fn in_sequence(b: u8) -> bool {
    0x20 <= b <= 0x3f
}

/// Where the sequence whose body starts at `start` ends: the first byte from
/// there that cannot stand inside it.
pub open spec fn body_end(r: Seq<u8>, start: nat) -> Option<nat>
    decreases r.len() - start,
{
    if start >= r.len() {
        None
    } else if !in_sequence(r[start as int]) {
        Some(start)
    } else {
        body_end(r, start + 1)
    }
}

/// Where the parameters of the first `CSI` sequence from `at` on that ends in
/// `final_byte` start and end; a sequence ending in another byte is stepped
/// over, and one that runs past what has arrived ends the search.
pub open spec fn csi_from(r: Seq<u8>, final_byte: u8, at: nat) -> Option<(nat, nat)>
    decreases r.len() - at,
{
    if at > r.len() {
        None
    } else {
        match find_spec(r.subrange(at as int, r.len() as int), csi_opener()) {
            None => None,
            Some(found) => {
                let start = at + found + 2;
                match body_end(r, start) {
                    None => None,
                    Some(end) => if r[end as int] == final_byte {
                        Some((start, end))
                    } else if at < end + 1 <= r.len() {
                        csi_from(r, final_byte, end + 1)
                    } else {
                        None
                    },
                }
            },
        }
    }
}

/// The parameters of the first `CSI` sequence in `r` that ends in
/// `final_byte`: everything between `ESC [` and that byte.
pub open spec fn csi_params_spec(r: Seq<u8>, final_byte: u8) -> Option<Seq<u8>> {
    match csi_from(r, final_byte, 0) {
        Some((start, end)) => Some(r.subrange(start as int, end as int)),
        None => None,
    }
}

/// The body of the first APC sequence in `r`: what sits between `ESC _ G` and
/// the `ESC \` closing it.
pub open spec fn apc_body_spec(r: Seq<u8>) -> Option<Seq<u8>> {
    match find_spec(r, apc_opener()) {
        None => None,
        Some(i) => {
            let rest = r.subrange((i + 3) as int, r.len() as int);
            match find_spec(rest, string_terminator()) {
                None => None,
                Some(end) => Some(rest.subrange(0, end as int)),
            }
        },
    }
}

/// Whether the kitty query came back with an `OK`: the body of the answer is
/// `i=<id>;OK` when the protocol is there and `i=<id>;<error>` when the
/// terminal understood the sequence but not the request.
pub open spec fn kitty_spec(r: Seq<u8>) -> bool {
    match apc_body_spec(r) {
        Some(body) => body.len() >= 3 && body.subrange(body.len() - 3, body.len() as int) == seq![
            0x3bu8,
            0x4fu8,
            0x4bu8,
        ],
        None => false,
    }
}

pub open spec fn is_digit(b: u8) -> bool {
    0x30 <= b <= 0x39
}

/// The value of the decimal digits `d`.
pub open spec fn digits_value(d: Seq<u8>) -> nat
    decreases d.len(),
{
    if d.len() == 0 {
        0
    } else {
        digits_value(d.drop_last()) * 10 + (d.last() - 0x30) as nat
    }
}

/// What the decimal digits `d` are worth, where they are at least one digit,
/// nothing else, and a value a `u16` holds.
pub open spec fn digits_number(d: Seq<u8>) -> Option<u16> {
    if d.len() > 0 && (forall|i: int| 0 <= i < d.len() ==> is_digit(#[trigger] d[i]))
        && digits_value(d) <= u16::MAX {
        Some(digits_value(d) as u16)
    } else {
        None
    }
}

/// What `str::parse::<u16>` makes of `bytes`: an optional `+`, then at least
/// one decimal digit and nothing else, to a value a `u16` holds.
pub open spec fn number_spec(bytes: Seq<u8>) -> Option<u16> {
    if bytes.len() > 0 && bytes[0] == 0x2b {
        digits_number(bytes.drop_first())
    } else {
        digits_number(bytes)
    }
}

/// The pieces `bytes` falls into at each `;`, the empty ones kept.
pub open spec fn split_read(bytes: Seq<u8>) -> (Seq<Seq<u8>>, Seq<u8>)
    decreases bytes.len(),
{
    if bytes.len() == 0 {
        (Seq::empty(), Seq::empty())
    } else {
        let (done, current) = split_read(bytes.drop_last());
        if bytes.last() == 0x3b {
            (done.push(current), Seq::empty())
        } else {
            (done, current.push(bytes.last()))
        }
    }
}

pub open spec fn split_params(bytes: Seq<u8>) -> Seq<Seq<u8>> {
    let (done, current) = split_read(bytes);
    done.push(current)
}

/// The cell size out of a `CSI 6 ; height ; width t` reply, which puts the
/// height first. A zero in either is a terminal reporting that it does not
/// know, and is turned away as no answer at all.
pub open spec fn cell_size_spec(r: Seq<u8>) -> Option<CellSize> {
    match csi_params_spec(r, WINDOW_OP) {
        None => None,
        Some(params) => {
            let pieces = split_params(params);
            if pieces.len() >= 3 && pieces[0] == seq![0x36u8] && number_spec(pieces[1]) is Some
                && number_spec(pieces[1]).unwrap() != 0 && number_spec(pieces[2]) is Some
                && number_spec(pieces[2]).unwrap() != 0 {
                Some(
                    CellSize {
                        width: number_spec(pieces[2]).unwrap(),
                        height: number_spec(pieces[1]).unwrap(),
                    },
                )
            } else {
                None
            }
        },
    }
}

/// Where `needle` first sits in `haystack`.
fn find(haystack: &[u8], needle: &Vec<u8>) -> (at: Option<usize>)
    requires
        needle@.len() > 0,
    ensures
        match at {
            Some(i) => find_spec(haystack@, needle@) == Some(i as nat),
            None => find_spec(haystack@, needle@) is None,
        },
{
    if needle.len() > haystack.len() {
        return None;
    }
    let limit = haystack.len() - needle.len();
    let mut i: usize = 0;
    while i <= limit
        invariant
            needle@.len() > 0,
            limit + needle.len() == haystack.len(),
            i <= limit + 1,
            find_spec(haystack@, needle@) == find_from(haystack@, needle@, i as nat),
        decreases limit + 1 - i,
    {
        let mut j: usize = 0;
        let mut same = true;
        while j < needle.len()
            invariant
                i <= limit,
                limit + needle.len() == haystack.len(),
                j <= needle@.len(),
                same == (forall|k: int| 0 <= k < j ==> haystack@[i + k] == needle@[k]),
            decreases needle.len() - j,
        {
            if haystack[i + j] != needle[j] {
                same = false;
            }
            j += 1;
        }
        if same {
            assert(haystack@.subrange(i as int, i + needle@.len()) =~= needle@);
            return Some(i);
        }
        proof {
            let k = choose|k: int| 0 <= k < needle@.len() && haystack@[i + k] != needle@[k];
            assert(haystack@.subrange(i as int, i + needle@.len())[k] != needle@[k]);
        }
        i += 1;
    }
    None
}

/// Where the body that starts at `start` ends, as `body_end`.
fn body_end_of(r: &[u8], start: usize) -> (end: Option<usize>)
    ensures
        match end {
            Some(e) => body_end(r@, start as nat) == Some(e as nat) && start <= e < r@.len(),
            None => body_end(r@, start as nat) is None,
        },
    decreases r.len() - start,
{
    if start >= r.len() {
        None
    } else if !(0x20 <= r[start] && r[start] <= 0x3f) {
        Some(start)
    } else {
        body_end_of(r, start + 1)
    }
}

/// The parameters of the first `CSI` sequence in `reply` that ends in
/// `final_byte`: everything between `ESC [` and that byte.
///
/// A sequence runs over parameter bytes (`0x30..=0x3f`) and intermediates
/// (`0x20..=0x2f`); the first byte outside both ends it and says which
/// sequence it was. One that ends in another byte is stepped over, so the
/// answers can be picked out of a reply that holds several.
pub fn csi_params(reply: &[u8], final_byte: u8) -> (params: Option<&[u8]>)
    ensures
        match params {
            Some(p) => csi_params_spec(reply@, final_byte) == Some(p@),
            None => csi_params_spec(reply@, final_byte) is None,
        },
{
    let opener: Vec<u8> = vec![0x1bu8, 0x5bu8];
    assert(opener@ =~= csi_opener());
    let mut at: usize = 0;
    while at <= reply.len()
        invariant
            opener@ == csi_opener(),
            csi_from(reply@, final_byte, 0) == csi_from(reply@, final_byte, at as nat),
        decreases reply.len() + 1 - at,
    {
        let rest = &reply[at..reply.len()];
        match find(rest, &opener) {
            None => {
                return None;
            },
            Some(found) => {
                proof {
                    let rs = reply@.subrange(at as int, reply@.len() as int);
                    assert(found + 2 <= rs.len()) by {
                        let f = find_spec(rs, csi_opener());
                        lemma_found_fits(rs, csi_opener(), 0);
                    }
                }
                let start = at + found + 2;
                match body_end_of(reply, start) {
                    None => {
                        return None;
                    },
                    Some(end) => {
                        if reply[end] == final_byte {
                            return Some(&reply[start..end]);
                        }
                        at = end + 1;
                    },
                }
            },
        }
    }
    None
}

proof fn lemma_found_fits(hay: Seq<u8>, needle: Seq<u8>, i: nat)
    ensures
        match find_from(hay, needle, i) {
            Some(f) => f + needle.len() <= hay.len() && i <= f,
            None => true,
        },
    decreases hay.len() + 1 - i,
{
    if i + needle.len() <= hay.len() && !sits_at(hay, needle, i as int) {
        lemma_found_fits(hay, needle, i + 1);
    }
}

/// The body of the first APC sequence in `reply`: what sits between `ESC _ G`
/// and the `ESC \` closing it.
pub fn apc_body(reply: &[u8]) -> (body: Option<&[u8]>)
    ensures
        match body {
            Some(b) => apc_body_spec(reply@) == Some(b@),
            None => apc_body_spec(reply@) is None,
        },
{
    let opener: Vec<u8> = vec![0x1bu8, 0x5fu8, 0x47u8];
    let closer: Vec<u8> = vec![0x1bu8, 0x5cu8];
    assert(opener@ =~= apc_opener());
    assert(closer@ =~= string_terminator());
    match find(reply, &opener) {
        None => None,
        Some(i) => {
            proof {
                lemma_found_fits(reply@, apc_opener(), 0);
                assert(apc_opener().len() == 3);
            }
            let n = reply.len();
            let rest = &reply[i + 3..n];
            match find(rest, &closer) {
                None => None,
                Some(end) => {
                    proof {
                        lemma_found_fits(rest@, string_terminator(), 0);
                        assert(string_terminator().len() == 2);
                    }
                    Some(&rest[0..end])
                },
            }
        },
    }
}

/// Whether the kitty query came back with an `OK`.
pub fn kitty(reply: &[u8]) -> (ok: bool)
    ensures
        ok == kitty_spec(reply@),
{
    match apc_body(reply) {
        None => false,
        Some(body) => {
            let n = body.len();
            if n < 3 {
                return false;
            }
            let ends = body[n - 3] == 0x3b && body[n - 2] == 0x4f && body[n - 1] == 0x4b;
            proof {
                let tail = body@.subrange(n - 3, n as int);
                if ends {
                    assert(tail =~= seq![0x3bu8, 0x4fu8, 0x4bu8]);
                } else {
                    assert(tail != seq![0x3bu8, 0x4fu8, 0x4bu8] || tail[0] != 0x3b || tail[1] != 0x4f
                        || tail[2] != 0x4b);
                }
            }
            ends
        },
    }
}

fn parse_digits(d: &[u8]) -> (n: Option<u16>)
    ensures
        n == digits_number(d@),
{
    if d.len() == 0 {
        return None;
    }
    let mut value: u32 = 0;
    let mut i: usize = 0;
    while i < d.len()
        invariant
            i <= d@.len(),
            d@.len() > 0,
            forall|k: int| 0 <= k < i ==> is_digit(#[trigger] d@[k]),
            value == digits_value(d@.subrange(0, i as int)),
            value <= u16::MAX,
        decreases d.len() - i,
    {
        let b = d[i];
        if !(0x30 <= b && b <= 0x39) {
            assert(!is_digit(d@[i as int]));
            return None;
        }
        assert(d@.subrange(0, i + 1).drop_last() =~= d@.subrange(0, i as int));
        let next = value * 10 + ((b - 0x30) as u32);
        if next > 65535 {
            proof {
                if forall|k: int| 0 <= k < d@.len() ==> is_digit(#[trigger] d@[k]) {
                    lemma_digits_grow(d@, (i + 1) as nat);
                }
            }
            return None;
        }
        value = next;
        i += 1;
    }
    assert(d@.subrange(0, d@.len() as int) =~= d@);
    Some(value as u16)
}

/// A decimal parameter, or `None` where it is empty or not a number: what
/// `str::parse::<u16>` makes of the bytes.
pub fn number(bytes: &[u8]) -> (n: Option<u16>)
    ensures
        n == number_spec(bytes@),
{
    if bytes.len() > 0 && bytes[0] == 0x2b {
        let rest = &bytes[1..bytes.len()];
        assert(rest@ =~= bytes@.drop_first());
        parse_digits(rest)
    } else {
        parse_digits(bytes)
    }
}

proof fn lemma_digits_grow(d: Seq<u8>, n: nat)
    requires
        n <= d.len(),
        forall|i: int| 0 <= i < d.len() ==> is_digit(#[trigger] d[i]),
    ensures
        digits_value(d.subrange(0, n as int)) <= digits_value(d),
    decreases d.len(),
{
    if n < d.len() {
        assert(d.drop_last().subrange(0, n as int) =~= d.subrange(0, n as int));
        lemma_digits_grow(d.drop_last(), n);
    } else {
        assert(d.subrange(0, n as int) =~= d);
    }
}

/// The pieces `bytes` falls into at each `;`.
fn split_on_semicolons(bytes: &[u8]) -> (pieces: Vec<Vec<u8>>)
    ensures
        pieces@.map_values(|p: Vec<u8>| p@) == split_params(bytes@),
{
    let mut done: Vec<Vec<u8>> = Vec::new();
    let mut current: Vec<u8> = Vec::new();
    let mut i: usize = 0;
    while i < bytes.len()
        invariant
            i <= bytes@.len(),
            (done@.map_values(|p: Vec<u8>| p@), current@) == split_read(bytes@.subrange(0, i as int)),
        decreases bytes.len() - i,
    {
        assert(bytes@.subrange(0, i + 1).drop_last() =~= bytes@.subrange(0, i as int));
        if bytes[i] == 0x3b {
            let mut piece: Vec<u8> = Vec::new();
            std::mem::swap(&mut piece, &mut current);
            let ghost before = done@;
            done.push(piece);
            assert(done@.map_values(|p: Vec<u8>| p@) =~= before.map_values(|p: Vec<u8>| p@).push(
                piece@,
            ));
        } else {
            current.push(bytes[i]);
        }
        i += 1;
    }
    assert(bytes@.subrange(0, bytes@.len() as int) =~= bytes@);
    let ghost before = done@;
    done.push(current);
    assert(done@.map_values(|p: Vec<u8>| p@) =~= before.map_values(|p: Vec<u8>| p@).push(current@));
    done
}

/// The cell size out of a `CSI 6 ; height ; width t` reply, which puts the
/// height first. A zero in either is a terminal reporting that it does not
/// know, and is turned away as no answer at all.
pub fn cell_size(reply: &[u8]) -> (cell: Option<CellSize>)
    ensures
        cell == cell_size_spec(reply@),
        cell matches Some(c) ==> c.width != 0 && c.height != 0,
{
    let params = match csi_params(reply, WINDOW_OP) {
        Some(p) => p,
        None => {
            return None;
        },
    };
    let pieces = split_on_semicolons(params);
    assert(pieces@.len() == pieces@.map_values(|p: Vec<u8>| p@).len());
    if pieces.len() < 3 {
        return None;
    }
    assert(pieces@[0]@ == split_params(params@)[0]);
    assert(pieces@[1]@ == split_params(params@)[1]);
    assert(pieces@[2]@ == split_params(params@)[2]);
    let lead = &pieces[0];
    if !(lead.len() == 1 && lead[0] == 0x36) {
        assert(lead@ != seq![0x36u8]);
        return None;
    }
    assert(lead@ =~= seq![0x36u8]);
    let height = match number(pieces[1].as_slice()) {
        Some(h) => h,
        None => {
            return None;
        },
    };
    let width = match number(pieces[2].as_slice()) {
        Some(w) => w,
        None => {
            return None;
        },
    };
    if height == 0 || width == 0 {
        return None;
    }
    Some(CellSize { width, height })
}

/// What `reply` says the terminal can do.
pub open spec fn capabilities_of(reply: Seq<u8>) -> Capabilities {
    Capabilities {
        protocol: if kitty_spec(reply) { Some(Protocol::Kitty) } else { None },
        cell: cell_size_spec(reply),
    }
}

impl Capabilities {
    /// Reads everything the terminal said out of one buffer.
    pub fn from_reply(reply: &[u8]) -> (c: Self)
        ensures
            c == capabilities_of(reply@),
    {
        Capabilities {
            protocol: if kitty(reply) { Some(Protocol::Kitty) } else { None },
            cell: cell_size(reply),
        }
    }

    /// What it takes to place a picture, or `None` where half blocks are the
    /// answer: a protocol without a cell size cannot keep a picture's shape,
    /// and a cell size without a protocol has nothing to lay out.
    pub fn graphics(self) -> (g: Option<Graphics>)
        ensures
            match g {
                Some(g) => self.protocol == Some(g.protocol) && self.cell == Some(g.cell),
                None => self.protocol is None || self.cell is None,
            },
    {
        match (self.protocol, self.cell) {
            (Some(protocol), Some(cell)) => Some(Graphics { protocol, cell }),
            _ => None,
        }
    }
}

} // verus!
