//! A short message in a box of its own, gone after a while.

use std::time::{Duration, Instant};

use ratatui::text::Span;
use vstd::prelude::*;

use crate::text::{chars_of, split_white, string_of, white_words};
use crate::ui::geometry::Area;

verus! {

/// Widest a toast gets, borders included. A longer message wraps.
pub const MAX_WIDTH: u16 = 48;

/// Rows and columns the two opposite borders take together.
pub const BORDER: u16 = 2;

#[verifier::external_type_specification]
#[verifier::external_body]
pub struct ExInstant(Instant);

#[derive(Clone, Copy, Debug, PartialEq, Eq)]
pub enum ToastLevel {
    Info,
    Warning,
    Error,
}

/// How long, in nanoseconds, a toast of `level` stays up when it was created
/// without a duration of its own.
pub open spec fn lifetime_of(level: ToastLevel) -> u128 {
    match level {
        ToastLevel::Info => 3_000_000_000,
        ToastLevel::Warning => 5_000_000_000,
        ToastLevel::Error => 8_000_000_000,
    }
}

impl ToastLevel {
    /// How long, in nanoseconds, a toast of this level stays up when it was
    /// created without an explicit duration.
    pub fn lifetime(&self) -> (nanos: u128)
        ensures
            nanos == lifetime_of(*self),
    {
        match self {
            ToastLevel::Info => 3_000_000_000,
            ToastLevel::Warning => 5_000_000_000,
            ToastLevel::Error => 8_000_000_000,
        }
    }
}

/// The columns a terminal gives `s`, as ratatui measures a span holding it
/// with the Unicode width tables.
pub uninterp spec fn display_width_of(s: Seq<char>) -> usize;

/// Whether every character of `s` is printable ASCII, from the space to `~`.
pub open spec fn printable_ascii(s: Seq<char>) -> bool {
    forall|i: int| 0 <= i < s.len() ==> 0x20 <= (#[trigger] s[i] as int) <= 0x7e
}

/// `Span::raw(s).width()`: the Unicode display width of `s`. Claims that the
/// result is the one `display_width_of` names for `s`, and that a string of
/// printable ASCII takes one column per character: `unicode-width` counts
/// every character up to U+00A0 as one column, and only a line feed, which is
/// not printable, changes how the character before it counts.
#[verifier::external_body]
pub(crate) fn display_width(s: &str) -> (w: usize)
    ensures
        w == display_width_of(s@),
        printable_ascii(s@) ==> w == s@.len(),
{
    Span::raw(s).width()
}

/// `Instant::now()`. Nothing is claimed of the instant it gives.
#[verifier::external_body]
fn now() -> Instant {
    Instant::now()
}

/// `Instant::elapsed`: the time since `at`. Nothing is claimed of it.
#[verifier::external_body]
fn elapsed(at: &Instant) -> Duration {
    at.elapsed()
}

/// `Duration::as_nanos`: the whole of `d` in nanoseconds. Nothing is claimed
/// of the number, which is the duration's own.
#[verifier::external_body]
fn nanos(d: Duration) -> u128 {
    d.as_nanos()
}

#[derive(Debug)]
pub struct Toast {
    message: String,
    level: ToastLevel,
    created_at: Instant,
    duration: Option<u128>,
}

/// The state of splitting a word: the chunks cut so far, the chunk being
/// filled, and how wide it is.
pub type ChunkState = (Seq<Seq<char>>, Seq<char>, nat);

pub open spec fn chunk_step(st: ChunkState, c: char, width: nat) -> ChunkState {
    let w = display_width_of(seq![c]) as nat;
    if st.1.len() > 0 && st.2 + w > width {
        (st.0.push(st.1), seq![c], w)
    } else {
        (st.0, st.1.push(c), st.2 + w)
    }
}

pub open spec fn chunks_read(word: Seq<char>, width: nat) -> ChunkState
    decreases word.len(),
{
    if word.len() == 0 {
        (Seq::empty(), Seq::empty(), 0)
    } else {
        chunk_step(chunks_read(word.drop_last(), width), word.last(), width)
    }
}

/// `word` cut into pieces of at most `width` display columns, character by
/// character; a word that already fits comes back whole.
pub open spec fn split_word_spec(word: Seq<char>, width: nat) -> Seq<Seq<char>> {
    if display_width_of(word) <= width {
        seq![word]
    } else {
        let st = chunks_read(word, width);
        if st.1.len() > 0 { st.0.push(st.1) } else { st.0 }
    }
}

/// The state of wrapping: the lines done, the line being filled, its width.
pub type LineState = (Seq<Seq<char>>, Seq<char>, nat);

pub open spec fn line_step(st: LineState, chunk: Seq<char>, width: nat) -> LineState {
    let cw = display_width_of(chunk) as nat;
    let space: nat = if st.1.len() == 0 { 0 } else { 1 };
    if st.1.len() > 0 && st.2 + space + cw > width {
        (st.0.push(st.1), chunk, cw)
    } else if space == 1 {
        (st.0, st.1.push(' ') + chunk, st.2 + 1 + cw)
    } else {
        (st.0, st.1 + chunk, st.2 + cw)
    }
}

pub open spec fn chunks_fold(st: LineState, chunks: Seq<Seq<char>>, width: nat) -> LineState
    decreases chunks.len(),
{
    if chunks.len() == 0 {
        st
    } else {
        line_step(chunks_fold(st, chunks.drop_last(), width), chunks.last(), width)
    }
}

pub open spec fn words_fold(words: Seq<Seq<char>>, width: nat) -> LineState
    decreases words.len(),
{
    if words.len() == 0 {
        (Seq::empty(), Seq::empty(), 0)
    } else {
        chunks_fold(words_fold(words.drop_last(), width), split_word_spec(words.last(), width), width)
    }
}

/// `message` broken into lines of at most `width` display columns at spaces,
/// a word too long to ever fit split across lines by column: always at least
/// one line.
pub open spec fn wrap_spec(message: Seq<char>, width: nat) -> Seq<Seq<char>> {
    let st = words_fold(white_words(message), width);
    if st.1.len() > 0 || st.0.len() == 0 { st.0.push(st.1) } else { st.0 }
}

/// The columns left for text inside `width`: a `width` with no room for the
/// borders keeps all of them, so the result is never zero.
pub open spec fn inner_of(width: u16) -> u16 {
    if width <= BORDER {
        if width == 0 { 1 } else { width }
    } else {
        (width - BORDER) as u16
    }
}

/// The widest of `lines`, as a terminal shows them.
pub open spec fn longest_of(lines: Seq<Seq<char>>) -> nat
    decreases lines.len(),
{
    if lines.len() == 0 {
        0
    } else {
        let rest = longest_of(lines.drop_last());
        let w = display_width_of(lines.last()) as nat;
        if w > rest { w } else { rest }
    }
}

pub open spec fn min_u16(a: u16, b: u16) -> u16 {
    if a < b { a } else { b }
}

/// Appends `chunk` to the line being filled, as `line_step` does.
fn push_chunk(
    lines: &mut Vec<Vec<char>>,
    line: &mut Vec<char>,
    line_width: &mut u128,
    chunk: Vec<char>,
    chunk_width: usize,
    width: usize,
)
    requires
        *old(line_width) <= usize::MAX,
        old(line)@.len() == 0 ==> *old(line_width) == 0,
        chunk@.len() > 0,
        chunk_width == display_width_of(chunk@),
    ensures
        (final(lines)@.map_values(|l: Vec<char>| l@), final(line)@, *final(line_width) as nat)
            == line_step(
            (old(lines)@.map_values(|l: Vec<char>| l@), old(line)@, *old(line_width) as nat),
            chunk@,
            width as nat,
        ),
        *final(line_width) <= usize::MAX,
        final(line)@.len() > 0,
{
    let space: u128 = if line.len() == 0 { 0 } else { 1 };
    if line.len() > 0 && *line_width + space + (chunk_width as u128) > (width as u128) {
        let mut done: Vec<char> = Vec::new();
        std::mem::swap(&mut done, line);
        let ghost before = lines@;
        lines.push(done);
        assert(lines@.map_values(|l: Vec<char>| l@) =~= before.map_values(|l: Vec<char>| l@).push(
            done@,
        ));
        *line = chunk;
        *line_width = chunk_width as u128;
    } else {
        let ghost start = line@;
        if space == 1 {
            line.push(' ');
            *line_width = *line_width + 1;
        }
        let ghost mid = line@;
        let mut i: usize = 0;
        while i < chunk.len()
            invariant
                i <= chunk@.len(),
                line@ == mid + chunk@.subrange(0, i as int),
            decreases chunk.len() - i,
        {
            line.push(chunk[i]);
            i += 1;
        }
        assert(chunk@.subrange(0, chunk@.len() as int) =~= chunk@);
        *line_width = *line_width + (chunk_width as u128);
    }
}

impl Toast {
    pub closed spec fn message_spec(&self) -> Seq<char> {
        self.message@
    }

    pub closed spec fn level_spec(&self) -> ToastLevel {
        self.level
    }

    pub closed spec fn duration_spec(&self) -> Option<u128> {
        self.duration
    }

    /// How long, in nanoseconds, the toast stays up.
    pub open spec fn lifetime_spec(&self) -> u128 {
        match self.duration_spec() {
            Some(d) => d,
            None => lifetime_of(self.level_spec()),
        }
    }

    pub fn new(message: &str, level: ToastLevel, duration: Option<Duration>) -> (t: Self)
        ensures
            t.message_spec() == message@,
            t.level_spec() == level,
            t.duration_spec() is Some <==> duration is Some,
    {
        let duration = match duration {
            Some(d) => Some(nanos(d)),
            None => None,
        };
        Toast { message: string_of(chars_of(message).as_slice()), level, created_at: now(), duration }
    }

    /// How urgent the toast is, which is what it is drawn in.
    pub fn level(&self) -> (l: ToastLevel)
        ensures
            l == self.level_spec(),
    {
        self.level
    }

    /// Whether a toast that has been up for `elapsed` nanoseconds has
    /// outlived its duration, falling back to the duration of its level when
    /// it was created without one.
    pub fn expired_after(&self, elapsed: u128) -> (gone: bool)
        ensures
            gone == (elapsed >= self.lifetime_spec()),
    {
        let lifetime = match self.duration {
            Some(d) => d,
            None => self.level.lifetime(),
        };
        elapsed >= lifetime
    }

    /// Reports whether the toast has outlived its duration, falling back to
    /// the duration of its level when it was created without one. How long it
    /// has been up is the clock's to say, so a toast whose duration is zero
    /// is the only one known to be gone.
    pub fn is_expired(&self) -> (gone: bool)
        ensures
            self.duration_spec() == Some(0u128) ==> gone,
    {
        let up = nanos(elapsed(&self.created_at));
        self.expired_after(up)
    }

    /// The columns left for text inside `width`. A `width` with no room for the
    /// borders keeps all of them, so the result is never zero.
    pub fn inner(width: u16) -> (inner: u16)
        ensures
            inner == inner_of(width),
            inner >= 1,
    {
        match width.checked_sub(BORDER) {
            Some(0) | None => if width == 0 { 1 } else { width },
            Some(inner) => inner,
        }
    }

    /// Cuts `word` into pieces of at most `width` display columns. A word that
    /// already fits comes back whole.
    pub fn split_word(word: &Vec<char>, width: usize) -> (chunks: Vec<Vec<char>>)
        ensures
            chunks@.map_values(|c: Vec<char>| c@) == split_word_spec(word@, width as nat),
            word@.len() > 0 ==> forall|i: int| 0 <= i < chunks@.len() ==> #[trigger] chunks@[i]@.len() > 0,
    {
        let whole = string_of(word.as_slice());
        if display_width(whole.as_str()) <= width {
            let mut one: Vec<Vec<char>> = Vec::new();
            one.push(word.clone());
            assert(one@.map_values(|c: Vec<char>| c@) =~= seq![word@]);
            return one;
        }
        let mut chunks: Vec<Vec<char>> = Vec::new();
        let mut chunk: Vec<char> = Vec::new();
        let mut chunk_width: u128 = 0;
        let mut i: usize = 0;
        while i < word.len()
            invariant
                i <= word@.len(),
                (chunks@.map_values(|c: Vec<char>| c@), chunk@, chunk_width as nat) == chunks_read(
                    word@.subrange(0, i as int),
                    width as nat,
                ),
                chunk_width <= usize::MAX,
                chunk@.len() == 0 ==> chunk_width == 0,
                forall|j: int| 0 <= j < chunks@.len() ==> #[trigger] chunks@[j]@.len() > 0,
            decreases word.len() - i,
        {
            assert(word@.subrange(0, i + 1).drop_last() =~= word@.subrange(0, i as int));
            let c = word[i];
            let single = string_of(vec![c].as_slice());
            assert(single@ =~= seq![c]);
            let w = display_width(single.as_str());
            if chunk.len() > 0 && chunk_width + (w as u128) > (width as u128) {
                let mut done: Vec<char> = Vec::new();
                std::mem::swap(&mut done, &mut chunk);
                let ghost before = chunks@;
                chunks.push(done);
                assert(chunks@.map_values(|c: Vec<char>| c@) =~= before.map_values(|c: Vec<char>| c@).push(
                    done@,
                ));
                chunk.push(c);
                assert(chunk@ =~= seq![c]);
                chunk_width = w as u128;
            } else {
                chunk.push(c);
                chunk_width = chunk_width + (w as u128);
            }
            i += 1;
        }
        assert(word@.subrange(0, word@.len() as int) =~= word@);
        if chunk.len() > 0 {
            let ghost before = chunks@;
            chunks.push(chunk);
            assert(chunks@.map_values(|c: Vec<char>| c@) =~= before.map_values(|c: Vec<char>| c@).push(
                chunk@,
            ));
        }
        chunks
    }

    /// Breaks `message` into lines of at most `width` display columns, splitting
    /// at spaces. A word too long to ever fit is split across lines by column.
    /// Always returns at least one line.
    pub fn wrap(message: &str, width: usize) -> (lines: Vec<String>)
        ensures
            lines@.map_values(|l: String| l@) == wrap_spec(message@, width as nat),
            lines@.len() >= 1,
    {
        let chars = chars_of(message);
        let words = split_white(&chars);
        let mut lines: Vec<Vec<char>> = Vec::new();
        let mut line: Vec<char> = Vec::new();
        let mut line_width: u128 = 0;
        let mut k: usize = 0;
        while k < words.len()
            invariant
                k <= words@.len(),
                words@.map_values(|w: Vec<char>| w@) == white_words(message@),
                forall|i: int| 0 <= i < words@.len() ==> #[trigger] words@[i]@.len() > 0,
                (lines@.map_values(|l: Vec<char>| l@), line@, line_width as nat) == words_fold(
                    words@.map_values(|w: Vec<char>| w@).subrange(0, k as int),
                    width as nat,
                ),
                line_width <= usize::MAX,
                line@.len() == 0 ==> line_width == 0,
            decreases words.len() - k,
        {
            let ghost done_words = words@.map_values(|w: Vec<char>| w@).subrange(0, k as int);
            assert(words@.map_values(|w: Vec<char>| w@).subrange(0, k + 1).drop_last() =~= done_words);
            assert(words@.map_values(|w: Vec<char>| w@).subrange(0, k + 1).last() == words@[k as int]@);
            assert(words@[k as int]@.len() > 0);
            let pieces = Self::split_word(&words[k], width);
            let ghost start = (lines@.map_values(|l: Vec<char>| l@), line@, line_width as nat);
            let mut j: usize = 0;
            while j < pieces.len()
                invariant
                    j <= pieces@.len(),
                    forall|i: int| 0 <= i < pieces@.len() ==> #[trigger] pieces@[i]@.len() > 0,
                    (lines@.map_values(|l: Vec<char>| l@), line@, line_width as nat) == chunks_fold(
                        start,
                        pieces@.map_values(|c: Vec<char>| c@).subrange(0, j as int),
                        width as nat,
                    ),
                    line_width <= usize::MAX,
                    line@.len() == 0 ==> line_width == 0,
                decreases pieces.len() - j,
            {
                assert(pieces@.map_values(|c: Vec<char>| c@).subrange(0, j + 1).drop_last()
                    =~= pieces@.map_values(|c: Vec<char>| c@).subrange(0, j as int));
                assert(pieces@.map_values(|c: Vec<char>| c@).subrange(0, j + 1).last() == pieces@[j as int]@);
                assert(pieces@[j as int]@.len() > 0);
                let piece = pieces[j].clone();
                assert(piece@ == pieces@[j as int]@);
                let text = string_of(piece.as_slice());
                let piece_width = display_width(text.as_str());
                push_chunk(&mut lines, &mut line, &mut line_width, piece, piece_width, width);
                j += 1;
            }
            assert(pieces@.map_values(|c: Vec<char>| c@).subrange(0, pieces@.len() as int)
                =~= pieces@.map_values(|c: Vec<char>| c@));
            k += 1;
        }
        assert(words@.map_values(|w: Vec<char>| w@).subrange(0, words@.len() as int)
            =~= words@.map_values(|w: Vec<char>| w@));
        if line.len() > 0 || lines.len() == 0 {
            let ghost before = lines@;
            lines.push(line);
            assert(lines@.map_values(|l: Vec<char>| l@) =~= before.map_values(|l: Vec<char>| l@).push(
                line@,
            ));
        }
        let mut out: Vec<String> = Vec::new();
        let mut i: usize = 0;
        while i < lines.len()
            invariant
                i <= lines@.len(),
                out@.map_values(|l: String| l@) =~= lines@.map_values(|l: Vec<char>| l@).subrange(0, i as int),
            decreases lines.len() - i,
        {
            let ghost before = out@;
            out.push(string_of(lines[i].as_slice()));
            assert(out@.map_values(|l: String| l@) =~= before.map_values(|l: String| l@).push(lines@[i as int]@));
            i += 1;
        }
        assert(lines@.map_values(|l: Vec<char>| l@).subrange(0, lines@.len() as int)
            =~= lines@.map_values(|l: Vec<char>| l@));
        out
    }

    /// The message wrapped to the columns `width` leaves inside the borders.
    /// Both the size the caller lays out and the text drawn come from here, so
    /// they cannot disagree.
    pub fn lines(&self, width: u16) -> (lines: Vec<String>)
        ensures
            lines@.map_values(|l: String| l@) == wrap_spec(self.message_spec(), inner_of(width) as nat),
            lines@.len() >= 1,
    {
        Self::wrap(self.message.as_str(), Self::inner(width) as usize)
    }

    /// Columns the toast asks for, borders included, capped at `MAX_WIDTH` and
    /// at `available`. A message shorter than the cap gets a narrower toast.
    pub fn width(&self, available: u16) -> (w: u16)
        ensures
            ({
                let cap = min_u16(available, MAX_WIDTH);
                let wanted = longest_of(wrap_spec(self.message_spec(), inner_of(cap) as nat)) + BORDER;
                w == if wanted < cap { wanted as u16 } else { cap }
            }),
            w <= available,
            w <= MAX_WIDTH,
    {
        let cap = if available < MAX_WIDTH { available } else { MAX_WIDTH };
        let lines = self.lines(cap);
        let mut longest: usize = 0;
        let mut i: usize = 0;
        while i < lines.len()
            invariant
                i <= lines@.len(),
                longest == longest_of(lines@.map_values(|l: String| l@).subrange(0, i as int)),
            decreases lines.len() - i,
        {
            assert(lines@.map_values(|l: String| l@).subrange(0, i + 1).drop_last()
                =~= lines@.map_values(|l: String| l@).subrange(0, i as int));
            let w = display_width(lines[i].as_str());
            if w > longest {
                longest = w;
            }
            i += 1;
        }
        assert(lines@.map_values(|l: String| l@).subrange(0, lines@.len() as int)
            =~= lines@.map_values(|l: String| l@));
        let wanted: u128 = longest as u128 + BORDER as u128;
        if wanted < cap as u128 {
            wanted as u16
        } else {
            cap
        }
    }

    /// Rows the message needs at `width`, borders included.
    pub fn height(&self, width: u16) -> (h: u16)
        ensures
            h == (wrap_spec(self.message_spec(), inner_of(width) as nat).len() as u16).wrapping_add(
                BORDER,
            ),
    {
        let lines = self.lines(width);
        assert(lines@.len() == lines@.map_values(|l: String| l@).len());
        (lines.len() as u16).wrapping_add(BORDER)
    }
}

/// The column just right of `area`, as ratatui counts it, saturating.
pub open spec fn right_of(area: Area) -> int {
    if area.x + area.width > u16::MAX { u16::MAX as int } else { area.x + area.width }
}

/// The row just below `area`, as ratatui counts it, saturating.
pub open spec fn bottom_of(area: Area) -> int {
    if area.y + area.height > u16::MAX { u16::MAX as int } else { area.y + area.height }
}

/// Where toasts of `sizes` (width, height) go in `area`, from `offset` rows
/// above its bottom: each against the right edge, on top of the one before,
/// until one no longer fits, where the stack ends.
pub open spec fn stack_spec(sizes: Seq<(u16, u16)>, area: Area, offset: nat) -> Seq<Area>
    decreases sizes.len(),
{
    if sizes.len() == 0 || offset + sizes[0].1 > area.height {
        Seq::empty()
    } else {
        seq![
            Area {
                x: (right_of(area) - sizes[0].0) as u16,
                y: (bottom_of(area) - offset - sizes[0].1) as u16,
                width: sizes[0].0,
                height: sizes[0].1,
            },
        ] + stack_spec(sizes.drop_first(), area, (offset + sizes[0].1) as nat)
    }
}

/// Stacks toasts of `sizes` in the bottom right corner of `area`, the first
/// lowest, as many as fit whole.
pub fn stacked(sizes: &Vec<(u16, u16)>, area: Area) -> (rects: Vec<Area>)
    requires
        forall|i: int| 0 <= i < sizes@.len() ==> (#[trigger] sizes@[i]).0 <= area.width,
    ensures
        rects@ == stack_spec(sizes@, area, 0),
{
    let right: u16 = area.x.saturating_add(area.width);
    let bottom: u16 = area.y.saturating_add(area.height);
    let mut rects: Vec<Area> = Vec::new();
    let mut offset: u16 = 0;
    let mut i: usize = 0;
    assert(sizes@.skip(0) =~= sizes@);
    assert(rects@ + stack_spec(sizes@, area, 0) =~= stack_spec(sizes@, area, 0));
    while i < sizes.len()
        invariant
            i <= sizes@.len(),
            offset <= area.height,
            right == right_of(area),
            bottom == bottom_of(area),
            forall|k: int| 0 <= k < sizes@.len() ==> (#[trigger] sizes@[k]).0 <= area.width,
            stack_spec(sizes@, area, 0) == rects@ + stack_spec(sizes@.skip(i as int), area, offset as nat),
        decreases sizes.len() - i,
    {
        let (w, h) = sizes[i];
        assert(sizes@.skip(i as int)[0] == sizes@[i as int]);
        assert(sizes@.skip(i as int).drop_first() =~= sizes@.skip(i + 1));
        if offset as u32 + h as u32 > area.height as u32 {
            assert(rects@ + Seq::<Area>::empty() =~= rects@);
            return rects;
        }
        let r = Area { x: right - w, y: bottom - offset - h, width: w, height: h };
        let ghost before = rects@;
        rects.push(r);
        assert(rects@ + stack_spec(sizes@.skip(i + 1), area, (offset + h) as nat)
            =~= before + stack_spec(sizes@.skip(i as int), area, offset as nat));
        offset = offset + h;
        i += 1;
    }
    assert(sizes@.skip(i as int) =~= Seq::<(u16, u16)>::empty());
    assert(rects@ + Seq::<Area>::empty() =~= rects@);
    rects
}

} // verus!
