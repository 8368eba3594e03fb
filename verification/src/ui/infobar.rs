//! The row above the key bar: the state of the focused tab and of the
//! background worker, as segments separated by ` | `.
//!
//! Segments are laid out in the order `segments` gives them, and the first one
//! that does not fit ends the row: it and everything after it are left out. So
//! the order is also the priority: what a stalled copy is doing matters more
//! than how many items are marked.

use vstd::prelude::*;

use crate::keys::{binding_name, KeyBinding};
use crate::text::{decimal_of, push_decimal_wide, push_str, string_of};
use crate::ui::label::{clip, clip_spec};
use crate::ui::toast::{display_width, display_width_of};

verus! {

/// Drawn between two segments, never before the first or after the last.
pub const SEPARATOR: &'static str = " | ";

/// Longest a file name may be drawn before it is clipped, so a deep name
/// cannot push the counts off the row.
pub const NAME_WIDTH: usize = 24;

/// Follows the cancel key.
pub const CANCEL_LABEL: &'static str = " cancel";

/// How a piece of the row is drawn.
#[derive(Clone, Copy, Debug, PartialEq, Eq)]
pub enum Paint {
    /// The spinner and the filled part of the bar.
    Accent,
    /// The part of the bar still to fill.
    Faint,
    /// Counts and keys.
    Strong,
    /// Names and hints.
    Quiet,
    /// The separator.
    Plain,
}

/// One run of text drawn one way.
#[derive(Clone, Debug)]
pub struct Piece {
    pub text: String,
    pub paint: Paint,
}

/// A piece as the contracts see it.
pub open spec fn piece_view(p: Piece) -> (Seq<char>, Paint) {
    (p.text@, p.paint)
}

/// What the caller has already worked out about the running job. The bar
/// itself is measured in floating point where the counters live, so it comes
/// in drawn: its filled half, its unfilled half, the percentage, and whether
/// it is full.
#[derive(Clone, Debug)]
pub struct ProgressView {
    pub filled: String,
    pub unfilled: String,
    pub percent: String,
    pub full: bool,
    pub current: String,
    pub done: usize,
    pub total: usize,
}

/// The bar's state: what is marked and queued, the running job if there is
/// one, the key that cancels it, and the tick that turns the spinner.
#[derive(Clone, Debug)]
pub struct InfoBar {
    pub marked: usize,
    pub queued: usize,
    pub progress: Option<ProgressView>,
    pub cancel_key: Option<KeyBinding>,
    pub tick: u64,
}

/// The frames of the spinner. One frame per tick of the main loop: it turns
/// whether or not the bar moves, which is the whole point, since a single huge
/// file leaves the bar still and only this says the copy is alive.
pub open spec fn spinner_frame(i: int) -> Seq<char> {
    if i == 0 {
        seq!['\u{280b}']
    } else if i == 1 {
        seq!['\u{2819}']
    } else if i == 2 {
        seq!['\u{2839}']
    } else if i == 3 {
        seq!['\u{2838}']
    } else if i == 4 {
        seq!['\u{283c}']
    } else if i == 5 {
        seq!['\u{2834}']
    } else if i == 6 {
        seq!['\u{2826}']
    } else {
        seq!['\u{2827}']
    }
}

pub type PieceView = (Seq<char>, Paint);

/// The segments of the running job: the bar, the name being worked on when
/// there is one, and the count of items.
pub open spec fn progress_segments(p: ProgressView, tick: u64) -> Seq<Seq<PieceView>> {
    let bar = seq![
        (spinner_frame((tick % 8) as int), Paint::Accent),
        (seq![' '], Paint::Plain),
        (p.filled@, Paint::Accent),
        (p.unfilled@, Paint::Faint),
        (p.percent@, Paint::Strong)
    ];
    let name: Seq<Seq<PieceView>> = if p.current@.len() > 0 {
        seq![seq![(clip_spec(p.current@, NAME_WIDTH as nat), Paint::Quiet)]]
    } else {
        Seq::empty()
    };
    seq![bar] + name + seq![seq![(decimal_of(p.done as nat) + " / "@ + decimal_of(p.total as nat), Paint::Strong)]]
}

/// The segments of the running job, if there is one.
pub open spec fn job_segments(bar: InfoBar) -> Seq<Seq<PieceView>> {
    match bar.progress {
        Some(p) => progress_segments(p, bar.tick),
        None => Seq::empty(),
    }
}

/// The segments in the order they are drawn, most important first. A segment
/// with nothing to report is left out, so an idle bar is empty. The queue
/// counts the running job too, so only what waits behind it is reported; the
/// cancel hint comes last, so a narrow row drops it before any count.
pub open spec fn segments_spec(bar: InfoBar) -> Seq<Seq<PieceView>> {
    let job = match bar.progress {
        Some(p) => progress_segments(p, bar.tick),
        None => Seq::empty(),
    };
    let marked: Seq<Seq<PieceView>> = if bar.marked > 0 {
        seq![seq![(decimal_of(bar.marked as nat) + " marked"@, Paint::Strong)]]
    } else {
        Seq::empty()
    };
    let queued: Seq<Seq<PieceView>> = if bar.queued > 1 {
        seq![seq![(decimal_of((bar.queued - 1) as nat) + " queued"@, Paint::Quiet)]]
    } else {
        Seq::empty()
    };
    let cancel: Seq<Seq<PieceView>> = match (bar.progress, bar.cancel_key) {
        (Some(p), Some(key)) => if !p.full {
            seq![seq![(binding_name(key), Paint::Strong), (CANCEL_LABEL@, Paint::Quiet)]]
        } else {
            Seq::empty()
        },
        _ => Seq::empty(),
    };
    job + marked + queued + cancel
}

/// The columns a segment takes.
pub open spec fn segment_width(segment: Seq<PieceView>) -> nat
    decreases segment.len(),
{
    if segment.len() == 0 {
        0
    } else {
        segment_width(segment.drop_last()) + display_width_of(segment.last().0) as nat
    }
}

/// What the row draws of `segments` once `drawn` of them are in, taking
/// `used` columns of `width`: each goes in behind a separator while it fits,
/// and the first that does not ends the row.
pub open spec fn laid_out(segments: Seq<Seq<PieceView>>, drawn: nat, used: nat, width: nat) -> Seq<PieceView>
    decreases segments.len(),
{
    if segments.len() == 0 {
        Seq::empty()
    } else {
        let sep: nat = if drawn == 0 { 0 } else { display_width_of(SEPARATOR@) as nat };
        let w = segment_width(segments[0]);
        if used + sep + w > width {
            Seq::empty()
        } else {
            let lead: Seq<PieceView> = if drawn == 0 { Seq::empty() } else { seq![(SEPARATOR@, Paint::Plain)] };
            lead + segments[0] + laid_out(segments.drop_first(), drawn + 1, used + sep + w, width)
        }
    }
}

/// The width of two runs of pieces put one after the other.
proof fn segment_width_adds(a: Seq<PieceView>, b: Seq<PieceView>)
    ensures
        segment_width(a + b) == segment_width(a) + segment_width(b),
    decreases b.len(),
{
    if b.len() == 0 {
        assert(a + b =~= a);
    } else {
        assert((a + b).drop_last() =~= a + b.drop_last());
        segment_width_adds(a, b.drop_last());
    }
}

/// What is laid out behind `used` columns takes no more than the rest.
proof fn laid_out_within(segments: Seq<Seq<PieceView>>, drawn: nat, used: nat, width: nat)
    requires
        used <= width,
    ensures
        used + segment_width(laid_out(segments, drawn, used, width)) <= width,
    decreases segments.len(),
{
    if segments.len() > 0 {
        let sep: nat = if drawn == 0 { 0 } else { display_width_of(SEPARATOR@) as nat };
        let w = segment_width(segments[0]);
        if used + sep + w <= width {
            let lead: Seq<PieceView> = if drawn == 0 { Seq::empty() } else { seq![(SEPARATOR@, Paint::Plain)] };
            let rest = laid_out(segments.drop_first(), drawn + 1, used + sep + w, width);
            laid_out_within(segments.drop_first(), drawn + 1, used + sep + w, width);
            segment_width_adds(lead + segments[0], rest);
            segment_width_adds(lead, segments[0]);
            assert(segment_width(Seq::<PieceView>::empty()) == 0);
            if drawn != 0 {
                assert(lead.drop_last() =~= Seq::<PieceView>::empty());
                assert(lead.last() == (SEPARATOR@, Paint::Plain));
            }
            assert(segment_width(lead) == sep);
        }
    }
}

/// The bar never draws past the width it is given: whatever segments it is
/// handed, what is laid out fits `width` columns.
pub proof fn laid_out_fits(segments: Seq<Seq<PieceView>>, width: nat)
    ensures
        segment_width(laid_out(segments, 0, 0, width)) <= width,
{
    laid_out_within(segments, 0, 0, width);
}

/// Pieces as the contracts see them.
pub open spec fn pieces_of(s: Seq<Piece>) -> Seq<PieceView> {
    s.map_values(|p: Piece| piece_view(p))
}

/// Segments as the contracts see them.
pub open spec fn segments_of(v: Seq<Vec<Piece>>) -> Seq<Seq<PieceView>> {
    v.map_values(|s: Vec<Piece>| pieces_of(s@))
}

/// One piece.
fn piece(text: String, paint: Paint) -> (p: Piece)
    ensures
        piece_view(p) == (text@, paint),
{
    Piece { text, paint }
}

/// A copy of `p`.
fn copy_of(p: &Piece) -> (c: Piece)
    ensures
        piece_view(c) == piece_view(*p),
{
    Piece { text: p.text.clone(), paint: p.paint }
}

/// The spinner's frame for `tick`.
fn spinner(tick: u64) -> (frame: String)
    ensures
        frame@ == spinner_frame((tick % 8) as int),
{
    let c = match tick % 8 {
        0 => '\u{280b}',
        1 => '\u{2819}',
        2 => '\u{2839}',
        3 => '\u{2838}',
        4 => '\u{283c}',
        5 => '\u{2834}',
        6 => '\u{2826}',
        _ => '\u{2827}',
    };
    let v = vec![c];
    string_of(v.as_slice())
}

/// A count followed by `words`.
fn counted(n: usize, words: &str) -> (s: String)
    ensures
        s@ == decimal_of(n as nat) + words@,
{
    let mut out: Vec<char> = Vec::new();
    push_decimal_wide(&mut out, n as u128);
    push_str(&mut out, words);
    string_of(out.as_slice())
}

impl InfoBar {
    /// An idle bar: nothing marked, nothing queued, nothing running.
    pub fn new() -> (b: Self)
        ensures
            b.marked == 0 && b.queued == 0 && b.progress is None && b.cancel_key is None && b.tick == 0,
    {
        InfoBar { marked: 0, queued: 0, progress: None, cancel_key: None, tick: 0 }
    }

    pub fn marked(self, count: usize) -> (b: Self)
        ensures
            b == (InfoBar { marked: count, ..self }),
    {
        InfoBar { marked: count, ..self }
    }

    pub fn queued(self, count: usize) -> (b: Self)
        ensures
            b == (InfoBar { queued: count, ..self }),
    {
        InfoBar { queued: count, ..self }
    }

    pub fn progress(self, progress: Option<ProgressView>) -> (b: Self)
        ensures
            b == (InfoBar { progress, ..self }),
    {
        InfoBar { progress, ..self }
    }

    pub fn cancel_key(self, key: Option<KeyBinding>) -> (b: Self)
        ensures
            b == (InfoBar { cancel_key: key, ..self }),
    {
        InfoBar { cancel_key: key, ..self }
    }

    pub fn tick(self, tick: u64) -> (b: Self)
        ensures
            b == (InfoBar { tick, ..self }),
    {
        InfoBar { tick, ..self }
    }

    /// The segments in the order they are drawn, most important first.
    pub fn segments(&self) -> (segments: Vec<Vec<Piece>>)
        ensures
            segments_of(segments@) == segments_spec(*self),
    {
        let mut segments: Vec<Vec<Piece>> = Vec::new();
        let ghost job: Seq<Seq<PieceView>> = job_segments(*self);
        match &self.progress {
            Some(p) => {
                let space = string_of(vec![' '].as_slice());
                assert(space@ =~= seq![' ']);
                let bar = vec![
                    piece(spinner(self.tick), Paint::Accent),
                    piece(space, Paint::Plain),
                    piece(p.filled.clone(), Paint::Accent),
                    piece(p.unfilled.clone(), Paint::Faint),
                    piece(p.percent.clone(), Paint::Strong),
                ];
                assert(pieces_of(bar@) =~= progress_segments(*p, self.tick)[0]);
                let ghost g0 = segments@;
                segments.push(bar);
                assert(segments_of(segments@) =~= segments_of(g0).push(pieces_of(bar@)));
                if crate::text::chars_of(p.current.as_str()).len() > 0 {
                    let name = vec![piece(clip(p.current.as_str(), NAME_WIDTH), Paint::Quiet)];
                    assert(pieces_of(name@) =~= progress_segments(*p, self.tick)[1]);
                    let ghost g1 = segments@;
                    segments.push(name);
                    assert(segments_of(segments@) =~= segments_of(g1).push(pieces_of(name@)));
                }
                let mut count: Vec<char> = Vec::new();
                push_decimal_wide(&mut count, p.done as u128);
                push_str(&mut count, " / ");
                push_decimal_wide(&mut count, p.total as u128);
                let items = vec![piece(string_of(count.as_slice()), Paint::Strong)];
                let ghost g2 = segments@;
                segments.push(items);
                assert(segments_of(segments@) =~= segments_of(g2).push(pieces_of(items@)));
                assert(job == progress_segments(*p, self.tick));
                assert(pieces_of(items@) =~= progress_segments(*p, self.tick).last());
                assert(segments_of(segments@) =~= job);
            },
            None => {
                assert(segments_of(segments@) =~= job);
            },
        }
        let ghost marked: Seq<Seq<PieceView>> = if self.marked > 0 {
            seq![seq![(decimal_of(self.marked as nat) + " marked"@, Paint::Strong)]]
        } else {
            Seq::empty()
        };
        if self.marked > 0 {
            let marked = vec![piece(counted(self.marked, " marked"), Paint::Strong)];
            assert(pieces_of(marked@) =~= seq![(decimal_of(self.marked as nat) + " marked"@, Paint::Strong)]);
            let ghost before = segments@;
            segments.push(marked);
            assert(segments_of(segments@) =~= segments_of(before).push(pieces_of(marked@)));
        }
        assert(segments_of(segments@) =~= job + marked);
        let ghost queued: Seq<Seq<PieceView>> = if self.queued > 1 {
            seq![seq![(decimal_of((self.queued - 1) as nat) + " queued"@, Paint::Quiet)]]
        } else {
            Seq::empty()
        };
        if self.queued > 1 {
            let queued = vec![piece(counted(self.queued - 1, " queued"), Paint::Quiet)];
            assert(pieces_of(queued@) =~= seq![(decimal_of((self.queued - 1) as nat) + " queued"@, Paint::Quiet)]);
            let ghost before = segments@;
            segments.push(queued);
            assert(segments_of(segments@) =~= segments_of(before).push(pieces_of(queued@)));
        }
        assert(segments_of(segments@) =~= job + marked + queued);
        match (&self.progress, &self.cancel_key) {
            (Some(p), Some(key)) => {
                if !p.full {
                    let label = string_of(crate::text::chars_of(CANCEL_LABEL).as_slice());
                    let hint = vec![piece(key.name(), Paint::Strong), piece(label, Paint::Quiet)];
                    assert(pieces_of(hint@) =~= seq![(binding_name(*key), Paint::Strong), (CANCEL_LABEL@, Paint::Quiet)]);
                    let ghost before = segments@;
                    segments.push(hint);
                    assert(segments_of(segments@) =~= segments_of(before).push(pieces_of(hint@)));
                }
            },
            _ => {},
        }
        assert(segments_of(segments@) =~= segments_spec(*self));
        segments
    }
}

/// The columns `segment` takes.
fn width_of(segment: &Vec<Piece>) -> (w: u128)
    ensures
        w == segment_width(pieces_of(segment@)),
        w <= segment@.len() * (usize::MAX as int),
{
    let ghost s = pieces_of(segment@);
    let n = segment.len();
    let mut w: u128 = 0;
    let mut i: usize = 0;
    while i < segment.len()
        invariant
            i <= segment@.len(),
            s == pieces_of(segment@),
            w == segment_width(s.take(i as int)),
            w <= i * (usize::MAX as int),
            n == segment@.len(),
        decreases segment.len() - i,
    {
        assert(s.take(i + 1).drop_last() =~= s.take(i as int));
        assert(w + usize::MAX <= (i + 1) * (usize::MAX as int) <= (usize::MAX as int) * (usize::MAX as int)) by (nonlinear_arith)
            requires
                w <= i * (usize::MAX as int),
                i < usize::MAX;
        let d = display_width(segment[i].text.as_str());
        w = w + d as u128;
        i += 1;
    }
    assert(s.take(s.len() as int) =~= s);
    w
}

/// Lays `segments` out in a row `width` columns wide: each one goes in behind
/// a separator while it fits, and the first that does not ends the row.
pub fn lay_out(segments: Vec<Vec<Piece>>, width: usize) -> (row: Vec<Piece>)
    ensures
        pieces_of(row@) == laid_out(
            segments_of(segments@), 0, 0, width as nat),
{
    let ghost all = segments_of(segments@);
    let sep_width = display_width(SEPARATOR) as u128;
    let mut row: Vec<Piece> = Vec::new();
    let mut used: u128 = 0;
    let mut i: usize = 0;
    assert(all.skip(0) =~= all);
    while i < segments.len()
        invariant
            i <= segments@.len(),
            all == segments_of(segments@),
            sep_width == display_width_of(SEPARATOR@),
            used <= width,
            laid_out(all, 0, 0, width as nat) == pieces_of(row@)
                + laid_out(all.skip(i as int), i as nat, used as nat, width as nat),
        decreases segments.len() - i,
    {
        assert(all.skip(i as int)[0] == all[i as int]);
        assert(all.skip(i as int).drop_first() =~= all.skip(i + 1));
        let sep: u128 = if i == 0 { 0 } else { sep_width };
        let w = width_of(&segments[i]);
        let pieces = segments[i].len();
        assert(w <= (usize::MAX as int) * (usize::MAX as int)) by (nonlinear_arith)
            requires
                w <= pieces * (usize::MAX as int),
                pieces <= usize::MAX;
        assert((usize::MAX as int) * (usize::MAX as int) + 2 * (usize::MAX as int) < 0x1_0000_0000_0000_0000_0000_0000_0000_0000) by (nonlinear_arith)
            requires
                usize::MAX <= 0xffff_ffff_ffff_ffff;
        if used + sep + w > width as u128 {
            assert(laid_out(all.skip(i as int), i as nat, used as nat, width as nat) =~= Seq::<PieceView>::empty());
            assert(pieces_of(row@) + Seq::<PieceView>::empty() =~= pieces_of(row@));
            return row;
        }
        let ghost before = pieces_of(row@);
        if i > 0 {
            row.push(piece(string_of(crate::text::chars_of(SEPARATOR).as_slice()), Paint::Plain));
        }
        let mut j: usize = 0;
        let ghost mid = pieces_of(row@);
        while j < segments[i].len()
            invariant
                j <= segments@[i as int]@.len(),
                i < segments@.len(),
                all == segments_of(segments@),
                pieces_of(row@) == mid + all[i as int].take(j as int),
            decreases segments@[i as int]@.len() - j,
        {
            let ghost prev = pieces_of(row@);
            row.push(copy_of(&segments[i][j]));
            assert(all[i as int].take(j + 1) =~= all[i as int].take(j as int).push(all[i as int][j as int]));
            assert(pieces_of(row@) =~= prev.push(all[i as int][j as int]));
            j += 1;
        }
        assert(all[i as int].take(all[i as int].len() as int) =~= all[i as int]);
        used = used + sep + w;
        i += 1;
    }
    assert(all.skip(i as int) =~= Seq::<Seq<PieceView>>::empty());
    assert(pieces_of(row@) + Seq::<PieceView>::empty() =~= pieces_of(row@));
    row
}

} // verus!
