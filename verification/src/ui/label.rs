//! Names as a panel shows them.

use vstd::prelude::*;

use crate::fs::directory::{file_name, file_name_of};
use crate::text::{chars_of, string_of};
use crate::ui::toast::{display_width, display_width_of};

verus! {

/// The last component of a path, or the whole path when it has none, which
/// is what the filesystem root is.
pub open spec fn name_of_spec(path: Seq<char>) -> Seq<char> {
    match file_name_of(path) {
        Some(name) => name,
        None => path,
    }
}

/// The last component of `path`, or the whole path when it has none, which
/// is what the filesystem root is.
pub fn name_of(path: &str) -> (name: String)
    ensures
        name@ == name_of_spec(path@),
{
    match file_name(path) {
        Some(n) => string_of(n.as_slice()),
        None => string_of(chars_of(path).as_slice()),
    }
}

/// The characters kept of `rest` when clipping, after `kept` that are `width`
/// columns wide: each goes in while it and the ellipsis still fit in `max`.
pub open spec fn clipped_from(rest: Seq<char>, kept: Seq<char>, width: nat, max: nat) -> Seq<char>
    decreases rest.len(),
{
    if rest.len() == 0 {
        kept
    } else {
        let w = display_width_of(seq![rest[0]]) as nat;
        if width + w + 1 > max {
            kept
        } else {
            clipped_from(rest.drop_first(), kept.push(rest[0]), width + w, max)
        }
    }
}

/// Text clipped to `max` columns, counting display width rather than bytes,
/// with the cut marked by an ellipsis that is itself one column wide.
pub open spec fn clip_spec(text: Seq<char>, max: nat) -> Seq<char> {
    if display_width_of(text) <= max {
        text
    } else {
        clipped_from(text, Seq::empty(), 0, max).push('\u{2026}')
    }
}

/// Clips text to `max` columns, counting display width rather than bytes, and
/// marks the cut with an ellipsis that is itself one column wide.
pub fn clip(text: &str, max: usize) -> (clipped: String)
    ensures
        clipped@ == clip_spec(text@, max as nat),
{
    let chars = chars_of(text);
    if display_width(text) <= max {
        return string_of(chars.as_slice());
    }
    let mut kept: Vec<char> = Vec::new();
    let mut width: u128 = 0;
    let mut i: usize = 0;
    let mut full = false;
    assert(chars@.skip(0) =~= chars@);
    while i < chars.len() && !full
        invariant
            i <= chars@.len(),
            chars@ == text@,
            width <= max,
            clipped_from(text@, Seq::empty(), 0, max as nat) == if full {
                kept@
            } else {
                clipped_from(chars@.skip(i as int), kept@, width as nat, max as nat)
            },
        decreases chars.len() - i + (if full { 0int } else { 1int }),
    {
        let c = chars[i];
        let one = string_of(vec![c].as_slice());
        assert(one@ =~= seq![c]);
        assert(chars@.skip(i as int)[0] == c);
        assert(chars@.skip(i as int).drop_first() =~= chars@.skip(i + 1));
        let w = display_width(one.as_str());
        if width + (w as u128) + 1 > (max as u128) {
            full = true;
        } else {
            kept.push(c);
            width = width + (w as u128);
            i += 1;
        }
    }
    proof {
        if !full {
            assert(chars@.skip(i as int) =~= Seq::<char>::empty());
        }
    }
    kept.push('\u{2026}');
    string_of(kept.as_slice())
}

} // verus!
