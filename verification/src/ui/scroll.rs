//! The one wording every overlay that scrolls uses to say where it is.

use vstd::prelude::*;

use crate::text::{decimal_of, push_decimal_wide, push_str, string_of};

verus! {

/// ` 1-20 of 29 ` while part of a list is off screen.
pub open spec fn position_text(first: nat, shown: nat, total: nat) -> Seq<char> {
    " "@ + decimal_of(first + 1) + "-"@ + decimal_of(first + shown) + " of "@ + decimal_of(total) + " "@
}

/// `1-20 of 29` while part of a list is off screen, and nothing at all while
/// every row of it fits.
pub fn scroll_position(first: usize, shown: usize, total: usize) -> (p: Option<String>)
    ensures
        shown >= total ==> p is None,
        shown < total ==> (p matches Some(text) && text@ == position_text(first as nat, shown as nat, total as nat)),
{
    if shown >= total {
        return None;
    }
    let mut out: Vec<char> = Vec::new();
    push_str(&mut out, " ");
    push_decimal_wide(&mut out, first as u128 + 1);
    push_str(&mut out, "-");
    push_decimal_wide(&mut out, first as u128 + shown as u128);
    push_str(&mut out, " of ");
    push_decimal_wide(&mut out, total as u128);
    push_str(&mut out, " ");
    Some(string_of(out.as_slice()))
}

} // verus!
