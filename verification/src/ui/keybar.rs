//! The row at the bottom of the screen: the help key first, then every key of
//! the mode on screen that has a label on the bar.

use vstd::prelude::*;

use crate::keys::{binding_name, Binding, KeyBinding};
use crate::text::{chars_of, string_of};
use crate::ui::infobar::{piece_view, pieces_of, Paint, Piece, PieceView};

verus! {

/// Between two keys.
pub const SEPARATOR: &'static str = "  ";

/// Follows the help key.
pub const HELP_LABEL: &'static str = " Help";

/// What the bar draws for the first `n` of `bindings`, after `lead`: each
/// binding with a label goes in as its key, a blank and the label, with the
/// separator in front of it whenever something came before.
pub open spec fn bar_pieces<T>(bindings: Seq<Binding<T>>, n: int, lead: Seq<PieceView>) -> Seq<PieceView>
    decreases n,
{
    if n <= 0 {
        lead
    } else {
        let before = bar_pieces(bindings, n - 1, lead);
        match bindings[n - 1].bar {
            Some(label) => {
                let sep: Seq<PieceView> = if before.len() > 0 { seq![(SEPARATOR@, Paint::Plain)] } else { Seq::empty() };
                before + sep + seq![
                    (binding_name(bindings[n - 1].key), Paint::Strong),
                    (seq![' '], Paint::Plain),
                    (label@, Paint::Plain)
                ]
            },
            None => before,
        }
    }
}

/// What the bar draws: the help key when there is one, then the labelled
/// keys of `bindings` in order.
pub open spec fn keybar_spec<T>(bindings: Seq<Binding<T>>, help_key: Option<KeyBinding>) -> Seq<PieceView> {
    let lead: Seq<PieceView> = match help_key {
        Some(k) => seq![(binding_name(k), Paint::Strong), (HELP_LABEL@, Paint::Plain)],
        None => Seq::empty(),
    };
    bar_pieces(bindings, bindings.len() as int, lead)
}

/// A piece of text from a literal.
fn text_piece(s: &str, paint: Paint) -> (p: Piece)
    ensures
        piece_view(p) == (s@, paint),
{
    Piece { text: string_of(chars_of(s).as_slice()), paint }
}

/// The pieces of the bar for `bindings`, with `help_key` leading it.
pub fn keybar<T>(bindings: &[Binding<T>], help_key: Option<KeyBinding>) -> (row: Vec<Piece>)
    ensures
        pieces_of(row@) == keybar_spec(bindings@, help_key),
{
    let mut row: Vec<Piece> = Vec::new();
    match help_key {
        Some(k) => {
            row.push(Piece { text: k.name(), paint: Paint::Strong });
            row.push(text_piece(HELP_LABEL, Paint::Plain));
        },
        None => {},
    }
    let ghost lead = pieces_of(row@);
    proof {
        match help_key {
            Some(k) => assert(lead =~= seq![(binding_name(k), Paint::Strong), (HELP_LABEL@, Paint::Plain)]),
            None => assert(lead =~= Seq::<PieceView>::empty()),
        }
    }
    let mut i: usize = 0;
    while i < bindings.len()
        invariant
            i <= bindings@.len(),
            pieces_of(row@) == bar_pieces(bindings@, i as int, lead),
        decreases bindings.len() - i,
    {
        match bindings[i].bar {
            Some(label) => {
                let ghost before = row@;
                if row.len() > 0 {
                    row.push(text_piece(SEPARATOR, Paint::Plain));
                }
                let ghost mid = row@;
                let key = Piece { text: bindings[i].key.name(), paint: Paint::Strong };
                let blank = text_piece(" ", Paint::Plain);
                let named = text_piece(label, Paint::Plain);
                proof {
                    reveal_strlit(" ");
                }
                assert(piece_view(blank) == (seq![' '], Paint::Plain));
                row.push(key);
                row.push(blank);
                row.push(named);
                assert(pieces_of(row@) =~= pieces_of(mid) + seq![piece_view(key), piece_view(blank), piece_view(named)]);
                proof {
                    let sep: Seq<PieceView> = if pieces_of(before).len() > 0 { seq![(SEPARATOR@, Paint::Plain)] } else { Seq::empty() };
                    assert(pieces_of(row@) =~= pieces_of(before) + sep + seq![
                        (binding_name(bindings@[i as int].key), Paint::Strong),
                        (seq![' '], Paint::Plain),
                        (label@, Paint::Plain)
                    ]);
                }
            },
            None => {},
        }
        i += 1;
    }
    row
}

} // verus!
