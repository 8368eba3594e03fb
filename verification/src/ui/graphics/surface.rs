//! The pictures the terminal holds of its own, and the only place that writes
//! the sequences putting them there.
//!
//! A placement outlives the frame it was made in: the terminal keeps it and
//! goes on drawing it under whatever text arrives later, and the cells of a
//! picture never change as far as the frame knows. So the screen is
//! reconciled rather than drawn: what should be on it against what is. Two
//! passes wanting the same picture in the same place write nothing, which is
//! what keeps a bitmap from crossing sixty times a second.

use vstd::prelude::*;

use crate::fs::preview::Bitmap;
use crate::ui::geometry::Area;
use crate::ui::graphics::capabilities::{Capabilities, Graphics, Protocol};
use crate::ui::graphics::kitty::{ascii_of, forget, forget_all, place, place_spec};

verus! {

/// One picture where it stands: which image, over which cells.
#[derive(Clone, Copy, Debug, PartialEq, Eq, Structural)]
pub struct Placement {
    pub image: u64,
    pub area: Area,
}

/// The sequence that takes the picture on the screen back off it.
pub open spec fn forget_bytes() -> Seq<u8> {
    ascii_of("\x1b_Ga=d,d=I,i=1,q=2\x1b\\"@)
}

/// What reconciling writes, and what stands on the screen after it, when
/// `placed` stands there now and `wanted` is asked for: nothing when the two
/// are the same; otherwise the picture on the screen, if any, is taken off,
/// and the one wanted, if any, is put on.
pub open spec fn reconciled(placed: Option<Placement>, wanted: Option<(Placement, Bitmap)>) -> (Option<Placement>, Seq<u8>) {
    let desired = match wanted {
        Some(w) => Some(w.0),
        None => None,
    };
    if desired == placed {
        (placed, Seq::empty())
    } else {
        let off = if placed is Some { forget_bytes() } else { Seq::empty() };
        match wanted {
            Some(w) => (Some(w.0), off + place_spec(w.1, w.0.area)),
            None => (None, off),
        }
    }
}

/// What the screen holds of pictures, and what it can hold.
#[derive(Debug)]
pub struct Surface {
    graphics: Option<Graphics>,
    placed: Option<Placement>,
}

impl Surface {
    pub closed spec fn graphics_spec(&self) -> Option<Graphics> {
        self.graphics
    }

    pub closed spec fn placed_spec(&self) -> Option<Placement> {
        self.placed
    }

    /// A screen holding no picture, able to hold what `capabilities` say.
    pub fn new(capabilities: Capabilities) -> (s: Self)
        ensures
            s.graphics_spec() == (match (capabilities.protocol, capabilities.cell) {
                (Some(protocol), Some(cell)) => Some(Graphics { protocol, cell }),
                _ => None,
            }),
            s.placed_spec() is None,
    {
        Surface { graphics: capabilities.graphics(), placed: None }
    }

    /// What the terminal can draw pictures with, if anything.
    pub fn graphics(&self) -> (g: Option<Graphics>)
        ensures
            g == self.graphics_spec(),
    {
        self.graphics
    }

    /// Brings the screen to holding `wanted`, writing the sequences that take
    /// it there into `out`. A terminal that draws no pictures is written
    /// nothing, and so is one already holding what is wanted.
    pub fn reconcile(&mut self, wanted: Option<(Placement, &Bitmap)>, out: &mut Vec<u8>)
        requires
            wanted matches Some(w) ==> w.0.area.x < u16::MAX && w.0.area.y < u16::MAX,
        ensures
            final(self).graphics_spec() == old(self).graphics_spec(),
            old(self).graphics_spec() is None ==> final(self).placed_spec() == old(self).placed_spec()
                && final(out)@ == old(out)@,
            old(self).graphics_spec() is Some ==> {
                let w = match wanted {
                    Some(w) => Some((w.0, *w.1)),
                    None => None,
                };
                &&& final(self).placed_spec() == reconciled(old(self).placed_spec(), w).0
                &&& final(out)@ == old(out)@ + reconciled(old(self).placed_spec(), w).1
            },
    {
        match self.graphics {
            None => {},
            Some(graphics) => match graphics.protocol {
                Protocol::Kitty => self.reconcile_kitty(wanted, out),
            },
        }
    }

    /// Takes whatever picture is on the screen back off it.
    pub fn clear(&mut self, out: &mut Vec<u8>)
        ensures
            final(self).graphics_spec() == old(self).graphics_spec(),
            old(self).graphics_spec() is None ==> final(self).placed_spec() == old(self).placed_spec()
                && final(out)@ == old(out)@,
            old(self).graphics_spec() is Some ==> final(self).placed_spec() is None
                && final(out)@ == old(out)@ + reconciled(old(self).placed_spec(), None).1,
    {
        self.reconcile(None, out)
    }

    fn reconcile_kitty(&mut self, wanted: Option<(Placement, &Bitmap)>, out: &mut Vec<u8>)
        requires
            wanted matches Some(w) ==> w.0.area.x < u16::MAX && w.0.area.y < u16::MAX,
        ensures
            final(self).graphics_spec() == old(self).graphics_spec(),
            ({
                let w = match wanted {
                    Some(w) => Some((w.0, *w.1)),
                    None => None,
                };
                &&& final(self).placed_spec() == reconciled(old(self).placed_spec(), w).0
                &&& final(out)@ == old(out)@ + reconciled(old(self).placed_spec(), w).1
            }),
    {
        let desired = match &wanted {
            Some(w) => Some(w.0),
            None => None,
        };
        let same = match (desired, self.placed) {
            (None, None) => true,
            (Some(a), Some(b)) => a.image == b.image && a.area.x == b.area.x && a.area.y == b.area.y
                && a.area.width == b.area.width && a.area.height == b.area.height,
            _ => false,
        };
        if same {
            return;
        }
        let ghost start = out@;
        if self.placed.is_some() {
            self.placed = None;
            forget(out);
        }
        match wanted {
            Some((placement, bitmap)) => {
                place(bitmap, placement.area, out);
                self.placed = Some(placement);
            },
            None => {},
        }
    }
}

/// Takes every picture `protocol` put on the screen back off it, named or
/// not: what a caller reaches for when it cannot say what is there.
pub fn forget_everything(protocol: Protocol, out: &mut Vec<u8>)
    ensures
        final(out)@ == old(out)@ + ascii_of("\x1b_Ga=d,d=A,q=2\x1b\\"@),
{
    match protocol {
        Protocol::Kitty => forget_all(out),
    }
}

/// Asking twice for the same picture writes it once: the second pass finds
/// the screen already holding it and writes nothing.
pub proof fn reconciling_twice_writes_nothing_the_second_time(placed: Option<Placement>, wanted: Option<(Placement, Bitmap)>)
    ensures
        reconciled(reconciled(placed, wanted).0, wanted).1 == Seq::<u8>::empty(),
        reconciled(reconciled(placed, wanted).0, wanted).0 == reconciled(placed, wanted).0,
{
}

} // verus!
