use mula::fs::preview::Bitmap;
use mula::ui::geometry::Area;
use mula::ui::graphics::capabilities::{Capabilities, CellSize, Protocol};
use mula::ui::graphics::surface::{forget_everything, Placement as Spot, Surface};
use mula::ui::icon::Rgb;
use mula::ui::preview::Placement;

fn kitty() -> Capabilities {
    Capabilities { protocol: Some(Protocol::Kitty), cell: Some(CellSize { width: 8, height: 16 }) }
}

fn bitmap() -> Bitmap {
    Bitmap::of(1, 1, vec![1, 2, 3, 255])
}

#[test]
fn the_same_picture_twice_is_written_once() {
    let mut surface = Surface::new(kitty());
    let bitmap = bitmap();
    let spot = Spot { image: 1, area: Area::new(0, 0, 4, 2) };
    let mut out = Vec::new();
    surface.reconcile(Some((spot, &bitmap)), &mut out);
    assert!(!out.is_empty());
    let mut again = Vec::new();
    surface.reconcile(Some((spot, &bitmap)), &mut again);
    assert!(again.is_empty());
}

#[test]
fn a_new_picture_takes_the_old_one_off_first() {
    let mut surface = Surface::new(kitty());
    let bitmap = bitmap();
    let mut out = Vec::new();
    surface.reconcile(Some((Spot { image: 1, area: Area::new(0, 0, 4, 2) }, &bitmap)), &mut out);
    let mut next = Vec::new();
    surface.reconcile(Some((Spot { image: 2, area: Area::new(0, 0, 4, 2) }, &bitmap)), &mut next);
    assert!(next.starts_with(b"\x1b_Ga=d,d=I,i=1,q=2\x1b\\"));
    let mut cleared = Vec::new();
    surface.clear(&mut cleared);
    assert_eq!(cleared, b"\x1b_Ga=d,d=I,i=1,q=2\x1b\\");
    let mut nothing = Vec::new();
    surface.clear(&mut nothing);
    assert!(nothing.is_empty());
}

#[test]
fn a_terminal_without_pictures_is_written_nothing() {
    let mut surface = Surface::new(Capabilities::default());
    let bitmap = bitmap();
    let mut out = Vec::new();
    surface.reconcile(Some((Spot { image: 1, area: Area::new(0, 0, 4, 2) }, &bitmap)), &mut out);
    assert!(out.is_empty());
    assert!(surface.graphics().is_none());
}

#[test]
fn forgetting_everything_names_no_picture() {
    let mut out = Vec::new();
    forget_everything(Protocol::Kitty, &mut out);
    assert_eq!(out, b"\x1b_Ga=d,d=A,q=2\x1b\\");
}

#[test]
fn a_grid_point_shows_the_average_of_its_box() {
    // Two pixels side by side, red and blue, drawn into one grid point.
    let bitmap = Bitmap::of(2, 1, vec![255, 0, 0, 255, 0, 0, 255, 255]);
    let placement = Placement { left: 0, top: 0, width: 1, height: 1 };
    assert_eq!(placement.sample(&bitmap, 0, 0), Some(Rgb { r: 127, g: 0, b: 127 }));
    // Outside the picture there is nothing to draw.
    assert_eq!(placement.sample(&bitmap, 1, 0), None);
}

#[test]
fn a_transparent_pixel_shows_nothing_and_a_faint_one_is_darkened() {
    let clear = Bitmap::of(1, 1, vec![255, 255, 255, 0x10]);
    let placement = Placement { left: 2, top: 2, width: 1, height: 1 };
    assert_eq!(placement.sample(&clear, 2, 2), None);
    let faint = Bitmap::of(1, 1, vec![255, 255, 255, 0x80]);
    assert_eq!(placement.sample(&faint, 2, 2), Some(Rgb { r: 128, g: 128, b: 128 }));
}
