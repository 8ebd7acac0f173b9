use embed_ui::arena::{Allocator, Arena};
use embed_ui::colors::Rgb666_Packed;
use embedded_graphics::pixelcolor::raw::{RawData, RawU24};

#[test]
fn new_scales_six_bit_channels() {
    let c = Rgb666_Packed::new(63, 1, 0);
    assert_eq!((c.red(), c.green(), c.blue()), (252, 4, 0));
    // Values past six bits wrap.
    let d = Rgb666_Packed::new(64, 65, 127);
    assert_eq!((d.red(), d.green(), d.blue()), (0, 4, 252));
}

#[test]
fn from_rgb888_drops_the_two_low_bits() {
    let c = Rgb666_Packed::from_rgb888(255, 130, 3);
    assert_eq!((c.red(), c.green(), c.blue()), (252, 128, 0));
}

#[test]
fn default_colour_is_black() {
    let c = Rgb666_Packed::default();
    assert_eq!((c.red(), c.green(), c.blue()), (0, 0, 0));
    assert_eq!(Rgb666_Packed::BYTES_PER_PIXEL, 3);
}

#[test]
fn into_raw_packs_red_green_blue() {
    let c = Rgb666_Packed::from_rgb888(0x12, 0x34, 0x56);
    assert_eq!(c.into_raw().into_inner(), 0x10_34_54);
}

#[test]
fn from_raw_unpacks_the_three_bytes() {
    let c = Rgb666_Packed::from_raw(RawU24::new(0xAC_CC_F0));
    assert_eq!((c.red(), c.green(), c.blue()), (0xAC, 0xCC, 0xF0));
    let d: Rgb666_Packed = RawU24::new(0x04_08_0C).into();
    assert_eq!((d.red(), d.green(), d.blue()), (4, 8, 12));
}

#[test]
fn from_raw_keeps_the_wire_format() {
    // The two low bits of each channel are cleared.
    let c = Rgb666_Packed::from_raw(RawU24::new(0xAB_CD_EF));
    assert_eq!((c.red(), c.green(), c.blue()), (0xA8, 0xCC, 0xEC));
    let d: Rgb666_Packed = RawU24::new(0x01_02_03).into();
    assert_eq!((d.red(), d.green(), d.blue()), (0, 0, 0));
    assert_eq!(d.into_raw().into_inner() & 0x03_03_03, 0);
}

#[test]
fn raw_round_trip() {
    let c = Rgb666_Packed::from_rgb888(200, 100, 40);
    assert_eq!(Rgb666_Packed::from_raw(c.into_raw()), c);
    let raw = RawU24::new(0x7C_00_FC);
    assert_eq!(Rgb666_Packed::from_raw(raw).into_raw(), raw);
}

#[test]
fn arena_reservations_are_aligned_and_disjoint() {
    let mut a: Arena<64> = Arena::new();
    assert_eq!(a.offset, 0);
    assert!(a.buffer.iter().all(|&b| b == 0));
    assert_eq!(a.allocate(3, 1), 0);
    assert_eq!(a.offset, 3);
    assert_eq!(a.allocate(4, 4), 4);
    assert_eq!(a.offset, 8);
    assert_eq!(a.allocate(1, 8), 8);
    assert_eq!(a.offset, 9);
    assert_eq!(a.allocate(2, 2), 10);
    assert_eq!(a.offset, 12);
}

#[test]
fn arena_refuses_what_does_not_fit() {
    let mut a: Arena<16> = Arena::new();
    assert!(a.can_alloc(16, 1));
    assert!(!a.can_alloc(17, 1));
    a.allocate(5, 1);
    assert!(a.can_alloc(8, 8));
    assert!(!a.can_alloc(9, 8));
    assert!(a.can_alloc(11, 1));
    assert!(!a.can_alloc(12, 1));
}
