use vstd::prelude::*;

use embedded_graphics::pixelcolor::raw::{RawData, RawU24};

verus! {

#[verifier::external_type_specification]
#[verifier::external_body]
pub struct ExRawU24(RawU24);

/// The 24 bits that a `RawU24` holds.
pub uninterp spec fn raw_u24_bits(r: RawU24) -> u32;

/// `RawU24::new`: keeps the low 24 bits of `value`.
#[verifier::external_body]
pub fn raw_u24_new(value: u32) -> (r: RawU24)
    ensures
        raw_u24_bits(r) == value & 0xFF_FFFF,
{
    RawU24::new(value)
}

/// `RawData::into_inner` for `RawU24`: the stored bits, which every
/// constructor of the type masks to 24 bits.
#[verifier::external_body]
pub fn raw_u24_into_inner(r: RawU24) -> (v: u32)
    ensures
        v == raw_u24_bits(r),
        v <= 0xFF_FFFF,
{
    r.into_inner()
}

/// RGB666 color stored in ILI9488 wire format: 3 × u8, each channel
/// occupying bits [7:2] (i.e. 6-bit value already shifted left by 2).
#[allow(non_camel_case_types)]
#[derive(Clone, Copy, PartialEq, Eq, Debug, Structural)]
pub struct Rgb666_Packed {
    r: u8,
    g: u8,
    b: u8,
}

/// The wire bytes of a colour packed into 24 bits, red in the high byte.
pub open spec fn packed_bits(c: (u8, u8, u8)) -> u32 {
    ((c.0 as u32) << 16) | ((c.1 as u32) << 8) | (c.2 as u32)
}

/// The wire bytes that a 24-bit value holds, red in the high byte.
pub open spec fn unpacked_bytes(v: u32) -> (u8, u8, u8) {
    (((v >> 16) & 0xFF) as u8, ((v >> 8) & 0xFF) as u8, (v & 0xFF) as u8)
}

/// Each channel occupies bits [7:2]: its two low bits are clear.
pub open spec fn in_wire_format(c: (u8, u8, u8)) -> bool {
    c.0 & 3 == 0 && c.1 & 3 == 0 && c.2 & 3 == 0
}

/// The six high bits of each of the three channels of 24-bit pixel data.
pub const WIRE_MASK: u32 = 0xFC_FCFC;

impl View for Rgb666_Packed {
    type V = (u8, u8, u8);

    /// The red, green and blue wire bytes.
    closed spec fn view(&self) -> (u8, u8, u8) {
        (self.r, self.g, self.b)
    }
}

impl Default for Rgb666_Packed {
    fn default() -> (c: Self)
        ensures
            c@ == (0u8, 0u8, 0u8),
            in_wire_format(c@),
    {
        assert(0u8 & 3u8 == 0) by (bit_vector);
        Rgb666_Packed { r: 0, g: 0, b: 0 }
    }
}

impl Rgb666_Packed {
    /// Every colour is in the wire format.
    #[verifier::type_invariant]
    spec fn wire_format(self) -> bool {
        in_wire_format(self@)
    }

    pub const BYTES_PER_PIXEL: usize = 3;

    /// A colour from 6-bit channel values: each is shifted into bits [7:2]
    /// (bits above the sixth are shifted out).
    pub fn new(r: u8, g: u8, b: u8) -> (c: Self)
        ensures
            c@.0 == (r as int * 4) % 256,
            c@.1 == (g as int * 4) % 256,
            c@.2 == (b as int * 4) % 256,
            in_wire_format(c@),
    {
        proof {
            assert((r << 2u8) & 3u8 == 0 && (g << 2u8) & 3u8 == 0 && (b << 2u8) & 3u8 == 0) by (bit_vector);
            assert((r << 2u8) == (r as int * 4) % 256) by (bit_vector);
            assert((g << 2u8) == (g as int * 4) % 256) by (bit_vector);
            assert((b << 2u8) == (b as int * 4) % 256) by (bit_vector);
        }
        Rgb666_Packed { r: r << 2u8, g: g << 2u8, b: b << 2u8 }
    }

    /// A colour from 8-bit channel values: the two low bits of each are dropped.
    pub fn from_rgb888(r: u8, g: u8, b: u8) -> (c: Self)
        ensures
            c@.0 == r - r % 4,
            c@.1 == g - g % 4,
            c@.2 == b - b % 4,
            in_wire_format(c@),
    {
        proof {
            assert((r & 0xFCu8) & 3u8 == 0 && (g & 0xFCu8) & 3u8 == 0 && (b & 0xFCu8) & 3u8 == 0) by (bit_vector);
            assert((r & 0xFCu8) == r - r % 4) by (bit_vector);
            assert((g & 0xFCu8) == g - g % 4) by (bit_vector);
            assert((b & 0xFCu8) == b - b % 4) by (bit_vector);
        }
        Rgb666_Packed { r: r & 0xFC, g: g & 0xFC, b: b & 0xFC }
    }

    pub fn red(&self) -> (v: u8)
        ensures
            v == self@.0,
    {
        self.r
    }

    pub fn green(&self) -> (v: u8)
        ensures
            v == self@.1,
    {
        self.g
    }

    pub fn blue(&self) -> (v: u8)
        ensures
            v == self@.2,
    {
        self.b
    }

    /// The colour as raw 24-bit pixel data: red in bits [23:16], green in
    /// [15:8], blue in [7:0].
    pub fn into_raw(self) -> (raw: RawU24)
        ensures
            raw_u24_bits(raw) == packed_bits(self@),
            raw_u24_bits(raw) & 0x03_0303 == 0,
            unpacked_bytes(raw_u24_bits(raw) & WIRE_MASK) == self@,
    {
        proof {
            use_type_invariant(&self);
            lemma_raw_roundtrip(self@);
            let (r, g, b) = self@;
            assert((((r as u32) << 16u32) | ((g as u32) << 8u32) | (b as u32)) & 0x03_0303u32 == 0) by (bit_vector)
                requires
                    r & 3u8 == 0,
                    g & 3u8 == 0,
                    b & 3u8 == 0,
            ;
        }
        let v = ((self.r as u32) << 16u32) | ((self.g as u32) << 8u32) | (self.b as u32);
        proof {
            let (r, g, b) = (self.r, self.g, self.b);
            assert(((((r as u32) << 16u32) | ((g as u32) << 8u32) | (b as u32)) & 0xFF_FFFFu32) == (((r as u32) << 16u32) | ((g as u32) << 8u32) | (b as u32))) by (bit_vector);
        }
        raw_u24_new(v)
    }

    /// The colour that raw 24-bit pixel data holds: red from bits [23:16],
    /// green from [15:8], blue from [7:0], each kept in the wire format
    /// (its two low bits cleared).
    pub fn from_raw(data: RawU24) -> (c: Self)
        ensures
            c@ == unpacked_bytes(raw_u24_bits(data) & WIRE_MASK),
            in_wire_format(c@),
            packed_bits(c@) == raw_u24_bits(data) & WIRE_MASK,
    {
        let raw = raw_u24_into_inner(data);
        let v = raw & WIRE_MASK;
        proof {
            assert(v <= 0xFF_FFFF) by (bit_vector)
                requires
                    v == raw & 0xFC_FCFCu32,
            ;
            assert((v & 0xFC_FCFCu32) == v) by (bit_vector)
                requires
                    v == raw & 0xFC_FCFCu32,
            ;
            assert((raw & 0xFC_FCFCu32) & 0x03_0303u32 == 0) by (bit_vector);
            lemma_bits_roundtrip(v);
            assert((((v >> 16u32) & 0xFFu32) as u8) & 3u8 == 0 && (((v >> 8u32) & 0xFFu32) as u8) & 3u8 == 0 && ((v
                & 0xFFu32) as u8) & 3u8 == 0) by (bit_vector)
                requires
                    v & 0x03_0303u32 == 0,
            ;
        }
        Rgb666_Packed { r: ((v >> 16u32) & 0xFF) as u8, g: ((v >> 8u32) & 0xFF) as u8, b: (v & 0xFF) as u8 }
    }
}

impl From<RawU24> for Rgb666_Packed {
    fn from(data: RawU24) -> (c: Self) {
        Rgb666_Packed::from_raw(data)
    }
}

impl vstd::std_specs::convert::FromSpecImpl<RawU24> for Rgb666_Packed {
    open spec fn obeys_from_spec() -> bool {
        true
    }

    closed spec fn from_spec(data: RawU24) -> Self {
        let v = raw_u24_bits(data) & WIRE_MASK;
        Rgb666_Packed { r: ((v >> 16u32) & 0xFFu32) as u8, g: ((v >> 8u32) & 0xFFu32) as u8, b: (v & 0xFFu32) as u8 }
    }
}

/// Packing a colour in the wire format into raw pixel data and reading
/// it back gives the colour.
pub proof fn lemma_raw_roundtrip(c: (u8, u8, u8))
    requires
        in_wire_format(c),
    ensures
        unpacked_bytes(packed_bits(c) & WIRE_MASK) == c,
{
    let (r, g, b) = c;
    let v = packed_bits(c);
    assert(v == ((r as u32) << 16u32) | ((g as u32) << 8u32) | (b as u32));
    assert(((v & 0xFC_FCFCu32) >> 16u32) & 0xFFu32 == r as u32 && ((v & 0xFC_FCFCu32) >> 8u32) & 0xFFu32 == g as u32
        && (v & 0xFC_FCFCu32) & 0xFFu32 == b as u32) by (bit_vector)
        requires
            v == ((r as u32) << 16u32) | ((g as u32) << 8u32) | (b as u32),
            r & 3u8 == 0,
            g & 3u8 == 0,
            b & 3u8 == 0,
    ;
}

/// Reading a colour out of 24-bit pixel data whose channels are in the
/// wire format and packing it again gives the data.
pub proof fn lemma_bits_roundtrip(v: u32)
    requires
        v <= 0xFF_FFFF,
        v & 0x03_0303 == 0,
    ensures
        packed_bits(unpacked_bytes(v & WIRE_MASK)) == v,
{
    let m = v & 0xFC_FCFCu32;
    assert(m == v) by (bit_vector)
        requires
            m == v & 0xFC_FCFCu32,
            v & 0x03_0303u32 == 0,
            v <= 0xFF_FFFFu32,
    ;
    assert(v <= 0xFF_FFFFu32 ==> (((((v >> 16u32) & 0xFFu32) as u8) as u32) << 16u32) | (((((v >> 8u32) & 0xFFu32) as u8) as u32) << 8u32) | (((v & 0xFFu32) as u8) as u32) == v) by (bit_vector);
}

} // verus!
