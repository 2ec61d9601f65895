//! The panel's color space: eight logical colors, each stored as a
//! 4-bit code, two adjacent horizontal pixels packed per transport byte.

use vstd::prelude::*;

verus! {

/// One logical pixel color.  The panel's frame memory holds the 4-bit
/// code of each pixel; `HiZ` leaves the pixel electrically floating.
#[derive(Clone, Copy, PartialEq, Eq, Structural, Debug)]
pub enum OctColor {
    Black,
    White,
    Green,
    Blue,
    Red,
    Yellow,
    Orange,
    HiZ,
}

impl OctColor {
    /// The 4-bit code the panel uses for this color.
    pub open spec fn spec_nibble(self) -> u8 {
        match self {
            OctColor::Black => 0x00,
            OctColor::White => 0x01,
            OctColor::Green => 0x02,
            OctColor::Blue => 0x03,
            OctColor::Red => 0x04,
            OctColor::Yellow => 0x05,
            OctColor::Orange => 0x06,
            OctColor::HiZ => 0x07,
        }
    }

    pub fn nibble(self) -> (r: u8)
        ensures
            r == self.spec_nibble(),
    {
        match self {
            OctColor::Black => 0x00,
            OctColor::White => 0x01,
            OctColor::Green => 0x02,
            OctColor::Blue => 0x03,
            OctColor::Red => 0x04,
            OctColor::Yellow => 0x05,
            OctColor::Orange => 0x06,
            OctColor::HiZ => 0x07,
        }
    }

    /// The transport byte encoding the pair `(a, b)`: `a`'s code in the
    /// most significant nibble, `b`'s in the least significant one.
    pub open spec fn spec_colors_byte(a: OctColor, b: OctColor) -> u8 {
        (16 * a.spec_nibble() + b.spec_nibble()) as u8
    }

    pub fn colors_byte(a: OctColor, b: OctColor) -> (r: u8)
        ensures
            r == OctColor::spec_colors_byte(a, b),
    {
        16 * a.nibble() + b.nibble()
    }
}

} // verus!
