//! RGBA colors.

use vstd::prelude::*;

verus! {

/// The bit pattern of the binary64 number 1.0.
pub const ONE: u64 = 0x3FF0_0000_0000_0000;

/// The bit pattern of the binary64 number 0.0.
pub const ZERO: u64 = 0;

/// An RGBA color. Each channel holds the IEEE 754 binary64 bit pattern of
/// its intensity: the library carries colors through without doing
/// arithmetic on them, so it keeps them in the form that compares exactly.
#[derive(Debug, Clone, Copy, PartialEq, Eq, Structural)]
pub struct Color {
    pub r: u64,
    pub g: u64,
    pub b: u64,
    pub a: u64,
}

impl Color {
    /// Fully transparent black.
    pub open spec fn spec_transparent() -> Color {
        Color { r: ZERO, g: ZERO, b: ZERO, a: ZERO }
    }

    /// Fully transparent black.
    #[verifier::when_used_as_spec(spec_transparent)]
    pub fn transparent() -> (c: Color)
        ensures
            c == Self::spec_transparent(),
    {
        Color { r: ZERO, g: ZERO, b: ZERO, a: ZERO }
    }

    /// Opaque black.
    pub open spec fn spec_black() -> Color {
        Color { r: ZERO, g: ZERO, b: ZERO, a: ONE }
    }

    /// Opaque black.
    #[verifier::when_used_as_spec(spec_black)]
    pub fn black() -> (c: Color)
        ensures
            c == Self::spec_black(),
    {
        Color { r: ZERO, g: ZERO, b: ZERO, a: ONE }
    }

    /// Opaque white.
    pub open spec fn spec_white() -> Color {
        Color { r: ONE, g: ONE, b: ONE, a: ONE }
    }

    /// Opaque white.
    #[verifier::when_used_as_spec(spec_white)]
    pub fn white() -> (c: Color)
        ensures
            c == Self::spec_white(),
    {
        Color { r: ONE, g: ONE, b: ONE, a: ONE }
    }

    /// Opaque red.
    pub open spec fn spec_red() -> Color {
        Color { r: ONE, g: ZERO, b: ZERO, a: ONE }
    }

    /// Opaque red.
    #[verifier::when_used_as_spec(spec_red)]
    pub fn red() -> (c: Color)
        ensures
            c == Self::spec_red(),
    {
        Color { r: ONE, g: ZERO, b: ZERO, a: ONE }
    }

    /// Opaque green.
    pub open spec fn spec_green() -> Color {
        Color { r: ZERO, g: ONE, b: ZERO, a: ONE }
    }

    /// Opaque green.
    #[verifier::when_used_as_spec(spec_green)]
    pub fn green() -> (c: Color)
        ensures
            c == Self::spec_green(),
    {
        Color { r: ZERO, g: ONE, b: ZERO, a: ONE }
    }

    /// Opaque blue.
    pub open spec fn spec_blue() -> Color {
        Color { r: ZERO, g: ZERO, b: ONE, a: ONE }
    }

    /// Opaque blue.
    #[verifier::when_used_as_spec(spec_blue)]
    pub fn blue() -> (c: Color)
        ensures
            c == Self::spec_blue(),
    {
        Color { r: ZERO, g: ZERO, b: ONE, a: ONE }
    }

    /// The color whose channels have the given binary64 bit patterns.
    pub fn from_bits(r: u64, g: u64, b: u64, a: u64) -> (c: Color)
        ensures
            c == (Color { r, g, b, a }),
    {
        Color { r, g, b, a }
    }
}

} // verus!
