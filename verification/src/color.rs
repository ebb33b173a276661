//! Colours, and which of them can be edited.

use vstd::prelude::*;

use crate::scalar::Scalar;
use crate::scalar::ONE_BITS;
use crate::scalar::ZERO_BITS;

verus! {

/// A colour: red, green, blue and alpha, each from 0 to 1.
#[derive(Clone, Copy, Debug, PartialEq, Eq, Structural)]
pub struct Color {
    pub r: Scalar,
    pub g: Scalar,
    pub b: Scalar,
    pub a: Scalar,
}

impl Color {
    /// Opaque black.
    pub fn black() -> (color: Color)
        ensures
            color.r.bits == ZERO_BITS,
            color.g.bits == ZERO_BITS,
            color.b.bits == ZERO_BITS,
            color.a.bits == ONE_BITS,
    {
        let zero: Scalar = Scalar { bits: ZERO_BITS };
        Color { r: zero, g: zero, b: zero, a: Scalar { bits: ONE_BITS } }
    }

    /// Opaque white.
    pub fn white() -> (color: Color)
        ensures
            color.r.bits == ONE_BITS,
            color.g.bits == ONE_BITS,
            color.b.bits == ONE_BITS,
            color.a.bits == ONE_BITS,
    {
        let one: Scalar = Scalar { bits: ONE_BITS };
        Color { r: one, g: one, b: one, a: one }
    }
}

/// A colour that the user can edit, by what it colours.
#[derive(Clone, Copy, Debug, PartialEq, Eq, Structural)]
pub enum ColorField {
    Text,
    Backdrop,
}

/// An opacity that the user can edit, by what it fades.
#[derive(Clone, Copy, Debug, PartialEq, Eq, Structural)]
pub enum OpacityField {
    Background,
    Sidebar,
}

} // verus!
