//! The two label encodings and the row width each of them fixes.

use vstd::prelude::*;

verus! {

/// Bytes in one image row: a 28 by 28 grid of pixels.
pub const IMAGE_STRIDE: usize = 784;

/// Side of the square pixel grid of one image.
pub const IMAGE_SIDE: usize = 28;

/// Number of digit classes, and so the width of a one-hot label row.
pub const CLASS_COUNT: usize = 10;

/// How the label of one sample is laid out in the label buffer.
///
/// The encoding is chosen once for a store and never mixed within it.
#[derive(Clone, Copy, Debug, PartialEq, Eq, Structural)]
pub enum LabelEncoding {
    /// One byte per row holding the digit itself.
    Digit,
    /// Ten bytes per row, an indicator vector over the classes.
    OneHot,
}

impl LabelEncoding {
    /// Width of one label row under this encoding.
    pub open spec fn spec_stride(self) -> nat {
        match self {
            LabelEncoding::Digit => 1,
            LabelEncoding::OneHot => 10,
        }
    }

    /// Width of one label row: 1 for `Digit`, 10 for `OneHot`.
    pub fn stride(self) -> (width: usize)
        ensures
            width == self.spec_stride(),
    {
        match self {
            LabelEncoding::Digit => 1,
            LabelEncoding::OneHot => CLASS_COUNT,
        }
    }
}

} // verus!
