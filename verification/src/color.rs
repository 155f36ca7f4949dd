use vstd::prelude::*;

verus! {

/// One pixel as three independent 8-bit channels.
///
/// The field order (red, blue, green) follows the order in which the
/// command line hands the channels over; `PixelBuffer` stores pixels in
/// the conventional (red, green, blue) order when they are emitted.
#[derive(Clone, Copy, PartialEq, Eq, Structural, Debug)]
pub struct RGBColor {
    pub red: u8,
    pub blue: u8,
    pub green: u8,
}

/// The four corner parameters of a crop request: the top-left corner
/// (x, y) and the requested width and height of the cut-out.
#[derive(Clone, Copy, PartialEq, Eq, Structural, Debug)]
pub struct CropPayload {
    pub x: u32,
    pub y: u32,
    pub width: u32,
    pub height: u32,
}

/// A clockwise rotation amount, one quarter turn at a time.
#[derive(Clone, Copy, PartialEq, Eq, Structural, Debug)]
pub enum RotateDegrees {
    OneFouth,
    Half,
    ThreeQuarters,
}

} // verus!
