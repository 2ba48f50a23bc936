//! Draw commands: the plain-value description of one render pass that the
//! simulation hands to the drawing collaborator.

use vstd::prelude::*;
use crate::geometry::{Point, Rect};

verus! {

/// One drawing instruction.  Images are named by the handle the host
/// assigned when it decoded them.
#[derive(Clone, Debug, PartialEq)]
pub enum DrawCommand {
    /// Erase the given area.
    Clear { rect: Rect },
    /// Copy `source` out of the image and paint it into `destination`.
    Image { image: u32, source: Rect, destination: Rect },
    /// Paint the whole image with its top-left corner at `position`.
    EntireImage { image: u32, position: Point },
    /// Replace the score overlay's text.
    Text { content: String },
}

} // verus!
