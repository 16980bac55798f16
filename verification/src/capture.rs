//! Validation of a window-capture readback.
//!
//! Resolving a window and reading its rendered surface back is OS work that
//! happens outside this library; what comes back is a lookup outcome, a
//! client-area size, and raw 32-bit bottom-up pixel bytes. This module turns
//! that into either a well-formed [`Image`] or a capture error.

use vstd::prelude::*;

use crate::image::Image;

verus! {

/// Why a capture attempt produced no image.
#[derive(Debug, PartialEq, Eq, Structural)]
pub enum CaptureError {
    /// The source window identity did not resolve to a window.
    WindowNotFound,
    /// The source window's client area has zero width or height.
    WindowNotVisible,
}

/// Builds the captured image from a window readback: `found` says whether the
/// source window resolved, `width` and `height` are its client-area size, and
/// `pixels` is the 32-bit bottom-up copy of its rendered surface.
pub fn capture_image(found: bool, width: usize, height: usize, pixels: Vec<u8>) -> (r: Result<
    Image,
    CaptureError,
>)
    requires
        pixels@.len() == width * height * 4,
    ensures
        !found ==> r == Err::<Image, CaptureError>(CaptureError::WindowNotFound),
        found && (width == 0 || height == 0) ==> r == Err::<Image, CaptureError>(
            CaptureError::WindowNotVisible,
        ),
        found && width > 0 && height > 0 ==> (r matches Ok(img) && img.width == width
            && img.height == height && img.buf@ == pixels@ && img.wf()),
{
    if !found {
        Err(CaptureError::WindowNotFound)
    } else if width == 0 || height == 0 {
        Err(CaptureError::WindowNotVisible)
    } else {
        Ok(Image { width, height, buf: pixels })
    }
}

} // verus!
