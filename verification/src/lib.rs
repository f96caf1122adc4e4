//! Builds a collage image: source images are arranged into a near-square
//! grid of fixed-size square cells, each scaled to fit its cell while
//! preserving aspect ratio and centered within it.

pub mod canvas;
pub mod codec;
pub mod collage;
pub mod grid;
pub mod mmapbuf;
pub mod placement;

use vstd::prelude::*;

verus! {

/// Errors of the collage pipeline.
///
/// `EmptyInput` reports that no images were given: it is an informational
/// terminal state, not a failure, and no output file is produced.
#[derive(Clone, Copy, PartialEq, Eq, Structural, Debug)]
pub enum CollageError {
    /// No images were given; the run ends without producing output.
    EmptyInput,
    /// The canvas would not fit the machine's integer limits.
    CanvasTooLarge,
    /// The backing byte store does not hold exactly `4 * width * height` bytes.
    BufferSizeMismatch,
    /// The encoder refused the finished canvas.
    EncodeFailed,
    /// The backing store could not be flushed to stable storage.
    FlushFailed,
}

impl CollageError {
    /// A human-readable description of the error.
    pub fn describe(&self) -> &'static str {
        match self {
            CollageError::EmptyInput => "no images found",
            CollageError::CanvasTooLarge => "collage canvas too large",
            CollageError::BufferSizeMismatch => "canvas buffer has the wrong size",
            CollageError::EncodeFailed => "encoding the collage failed",
            CollageError::FlushFailed => "flushing the canvas buffer failed",
        }
    }
}

/// The ASCII-lowercase form of a byte.
pub open spec fn lower_ascii(b: u8) -> u8 {
    if 65 <= b <= 90 {
        (b + 32) as u8
    } else {
        b
    }
}

/// Whether a filename extension (without its dot) names a supported
/// image format: `webp`, `jpg` or `jpeg`, compared ASCII
/// case-insensitively.
pub open spec fn supported_extension_spec(ext: Seq<u8>) -> bool {
    ||| (ext.len() == 4 && lower_ascii(ext[0]) == 119 && lower_ascii(ext[1]) == 101
        && lower_ascii(ext[2]) == 98 && lower_ascii(ext[3]) == 112)
    ||| (ext.len() == 3 && lower_ascii(ext[0]) == 106 && lower_ascii(ext[1]) == 112
        && lower_ascii(ext[2]) == 103)
    ||| (ext.len() == 4 && lower_ascii(ext[0]) == 106 && lower_ascii(ext[1]) == 112
        && lower_ascii(ext[2]) == 101 && lower_ascii(ext[3]) == 103)
}

/// The ASCII-lowercase form of a byte.
fn lower_byte(b: u8) -> (r: u8)
    ensures
        r == lower_ascii(b),
{
    if b >= 65 && b <= 90 {
        b + 32
    } else {
        b
    }
}

/// Decides whether a filename extension (as bytes, without its dot)
/// names a supported image format: `webp`, `jpg` or `jpeg`, in any mix
/// of ASCII case.
pub fn supported_extension(ext: &Vec<u8>) -> (r: bool)
    ensures
        r == supported_extension_spec(ext@),
{
    if ext.len() == 4 {
        let b0 = lower_byte(ext[0]);
        let b1 = lower_byte(ext[1]);
        let b2 = lower_byte(ext[2]);
        let b3 = lower_byte(ext[3]);
        (b0 == 119 && b1 == 101 && b2 == 98 && b3 == 112) || (b0 == 106 && b1 == 112
            && b2 == 101 && b3 == 103)
    } else if ext.len() == 3 {
        let b0 = lower_byte(ext[0]);
        let b1 = lower_byte(ext[1]);
        let b2 = lower_byte(ext[2]);
        b0 == 106 && b1 == 112 && b2 == 103
    } else {
        false
    }
}

} // verus!
