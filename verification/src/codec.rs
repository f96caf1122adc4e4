//! The image codec boundary: decoding a byte stream to RGBA8, Lanczos
//! resampling, and lossless WebP encoding are done by the image crate;
//! each call is held behind a small trusted wrapper whose contract names
//! its result.

use vstd::prelude::*;

verus! {

/// One decoded source image: RGBA8 pixels, row-major, four bytes per
/// pixel.
pub struct DecodedImage {
    pub width: u32,
    pub height: u32,
    pub pixels: Vec<u8>,
}

impl DecodedImage {
    /// The buffer holds exactly four bytes per pixel.
    pub open spec fn wf(self) -> bool {
        self.pixels@.len() == 4 * (self.width as int) * (self.height as int)
    }
}

/// What decoding a byte stream yields: `None` when the bytes are not a
/// readable image, else the RGBA8 width, height and pixel bytes. The
/// result depends on the bytes alone.
pub uninterp spec fn decode_spec(bytes: Seq<u8>) -> Option<(u32, u32, Seq<u8>)>;

/// Relies on image's `load_from_memory` and `DynamicImage::to_rgba8`:
/// together they decode a byte stream into an RGBA8 buffer holding
/// exactly four bytes per pixel, or fail; the outcome depends on the
/// bytes alone.
#[verifier::external_body]
pub fn decode_rgba(bytes: &Vec<u8>) -> (r: Option<DecodedImage>)
    ensures
        r is None <==> decode_spec(bytes@) is None,
        r matches Some(d) ==> {
            &&& d.wf()
            &&& decode_spec(bytes@) == Some((d.width, d.height, d.pixels@))
        },
{
    match image::load_from_memory(bytes.as_slice()) {
        Ok(img) => {
            let rgba = img.to_rgba8();
            let (width, height) = rgba.dimensions();
            Some(DecodedImage { width, height, pixels: rgba.into_raw() })
        },
        Err(_) => None,
    }
}

/// What Lanczos3 resampling of an RGBA8 buffer to the target dimensions
/// yields; the result depends on the arguments alone.
pub uninterp spec fn resize_spec(w: u32, h: u32, pixels: Seq<u8>, tw: u32, th: u32) -> Seq<u8>;

/// Relies on image's `imageops::resize` with the Lanczos3 filter (with
/// `ImageBuffer::from_raw` and `into_raw` converting at the boundary):
/// the result is an RGBA8 buffer of exactly the target dimensions and
/// depends on the source pixels and target dimensions alone.
#[verifier::external_body]
pub fn resize_lanczos(img: &DecodedImage, tw: u32, th: u32) -> (r: Vec<u8>)
    requires
        img.wf(),
        img.width >= 1,
        img.height >= 1,
        tw >= 1,
        th >= 1,
    ensures
        r@ == resize_spec(img.width, img.height, img.pixels@, tw, th),
        r@.len() == 4 * (tw as int) * (th as int),
{
    let buf = image::ImageBuffer::<image::Rgba<u8>, Vec<u8>>::from_raw(
        img.width,
        img.height,
        img.pixels.clone(),
    ).unwrap();
    image::imageops::resize(&buf, tw, th, image::imageops::FilterType::Lanczos3).into_raw()
}

/// The lossless WebP encoding of an RGBA8 buffer; a function of the
/// dimensions and pixel bytes alone.
pub uninterp spec fn webp_spec(w: u32, h: u32, pixels: Seq<u8>) -> Seq<u8>;

/// Relies on image's `WebPEncoder::new_lossless` and `encode`, writing to
/// a `Vec` (whose writes cannot fail): encoding succeeds exactly when
/// both dimensions lie between 1 and 16384, and the output depends on the
/// dimensions and pixel bytes alone.
#[verifier::external_body]
pub fn encode_webp(width: u32, height: u32, pixels: &Vec<u8>) -> (r: Option<Vec<u8>>)
    requires
        pixels@.len() == 4 * (width as int) * (height as int),
    ensures
        r is Some <==> (1 <= width <= 16384 && 1 <= height <= 16384),
        r matches Some(v) ==> v@ == webp_spec(width, height, pixels@),
{
    let mut out: Vec<u8> = Vec::new();
    let enc = image::codecs::webp::WebPEncoder::new_lossless(&mut out);
    match enc.encode(pixels.as_slice(), width, height, image::ExtendedColorType::Rgba8) {
        Ok(()) => Some(out),
        Err(_) => None,
    }
}

} // verus!
