use vstd::prelude::*;

use crate::data_url::{data_url_payload, decode_base64_data_url, DataUrlError};
use crate::base64::base64_standard_decoded;
use vstd::string::StringSliceAdditionalSpecFns;

verus! {

/// `image::ImageError`, the error of a failed decode, held opaque.
#[verifier::external_type_specification]
#[verifier::external_body]
pub struct ExImageError(image::ImageError);

/// Width, height and RGBA bytes (8 bits per channel, row by row) of an image.
pub struct RgbaPixels {
    pub width: u32,
    pub height: u32,
    pub rgba: Vec<u8>,
}

/// What the `image` crate decodes an encoded image (PNG, BMP, ...) to, as
/// 8-bit RGBA: `None` when it cannot decode it.
pub uninterp spec fn decoded_rgba(encoded: Seq<u8>) -> Option<(u32, u32, Seq<u8>)>;

/// `image::load_from_memory(encoded)` converted with `to_rgba8()`: the
/// image's width, height and RGBA bytes (4 per pixel, width x height pixels),
/// or the decoder's error.
#[verifier::external_body]
fn load_rgba_from_memory(encoded: &[u8]) -> (pixels: Result<RgbaPixels, image::ImageError>)
    ensures
        match pixels {
            Ok(p) => decoded_rgba(encoded@) == Some((p.width, p.height, p.rgba@)) && p.rgba@.len() == p.width * p.height
                * 4,
            Err(_) => decoded_rgba(encoded@) is None,
        },
{
    let rgba = image::load_from_memory(encoded)?.to_rgba8();
    Ok(RgbaPixels { width: rgba.width(), height: rgba.height(), rgba: rgba.into_raw() })
}

/// The text of an `image::ImageError` (its `Display`).
#[verifier::external_body]
fn image_error_text(error: &image::ImageError) -> String {
    error.to_string()
}

/// Why an image's `src` could not be loaded.
#[derive(Debug, PartialEq, Eq)]
pub enum ImageLoadError {
    /// The `src` is not a usable base64 data URL.
    DataUrl(DataUrlError),
    /// The decoded bytes are not an image the decoder reads; the decoder's message.
    Decode(String),
}

impl ImageLoadError {
    /// The message a script's `onerror` handler receives.
    pub fn message(&self) -> (text: String)
        ensures
            match self {
                ImageLoadError::DataUrl(e) => text@ == crate::data_url::data_url_error_text(*e),
                ImageLoadError::Decode(m) => text@ == m@,
            },
    {
        match self {
            ImageLoadError::DataUrl(e) => e.message(),
            ImageLoadError::Decode(m) => m.clone(),
        }
    }
}

/// An image decoded from a data URL.
pub struct DecodedImage {
    pub width: u32,
    pub height: u32,
    /// Length of the encoded image the data URL held.
    pub input_len: usize,
    /// The pixels, RGBA, row by row.
    pub rgba: Vec<u8>,
}

/// Decodes the image in a base64 data URL to RGBA pixels.
pub fn decode_image(data_url: &str) -> (image: Result<DecodedImage, ImageLoadError>)
    ensures
        match data_url_payload(data_url.spec_bytes()) {
            None => image == Err::<DecodedImage, ImageLoadError>(ImageLoadError::DataUrl(DataUrlError::NotABase64DataUrl)),
            Some(text) => match base64_standard_decoded(text) {
                None => image == Err::<DecodedImage, ImageLoadError>(ImageLoadError::DataUrl(DataUrlError::InvalidBase64)),
                Some(encoded) => match decoded_rgba(encoded) {
                    Some((w, h, rgba)) => image matches Ok(d) && d.width == w && d.height == h && d.rgba@ == rgba
                        && d.input_len == encoded.len(),
                    None => image matches Err(ImageLoadError::Decode(_)),
                },
            },
        },
        image matches Ok(d) ==> d.rgba@.len() == d.width * d.height * 4,
{
    let bytes = match decode_base64_data_url(data_url) {
        Ok(bytes) => bytes,
        Err(e) => return Err(ImageLoadError::DataUrl(e)),
    };
    let input_len = bytes.len();
    match load_rgba_from_memory(bytes.as_slice()) {
        Ok(pixels) => Ok(DecodedImage { width: pixels.width, height: pixels.height, input_len, rgba: pixels.rgba }),
        Err(e) => Err(ImageLoadError::Decode(image_error_text(&e))),
    }
}

/// An image element's state: its `src`, whether it has loaded, and its
/// sizes. Its pixels live with the script.
pub struct NativeImage {
    complete: bool,
    natural_width: u32,
    natural_height: u32,
    width: u32,
    height: u32,
    src: String,
}

impl NativeImage {
    pub closed spec fn spec_complete(&self) -> bool {
        self.complete
    }

    pub closed spec fn spec_natural_width(&self) -> u32 {
        self.natural_width
    }

    pub closed spec fn spec_natural_height(&self) -> u32 {
        self.natural_height
    }

    pub closed spec fn spec_width(&self) -> u32 {
        self.width
    }

    pub closed spec fn spec_height(&self) -> u32 {
        self.height
    }

    pub closed spec fn spec_src(&self) -> Seq<char> {
        self.src@
    }

    /// A new image: no `src`, not loaded, all sizes 0.
    pub fn new() -> (image: NativeImage)
        ensures
            !image.spec_complete(),
            image.spec_natural_width() == 0,
            image.spec_natural_height() == 0,
            image.spec_width() == 0,
            image.spec_height() == 0,
            image.spec_src() == Seq::<char>::empty(),
    {
        NativeImage { complete: false, natural_width: 0, natural_height: 0, width: 0, height: 0, src: String::new() }
    }

    pub fn complete(&self) -> (b: bool)
        ensures
            b == self.spec_complete(),
    {
        self.complete
    }

    pub fn complete_value(&self) -> (b: bool)
        ensures
            b == self.spec_complete(),
    {
        self.complete
    }

    pub fn natural_width(&self) -> (w: u32)
        ensures
            w == self.spec_natural_width(),
    {
        self.natural_width
    }

    pub fn natural_width_value(&self) -> (w: u32)
        ensures
            w == self.spec_natural_width(),
    {
        self.natural_width
    }

    pub fn natural_height(&self) -> (h: u32)
        ensures
            h == self.spec_natural_height(),
    {
        self.natural_height
    }

    pub fn natural_height_value(&self) -> (h: u32)
        ensures
            h == self.spec_natural_height(),
    {
        self.natural_height
    }

    pub fn width(&self) -> (w: u32)
        ensures
            w == self.spec_width(),
    {
        self.width
    }

    pub fn height(&self) -> (h: u32)
        ensures
            h == self.spec_height(),
    {
        self.height
    }

    /// Sets the display width; nothing else changes.
    pub fn set_width(&mut self, value: u32)
        ensures
            final(self).spec_width() == value,
            final(self).spec_height() == old(self).spec_height(),
            final(self).spec_complete() == old(self).spec_complete(),
            final(self).spec_natural_width() == old(self).spec_natural_width(),
            final(self).spec_natural_height() == old(self).spec_natural_height(),
            final(self).spec_src() == old(self).spec_src(),
    {
        self.width = value;
    }

    /// Sets the display height; nothing else changes.
    pub fn set_height(&mut self, value: u32)
        ensures
            final(self).spec_height() == value,
            final(self).spec_width() == old(self).spec_width(),
            final(self).spec_complete() == old(self).spec_complete(),
            final(self).spec_natural_width() == old(self).spec_natural_width(),
            final(self).spec_natural_height() == old(self).spec_natural_height(),
            final(self).spec_src() == old(self).spec_src(),
    {
        self.height = value;
    }

    pub fn src(&self) -> (s: &str)
        ensures
            s@ == self.spec_src(),
    {
        self.src.as_str()
    }

    /// Starts loading `src`: records it and marks the image not complete;
    /// the sizes stay as they were until the load succeeds.
    pub fn begin_load(&mut self, src: String)
        ensures
            final(self).spec_src() == src@,
            !final(self).spec_complete(),
            final(self).spec_width() == old(self).spec_width(),
            final(self).spec_height() == old(self).spec_height(),
            final(self).spec_natural_width() == old(self).spec_natural_width(),
            final(self).spec_natural_height() == old(self).spec_natural_height(),
    {
        self.src = src;
        self.complete = false;
    }

    /// Finishes a load that decoded a `width` x `height` image: both the
    /// natural and the display size become that size, and the image is complete.
    pub fn finish_load(&mut self, width: u32, height: u32)
        ensures
            final(self).spec_complete(),
            final(self).spec_natural_width() == width,
            final(self).spec_natural_height() == height,
            final(self).spec_width() == width,
            final(self).spec_height() == height,
            final(self).spec_src() == old(self).spec_src(),
    {
        self.natural_width = width;
        self.natural_height = height;
        self.width = width;
        self.height = height;
        self.complete = true;
    }
}

} // verus!
