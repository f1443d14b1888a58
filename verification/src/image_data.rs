use vstd::prelude::*;

use crate::typed_array::{image_data_byte_length, rgba_len, ImageDataError};

verus! {

/// What the first argument of `new ImageData(..)` turned out to be.
#[derive(Debug, Clone, Copy, PartialEq, Eq)]
pub enum ImageDataInit {
    /// A number: the width of a new, zero-filled image.
    Width(u32),
    /// A byte array of `byte_length` bytes holding the pixels.
    Data { byte_length: u32 },
    /// Anything else.
    NotAnObject,
}

/// The width and height that `new ImageData(data_or_width, width_or_height, height)`
/// settles on, or why it fails.
pub open spec fn image_data_shape(data_or_width: ImageDataInit, width_or_height: u32, height: Option<u32>) -> Result<(u32, u32), ImageDataError> {
    match data_or_width {
        ImageDataInit::Width(width) => {
            if rgba_len(width as int, width_or_height as int) <= u32::MAX {
                Ok((width, width_or_height))
            } else {
                Err(ImageDataError::PixelByteLengthOverflow)
            }
        },
        ImageDataInit::Data { byte_length } => {
            let width = width_or_height;
            let resolved = match height {
                Some(h) => Ok(h),
                None => {
                    if width * 4 > u32::MAX {
                        Err(ImageDataError::RowByteLengthOverflow)
                    } else if width == 0 || byte_length % (width * 4) as u32 != 0 {
                        Err(ImageDataError::LengthDoesNotMatchWidth)
                    } else {
                        Ok((byte_length / (width * 4) as u32) as u32)
                    }
                },
            };
            match resolved {
                Err(e) => Err(e),
                Ok(h) => {
                    if rgba_len(width as int, h as int) > u32::MAX {
                        Err(ImageDataError::PixelByteLengthOverflow)
                    } else if byte_length != rgba_len(width as int, h as int) {
                        Err(ImageDataError::LengthDoesNotMatchDimensions)
                    } else {
                        Ok((width, h))
                    }
                },
            }
        },
        ImageDataInit::NotAnObject => Err(ImageDataError::DataNotAnArray),
    }
}

proof fn lemma_whole_rows(byte_length: int, width: int)
    requires
        0 < width,
        0 <= byte_length,
    ensures
        byte_length % (width * 4) == 0 ==> rgba_len(width, byte_length / (width * 4)) == byte_length,
        0 <= byte_length / (width * 4) <= byte_length,
{
    let row = width * 4;
    vstd::arithmetic::div_mod::lemma_fundamental_div_mod(byte_length, row);
    vstd::arithmetic::div_mod::lemma_div_is_ordered_by_denominator(byte_length, 1, row);
    vstd::arithmetic::div_mod::lemma_div_pos_is_pos(byte_length, row);
    assert(width * (byte_length / row) * 4 == row * (byte_length / row)) by (nonlinear_arith)
        requires
            row == width * 4,
    ;
}

/// What `new ImageData(..)` settles on. From data, the image is
/// `width_or_height` wide and exactly covers the data (width x height x 4
/// bytes), and a given height is kept; with no height, data that is a whole
/// number of rows of a non-zero width is accepted, and its height is its
/// number of rows, `byte_length / (width * 4)`. From a width, the size is the
/// one given whenever its bytes fit a `u32`.
pub proof fn lemma_image_data_shape_laws(data_or_width: ImageDataInit, width_or_height: u32, height: Option<u32>)
    ensures
        data_or_width matches ImageDataInit::Data { byte_length } ==> (image_data_shape(data_or_width, width_or_height, height)
            matches Ok((w, h)) ==> {
            &&& w == width_or_height
            &&& w * h * 4 == byte_length
            &&& (height matches Some(given) ==> h == given)
        }),
        data_or_width matches ImageDataInit::Data { byte_length } ==> (height is None && 0 < width_or_height
            && width_or_height * 4 <= u32::MAX && (byte_length as int) % (width_or_height * 4) == 0 ==> image_data_shape(
            data_or_width,
            width_or_height,
            height,
        ) == Ok::<(u32, u32), ImageDataError>((width_or_height, ((byte_length as int) / (width_or_height * 4)) as u32))),
        data_or_width matches ImageDataInit::Width(w) ==> (rgba_len(w as int, width_or_height as int) <= u32::MAX
            ==> image_data_shape(data_or_width, width_or_height, height) == Ok::<(u32, u32), ImageDataError>(
            (w, width_or_height),
        )),
{
    if let ImageDataInit::Data { byte_length } = data_or_width {
        if height is None && 0 < width_or_height && width_or_height * 4 <= u32::MAX {
            lemma_whole_rows(byte_length as int, width_or_height as int);
        }
    }
}

/// The size of an `ImageData`; its pixels live with the script that made it.
#[derive(Debug, Clone, Copy, PartialEq, Eq)]
pub struct NativeImageData {
    width: u32,
    height: u32,
}

impl NativeImageData {
    pub closed spec fn spec_width(&self) -> u32 {
        self.width
    }

    pub closed spec fn spec_height(&self) -> u32 {
        self.height
    }

    /// `new ImageData(width, height)` or `new ImageData(data, width[, height])`.
    /// Made from a width, the image's pixels are `image_data_byte_length(width,
    /// height)` fresh zero bytes; made from data, the data's length must be
    /// width x height x 4, and a missing height is taken from it.
    pub fn new(data_or_width: ImageDataInit, width_or_height: u32, height: Option<u32>) -> (made: Result<NativeImageData, ImageDataError>)
        ensures
            match image_data_shape(data_or_width, width_or_height, height) {
                Ok((w, h)) => made matches Ok(d) && d.spec_width() == w && d.spec_height() == h,
                Err(e) => made == Err::<NativeImageData, ImageDataError>(e),
            },
            data_or_width matches ImageDataInit::Data { byte_length } ==> (made matches Ok(d) ==> {
                &&& d.spec_width() == width_or_height
                &&& d.spec_width() * d.spec_height() * 4 == byte_length
                &&& (height matches Some(h) ==> d.spec_height() == h)
            }),
            data_or_width matches ImageDataInit::Data { byte_length } ==> (height is None && 0 < width_or_height
                && width_or_height * 4 <= u32::MAX && (byte_length as int) % (width_or_height * 4) == 0 ==> (made is Ok && (
            made matches Ok(d) ==> d.spec_width() == width_or_height && d.spec_height() == (byte_length as int) / (
            width_or_height * 4)))),
            data_or_width matches ImageDataInit::Width(w) ==> ((made is Ok) == (rgba_len(w as int, width_or_height as int)
                <= u32::MAX)),
            data_or_width matches ImageDataInit::Width(w) ==> (made matches Ok(d) ==> d.spec_width() == w
                && d.spec_height() == width_or_height),
    {
        proof {
            if let ImageDataInit::Data { byte_length } = data_or_width {
                if height is None && 0 < width_or_height && width_or_height * 4 <= u32::MAX {
                    lemma_whole_rows(byte_length as int, width_or_height as int);
                }
            }
        }
        match data_or_width {
            ImageDataInit::Width(width) => {
                let height = width_or_height;
                match image_data_byte_length(width, height) {
                    Ok(_) => Ok(NativeImageData { width, height }),
                    Err(e) => Err(e),
                }
            },
            ImageDataInit::Data { byte_length } => {
                let width = width_or_height;
                let resolved_height = match height {
                    Some(height) => height,
                    None => {
                        let row_bytes = match width.checked_mul(4) {
                            Some(row_bytes) => row_bytes,
                            None => return Err(ImageDataError::RowByteLengthOverflow),
                        };
                        if row_bytes == 0 || byte_length % row_bytes != 0 {
                            return Err(ImageDataError::LengthDoesNotMatchWidth);
                        }
                        byte_length / row_bytes
                    },
                };
                let expected_len = match image_data_byte_length(width, resolved_height) {
                    Ok(len) => len,
                    Err(e) => return Err(e),
                };
                if byte_length != expected_len {
                    return Err(ImageDataError::LengthDoesNotMatchDimensions);
                }
                Ok(NativeImageData { width, height: resolved_height })
            },
            ImageDataInit::NotAnObject => Err(ImageDataError::DataNotAnArray),
        }
    }

    /// An `ImageData` of the given size around pixels made elsewhere.
    pub fn from_data(width: u32, height: u32) -> (made: NativeImageData)
        ensures
            made.spec_width() == width,
            made.spec_height() == height,
    {
        NativeImageData { width, height }
    }

    pub fn width(&self) -> (w: u32)
        ensures
            w == self.spec_width(),
    {
        self.width
    }

    pub fn height(&self) -> (h: u32)
        ensures
            h == self.spec_height(),
    {
        self.height
    }

    pub fn width_value(&self) -> (w: u32)
        ensures
            w == self.spec_width(),
    {
        self.width
    }

    pub fn height_value(&self) -> (h: u32)
        ensures
            h == self.spec_height(),
    {
        self.height
    }

    /// The colour space of every `ImageData`: `"srgb"`.
    pub fn color_space(&self) -> (space: &'static str)
        ensures
            space@ == "srgb"@,
    {
        "srgb"
    }
}

/// Sum of the bytes, as numbers.
pub open spec fn byte_sum(bytes: Seq<u8>) -> int
    decreases bytes.len(),
{
    if bytes.len() == 0 {
        0
    } else {
        byte_sum(bytes.drop_last()) + bytes.last()
    }
}

/// Byte `i`, or 0 past the end.
pub open spec fn byte_or_zero(bytes: Seq<u8>, i: int) -> u8 {
    if i < bytes.len() { bytes[i] } else { 0 }
}

/// What `inspectImageData` reports of an image's pixels.
#[derive(Debug, Clone, Copy, PartialEq, Eq)]
pub struct ImageDataProbe {
    pub width: u32,
    pub height: u32,
    pub length: usize,
    pub checksum: u32,
    pub first: u8,
    pub second: u8,
    pub third: u8,
    pub fourth: u8,
}

proof fn lemma_byte_sum_step(bytes: Seq<u8>, i: int)
    requires
        0 <= i < bytes.len(),
    ensures
        byte_sum(bytes.take(i + 1)) == byte_sum(bytes.take(i)) + bytes[i],
        byte_sum(bytes.take(i)) <= byte_sum(bytes.take(i + 1)),
{
    assert(bytes.take(i + 1).drop_last() =~= bytes.take(i));
}

/// Whether the bytes sum to at most `u32::MAX`, so that the checksum of
/// `inspect_image_data` can be computed.
pub fn checksum_fits(bytes: &[u8]) -> (fits: bool)
    ensures
        fits == (byte_sum(bytes@) <= u32::MAX),
{
    let n = bytes.len();
    let mut total: u64 = 0;
    let mut i: usize = 0;
    while i < n
        invariant
            n == bytes@.len(),
            i <= n,
            total == byte_sum(bytes@.take(i as int)),
            total <= u32::MAX,
        decreases n - i,
    {
        proof {
            lemma_byte_sum_step(bytes@, i as int);
        }
        total = total + bytes[i] as u64;
        if total > 0xffff_ffff {
            proof {
                lemma_byte_sum_prefix_bound(bytes@, i + 1);
            }
            return false;
        }
        i += 1;
    }
    assert(bytes@.take(n as int) =~= bytes@);
    true
}

proof fn lemma_byte_sum_prefix_bound(bytes: Seq<u8>, k: int)
    requires
        0 <= k <= bytes.len(),
    ensures
        byte_sum(bytes.take(k)) <= byte_sum(bytes),
    decreases bytes.len() - k,
{
    if k < bytes.len() {
        lemma_byte_sum_step(bytes, k);
        lemma_byte_sum_prefix_bound(bytes, k + 1);
    } else {
        assert(bytes.take(k) =~= bytes);
    }
}

/// The size, byte count, byte sum and first four bytes of an image's pixels,
/// as `inspectImageData` reports them.
pub fn inspect_image_data(width: u32, height: u32, bytes: &[u8]) -> (probe: ImageDataProbe)
    requires
        byte_sum(bytes@) <= u32::MAX,
    ensures
        probe == (ImageDataProbe {
            width,
            height,
            length: bytes@.len() as usize,
            checksum: byte_sum(bytes@) as u32,
            first: byte_or_zero(bytes@, 0),
            second: byte_or_zero(bytes@, 1),
            third: byte_or_zero(bytes@, 2),
            fourth: byte_or_zero(bytes@, 3),
        }),
{
    let n = bytes.len();
    let mut checksum: u32 = 0;
    let mut i: usize = 0;
    while i < n
        invariant
            n == bytes@.len(),
            i <= n,
            checksum == byte_sum(bytes@.take(i as int)),
            byte_sum(bytes@) <= u32::MAX,
        decreases n - i,
    {
        proof {
            lemma_byte_sum_step(bytes@, i as int);
            lemma_byte_sum_prefix_bound(bytes@, i + 1);
        }
        checksum = checksum + bytes[i] as u32;
        i += 1;
    }
    assert(bytes@.take(n as int) =~= bytes@);
    ImageDataProbe {
        width,
        height,
        length: n,
        checksum,
        first: if n > 0 { bytes[0] } else { 0 },
        second: if n > 1 { bytes[1] } else { 0 },
        third: if n > 2 { bytes[2] } else { 0 },
        fourth: if n > 3 { bytes[3] } else { 0 },
    }
}

} // verus!
