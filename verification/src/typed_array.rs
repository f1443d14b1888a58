use vstd::prelude::*;

verus! {

/// Why an `ImageData` (or a canvas's pixel buffer) cannot be made.
#[derive(Debug, Clone, Copy, PartialEq, Eq)]
pub enum ImageDataError {
    /// width x height x 4 does not fit a `u32`.
    PixelByteLengthOverflow,
    /// width x 4 does not fit a `u32`.
    RowByteLengthOverflow,
    /// The pixel data is not a whole number of rows of the given width.
    LengthDoesNotMatchWidth,
    /// The pixel data does not hold width x height pixels.
    LengthDoesNotMatchDimensions,
    /// The data argument is not an array of bytes.
    DataNotAnArray,
    /// A requested width or height is negative.
    NegativeDimensions,
}

pub open spec fn image_data_error_text(e: ImageDataError) -> Seq<char> {
    match e {
        ImageDataError::PixelByteLengthOverflow => "ImageData pixel byte length overflow"@,
        ImageDataError::RowByteLengthOverflow => "ImageData row byte length overflow"@,
        ImageDataError::LengthDoesNotMatchWidth => "ImageData pixel length does not match width"@,
        ImageDataError::LengthDoesNotMatchDimensions => "ImageData pixel length does not match dimensions"@,
        ImageDataError::DataNotAnArray => "ImageData data must be a Uint8ClampedArray"@,
        ImageDataError::NegativeDimensions => "ImageData dimensions must be non-negative"@,
    }
}

impl ImageDataError {
    /// The message a script sees for this error.
    pub fn message(&self) -> (text: String)
        ensures
            text@ == image_data_error_text(*self),
    {
        match self {
            ImageDataError::PixelByteLengthOverflow => String::from_str("ImageData pixel byte length overflow"),
            ImageDataError::RowByteLengthOverflow => String::from_str("ImageData row byte length overflow"),
            ImageDataError::LengthDoesNotMatchWidth => String::from_str("ImageData pixel length does not match width"),
            ImageDataError::LengthDoesNotMatchDimensions => String::from_str("ImageData pixel length does not match dimensions"),
            ImageDataError::DataNotAnArray => String::from_str("ImageData data must be a Uint8ClampedArray"),
            ImageDataError::NegativeDimensions => String::from_str("ImageData dimensions must be non-negative"),
        }
    }

    /// Whether a script sees this error as a `TypeError` (the others are `RangeError`s).
    pub fn is_type_error(&self) -> (b: bool)
        ensures
            b == (*self == ImageDataError::DataNotAnArray),
    {
        match self {
            ImageDataError::DataNotAnArray => true,
            _ => false,
        }
    }
}

/// Bytes taken by a `width` x `height` RGBA image.
pub open spec fn rgba_len(width: int, height: int) -> int {
    width * height * 4
}

/// The byte length of a `width` x `height` RGBA pixel array, which must fit a `u32`.
pub fn image_data_byte_length(width: u32, height: u32) -> (len: Result<u32, ImageDataError>)
    ensures
        rgba_len(width as int, height as int) <= u32::MAX ==> len == Ok::<u32, ImageDataError>(
            rgba_len(width as int, height as int) as u32,
        ),
        rgba_len(width as int, height as int) > u32::MAX ==> len == Err::<u32, ImageDataError>(
            ImageDataError::PixelByteLengthOverflow,
        ),
{
    match width.checked_mul(height) {
        Some(pixels) => match pixels.checked_mul(4) {
            Some(len) => Ok(len),
            None => Err(ImageDataError::PixelByteLengthOverflow),
        },
        None => {
            assert(width * height * 4 > u32::MAX) by (nonlinear_arith)
                requires
                    width * height > u32::MAX,
            ;
            Err(ImageDataError::PixelByteLengthOverflow)
        },
    }
}

/// Why the bytes of a typed-array view cannot be borrowed from its buffer.
#[derive(Debug, Clone, Copy, PartialEq, Eq)]
pub enum ByteRangeError {
    /// `byteOffset + byteLength` does not fit a `usize`.
    Overflow,
    /// The view reaches past the end of its buffer.
    OutOfBounds,
}

pub open spec fn byte_range_error_text(e: ByteRangeError) -> Seq<char> {
    match e {
        ByteRangeError::Overflow => "RGBA byte range overflow"@,
        ByteRangeError::OutOfBounds => "RGBA byte range is out of bounds"@,
    }
}

impl ByteRangeError {
    /// The message a script sees for this error (a `RangeError`).
    pub fn message(&self) -> (text: String)
        ensures
            text@ == byte_range_error_text(*self),
    {
        match self {
            ByteRangeError::Overflow => String::from_str("RGBA byte range overflow"),
            ByteRangeError::OutOfBounds => String::from_str("RGBA byte range is out of bounds"),
        }
    }
}

/// Where a typed-array view's bytes lie in its buffer: `start..end`.
#[derive(Debug, Clone, Copy, PartialEq, Eq)]
pub struct ByteRange {
    pub start: usize,
    pub end: usize,
}

/// The bytes `byte_offset .. byte_offset + byte_length` of a buffer of
/// `buffer_len` bytes, as a typed array with that offset and length sees them.
pub fn typed_array_byte_range(buffer_len: usize, byte_offset: usize, byte_length: usize) -> (range: Result<ByteRange, ByteRangeError>)
    ensures
        byte_offset + byte_length > usize::MAX ==> range == Err::<ByteRange, ByteRangeError>(ByteRangeError::Overflow),
        byte_offset + byte_length <= usize::MAX && byte_offset + byte_length > buffer_len ==> range == Err::<
            ByteRange,
            ByteRangeError,
        >(ByteRangeError::OutOfBounds),
        byte_offset + byte_length <= buffer_len ==> range == Ok::<ByteRange, ByteRangeError>(
            ByteRange { start: byte_offset, end: (byte_offset + byte_length) as usize },
        ),
{
    match byte_offset.checked_add(byte_length) {
        None => Err(ByteRangeError::Overflow),
        Some(end) => {
            if end > buffer_len {
                Err(ByteRangeError::OutOfBounds)
            } else {
                Ok(ByteRange { start: byte_offset, end })
            }
        },
    }
}

} // verus!
