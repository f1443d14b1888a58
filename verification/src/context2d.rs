use vstd::prelude::*;

use crate::canvas::{clip_copy_region, clip_copy_region_in_range, clip_fits, clip_spec, wrapped_i32, CopyRegion};
use crate::typed_array::{image_data_byte_length, rgba_len, ImageDataError};

verus! {

/// The width or height a `drawImage` call draws at: the one given, else the
/// image's own (as an `i32`).
pub open spec fn draw_extent(given: Option<i32>, natural: u32) -> i32 {
    match given {
        Some(extent) => extent,
        None => wrapped_i32(natural) as i32,
    }
}

/// The region `drawImage(image, dx, dy[, dw, dh])` copies from the image to the canvas.
pub open spec fn draw_image_spec(
    image_width: u32,
    image_height: u32,
    canvas_width: u32,
    canvas_height: u32,
    dx: i32,
    dy: i32,
    dw: Option<i32>,
    dh: Option<i32>,
) -> Option<CopyRegion> {
    clip_spec(image_width, image_height, 0, 0, canvas_width, canvas_height, dx, dy, draw_extent(dw, image_width), draw_extent(dh, image_height))
}

/// `drawImage`'s arithmetic stays within `i32`.
pub open spec fn draw_image_in_range(
    image_width: u32,
    image_height: u32,
    canvas_width: u32,
    canvas_height: u32,
    dx: i32,
    dy: i32,
    dw: Option<i32>,
    dh: Option<i32>,
) -> bool {
    clip_fits(image_width, image_height, 0, 0, canvas_width, canvas_height, dx, dy, draw_extent(dw, image_width), draw_extent(dh, image_height))
}

fn draw_extent_exec(given: Option<i32>, natural: u32) -> (extent: i32)
    ensures
        extent == draw_extent(given, natural),
{
    match given {
        Some(extent) => extent,
        None => {
            if natural <= 0x7fff_ffff {
                natural as i32
            } else {
                let high: i32 = (natural - 0x8000_0000) as i32;
                high + i32::MIN
            }
        },
    }
}

/// The region of the image that `drawImage(image, dx, dy[, dw, dh])` copies
/// to the canvas: the image's top-left `dw` x `dh` block (its own size when
/// not given) placed at (`dx`, `dy`), clipped to both.
pub fn draw_image_region(
    image_width: u32,
    image_height: u32,
    canvas_width: u32,
    canvas_height: u32,
    dx: i32,
    dy: i32,
    dw: Option<i32>,
    dh: Option<i32>,
) -> (region: Option<CopyRegion>)
    requires
        draw_image_in_range(image_width, image_height, canvas_width, canvas_height, dx, dy, dw, dh),
    ensures
        region == draw_image_spec(image_width, image_height, canvas_width, canvas_height, dx, dy, dw, dh),
{
    let draw_width = draw_extent_exec(dw, image_width);
    let draw_height = draw_extent_exec(dh, image_height);
    clip_copy_region(image_width, image_height, 0, 0, canvas_width, canvas_height, dx, dy, draw_width, draw_height)
}

/// Whether `draw_image_region` can run on these arguments without `i32` overflow.
pub fn draw_image_region_in_range(
    image_width: u32,
    image_height: u32,
    canvas_width: u32,
    canvas_height: u32,
    dx: i32,
    dy: i32,
    dw: Option<i32>,
    dh: Option<i32>,
) -> (in_range: bool)
    ensures
        in_range == draw_image_in_range(image_width, image_height, canvas_width, canvas_height, dx, dy, dw, dh),
{
    let draw_width = draw_extent_exec(dw, image_width);
    let draw_height = draw_extent_exec(dh, image_height);
    clip_copy_region_in_range(image_width, image_height, 0, 0, canvas_width, canvas_height, dx, dy, draw_width, draw_height)
}

/// The size of the `ImageData` that `getImageData` makes.
#[derive(Debug, Clone, Copy, PartialEq, Eq)]
pub struct ImageDataSize {
    pub width: u32,
    pub height: u32,
    pub byte_length: u32,
}

/// The size of the `ImageData` `getImageData(sx, sy, width, height)` returns:
/// the width and height must not be negative, and its bytes must fit a `u32`.
pub fn image_data_size(width: i32, height: i32) -> (size: Result<ImageDataSize, ImageDataError>)
    ensures
        width < 0 || height < 0 ==> size == Err::<ImageDataSize, ImageDataError>(ImageDataError::NegativeDimensions),
        width >= 0 && height >= 0 && rgba_len(width as int, height as int) > u32::MAX ==> size == Err::<
            ImageDataSize,
            ImageDataError,
        >(ImageDataError::PixelByteLengthOverflow),
        width >= 0 && height >= 0 && rgba_len(width as int, height as int) <= u32::MAX ==> size == Ok::<
            ImageDataSize,
            ImageDataError,
        >(ImageDataSize { width: width as u32, height: height as u32, byte_length: rgba_len(width as int, height as int) as u32 }),
{
    if width < 0 || height < 0 {
        return Err(ImageDataError::NegativeDimensions);
    }
    let width = width as u32;
    let height = height as u32;
    match image_data_byte_length(width, height) {
        Ok(byte_length) => Ok(ImageDataSize { width, height, byte_length }),
        Err(e) => Err(e),
    }
}

/// The region `getImageData(sx, sy, width, height)` copies from the canvas
/// into the new image data.
pub open spec fn get_image_data_spec(canvas_width: u32, canvas_height: u32, sx: i32, sy: i32, width: u32, height: u32) -> Option<CopyRegion> {
    clip_spec(canvas_width, canvas_height, sx, sy, width, height, 0, 0, width as i32, height as i32)
}

/// The canvas block at (`sx`, `sy`) of `width` x `height` pixels, clipped to
/// the canvas: the region `getImageData` copies into a new `width` x `height`
/// image, whose rows it fills from the bottom up.
pub fn get_image_data_region(canvas_width: u32, canvas_height: u32, sx: i32, sy: i32, width: u32, height: u32) -> (region: Option<CopyRegion>)
    requires
        width <= i32::MAX,
        height <= i32::MAX,
        clip_fits(canvas_width, canvas_height, sx, sy, width, height, 0, 0, width as i32, height as i32),
    ensures
        region == get_image_data_spec(canvas_width, canvas_height, sx, sy, width, height),
{
    clip_copy_region(canvas_width, canvas_height, sx, sy, width, height, 0, 0, width as i32, height as i32)
}

/// Whether `get_image_data_region` can run on these arguments without `i32` overflow.
pub fn get_image_data_region_in_range(canvas_width: u32, canvas_height: u32, sx: i32, sy: i32, width: u32, height: u32) -> (in_range: bool)
    ensures
        in_range == (width <= i32::MAX && height <= i32::MAX && clip_fits(
            canvas_width,
            canvas_height,
            sx,
            sy,
            width,
            height,
            0,
            0,
            width as i32,
            height as i32,
        )),
{
    width <= 0x7fff_ffff && height <= 0x7fff_ffff && clip_copy_region_in_range(
        canvas_width,
        canvas_height,
        sx,
        sy,
        width,
        height,
        0,
        0,
        width as i32,
        height as i32,
    )
}

/// The region `putImageData(image, dx, dy)` copies from the image to the canvas.
pub open spec fn put_image_data_spec(image_width: u32, image_height: u32, canvas_width: u32, canvas_height: u32, dx: i32, dy: i32) -> Option<CopyRegion> {
    clip_spec(
        image_width,
        image_height,
        0,
        0,
        canvas_width,
        canvas_height,
        dx,
        dy,
        wrapped_i32(image_width) as i32,
        wrapped_i32(image_height) as i32,
    )
}

/// `putImageData`'s arithmetic stays within `i32`.
pub open spec fn put_image_data_in_range(image_width: u32, image_height: u32, canvas_width: u32, canvas_height: u32, dx: i32, dy: i32) -> bool {
    clip_fits(
        image_width,
        image_height,
        0,
        0,
        canvas_width,
        canvas_height,
        dx,
        dy,
        wrapped_i32(image_width) as i32,
        wrapped_i32(image_height) as i32,
    )
}

/// The whole image placed at (`dx`, `dy`) and clipped to the canvas: the
/// region `putImageData` copies, reading the image's rows from the bottom up.
pub fn put_image_data_region(image_width: u32, image_height: u32, canvas_width: u32, canvas_height: u32, dx: i32, dy: i32) -> (region: Option<CopyRegion>)
    requires
        put_image_data_in_range(image_width, image_height, canvas_width, canvas_height, dx, dy),
    ensures
        region == put_image_data_spec(image_width, image_height, canvas_width, canvas_height, dx, dy),
{
    let width = draw_extent_exec(None, image_width);
    let height = draw_extent_exec(None, image_height);
    clip_copy_region(image_width, image_height, 0, 0, canvas_width, canvas_height, dx, dy, width, height)
}

/// Whether `put_image_data_region` can run on these arguments without `i32` overflow.
pub fn put_image_data_region_in_range(image_width: u32, image_height: u32, canvas_width: u32, canvas_height: u32, dx: i32, dy: i32) -> (in_range: bool)
    ensures
        in_range == put_image_data_in_range(image_width, image_height, canvas_width, canvas_height, dx, dy),
{
    let width = draw_extent_exec(None, image_width);
    let height = draw_extent_exec(None, image_height);
    clip_copy_region_in_range(image_width, image_height, 0, 0, canvas_width, canvas_height, dx, dy, width, height)
}

} // verus!
