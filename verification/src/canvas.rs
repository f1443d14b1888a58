use vstd::prelude::*;

use crate::typed_array::{image_data_byte_length, rgba_len, ImageDataError};

verus! {

/// A rectangle of pixels to copy: where it starts in the source, where it
/// lands in the target, and its size in pixels.
#[derive(Debug, Clone, Copy)]
pub struct CopyRegion {
    pub source_x: usize,
    pub source_y: usize,
    pub target_x: usize,
    pub target_y: usize,
    pub width: usize,
    pub height: usize,
}

pub open spec fn min_int(a: int, b: int) -> int {
    if a <= b { a } else { b }
}

pub open spec fn fits_i32(x: int) -> bool {
    i32::MIN <= x <= i32::MAX
}

/// The value of `x as i32` for a `u32`: the same bits read as a signed number.
pub open spec fn wrapped_i32(x: u32) -> int {
    if x <= i32::MAX { x as int } else { x - 0x1_0000_0000 }
}

/// Clipping along one axis. `s` is where the copy starts in the source, `t`
/// where it lands in the target and `n` its length; `source_len` and
/// `target_len` are the two extents. Returns the clipped `(s, t, n)`.
pub open spec fn clip_axis(s: int, t: int, n: int, source_len: int, target_len: int) -> (int, int, int) {
    let n1 = if s < 0 { n + s } else { n };
    let t1 = if s < 0 { t - s } else { t };
    let s1 = if s < 0 { 0 } else { s };
    let n2 = if t1 < 0 { n1 + t1 } else { n1 };
    let s2 = if t1 < 0 { s1 - t1 } else { s1 };
    let t2 = if t1 < 0 { 0 } else { t1 };
    (s2, t2, min_int(min_int(n2, source_len - s2), target_len - t2))
}

/// Every intermediate value of `clip_axis` fits an `i32`.
pub open spec fn clip_axis_fits(s: int, t: int, n: int, source_len: int, target_len: int) -> bool {
    let n1 = if s < 0 { n + s } else { n };
    let t1 = if s < 0 { t - s } else { t };
    let s1 = if s < 0 { 0 } else { s };
    let s2 = if t1 < 0 { s1 - t1 } else { s1 };
    let t2 = if t1 < 0 { 0 } else { t1 };
    &&& (s < 0 ==> fits_i32(n + s) && fits_i32(t - s))
    &&& (t1 < 0 ==> fits_i32(n1 + t1) && fits_i32(s1 - t1))
    &&& fits_i32(source_len - s2)
    &&& fits_i32(target_len - t2)
}

/// The arithmetic of `clip_copy_region` stays within `i32` on these inputs.
pub open spec fn clip_fits(
    source_width: u32,
    source_height: u32,
    source_x: i32,
    source_y: i32,
    target_width: u32,
    target_height: u32,
    target_x: i32,
    target_y: i32,
    width: i32,
    height: i32,
) -> bool {
    &&& clip_axis_fits(source_x as int, target_x as int, width as int, wrapped_i32(source_width), wrapped_i32(target_width))
    &&& clip_axis_fits(source_y as int, target_y as int, height as int, wrapped_i32(source_height), wrapped_i32(target_height))
}

/// The region that `clip_copy_region` returns.
pub open spec fn clip_spec(
    source_width: u32,
    source_height: u32,
    source_x: i32,
    source_y: i32,
    target_width: u32,
    target_height: u32,
    target_x: i32,
    target_y: i32,
    width: i32,
    height: i32,
) -> Option<CopyRegion> {
    let (sx, tx, w) = clip_axis(source_x as int, target_x as int, width as int, wrapped_i32(source_width), wrapped_i32(target_width));
    let (sy, ty, h) = clip_axis(source_y as int, target_y as int, height as int, wrapped_i32(source_height), wrapped_i32(target_height));
    if w <= 0 || h <= 0 {
        None
    } else {
        Some(CopyRegion {
            source_x: sx as usize,
            source_y: sy as usize,
            target_x: tx as usize,
            target_y: ty as usize,
            width: w as usize,
            height: h as usize,
        })
    }
}

/// `x as i32`, written without a truncating cast.
fn u32_as_i32(x: u32) -> (r: i32)
    ensures
        r == wrapped_i32(x),
{
    if x <= 0x7fff_ffff {
        x as i32
    } else {
        let high: i32 = (x - 0x8000_0000) as i32;
        high + i32::MIN
    }
}

fn min_i32(a: i32, b: i32) -> (r: i32)
    ensures
        r == min_int(a as int, b as int),
{
    if a <= b { a } else { b }
}

/// Clips a copy of a `width` x `height` block from (`source_x`, `source_y`)
/// of a source image to (`target_x`, `target_y`) of a target image, so that
/// it reads and writes only pixels inside both images. Returns `None` when
/// nothing is left to copy.
pub fn clip_copy_region(
    source_width: u32,
    source_height: u32,
    source_x: i32,
    source_y: i32,
    target_width: u32,
    target_height: u32,
    target_x: i32,
    target_y: i32,
    width: i32,
    height: i32,
) -> (region: Option<CopyRegion>)
    requires
        clip_fits(source_width, source_height, source_x, source_y, target_width, target_height, target_x, target_y, width, height),
    ensures
        region == clip_spec(source_width, source_height, source_x, source_y, target_width, target_height, target_x, target_y, width, height),
{
    let mut source_x = source_x;
    let mut source_y = source_y;
    let mut target_x = target_x;
    let mut target_y = target_y;
    let mut width = width;
    let mut height = height;

    if source_x < 0 {
        width += source_x;
        target_x -= source_x;
        source_x = 0;
    }
    if source_y < 0 {
        height += source_y;
        target_y -= source_y;
        source_y = 0;
    }
    if target_x < 0 {
        width += target_x;
        source_x -= target_x;
        target_x = 0;
    }
    if target_y < 0 {
        height += target_y;
        source_y -= target_y;
        target_y = 0;
    }

    width = min_i32(min_i32(width, u32_as_i32(source_width) - source_x), u32_as_i32(target_width) - target_x);
    height = min_i32(min_i32(height, u32_as_i32(source_height) - source_y), u32_as_i32(target_height) - target_y);

    if width <= 0 || height <= 0 {
        return None;
    }

    Some(CopyRegion {
        source_x: source_x as usize,
        source_y: source_y as usize,
        target_x: target_x as usize,
        target_y: target_y as usize,
        width: width as usize,
        height: height as usize,
    })
}


/// `target` with `bytes` written from position `offset` on.
pub open spec fn write_bytes(target: Seq<u8>, offset: int, bytes: Seq<u8>) -> Seq<u8> {
    Seq::new(
        target.len(),
        |i: int| if offset <= i < offset + bytes.len() { bytes[i - offset] } else { target[i] },
    )
}

/// The first `rows` row copies applied in order: row `y` copies `row_bytes`
/// bytes from `source_offset(y)` in `source` to `target_offset(y)` in `target`.
pub open spec fn copy_rows(
    target: Seq<u8>,
    source: Seq<u8>,
    source_offset: spec_fn(int) -> int,
    target_offset: spec_fn(int) -> int,
    row_bytes: int,
    rows: nat,
) -> Seq<u8>
    decreases rows,
{
    if rows == 0 {
        target
    } else {
        let y = rows - 1;
        write_bytes(
            copy_rows(target, source, source_offset, target_offset, row_bytes, (rows - 1) as nat),
            target_offset(y),
            source.subrange(source_offset(y), source_offset(y) + row_bytes),
        )
    }
}

/// Byte offset of pixel (`x`, `y`) in an RGBA buffer `stride` pixels wide.
pub open spec fn pixel_offset(x: int, y: int, stride: int) -> int {
    (y * stride + x) * 4
}

/// Row `y` of the region, read top-down from its source.
pub open spec fn source_rows(region: CopyRegion, source_width: u32) -> spec_fn(int) -> int {
    |y: int| pixel_offset(region.source_x as int, region.source_y + y, source_width as int)
}

/// Row `y` of the region, written top-down into its target.
pub open spec fn target_rows(region: CopyRegion, target_width: u32) -> spec_fn(int) -> int {
    |y: int| pixel_offset(region.target_x as int, region.target_y + y, target_width as int)
}

/// Row `y` of the region, read bottom-up from a source `source_height` rows high.
pub open spec fn flipped_source_rows(region: CopyRegion, source_width: u32, source_height: u32) -> spec_fn(int) -> int {
    |y: int| pixel_offset(region.source_x as int, source_height - 1 - (region.source_y + y), source_width as int)
}

/// Row `y` of the region, written bottom-up into a target `target_height` rows high.
pub open spec fn flipped_target_rows(region: CopyRegion, target_width: u32, target_height: u32) -> spec_fn(int) -> int {
    |y: int| pixel_offset(region.target_x as int, target_height - 1 - (region.target_y + y), target_width as int)
}

/// Every row of the region lies inside a buffer of `len` bytes when row `y`
/// starts at `offset(y)`, given that the last row (`last_row`) ends furthest in.
pub open spec fn rows_fit(region: CopyRegion, offset: spec_fn(int) -> int, last_row: int, len: int) -> bool {
    region.height > 0 ==> offset(last_row) + region.width * 4 <= len
}

/// The row numbers `start .. start + height` all fit a `usize`.
pub open spec fn row_numbers_fit(start: usize, height: usize) -> bool {
    height > 0 ==> start + height - 1 <= usize::MAX
}

/// `copy_region` reads and writes only inside `source` and `target`.
pub open spec fn copy_region_fits(
    source_len: int,
    source_width: u32,
    target_len: int,
    target_width: u32,
    region: CopyRegion,
) -> bool {
    &&& region.width * 4 <= usize::MAX
    &&& row_numbers_fit(region.source_y, region.height)
    &&& row_numbers_fit(region.target_y, region.height)
    &&& rows_fit(region, source_rows(region, source_width), region.height - 1, source_len)
    &&& rows_fit(region, target_rows(region, target_width), region.height - 1, target_len)
}

/// `copy_region_to_flipped_rows` reads and writes only inside `source` and `target`.
pub open spec fn copy_to_flipped_fits(
    source_len: int,
    source_width: u32,
    target_len: int,
    target_width: u32,
    target_height: u32,
    region: CopyRegion,
) -> bool {
    &&& region.width * 4 <= usize::MAX
    &&& (region.height > 0 ==> region.target_y + region.height <= target_height)
    &&& row_numbers_fit(region.source_y, region.height)
    &&& rows_fit(region, source_rows(region, source_width), region.height - 1, source_len)
    &&& rows_fit(region, flipped_target_rows(region, target_width, target_height), 0, target_len)
}

/// `copy_region_from_flipped_rows` reads and writes only inside `source` and `target`.
pub open spec fn copy_from_flipped_fits(
    source_len: int,
    source_width: u32,
    source_height: u32,
    target_len: int,
    target_width: u32,
    region: CopyRegion,
) -> bool {
    &&& region.width * 4 <= usize::MAX
    &&& (region.height > 0 ==> region.source_y + region.height <= source_height)
    &&& row_numbers_fit(region.target_y, region.height)
    &&& rows_fit(region, flipped_source_rows(region, source_width, source_height), 0, source_len)
    &&& rows_fit(region, target_rows(region, target_width), region.height - 1, target_len)
}

pub proof fn lemma_row_offset_monotonic(x: int, y1: int, y2: int, stride: int)
    requires
        0 <= x,
        0 <= y1 <= y2,
        0 <= stride,
    ensures
        0 <= pixel_offset(x, y1, stride) <= pixel_offset(x, y2, stride),
{
    assert(0 <= y1 * stride <= y2 * stride) by (nonlinear_arith)
        requires
            0 <= y1 <= y2,
            0 <= stride,
    ;
}

/// Copies `count` bytes from `source[source_offset..]` to `target[target_offset..]`.
fn copy_bytes(source: &[u8], source_offset: usize, target: &mut [u8], target_offset: usize, count: usize)
    requires
        source_offset + count <= source@.len(),
        target_offset + count <= old(target)@.len(),
    ensures
        final(target)@ == write_bytes(
            old(target)@,
            target_offset as int,
            source@.subrange(source_offset as int, source_offset + count),
        ),
{
    let ghost start = target@;
    let source_len = source.len();
    let target_len = target.len();
    let mut k: usize = 0;
    while k < count
        invariant
            k <= count,
            source_offset + count <= source@.len(),
            target_offset + count <= start.len(),
            target@.len() == start.len(),
            source_len == source@.len(),
            target_len == start.len(),
            target@ == write_bytes(start, target_offset as int, source@.subrange(source_offset as int, source_offset + k)),
        decreases count - k,
    {
        target[target_offset + k] = source[source_offset + k];
        k += 1;
        assert(target@ =~= write_bytes(start, target_offset as int, source@.subrange(source_offset as int, source_offset + k)));
    }
}

/// Copies the region's rows from `source` (`source_width` pixels wide) to
/// `target` (`target_width` pixels wide), top row first.
pub fn copy_region(source: &[u8], source_width: u32, target: &mut [u8], target_width: u32, region: CopyRegion)
    requires
        copy_region_fits(source@.len() as int, source_width, old(target)@.len() as int, target_width, region),
    ensures
        final(target)@ == copy_rows(
            old(target)@,
            source@,
            source_rows(region, source_width),
            target_rows(region, target_width),
            region.width * 4,
            region.height as nat,
        ),
{
    let ghost start = target@;
    let source_len = source.len();
    let target_len = target.len();
    let row_bytes = region.width * 4;
    let mut y: usize = 0;
    while y < region.height
        invariant
            y <= region.height,
            row_bytes == region.width * 4,
            target@.len() == start.len(),
            source_len == source@.len(),
            target_len == start.len(),
            copy_region_fits(source@.len() as int, source_width, start.len() as int, target_width, region),
            target@ == copy_rows(start, source@, source_rows(region, source_width), target_rows(region, target_width), row_bytes as int, y as nat),
        decreases region.height - y,
    {
        proof {
            lemma_row_offset_monotonic(region.source_x as int, region.source_y + y, region.source_y + region.height - 1, source_width as int);
            lemma_row_offset_monotonic(region.target_x as int, region.target_y + y, region.target_y + region.height - 1, target_width as int);
        }
        let source_offset = ((region.source_y + y) * source_width as usize + region.source_x) * 4;
        let target_offset = ((region.target_y + y) * target_width as usize + region.target_x) * 4;
        copy_bytes(source, source_offset, target, target_offset, row_bytes);
        y += 1;
    }
}


/// Copies the region's rows from `source` (`source_width` pixels wide),
/// top row first, into `target` (`target_width` x `target_height`) counting
/// target rows from the bottom.
pub fn copy_region_to_flipped_rows(
    source: &[u8],
    source_width: u32,
    target: &mut [u8],
    target_width: u32,
    target_height: u32,
    region: CopyRegion,
)
    requires
        copy_to_flipped_fits(source@.len() as int, source_width, old(target)@.len() as int, target_width, target_height, region),
    ensures
        final(target)@ == copy_rows(
            old(target)@,
            source@,
            source_rows(region, source_width),
            flipped_target_rows(region, target_width, target_height),
            region.width * 4,
            region.height as nat,
        ),
{
    let ghost start = target@;
    let source_len = source.len();
    let target_len = target.len();
    let row_bytes = region.width * 4;
    let mut y: usize = 0;
    while y < region.height
        invariant
            y <= region.height,
            row_bytes == region.width * 4,
            target@.len() == start.len(),
            source_len == source@.len(),
            target_len == start.len(),
            copy_to_flipped_fits(source@.len() as int, source_width, start.len() as int, target_width, target_height, region),
            target@ == copy_rows(start, source@, source_rows(region, source_width), flipped_target_rows(region, target_width, target_height), row_bytes as int, y as nat),
        decreases region.height - y,
    {
        proof {
            lemma_row_offset_monotonic(region.source_x as int, region.source_y + y, region.source_y + region.height - 1, source_width as int);
            lemma_row_offset_monotonic(
                region.target_x as int,
                target_height - 1 - (region.target_y + y),
                target_height - 1 - region.target_y,
                target_width as int,
            );
        }
        let source_offset = ((region.source_y + y) * source_width as usize + region.source_x) * 4;
        let flipped_target_y = target_height as usize - 1 - (region.target_y + y);
        let target_offset = (flipped_target_y * target_width as usize + region.target_x) * 4;
        copy_bytes(source, source_offset, target, target_offset, row_bytes);
        y += 1;
    }
}

/// Copies the region's rows from `source` (`source_width` x `source_height`),
/// counting source rows from the bottom, into `target` (`target_width`
/// pixels wide), top row first.
pub fn copy_region_from_flipped_rows(
    source: &[u8],
    source_width: u32,
    source_height: u32,
    target: &mut [u8],
    target_width: u32,
    region: CopyRegion,
)
    requires
        copy_from_flipped_fits(source@.len() as int, source_width, source_height, old(target)@.len() as int, target_width, region),
    ensures
        final(target)@ == copy_rows(
            old(target)@,
            source@,
            flipped_source_rows(region, source_width, source_height),
            target_rows(region, target_width),
            region.width * 4,
            region.height as nat,
        ),
{
    let ghost start = target@;
    let source_len = source.len();
    let target_len = target.len();
    let row_bytes = region.width * 4;
    let mut y: usize = 0;
    while y < region.height
        invariant
            y <= region.height,
            row_bytes == region.width * 4,
            target@.len() == start.len(),
            source_len == source@.len(),
            target_len == start.len(),
            copy_from_flipped_fits(source@.len() as int, source_width, source_height, start.len() as int, target_width, region),
            target@ == copy_rows(start, source@, flipped_source_rows(region, source_width, source_height), target_rows(region, target_width), row_bytes as int, y as nat),
        decreases region.height - y,
    {
        proof {
            lemma_row_offset_monotonic(
                region.source_x as int,
                source_height - 1 - (region.source_y + y),
                source_height - 1 - region.source_y,
                source_width as int,
            );
            lemma_row_offset_monotonic(region.target_x as int, region.target_y + y, region.target_y + region.height - 1, target_width as int);
        }
        let flipped_source_y = source_height as usize - 1 - (region.source_y + y);
        let source_offset = (flipped_source_y * source_width as usize + region.source_x) * 4;
        let target_offset = ((region.target_y + y) * target_width as usize + region.target_x) * 4;
        copy_bytes(source, source_offset, target, target_offset, row_bytes);
        y += 1;
    }
}


/// A canvas element's size, and whether it holds a pixel buffer yet. The
/// buffer itself (width x height x 4 bytes, RGBA) lives with the script.
#[derive(Debug, Clone, Copy, PartialEq, Eq)]
pub struct NativeCanvas {
    width: u32,
    height: u32,
    has_pixels: bool,
}

impl NativeCanvas {
    pub closed spec fn spec_width(&self) -> u32 {
        self.width
    }

    pub closed spec fn spec_height(&self) -> u32 {
        self.height
    }

    pub closed spec fn spec_has_pixels(&self) -> bool {
        self.has_pixels
    }

    /// A new canvas: 300 x 150, with no pixel buffer yet.
    pub fn new() -> (canvas: NativeCanvas)
        ensures
            canvas.spec_width() == 300,
            canvas.spec_height() == 150,
            !canvas.spec_has_pixels(),
    {
        NativeCanvas { width: 300, height: 150, has_pixels: false }
    }

    pub fn width(&self) -> (w: u32)
        ensures
            w == self.spec_width(),
    {
        self.width
    }

    pub fn height(&self) -> (h: u32)
        ensures
            h == self.spec_height(),
    {
        self.height
    }

    pub fn width_value(&self) -> (w: u32)
        ensures
            w == self.spec_width(),
    {
        self.width
    }

    pub fn height_value(&self) -> (h: u32)
        ensures
            h == self.spec_height(),
    {
        self.height
    }

    /// Sets the width; a canvas whose width changes drops its pixel buffer.
    pub fn set_width(&mut self, width: u32)
        ensures
            final(self).spec_width() == width,
            final(self).spec_height() == old(self).spec_height(),
            final(self).spec_has_pixels() == (old(self).spec_has_pixels() && width == old(self).spec_width()),
    {
        if width != self.width {
            self.width = width;
            self.has_pixels = false;
        }
    }

    /// Sets the height; a canvas whose height changes drops its pixel buffer.
    pub fn set_height(&mut self, height: u32)
        ensures
            final(self).spec_height() == height,
            final(self).spec_width() == old(self).spec_width(),
            final(self).spec_has_pixels() == (old(self).spec_has_pixels() && height == old(self).spec_height()),
    {
        if height != self.height {
            self.height = height;
            self.has_pixels = false;
        }
    }

    /// Whether the canvas holds a pixel buffer.
    pub fn has_pixels(&self) -> (b: bool)
        ensures
            b == self.spec_has_pixels(),
    {
        self.has_pixels
    }

    /// Records that the canvas now holds a pixel buffer.
    pub fn set_pixels(&mut self)
        ensures
            final(self).spec_width() == old(self).spec_width(),
            final(self).spec_height() == old(self).spec_height(),
            final(self).spec_has_pixels(),
    {
        self.has_pixels = true;
    }

    /// The size of the zero-filled pixel buffer the canvas needs now: `None`
    /// when it already has one, else width x height x 4 bytes, which must
    /// fit a `u32`.
    pub fn pixels_to_allocate(&self) -> (len: Result<Option<u32>, ImageDataError>)
        ensures
            self.spec_has_pixels() ==> len == Ok::<Option<u32>, ImageDataError>(None),
            !self.spec_has_pixels() && rgba_len(self.spec_width() as int, self.spec_height() as int) <= u32::MAX
                ==> len == Ok::<Option<u32>, ImageDataError>(Some(rgba_len(self.spec_width() as int, self.spec_height() as int) as u32)),
            !self.spec_has_pixels() && rgba_len(self.spec_width() as int, self.spec_height() as int) > u32::MAX
                ==> len == Err::<Option<u32>, ImageDataError>(ImageDataError::PixelByteLengthOverflow),
    {
        if self.has_pixels {
            return Ok(None);
        }
        match image_data_byte_length(self.width, self.height) {
            Ok(len) => Ok(Some(len)),
            Err(e) => Err(e),
        }
    }
}

fn fits_i32_exec(x: i64) -> (b: bool)
    ensures
        b == fits_i32(x as int),
{
    -0x8000_0000 <= x && x <= 0x7fff_ffff
}

fn clip_axis_fits_exec(s: i32, t: i32, n: i32, source_len: u32, target_len: u32) -> (b: bool)
    ensures
        b == clip_axis_fits(s as int, t as int, n as int, wrapped_i32(source_len), wrapped_i32(target_len)),
{
    let s = s as i64;
    let t = t as i64;
    let n = n as i64;
    let source_len = u32_as_i32(source_len) as i64;
    let target_len = u32_as_i32(target_len) as i64;
    let mut fits = true;
    if s < 0 {
        fits = fits && fits_i32_exec(n + s) && fits_i32_exec(t - s);
    }
    let n1 = if s < 0 { n + s } else { n };
    let t1 = if s < 0 { t - s } else { t };
    let s1 = if s < 0 { 0 } else { s };
    if t1 < 0 {
        fits = fits && fits_i32_exec(n1 + t1) && fits_i32_exec(s1 - t1);
    }
    let s2 = if t1 < 0 { s1 - t1 } else { s1 };
    let t2 = if t1 < 0 { 0 } else { t1 };
    fits && fits_i32_exec(source_len - s2) && fits_i32_exec(target_len - t2)
}

/// Whether `clip_copy_region` can run on these arguments without `i32` overflow.
pub fn clip_copy_region_in_range(
    source_width: u32,
    source_height: u32,
    source_x: i32,
    source_y: i32,
    target_width: u32,
    target_height: u32,
    target_x: i32,
    target_y: i32,
    width: i32,
    height: i32,
) -> (in_range: bool)
    ensures
        in_range == clip_fits(source_width, source_height, source_x, source_y, target_width, target_height, target_x, target_y, width, height),
{
    clip_axis_fits_exec(source_x, target_x, width, source_width, target_width)
        && clip_axis_fits_exec(source_y, target_y, height, source_height, target_height)
}

/// Whether a row of `width` pixels starting at pixel (`x`, `row`) of an image
/// `stride` pixels wide ends within `len` bytes.
fn row_ends_within(x: usize, row: usize, stride: u32, width: usize, len: usize) -> (within: bool)
    ensures
        within == (pixel_offset(x as int, row as int, stride as int) + width * 4 <= len),
{
    assert(row as u128 * stride as u128 <= 0xffff_ffff_ffff_ffff_ffff_ffff) by (nonlinear_arith)
        requires
            row <= 0xffff_ffff_ffff_ffff,
            stride <= 0xffff_ffff,
    ;
    let row_start: u128 = row as u128 * stride as u128;
    let end: u128 = (row_start + x as u128) * 4 + width as u128 * 4;
    end <= len as u128
}

/// Whether `copy_region` stays inside `source` and `target` (of these lengths).
pub fn copy_region_in_bounds(source_len: usize, source_width: u32, target_len: usize, target_width: u32, region: CopyRegion) -> (in_bounds: bool)
    ensures
        in_bounds == copy_region_fits(source_len as int, source_width, target_len as int, target_width, region),
{
    if region.width > usize::MAX / 4 {
        return false;
    }
    if region.height == 0 {
        return true;
    }
    if region.source_y > usize::MAX - (region.height - 1) || region.target_y > usize::MAX - (region.height - 1) {
        return false;
    }
    let last = region.height - 1;
    row_ends_within(region.source_x, region.source_y + last, source_width, region.width, source_len)
        && row_ends_within(region.target_x, region.target_y + last, target_width, region.width, target_len)
}

/// Whether `copy_region_to_flipped_rows` stays inside `source` and `target`.
pub fn copy_to_flipped_in_bounds(
    source_len: usize,
    source_width: u32,
    target_len: usize,
    target_width: u32,
    target_height: u32,
    region: CopyRegion,
) -> (in_bounds: bool)
    ensures
        in_bounds == copy_to_flipped_fits(source_len as int, source_width, target_len as int, target_width, target_height, region),
{
    if region.width > usize::MAX / 4 {
        return false;
    }
    if region.height == 0 {
        return true;
    }
    if region.source_y > usize::MAX - (region.height - 1) {
        return false;
    }
    if region.target_y > target_height as usize || region.height > target_height as usize - region.target_y {
        return false;
    }
    let last = region.height - 1;
    row_ends_within(region.source_x, region.source_y + last, source_width, region.width, source_len)
        && row_ends_within(region.target_x, target_height as usize - 1 - region.target_y, target_width, region.width, target_len)
}

/// Whether `copy_region_from_flipped_rows` stays inside `source` and `target`.
pub fn copy_from_flipped_in_bounds(
    source_len: usize,
    source_width: u32,
    source_height: u32,
    target_len: usize,
    target_width: u32,
    region: CopyRegion,
) -> (in_bounds: bool)
    ensures
        in_bounds == copy_from_flipped_fits(source_len as int, source_width, source_height, target_len as int, target_width, region),
{
    if region.width > usize::MAX / 4 {
        return false;
    }
    if region.height == 0 {
        return true;
    }
    if region.target_y > usize::MAX - (region.height - 1) {
        return false;
    }
    if region.source_y > source_height as usize || region.height > source_height as usize - region.source_y {
        return false;
    }
    let last = region.height - 1;
    row_ends_within(region.source_x, source_height as usize - 1 - region.source_y, source_width, region.width, source_len)
        && row_ends_within(region.target_x, region.target_y + last, target_width, region.width, target_len)
}

/// Whether `getContext(context_id)` gives a context: only `"2d"` does.
pub fn supports_context(context_id: &String) -> (supported: bool)
    ensures
        supported == (context_id@ == "2d"@),
{
    let two_d = String::from_str("2d");
    *context_id == two_d
}

} // verus!
