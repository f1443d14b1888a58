use vstd::prelude::*;

use crate::context2d::{draw_image_spec, get_image_data_spec, put_image_data_spec};
use crate::typed_array::rgba_len;

use crate::canvas::{
    clip_axis, clip_spec, copy_from_flipped_fits, copy_region_fits, copy_rows, copy_to_flipped_fits, flipped_source_rows,
    flipped_target_rows, lemma_row_offset_monotonic, pixel_offset, source_rows, target_rows, write_bytes,
    CopyRegion,
};

verus! {

/// No two of the first `rows` rows overlap.
pub open spec fn rows_disjoint(offset: spec_fn(int) -> int, row_bytes: int, rows: int) -> bool {
    forall|y1: int, y2: int|
        #![trigger offset(y1), offset(y2)]
        0 <= y1 < rows && 0 <= y2 < rows && y1 != y2 ==> offset(y1) + row_bytes <= offset(y2) || offset(y2)
            + row_bytes <= offset(y1)
}

/// Each of the first `rows` rows lies inside a buffer of `len` bytes.
pub open spec fn rows_within(offset: spec_fn(int) -> int, row_bytes: int, rows: int, len: int) -> bool {
    forall|y: int| #![trigger offset(y)] 0 <= y < rows ==> 0 <= offset(y) && offset(y) + row_bytes <= len
}

/// Byte `i` lies in one of the first `rows` rows.
pub open spec fn in_some_row(offset: spec_fn(int) -> int, row_bytes: int, rows: int, i: int) -> bool {
    exists|y: int| #![trigger offset(y)] 0 <= y < rows && offset(y) <= i < offset(y) + row_bytes
}

/// What a sequence of non-overlapping row copies leaves in the target: each
/// copied byte comes from its row in the source, and every other byte is kept.
pub proof fn lemma_copy_rows_effect(
    target: Seq<u8>,
    source: Seq<u8>,
    source_offset: spec_fn(int) -> int,
    target_offset: spec_fn(int) -> int,
    row_bytes: int,
    rows: nat,
)
    requires
        row_bytes >= 0,
        rows_disjoint(target_offset, row_bytes, rows as int),
        rows_within(target_offset, row_bytes, rows as int, target.len() as int),
        rows_within(source_offset, row_bytes, rows as int, source.len() as int),
    ensures
        copy_rows(target, source, source_offset, target_offset, row_bytes, rows).len() == target.len(),
        forall|y: int, i: int|
            #![trigger copy_rows(target, source, source_offset, target_offset, row_bytes, rows)[i], target_offset(y)]
            0 <= y < rows && target_offset(y) <= i < target_offset(y) + row_bytes ==> copy_rows(
                target,
                source,
                source_offset,
                target_offset,
                row_bytes,
                rows,
            )[i] == source[source_offset(y) + (i - target_offset(y))],
        forall|i: int|
            0 <= i < target.len() && !in_some_row(target_offset, row_bytes, rows as int, i) ==> #[trigger] copy_rows(
                target,
                source,
                source_offset,
                target_offset,
                row_bytes,
                rows,
            )[i] == target[i],
    decreases rows,
{
    if rows > 0 {
        let n = (rows - 1) as nat;
        lemma_copy_rows_effect(target, source, source_offset, target_offset, row_bytes, n);
        let prev = copy_rows(target, source, source_offset, target_offset, row_bytes, n);
        let result = copy_rows(target, source, source_offset, target_offset, row_bytes, rows);
        let last = target_offset(n as int);
        assert(result == write_bytes(prev, last, source.subrange(source_offset(n as int), source_offset(n as int) + row_bytes)));
        assert forall|y: int, i: int|
            0 <= y < rows && target_offset(y) <= i < target_offset(y) + row_bytes implies #[trigger] result[i]
            == source[source_offset(y) + (i - #[trigger] target_offset(y))] by {
            if y < n {
                assert(target_offset(y) + row_bytes <= last || last + row_bytes <= target_offset(y));
                assert(prev[i] == source[source_offset(y) + (i - target_offset(y))]);
            }
        }
        assert forall|i: int|
            0 <= i < target.len() && !in_some_row(target_offset, row_bytes, rows as int, i) implies #[trigger] result[i]
            == target[i] by {
            if in_some_row(target_offset, row_bytes, n as int, i) {
                let y = choose|y: int| #![trigger target_offset(y)] 0 <= y < n && target_offset(y) <= i < target_offset(y) + row_bytes;
                assert(0 <= y < rows && target_offset(y) <= i < target_offset(y) + row_bytes);
            }
            assert(!(last <= i < last + row_bytes));
        }
    }
}


proof fn lemma_stride_gap(y1: int, y2: int, stride: int)
    requires
        0 <= y1 < y2,
        0 <= stride,
    ensures
        y1 * stride + stride <= y2 * stride,
{
    assert(y1 * stride + stride <= y2 * stride) by (nonlinear_arith)
        requires
            0 <= y1 < y2,
            0 <= stride,
    ;
}

/// Rows `base + y` of an image `stride` pixels wide, each `width` pixels from
/// column `x`, go top-down, and do not overlap when `width <= stride`.
proof fn lemma_rows_going_down(offset: spec_fn(int) -> int, x: int, base: int, stride: int, width: int, rows: int, len: int)
    requires
        forall|y: int| #[trigger] offset(y) == pixel_offset(x, base + y, stride),
        0 <= x,
        0 <= base,
        0 <= width <= stride,
        rows > 0 ==> offset(rows - 1) + width * 4 <= len,
    ensures
        rows_disjoint(offset, width * 4, rows),
        rows_within(offset, width * 4, rows, len),
{
    assert forall|y1: int, y2: int|
        0 <= y1 < rows && 0 <= y2 < rows && y1 != y2 implies #[trigger] offset(y1) + width * 4 <= #[trigger] offset(y2)
        || offset(y2) + width * 4 <= offset(y1) by {
        if y1 < y2 {
            lemma_stride_gap(base + y1, base + y2, stride);
        } else {
            lemma_stride_gap(base + y2, base + y1, stride);
        }
    }
    assert forall|y: int| 0 <= y < rows implies 0 <= #[trigger] offset(y) && offset(y) + width * 4 <= len by {
        lemma_row_offset_monotonic(x, base + y, base + rows - 1, stride);
    }
}

/// Rows `top - y` of an image `stride` pixels wide go bottom-up, and do not
/// overlap when `width <= stride`.
proof fn lemma_rows_going_up(offset: spec_fn(int) -> int, x: int, top: int, stride: int, width: int, rows: int, len: int)
    requires
        forall|y: int| #[trigger] offset(y) == pixel_offset(x, top - y, stride),
        0 <= x,
        rows > 0 ==> top - (rows - 1) >= 0,
        0 <= width <= stride,
        rows > 0 ==> offset(0) + width * 4 <= len,
    ensures
        rows_disjoint(offset, width * 4, rows),
        rows_within(offset, width * 4, rows, len),
{
    assert forall|y1: int, y2: int|
        0 <= y1 < rows && 0 <= y2 < rows && y1 != y2 implies #[trigger] offset(y1) + width * 4 <= #[trigger] offset(y2)
        || offset(y2) + width * 4 <= offset(y1) by {
        if y1 < y2 {
            lemma_stride_gap(top - y2, top - y1, stride);
        } else {
            lemma_stride_gap(top - y1, top - y2, stride);
        }
    }
    assert forall|y: int| 0 <= y < rows implies 0 <= #[trigger] offset(y) && offset(y) + width * 4 <= len by {
        lemma_row_offset_monotonic(x, top - y, top, stride);
    }
}

/// The same copy seen from the other side: source and target swap places.
pub open spec fn mirrored(region: CopyRegion) -> CopyRegion {
    CopyRegion {
        source_x: region.target_x,
        source_y: region.target_y,
        target_x: region.source_x,
        target_y: region.source_y,
        width: region.width,
        height: region.height,
    }
}

/// What `copy_region_to_flipped_rows` leaves in `data` after reading `region` of `canvas`.
pub open spec fn read_flipped(canvas: Seq<u8>, canvas_width: u32, data: Seq<u8>, data_width: u32, data_height: u32, region: CopyRegion) -> Seq<u8> {
    copy_rows(
        data,
        canvas,
        source_rows(region, canvas_width),
        flipped_target_rows(region, data_width, data_height),
        region.width * 4,
        region.height as nat,
    )
}

/// What `copy_region_from_flipped_rows` leaves in `canvas` after writing `region` of `data` back.
pub open spec fn write_flipped(data: Seq<u8>, data_width: u32, data_height: u32, canvas: Seq<u8>, canvas_width: u32, region: CopyRegion) -> Seq<u8> {
    copy_rows(
        canvas,
        data,
        flipped_source_rows(region, data_width, data_height),
        target_rows(region, canvas_width),
        region.width * 4,
        region.height as nat,
    )
}

/// Reading a region of a buffer into bottom-up rows and writing those rows
/// back with the mirrored region leaves the buffer as it was.
pub proof fn lemma_flipped_round_trip(
    canvas: Seq<u8>,
    canvas_width: u32,
    data: Seq<u8>,
    data_width: u32,
    data_height: u32,
    region: CopyRegion,
)
    requires
        copy_to_flipped_fits(canvas.len() as int, canvas_width, data.len() as int, data_width, data_height, region),
        region.width <= canvas_width,
        region.width <= data_width,
    ensures
        copy_from_flipped_fits(
            read_flipped(canvas, canvas_width, data, data_width, data_height, region).len() as int,
            data_width,
            data_height,
            canvas.len() as int,
            canvas_width,
            mirrored(region),
        ),
        write_flipped(
            read_flipped(canvas, canvas_width, data, data_width, data_height, region),
            data_width,
            data_height,
            canvas,
            canvas_width,
            mirrored(region),
        ) == canvas,
{
    let rb = region.width * 4;
    let h = region.height as int;
    let canvas_rows = source_rows(region, canvas_width);
    let data_rows = flipped_target_rows(region, data_width, data_height);
    let back = mirrored(region);
    assert(forall|y: int| #[trigger] canvas_rows(y) == pixel_offset(region.source_x as int, region.source_y + y, canvas_width as int));
    assert(forall|y: int| #[trigger] data_rows(y) == pixel_offset(region.target_x as int, (data_height - 1 - region.target_y) - y, data_width as int));
    lemma_rows_going_down(canvas_rows, region.source_x as int, region.source_y as int, canvas_width as int, region.width as int, h, canvas.len() as int);
    lemma_rows_going_up(data_rows, region.target_x as int, data_height - 1 - region.target_y, data_width as int, region.width as int, h, data.len() as int);
    lemma_copy_rows_effect(data, canvas, canvas_rows, data_rows, rb, region.height as nat);
    let read = read_flipped(canvas, canvas_width, data, data_width, data_height, region);
    assert(flipped_source_rows(back, data_width, data_height) == data_rows);
    assert(target_rows(back, canvas_width) == canvas_rows);
    lemma_copy_rows_effect(canvas, read, data_rows, canvas_rows, rb, region.height as nat);
    let written = write_flipped(read, data_width, data_height, canvas, canvas_width, back);
    assert forall|i: int| 0 <= i < canvas.len() implies #[trigger] written[i] == canvas[i] by {
        if in_some_row(canvas_rows, rb, h, i) {
            let y = choose|y: int| #![trigger canvas_rows(y)] 0 <= y < h && canvas_rows(y) <= i < canvas_rows(y) + rb;
            assert(written[i] == read[data_rows(y) + (i - canvas_rows(y))]);
        }
    }
    assert(written =~= canvas);
}


/// Pixel (`x`, `y`) lies in the target rectangle of `region`.
pub open spec fn in_target_rect(region: CopyRegion, x: int, y: int) -> bool {
    &&& region.target_x <= x < region.target_x + region.width
    &&& region.target_y <= y < region.target_y + region.height
}

/// What `copy_region` leaves in `target`.
pub open spec fn copied(source: Seq<u8>, source_width: u32, target: Seq<u8>, target_width: u32, region: CopyRegion) -> Seq<u8> {
    copy_rows(
        target,
        source,
        source_rows(region, source_width),
        target_rows(region, target_width),
        region.width * 4,
        region.height as nat,
    )
}

proof fn lemma_pixel_in_row(x: int, y: int, k: int, stride: int, row_x: int, row_y: int, width: int)
    requires
        0 <= x < stride,
        0 <= y,
        0 <= row_y,
        0 <= k < 4,
        0 <= row_x,
        row_x + width <= stride,
        0 <= width,
    ensures
        (pixel_offset(row_x, row_y, stride) <= pixel_offset(x, y, stride) + k < pixel_offset(row_x, row_y, stride)
            + width * 4) <==> (y == row_y && row_x <= x < row_x + width),
{
    if y < row_y {
        lemma_stride_gap(y, row_y, stride);
    } else if y > row_y {
        lemma_stride_gap(row_y, y, stride);
    }
}

/// `copy_region` gives each pixel of the target rectangle the matching pixel
/// of the source rectangle and leaves every other pixel of the target as it was.
pub proof fn lemma_copy_region_pixels(
    source: Seq<u8>,
    source_width: u32,
    target: Seq<u8>,
    target_width: u32,
    region: CopyRegion,
)
    requires
        copy_region_fits(source.len() as int, source_width, target.len() as int, target_width, region),
        region.target_x + region.width <= target_width,
    ensures
        copied(source, source_width, target, target_width, region).len() == target.len(),
        forall|x: int, y: int, k: int|
            #![trigger copied(source, source_width, target, target_width, region)[pixel_offset(x, y, target_width as int) + k]]
            in_target_rect(region, x, y) && 0 <= k < 4 ==> copied(source, source_width, target, target_width, region)[
                pixel_offset(x, y, target_width as int) + k] == source[pixel_offset(
                x - region.target_x + region.source_x,
                y - region.target_y + region.source_y,
                source_width as int,
            ) + k],
        forall|x: int, y: int, k: int|
            #![trigger copied(source, source_width, target, target_width, region)[pixel_offset(x, y, target_width as int) + k]]
            0 <= x < target_width && 0 <= y && 0 <= k < 4 && pixel_offset(x, y, target_width as int) + k < target.len()
                && !in_target_rect(region, x, y) ==> copied(source, source_width, target, target_width, region)[
                pixel_offset(x, y, target_width as int) + k] == target[pixel_offset(x, y, target_width as int) + k],
{
    let rb = region.width * 4;
    let h = region.height as int;
    let tw = target_width as int;
    let from = source_rows(region, source_width);
    let to = target_rows(region, target_width);
    assert(forall|y: int| #[trigger] from(y) == pixel_offset(region.source_x as int, region.source_y + y, source_width as int));
    assert(forall|y: int| #[trigger] to(y) == pixel_offset(region.target_x as int, region.target_y + y, tw));
    assert(rows_within(from, rb, h, source.len() as int)) by {
        assert forall|y: int| 0 <= y < h implies 0 <= #[trigger] from(y) && from(y) + rb <= source.len() by {
            lemma_row_offset_monotonic(region.source_x as int, region.source_y + y, region.source_y + h - 1, source_width as int);
        }
    }
    lemma_rows_going_down(to, region.target_x as int, region.target_y as int, tw, region.width as int, h, target.len() as int);
    lemma_copy_rows_effect(target, source, from, to, rb, region.height as nat);
    let result = copied(source, source_width, target, target_width, region);
    assert forall|x: int, y: int, k: int| in_target_rect(region, x, y) && 0 <= k < 4 implies #[trigger] result[
        pixel_offset(x, y, tw) + k] == source[pixel_offset(
        x - region.target_x + region.source_x,
        y - region.target_y + region.source_y,
        source_width as int,
    ) + k] by {
        let yy = y - region.target_y;
        lemma_pixel_in_row(x, y, k, tw, region.target_x as int, region.target_y + yy, region.width as int);
        assert(to(yy) <= pixel_offset(x, y, tw) + k < to(yy) + rb);
    }
    assert forall|x: int, y: int, k: int|
        0 <= x < tw && 0 <= y && 0 <= k < 4 && pixel_offset(x, y, tw) + k < target.len() && !in_target_rect(region, x, y)
        implies #[trigger] result[pixel_offset(x, y, tw) + k] == target[pixel_offset(x, y, tw) + k] by {
        let i = pixel_offset(x, y, tw) + k;
        if in_some_row(to, rb, h, i) {
            let yy = choose|yy: int| #![trigger to(yy)] 0 <= yy < h && to(yy) <= i < to(yy) + rb;
            lemma_pixel_in_row(x, y, k, tw, region.target_x as int, region.target_y + yy, region.width as int);
        }
        assert(0 <= i) by {
            lemma_row_offset_monotonic(x, 0, y, tw);
        }
    }
}


/// Offset `x` of a requested copy along one axis reads inside the source and
/// writes inside the target.
pub open spec fn axis_wanted(s: int, t: int, n: int, source_len: int, target_len: int, x: int) -> bool {
    &&& s <= x < s + n
    &&& 0 <= x < source_len
    &&& 0 <= x + (t - s) < target_len
}

proof fn lemma_clip_axis_exact(s: int, t: int, n: int, source_len: int, target_len: int)
    requires
        0 <= source_len,
        0 <= target_len,
    ensures
        ({
            let (s2, t2, n2) = clip_axis(s, t, n, source_len, target_len);
            &&& t2 - s2 == t - s
            &&& 0 <= s2
            &&& 0 <= t2
            &&& s2 + n2 <= source_len
            &&& t2 + n2 <= target_len
            &&& forall|x: int| axis_wanted(s, t, n, source_len, target_len, x) <==> s2 <= x < s2 + n2
        }),
{
}

/// Pixel (`x`, `y`) of the source lies in the requested block, inside the
/// source, and lands inside the target.
pub open spec fn pixel_wanted(
    source_width: u32,
    source_height: u32,
    source_x: i32,
    source_y: i32,
    target_width: u32,
    target_height: u32,
    target_x: i32,
    target_y: i32,
    width: i32,
    height: i32,
    x: int,
    y: int,
) -> bool {
    &&& axis_wanted(source_x as int, target_x as int, width as int, source_width as int, target_width as int, x)
    &&& axis_wanted(source_y as int, target_y as int, height as int, source_height as int, target_height as int, y)
}

/// `clip_copy_region` keeps exactly the pixels of the requested block that lie
/// inside the source and land inside the target, and moves none of them:
/// the region's source rectangle is that set of pixels, and its target
/// rectangle is the same rectangle shifted by the requested offset. It
/// returns `None` exactly when no such pixel exists.
pub proof fn lemma_clip_copy_region_exact(
    source_width: u32,
    source_height: u32,
    source_x: i32,
    source_y: i32,
    target_width: u32,
    target_height: u32,
    target_x: i32,
    target_y: i32,
    width: i32,
    height: i32,
)
    requires
        source_width <= i32::MAX,
        source_height <= i32::MAX,
        target_width <= i32::MAX,
        target_height <= i32::MAX,
    ensures
        match clip_spec(source_width, source_height, source_x, source_y, target_width, target_height, target_x, target_y, width, height) {
            Some(region) => {
                &&& region.target_x - region.source_x == target_x - source_x
                &&& region.target_y - region.source_y == target_y - source_y
                &&& region.source_x + region.width <= source_width
                &&& region.source_y + region.height <= source_height
                &&& region.target_x + region.width <= target_width
                &&& region.target_y + region.height <= target_height
                &&& forall|x: int, y: int|
                    pixel_wanted(source_width, source_height, source_x, source_y, target_width, target_height, target_x, target_y, width, height, x, y)
                        <==> (region.source_x <= x < region.source_x + region.width && region.source_y <= y < region.source_y + region.height)
            },
            None => forall|x: int, y: int|
                !pixel_wanted(source_width, source_height, source_x, source_y, target_width, target_height, target_x, target_y, width, height, x, y),
        },
{
    lemma_clip_axis_exact(source_x as int, target_x as int, width as int, source_width as int, target_width as int);
    lemma_clip_axis_exact(source_y as int, target_y as int, height as int, source_height as int, target_height as int);
    let (sx, tx, w) = clip_axis(source_x as int, target_x as int, width as int, source_width as int, target_width as int);
    let (sy, ty, h) = clip_axis(source_y as int, target_y as int, height as int, source_height as int, target_height as int);
    if w <= 0 || h <= 0 {
        assert forall|x: int, y: int|
            !pixel_wanted(source_width, source_height, source_x, source_y, target_width, target_height, target_x, target_y, width, height, x, y) by {
            if pixel_wanted(source_width, source_height, source_x, source_y, target_width, target_height, target_x, target_y, width, height, x, y) {
                assert(axis_wanted(source_x as int, target_x as int, width as int, source_width as int, target_width as int, x));
                assert(axis_wanted(source_y as int, target_y as int, height as int, source_height as int, target_height as int, y));
            }
        }
    }
}


proof fn lemma_last_row_within(x: int, row: int, stride: int, width: int, rows: int)
    requires
        0 <= x,
        0 <= row < rows,
        0 <= stride,
        x + width <= stride,
    ensures
        pixel_offset(x, row, stride) + width * 4 <= rgba_len(stride, rows),
{
    assert(row * stride + stride <= rows * stride) by (nonlinear_arith)
        requires
            0 <= row < rows,
            0 <= stride,
    ;
    assert(rgba_len(stride, rows) == rows * stride * 4) by (nonlinear_arith);
}

/// `getImageData` followed by `putImageData` of the image data it returned,
/// at the same place, leaves the canvas as it was: both calls clip to the
/// same block (one as the mirror of the other), both copies stay in bounds,
/// and writing the rows back restores every byte of the canvas.
pub proof fn lemma_get_then_put_image_data(
    canvas: Seq<u8>,
    canvas_width: u32,
    canvas_height: u32,
    sx: i32,
    sy: i32,
    width: u32,
    height: u32,
    data: Seq<u8>,
)
    requires
        canvas_width <= i32::MAX,
        canvas_height <= i32::MAX,
        width <= i32::MAX,
        height <= i32::MAX,
        canvas.len() == rgba_len(canvas_width as int, canvas_height as int),
        data.len() == rgba_len(width as int, height as int),
        canvas.len() <= usize::MAX,
    ensures
        match (
            get_image_data_spec(canvas_width, canvas_height, sx, sy, width, height),
            put_image_data_spec(width, height, canvas_width, canvas_height, sx, sy),
        ) {
            (Some(get), Some(put)) => {
                &&& put == mirrored(get)
                &&& copy_to_flipped_fits(canvas.len() as int, canvas_width, data.len() as int, width, height, get)
                &&& copy_from_flipped_fits(
                    read_flipped(canvas, canvas_width, data, width, height, get).len() as int,
                    width,
                    height,
                    canvas.len() as int,
                    canvas_width,
                    put,
                )
                &&& write_flipped(read_flipped(canvas, canvas_width, data, width, height, get), width, height, canvas, canvas_width, put)
                    == canvas
            },
            (None, None) => true,
            _ => false,
        },
{
    lemma_clip_copy_region_exact(canvas_width, canvas_height, sx, sy, width, height, 0, 0, width as i32, height as i32);
    let get = get_image_data_spec(canvas_width, canvas_height, sx, sy, width, height);
    let put = put_image_data_spec(width, height, canvas_width, canvas_height, sx, sy);
    if let Some(g) = get {
        assert(put == Some(mirrored(g)));
        lemma_last_row_within(g.source_x as int, g.source_y + g.height - 1, canvas_width as int, g.width as int, canvas_height as int);
        lemma_last_row_within(g.target_x as int, height - 1 - g.target_y, width as int, g.width as int, height as int);
        lemma_flipped_round_trip(canvas, canvas_width, data, width, height, g);
    } else {
        assert(put is None);
    }
}


/// `copy_region_to_flipped_rows` gives each pixel of the target rectangle,
/// counted from the bottom row, the matching pixel of the source rectangle:
/// target pixel (`x`, `target_height - 1 - y`) receives source pixel
/// (`x - target_x + source_x`, `y - target_y + source_y`). Every other pixel
/// of the target keeps its value.
pub proof fn lemma_copy_to_flipped_pixels(
    source: Seq<u8>,
    source_width: u32,
    target: Seq<u8>,
    target_width: u32,
    target_height: u32,
    region: CopyRegion,
)
    requires
        copy_to_flipped_fits(source.len() as int, source_width, target.len() as int, target_width, target_height, region),
        region.target_x + region.width <= target_width,
    ensures
        read_flipped(source, source_width, target, target_width, target_height, region).len() == target.len(),
        forall|x: int, y: int, k: int|
            #![trigger read_flipped(source, source_width, target, target_width, target_height, region)[pixel_offset(x, target_height - 1 - y, target_width as int) + k]]
            in_target_rect(region, x, y) && 0 <= k < 4 ==> read_flipped(source, source_width, target, target_width, target_height, region)[
                pixel_offset(x, target_height - 1 - y, target_width as int) + k] == source[pixel_offset(
                x - region.target_x + region.source_x,
                y - region.target_y + region.source_y,
                source_width as int,
            ) + k],
        forall|x: int, y: int, k: int|
            #![trigger read_flipped(source, source_width, target, target_width, target_height, region)[pixel_offset(x, target_height - 1 - y, target_width as int) + k]]
            0 <= x < target_width && y <= target_height - 1 && 0 <= k < 4 && pixel_offset(x, target_height - 1 - y, target_width as int) + k
                < target.len() && !in_target_rect(region, x, y) ==> read_flipped(source, source_width, target, target_width, target_height, region)[
                pixel_offset(x, target_height - 1 - y, target_width as int) + k] == target[pixel_offset(x, target_height - 1 - y, target_width as int) + k],
{
    let rb = region.width * 4;
    let h = region.height as int;
    let tw = target_width as int;
    let top = target_height - 1 - region.target_y;
    let from = source_rows(region, source_width);
    let to = flipped_target_rows(region, target_width, target_height);
    assert(forall|y: int| #[trigger] from(y) == pixel_offset(region.source_x as int, region.source_y + y, source_width as int));
    assert(forall|y: int| #[trigger] to(y) == pixel_offset(region.target_x as int, top - y, tw));
    assert(rows_within(from, rb, h, source.len() as int)) by {
        assert forall|y: int| 0 <= y < h implies 0 <= #[trigger] from(y) && from(y) + rb <= source.len() by {
            lemma_row_offset_monotonic(region.source_x as int, region.source_y + y, region.source_y + h - 1, source_width as int);
        }
    }
    lemma_rows_going_up(to, region.target_x as int, top, tw, region.width as int, h, target.len() as int);
    lemma_copy_rows_effect(target, source, from, to, rb, region.height as nat);
    let result = read_flipped(source, source_width, target, target_width, target_height, region);
    assert forall|x: int, y: int, k: int| in_target_rect(region, x, y) && 0 <= k < 4 implies #[trigger] result[
        pixel_offset(x, target_height - 1 - y, tw) + k] == source[pixel_offset(
        x - region.target_x + region.source_x,
        y - region.target_y + region.source_y,
        source_width as int,
    ) + k] by {
        let yy = y - region.target_y;
        lemma_pixel_in_row(x, target_height - 1 - y, k, tw, region.target_x as int, top - yy, region.width as int);
        assert(to(yy) <= pixel_offset(x, target_height - 1 - y, tw) + k < to(yy) + rb);
    }
    assert forall|x: int, y: int, k: int|
        0 <= x < tw && y <= target_height - 1 && 0 <= k < 4 && pixel_offset(x, target_height - 1 - y, tw) + k < target.len()
            && !in_target_rect(region, x, y) implies #[trigger] result[pixel_offset(x, target_height - 1 - y, tw) + k]
        == target[pixel_offset(x, target_height - 1 - y, tw) + k] by {
        let i = pixel_offset(x, target_height - 1 - y, tw) + k;
        if in_some_row(to, rb, h, i) {
            let yy = choose|yy: int| #![trigger to(yy)] 0 <= yy < h && to(yy) <= i < to(yy) + rb;
            lemma_pixel_in_row(x, target_height - 1 - y, k, tw, region.target_x as int, top - yy, region.width as int);
        }
        assert(0 <= i) by {
            lemma_row_offset_monotonic(x, 0, target_height - 1 - y, tw);
        }
    }
}


proof fn lemma_byte_in_data_row(i: int, width: int, height: int) -> (row: int)
    requires
        width > 0,
        height > 0,
        0 <= i < rgba_len(width, height),
    ensures
        0 <= row < height,
        pixel_offset(0, row, width) <= i < pixel_offset(0, row, width) + width * 4,
{
    let stride = width * 4;
    let row = i / stride;
    vstd::arithmetic::div_mod::lemma_fundamental_div_mod(i, stride);
    assert(width * height * 4 == height * (width * 4)) by (nonlinear_arith);
    assert((row * width + 0) * 4 == row * (width * 4)) by (nonlinear_arith);
    assert(0 <= row < height) by (nonlinear_arith)
        requires
            stride > 0,
            0 <= i < height * stride,
            i == stride * (i / stride) + i % stride,
            0 <= i % stride < stride,
            row == i / stride,
    ;
    row
}

/// `putImageData` of an image wholly inside the canvas, followed by
/// `getImageData` of the same block (read into any buffer of the image's
/// size), gives back the image's bytes: both calls clip to the whole block
/// (one as the mirror of the other), both copies stay in bounds, and every
/// byte of the image comes back.
pub proof fn lemma_put_then_get_image_data(
    data: Seq<u8>,
    width: u32,
    height: u32,
    canvas: Seq<u8>,
    canvas_width: u32,
    canvas_height: u32,
    dx: i32,
    dy: i32,
    fresh: Seq<u8>,
)
    requires
        canvas_width <= i32::MAX,
        canvas_height <= i32::MAX,
        1 <= width <= i32::MAX,
        1 <= height <= i32::MAX,
        0 <= dx,
        0 <= dy,
        dx + width <= canvas_width,
        dy + height <= canvas_height,
        canvas.len() == rgba_len(canvas_width as int, canvas_height as int),
        canvas.len() <= usize::MAX,
        data.len() == rgba_len(width as int, height as int),
        fresh.len() == data.len(),
    ensures
        match (
            put_image_data_spec(width, height, canvas_width, canvas_height, dx, dy),
            get_image_data_spec(canvas_width, canvas_height, dx, dy, width, height),
        ) {
            (Some(put), Some(get)) => {
                &&& get == mirrored(put)
                &&& copy_from_flipped_fits(data.len() as int, width, height, canvas.len() as int, canvas_width, put)
                &&& copy_to_flipped_fits(
                    write_flipped(data, width, height, canvas, canvas_width, put).len() as int,
                    canvas_width,
                    fresh.len() as int,
                    width,
                    height,
                    get,
                )
                &&& read_flipped(write_flipped(data, width, height, canvas, canvas_width, put), canvas_width, fresh, width, height, get)
                    == data
            },
            _ => false,
        },
{
    lemma_clip_copy_region_exact(canvas_width, canvas_height, dx, dy, width, height, 0, 0, width as i32, height as i32);
    let get_opt = get_image_data_spec(canvas_width, canvas_height, dx, dy, width, height);
    let put_opt = put_image_data_spec(width, height, canvas_width, canvas_height, dx, dy);
    let g = get_opt->0;
    assert(g == CopyRegion {
        source_x: dx as usize,
        source_y: dy as usize,
        target_x: 0,
        target_y: 0,
        width: width as usize,
        height: height as usize,
    });
    assert(put_opt == Some(mirrored(g)));
    let p = mirrored(g);
    let rb = g.width * 4;
    let h = g.height as int;
    let canvas_rows = source_rows(g, canvas_width);
    let data_rows = flipped_target_rows(g, width, height);
    assert(forall|y: int| #[trigger] canvas_rows(y) == pixel_offset(g.source_x as int, g.source_y + y, canvas_width as int));
    assert(forall|y: int| #[trigger] data_rows(y) == pixel_offset(0, (height - 1) - y, width as int));
    lemma_last_row_within(g.source_x as int, g.source_y + g.height - 1, canvas_width as int, g.width as int, canvas_height as int);
    lemma_last_row_within(0, height - 1, width as int, g.width as int, height as int);
    lemma_rows_going_down(canvas_rows, g.source_x as int, g.source_y as int, canvas_width as int, g.width as int, h, canvas.len() as int);
    lemma_rows_going_up(data_rows, 0, height - 1, width as int, g.width as int, h, data.len() as int);
    assert(flipped_source_rows(p, width, height) == data_rows);
    assert(target_rows(p, canvas_width) == canvas_rows);
    lemma_copy_rows_effect(canvas, data, data_rows, canvas_rows, rb, g.height as nat);
    let written = write_flipped(data, width, height, canvas, canvas_width, p);
    lemma_copy_rows_effect(fresh, written, canvas_rows, data_rows, rb, g.height as nat);
    let read = read_flipped(written, canvas_width, fresh, width, height, g);
    assert forall|i: int| 0 <= i < data.len() implies #[trigger] read[i] == data[i] by {
        let row = lemma_byte_in_data_row(i, width as int, height as int);
        let y = height - 1 - row;
        assert(data_rows(y) <= i < data_rows(y) + rb);
        assert(read[i] == written[canvas_rows(y) + (i - data_rows(y))]);
    }
    assert(read =~= data);
}


/// `copy_region_from_flipped_rows` gives each pixel (`x`, `y`) of the target
/// rectangle the matching source pixel counted from the source's bottom row:
/// (`x - target_x + source_x`, `source_height - 1 - (y - target_y + source_y)`).
/// Every other pixel of the target keeps its value.
pub proof fn lemma_copy_from_flipped_pixels(
    source: Seq<u8>,
    source_width: u32,
    source_height: u32,
    target: Seq<u8>,
    target_width: u32,
    region: CopyRegion,
)
    requires
        copy_from_flipped_fits(source.len() as int, source_width, source_height, target.len() as int, target_width, region),
        region.target_x + region.width <= target_width,
    ensures
        write_flipped(source, source_width, source_height, target, target_width, region).len() == target.len(),
        forall|x: int, y: int, k: int|
            #![trigger write_flipped(source, source_width, source_height, target, target_width, region)[pixel_offset(x, y, target_width as int) + k]]
            in_target_rect(region, x, y) && 0 <= k < 4 ==> write_flipped(source, source_width, source_height, target, target_width, region)[
                pixel_offset(x, y, target_width as int) + k] == source[pixel_offset(
                x - region.target_x + region.source_x,
                source_height - 1 - (y - region.target_y + region.source_y),
                source_width as int,
            ) + k],
        forall|x: int, y: int, k: int|
            #![trigger write_flipped(source, source_width, source_height, target, target_width, region)[pixel_offset(x, y, target_width as int) + k]]
            0 <= x < target_width && 0 <= y && 0 <= k < 4 && pixel_offset(x, y, target_width as int) + k < target.len()
                && !in_target_rect(region, x, y) ==> write_flipped(source, source_width, source_height, target, target_width, region)[
                pixel_offset(x, y, target_width as int) + k] == target[pixel_offset(x, y, target_width as int) + k],
{
    let rb = region.width * 4;
    let h = region.height as int;
    let tw = target_width as int;
    let top = source_height - 1 - region.source_y;
    let from = flipped_source_rows(region, source_width, source_height);
    let to = target_rows(region, target_width);
    assert(forall|y: int| #[trigger] from(y) == pixel_offset(region.source_x as int, top - y, source_width as int));
    assert(forall|y: int| #[trigger] to(y) == pixel_offset(region.target_x as int, region.target_y + y, tw));
    assert(rows_within(from, rb, h, source.len() as int)) by {
        assert forall|y: int| 0 <= y < h implies 0 <= #[trigger] from(y) && from(y) + rb <= source.len() by {
            lemma_row_offset_monotonic(region.source_x as int, top - y, top, source_width as int);
        }
    }
    lemma_rows_going_down(to, region.target_x as int, region.target_y as int, tw, region.width as int, h, target.len() as int);
    lemma_copy_rows_effect(target, source, from, to, rb, region.height as nat);
    let result = write_flipped(source, source_width, source_height, target, target_width, region);
    assert forall|x: int, y: int, k: int| in_target_rect(region, x, y) && 0 <= k < 4 implies #[trigger] result[
        pixel_offset(x, y, tw) + k] == source[pixel_offset(
        x - region.target_x + region.source_x,
        source_height - 1 - (y - region.target_y + region.source_y),
        source_width as int,
    ) + k] by {
        let yy = y - region.target_y;
        lemma_pixel_in_row(x, y, k, tw, region.target_x as int, region.target_y + yy, region.width as int);
        assert(to(yy) <= pixel_offset(x, y, tw) + k < to(yy) + rb);
    }
    assert forall|x: int, y: int, k: int|
        0 <= x < tw && 0 <= y && 0 <= k < 4 && pixel_offset(x, y, tw) + k < target.len() && !in_target_rect(region, x, y)
        implies #[trigger] result[pixel_offset(x, y, tw) + k] == target[pixel_offset(x, y, tw) + k] by {
        let i = pixel_offset(x, y, tw) + k;
        if in_some_row(to, rb, h, i) {
            let yy = choose|yy: int| #![trigger to(yy)] 0 <= yy < h && to(yy) <= i < to(yy) + rb;
            lemma_pixel_in_row(x, y, k, tw, region.target_x as int, region.target_y + yy, region.width as int);
        }
        assert(0 <= i) by {
            lemma_row_offset_monotonic(x, 0, y, tw);
        }
    }
}

/// The region covering the whole of a `width` x `height` image, in place.
pub open spec fn whole_image(width: u32, height: u32) -> CopyRegion {
    CopyRegion { source_x: 0, source_y: 0, target_x: 0, target_y: 0, width: width as usize, height: height as usize }
}

/// Flipping all rows of an image into one buffer
/// (`copy_region_to_flipped_rows` with `whole_image`) and flipping them back
/// into another buffer of the same size (`copy_region_from_flipped_rows`
/// with `whole_image`) gives the image's bytes again, whatever the two
/// buffers held before.
pub proof fn lemma_double_flip_restores(source: Seq<u8>, flipped: Seq<u8>, restored: Seq<u8>, width: u32, height: u32)
    requires
        1 <= width,
        1 <= height,
        source.len() == rgba_len(width as int, height as int),
        source.len() <= usize::MAX,
        flipped.len() == source.len(),
        restored.len() == source.len(),
    ensures
        copy_to_flipped_fits(source.len() as int, width, flipped.len() as int, width, height, whole_image(width, height)),
        copy_from_flipped_fits(
            read_flipped(source, width, flipped, width, height, whole_image(width, height)).len() as int,
            width,
            height,
            restored.len() as int,
            width,
            whole_image(width, height),
        ),
        write_flipped(
            read_flipped(source, width, flipped, width, height, whole_image(width, height)),
            width,
            height,
            restored,
            width,
            whole_image(width, height),
        ) == source,
{
    let r = whole_image(width, height);
    let rb = r.width * 4;
    let h = height as int;
    let straight = source_rows(r, width);
    let upside = flipped_target_rows(r, width, height);
    assert(forall|y: int| #[trigger] straight(y) == pixel_offset(0, y, width as int));
    assert(forall|y: int| #[trigger] upside(y) == pixel_offset(0, (height - 1) - y, width as int));
    lemma_last_row_within(0, height - 1, width as int, width as int, height as int);
    lemma_rows_going_down(straight, 0, 0, width as int, width as int, h, source.len() as int);
    lemma_rows_going_up(upside, 0, height - 1, width as int, width as int, h, source.len() as int);
    assert(flipped_source_rows(r, width, height) == upside);
    assert(target_rows(r, width) == straight);
    lemma_copy_rows_effect(flipped, source, straight, upside, rb, height as nat);
    let read = read_flipped(source, width, flipped, width, height, r);
    lemma_copy_rows_effect(restored, read, upside, straight, rb, height as nat);
    let back = write_flipped(read, width, height, restored, width, r);
    assert forall|i: int| 0 <= i < source.len() implies #[trigger] back[i] == source[i] by {
        let y = lemma_byte_in_data_row(i, width as int, height as int);
        assert(straight(y) <= i < straight(y) + rb);
        assert(back[i] == read[upside(y) + (i - straight(y))]);
    }
    assert(back =~= source);
}


/// `start <= x < start + len`: `x` lies in the span of `len` from `start`.
pub open spec fn in_span(start: int, len: int, x: int) -> bool {
    start <= x < start + len
}

/// `getImageData(sx, sy, width, height)` reads exactly the canvas pixels of
/// the requested block that lie on the canvas, and puts canvas pixel
/// (`x`, `y`) at (`x - sx`, `y - sy`) of the new image. A block wholly on the
/// canvas is read whole, from (`sx`, `sy`).
pub proof fn lemma_get_image_data_reads_the_block(
    canvas_width: u32,
    canvas_height: u32,
    sx: i32,
    sy: i32,
    width: u32,
    height: u32,
)
    requires
        canvas_width <= i32::MAX,
        canvas_height <= i32::MAX,
        width <= i32::MAX,
        height <= i32::MAX,
    ensures
        match get_image_data_spec(canvas_width, canvas_height, sx, sy, width, height) {
            Some(r) => {
                &&& r.source_x == sx + r.target_x
                &&& r.source_y == sy + r.target_y
                &&& r.source_x + r.width <= canvas_width
                &&& r.source_y + r.height <= canvas_height
                &&& r.target_x + r.width <= width
                &&& r.target_y + r.height <= height
                &&& forall|x: int, y: int|
                    #![trigger in_span(r.source_x as int, r.width as int, x), in_span(r.source_y as int, r.height as int, y)]
                    #![trigger in_span(sx as int, width as int, x), in_span(sy as int, height as int, y)]
                    (in_span(sx as int, width as int, x) && in_span(0, canvas_width as int, x) && in_span(sy as int, height as int, y)
                        && in_span(0, canvas_height as int, y)) <==> (in_span(r.source_x as int, r.width as int, x) && in_span(
                        r.source_y as int,
                        r.height as int,
                        y,
                    ))
            },
            None => forall|x: int, y: int|
                #![trigger in_span(sx as int, width as int, x), in_span(sy as int, height as int, y)]
                !(in_span(sx as int, width as int, x) && in_span(0, canvas_width as int, x) && in_span(sy as int, height as int, y)
                    && in_span(0, canvas_height as int, y)),
        },
        0 < width && 0 < height && 0 <= sx && sx + width <= canvas_width && 0 <= sy && sy + height <= canvas_height
            ==> get_image_data_spec(canvas_width, canvas_height, sx, sy, width, height) == Some(
            CopyRegion {
                source_x: sx as usize,
                source_y: sy as usize,
                target_x: 0,
                target_y: 0,
                width: width as usize,
                height: height as usize,
            },
        ),
{
    lemma_clip_copy_region_exact(canvas_width, canvas_height, sx, sy, width, height, 0, 0, width as i32, height as i32);
    match get_image_data_spec(canvas_width, canvas_height, sx, sy, width, height) {
        Some(r) => {
            assert forall|x: int, y: int|
                (in_span(sx as int, width as int, x) && in_span(0, canvas_width as int, x) && in_span(sy as int, height as int, y)
                    && in_span(0, canvas_height as int, y)) <==> (in_span(r.source_x as int, r.width as int, x) && in_span(
                    r.source_y as int,
                    r.height as int,
                    y,
                )) by {
                assert(pixel_wanted(canvas_width, canvas_height, sx, sy, width, height, 0, 0, width as i32, height as i32, x, y)
                    <==> (r.source_x <= x < r.source_x + r.width && r.source_y <= y < r.source_y + r.height));
            }
        },
        None => {
            assert forall|x: int, y: int|
                !(in_span(sx as int, width as int, x) && in_span(0, canvas_width as int, x) && in_span(sy as int, height as int, y)
                    && in_span(0, canvas_height as int, y)) by {
                assert(!pixel_wanted(canvas_width, canvas_height, sx, sy, width, height, 0, 0, width as i32, height as i32, x, y));
            }
        },
    }
}

/// `putImageData(image, dx, dy)` writes exactly the canvas pixels covered by
/// the image placed at (`dx`, `dy`), and gives canvas pixel (`x`, `y`) the
/// image's pixel (`x - dx`, `y - dy`). An image wholly on the canvas is
/// written whole, at (`dx`, `dy`).
pub proof fn lemma_put_image_data_writes_the_block(
    image_width: u32,
    image_height: u32,
    canvas_width: u32,
    canvas_height: u32,
    dx: i32,
    dy: i32,
)
    requires
        canvas_width <= i32::MAX,
        canvas_height <= i32::MAX,
        image_width <= i32::MAX,
        image_height <= i32::MAX,
    ensures
        match put_image_data_spec(image_width, image_height, canvas_width, canvas_height, dx, dy) {
            Some(r) => {
                &&& r.target_x == dx + r.source_x
                &&& r.target_y == dy + r.source_y
                &&& r.source_x + r.width <= image_width
                &&& r.source_y + r.height <= image_height
                &&& r.target_x + r.width <= canvas_width
                &&& r.target_y + r.height <= canvas_height
                &&& forall|x: int, y: int|
                    #![trigger in_span(r.target_x as int, r.width as int, x), in_span(r.target_y as int, r.height as int, y)]
                    #![trigger in_span(dx as int, image_width as int, x), in_span(dy as int, image_height as int, y)]
                    (in_span(dx as int, image_width as int, x) && in_span(0, canvas_width as int, x) && in_span(
                        dy as int,
                        image_height as int,
                        y,
                    ) && in_span(0, canvas_height as int, y)) <==> (in_span(r.target_x as int, r.width as int, x) && in_span(
                        r.target_y as int,
                        r.height as int,
                        y,
                    ))
            },
            None => forall|x: int, y: int|
                #![trigger in_span(dx as int, image_width as int, x), in_span(dy as int, image_height as int, y)]
                !(in_span(dx as int, image_width as int, x) && in_span(0, canvas_width as int, x) && in_span(
                    dy as int,
                    image_height as int,
                    y,
                ) && in_span(0, canvas_height as int, y)),
        },
        0 < image_width && 0 < image_height && 0 <= dx && dx + image_width <= canvas_width && 0 <= dy && dy + image_height
            <= canvas_height ==> put_image_data_spec(image_width, image_height, canvas_width, canvas_height, dx, dy) == Some(
            CopyRegion {
                source_x: 0,
                source_y: 0,
                target_x: dx as usize,
                target_y: dy as usize,
                width: image_width as usize,
                height: image_height as usize,
            },
        ),
{
    lemma_clip_copy_region_exact(image_width, image_height, 0, 0, canvas_width, canvas_height, dx, dy, image_width as i32, image_height as i32);
    match put_image_data_spec(image_width, image_height, canvas_width, canvas_height, dx, dy) {
        Some(r) => {
            assert forall|x: int, y: int|
                (in_span(dx as int, image_width as int, x) && in_span(0, canvas_width as int, x) && in_span(
                    dy as int,
                    image_height as int,
                    y,
                ) && in_span(0, canvas_height as int, y)) <==> (in_span(r.target_x as int, r.width as int, x) && in_span(
                    r.target_y as int,
                    r.height as int,
                    y,
                )) by {
                assert(pixel_wanted(image_width, image_height, 0, 0, canvas_width, canvas_height, dx, dy, image_width as i32, image_height as i32, x - dx, y - dy)
                    <==> (r.source_x <= x - dx < r.source_x + r.width && r.source_y <= y - dy < r.source_y + r.height));
            }
        },
        None => {
            assert forall|x: int, y: int|
                !(in_span(dx as int, image_width as int, x) && in_span(0, canvas_width as int, x) && in_span(
                    dy as int,
                    image_height as int,
                    y,
                ) && in_span(0, canvas_height as int, y)) by {
                assert(!pixel_wanted(image_width, image_height, 0, 0, canvas_width, canvas_height, dx, dy, image_width as i32, image_height as i32, x - dx, y - dy));
            }
        },
    }
}

/// The width or height `drawImage` draws at: the one given, else the image's own.
pub open spec fn drawn_extent(given: Option<i32>, natural: u32) -> int {
    match given {
        Some(v) => v as int,
        None => natural as int,
    }
}

/// `drawImage(image, dx, dy[, dw, dh])` with the image's top-left `dw` x `dh`
/// block (its own size when not given) writes exactly the canvas pixels that
/// the block covers when placed at (`dx`, `dy`) and that the image has, and
/// gives canvas pixel (`x`, `y`) the image's pixel (`x - dx`, `y - dy`). A
/// block wholly on the canvas and inside the image is drawn whole.
pub proof fn lemma_draw_image_writes_the_block(
    image_width: u32,
    image_height: u32,
    canvas_width: u32,
    canvas_height: u32,
    dx: i32,
    dy: i32,
    dw: Option<i32>,
    dh: Option<i32>,
)
    requires
        canvas_width <= i32::MAX,
        canvas_height <= i32::MAX,
        image_width <= i32::MAX,
        image_height <= i32::MAX,
    ensures
        match draw_image_spec(image_width, image_height, canvas_width, canvas_height, dx, dy, dw, dh) {
            Some(r) => {
                &&& r.target_x == dx + r.source_x
                &&& r.target_y == dy + r.source_y
                &&& r.source_x + r.width <= image_width
                &&& r.source_y + r.height <= image_height
                &&& r.target_x + r.width <= canvas_width
                &&& r.target_y + r.height <= canvas_height
                &&& forall|x: int, y: int|
                    #![trigger in_span(r.target_x as int, r.width as int, x), in_span(r.target_y as int, r.height as int, y)]
                    #![trigger in_span(dx as int, drawn_extent(dw, image_width), x), in_span(dy as int, drawn_extent(dh, image_height), y)]
                    (in_span(dx as int, drawn_extent(dw, image_width), x) && in_span(0, canvas_width as int, x) && in_span(
                        dx as int,
                        image_width as int,
                        x,
                    ) && in_span(dy as int, drawn_extent(dh, image_height), y) && in_span(0, canvas_height as int, y)
                        && in_span(dy as int, image_height as int, y)) <==> (in_span(r.target_x as int, r.width as int, x)
                        && in_span(r.target_y as int, r.height as int, y))
            },
            None => forall|x: int, y: int|
                #![trigger in_span(dx as int, drawn_extent(dw, image_width), x), in_span(dy as int, drawn_extent(dh, image_height), y)]
                !(in_span(dx as int, drawn_extent(dw, image_width), x) && in_span(0, canvas_width as int, x) && in_span(
                    dx as int,
                    image_width as int,
                    x,
                ) && in_span(dy as int, drawn_extent(dh, image_height), y) && in_span(0, canvas_height as int, y) && in_span(
                    dy as int,
                    image_height as int,
                    y,
                )),
        },
        0 < drawn_extent(dw, image_width) <= image_width && 0 < drawn_extent(dh, image_height) <= image_height && 0 <= dx
            && dx + drawn_extent(dw, image_width) <= canvas_width && 0 <= dy && dy + drawn_extent(dh, image_height)
            <= canvas_height ==> draw_image_spec(image_width, image_height, canvas_width, canvas_height, dx, dy, dw, dh)
            == Some(
            CopyRegion {
                source_x: 0,
                source_y: 0,
                target_x: dx as usize,
                target_y: dy as usize,
                width: drawn_extent(dw, image_width) as usize,
                height: drawn_extent(dh, image_height) as usize,
            },
        ),
{
    let w: int = drawn_extent(dw, image_width);
    let h: int = drawn_extent(dh, image_height);
    lemma_clip_copy_region_exact(image_width, image_height, 0, 0, canvas_width, canvas_height, dx, dy, w as i32, h as i32);
    match draw_image_spec(image_width, image_height, canvas_width, canvas_height, dx, dy, dw, dh) {
        Some(r) => {
            assert forall|x: int, y: int|
                (in_span(dx as int, w, x) && in_span(0, canvas_width as int, x) && in_span(dx as int, image_width as int, x)
                    && in_span(dy as int, h, y) && in_span(0, canvas_height as int, y) && in_span(dy as int, image_height as int, y))
                    <==> (in_span(r.target_x as int, r.width as int, x) && in_span(r.target_y as int, r.height as int, y)) by {
                assert(pixel_wanted(image_width, image_height, 0, 0, canvas_width, canvas_height, dx, dy, w as i32, h as i32, x - dx, y - dy)
                    <==> (r.source_x <= x - dx < r.source_x + r.width && r.source_y <= y - dy < r.source_y + r.height));
            }
        },
        None => {
            assert forall|x: int, y: int|
                !(in_span(dx as int, w, x) && in_span(0, canvas_width as int, x) && in_span(dx as int, image_width as int, x)
                    && in_span(dy as int, h, y) && in_span(0, canvas_height as int, y) && in_span(dy as int, image_height as int, y)) by {
                assert(!pixel_wanted(image_width, image_height, 0, 0, canvas_width, canvas_height, dx, dy, w as i32, h as i32, x - dx, y - dy));
            }
        },
    }
}

} // verus!
