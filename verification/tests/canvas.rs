use gagaku_native::canvas::{
    clip_copy_region, clip_copy_region_in_range, copy_from_flipped_in_bounds, copy_region, copy_region_from_flipped_rows,
    copy_region_in_bounds, copy_region_to_flipped_rows, copy_to_flipped_in_bounds, supports_context, CopyRegion,
    NativeCanvas,
};
use gagaku_native::context2d::{
    draw_image_region, get_image_data_region, image_data_size, put_image_data_region, ImageDataSize,
};
use gagaku_native::typed_array::ImageDataError;

fn fields(r: CopyRegion) -> [usize; 6] {
    [r.source_x, r.source_y, r.target_x, r.target_y, r.width, r.height]
}

#[test]
fn clip_keeps_a_region_inside_both_images() {
    let r = clip_copy_region(4, 4, 0, 0, 4, 4, 1, 2, 4, 4).unwrap();
    assert_eq!(fields(r), [0, 0, 1, 2, 3, 2]);
}

#[test]
fn clip_moves_negative_offsets_into_the_images() {
    let r = clip_copy_region(10, 10, -2, -3, 10, 10, 0, 0, 5, 5).unwrap();
    assert_eq!(fields(r), [0, 0, 2, 3, 3, 2]);
    let r = clip_copy_region(10, 10, 1, 1, 10, 10, -4, 2, 6, 3).unwrap();
    assert_eq!(fields(r), [5, 1, 0, 2, 2, 3]);
}

#[test]
fn clip_returns_none_without_overlap() {
    assert!(clip_copy_region(4, 4, 0, 0, 4, 4, 4, 0, 2, 2).is_none());
    assert!(clip_copy_region(4, 4, 0, 0, 4, 4, 0, 0, 0, 2).is_none());
    assert!(clip_copy_region(4, 4, -10, 0, 4, 4, 0, 0, 5, 5).is_none());
}

#[test]
fn clip_range_check() {
    assert!(clip_copy_region_in_range(4, 4, 0, 0, 4, 4, 0, 0, 4, 4));
    assert!(!clip_copy_region_in_range(4, 4, i32::MIN, 0, 4, 4, 0, 0, 4, 4));
    assert!(!clip_copy_region_in_range(4, 4, -1, 0, 4, 4, i32::MAX, 0, 4, 4));
}

#[test]
fn copy_region_copies_rows() {
    let source: Vec<u8> = (0..32).collect();
    let mut target = vec![0u8; 16];
    let r = clip_copy_region(4, 2, 1, 0, 2, 2, 0, 0, 2, 2).unwrap();
    assert!(copy_region_in_bounds(source.len(), 4, target.len(), 2, r));
    copy_region(&source, 4, &mut target, 2, r);
    assert_eq!(target, vec![4, 5, 6, 7, 8, 9, 10, 11, 20, 21, 22, 23, 24, 25, 26, 27]);
}

#[test]
fn copy_region_leaves_other_pixels() {
    let source = vec![9u8; 4];
    let mut target = vec![1u8; 16];
    let r = CopyRegion { source_x: 0, source_y: 0, target_x: 1, target_y: 1, width: 1, height: 1 };
    copy_region(&source, 1, &mut target, 2, r);
    assert_eq!(target, vec![1, 1, 1, 1, 1, 1, 1, 1, 1, 1, 1, 1, 9, 9, 9, 9]);
}

#[test]
fn flipped_copies_reverse_rows_and_round_trip() {
    let canvas: Vec<u8> = (0..16).collect();
    let mut data = vec![0u8; 16];
    let get = get_image_data_region(2, 2, 0, 0, 2, 2).unwrap();
    assert!(copy_to_flipped_in_bounds(canvas.len(), 2, data.len(), 2, 2, get));
    copy_region_to_flipped_rows(&canvas, 2, &mut data, 2, 2, get);
    assert_eq!(data, vec![8, 9, 10, 11, 12, 13, 14, 15, 0, 1, 2, 3, 4, 5, 6, 7]);

    let mut restored = vec![0u8; 16];
    let put = put_image_data_region(2, 2, 2, 2, 0, 0).unwrap();
    assert!(copy_from_flipped_in_bounds(data.len(), 2, 2, restored.len(), 2, put));
    copy_region_from_flipped_rows(&data, 2, 2, &mut restored, 2, put);
    assert_eq!(restored, canvas);
}

#[test]
fn bounds_checks_reject_short_buffers() {
    let r = CopyRegion { source_x: 0, source_y: 0, target_x: 0, target_y: 0, width: 2, height: 2 };
    assert!(copy_region_in_bounds(16, 2, 16, 2, r));
    assert!(!copy_region_in_bounds(15, 2, 16, 2, r));
    assert!(!copy_to_flipped_in_bounds(16, 2, 16, 2, 1, r));
    assert!(!copy_from_flipped_in_bounds(16, 2, 1, 16, 2, r));
}

#[test]
fn draw_image_defaults_to_the_image_size() {
    let r = draw_image_region(3, 2, 10, 10, 4, 5, None, None).unwrap();
    assert_eq!(fields(r), [0, 0, 4, 5, 3, 2]);
    let r = draw_image_region(3, 2, 10, 10, 4, 5, Some(1), None).unwrap();
    assert_eq!(fields(r), [0, 0, 4, 5, 1, 2]);
    assert!(draw_image_region(3, 2, 10, 10, 10, 0, None, None).is_none());
}

#[test]
fn image_data_size_checks() {
    assert_eq!(image_data_size(-1, 2), Err(ImageDataError::NegativeDimensions));
    assert_eq!(image_data_size(2, 3), Ok(ImageDataSize { width: 2, height: 3, byte_length: 24 }));
    assert_eq!(image_data_size(65536, 65536), Err(ImageDataError::PixelByteLengthOverflow));
    assert_eq!(
        ImageDataError::NegativeDimensions.message(),
        "ImageData dimensions must be non-negative"
    );
}

#[test]
fn canvas_resizing_drops_pixels() {
    let mut canvas = NativeCanvas::new();
    assert_eq!((canvas.width(), canvas.height()), (300, 150));
    assert_eq!(canvas.pixels_to_allocate(), Ok(Some(300 * 150 * 4)));
    canvas.set_pixels();
    assert_eq!(canvas.pixels_to_allocate(), Ok(None));
    canvas.set_width(300);
    assert_eq!(canvas.pixels_to_allocate(), Ok(None));
    canvas.set_width(2);
    assert_eq!(canvas.pixels_to_allocate(), Ok(Some(2 * 150 * 4)));
    canvas.set_pixels();
    canvas.set_height(1);
    assert_eq!(canvas.pixels_to_allocate(), Ok(Some(8)));
    canvas.set_width(u32::MAX);
    assert_eq!(canvas.pixels_to_allocate(), Err(ImageDataError::PixelByteLengthOverflow));
    assert_eq!((canvas.width_value(), canvas.height_value()), (u32::MAX, 1));
}

#[test]
fn only_2d_contexts() {
    assert!(supports_context(&"2d".to_string()));
    assert!(!supports_context(&"webgl".to_string()));
    assert!(!supports_context(&"2D".to_string()));
}

#[test]
fn put_then_get_image_data_gives_the_data_back() {
    let data: Vec<u8> = (1..=16).collect();
    let mut canvas = vec![0u8; 3 * 3 * 4];
    let put = put_image_data_region(2, 2, 3, 3, 1, 0).unwrap();
    assert!(copy_from_flipped_in_bounds(data.len(), 2, 2, canvas.len(), 3, put));
    copy_region_from_flipped_rows(&data, 2, 2, &mut canvas, 3, put);

    let mut read = vec![0u8; 16];
    let get = get_image_data_region(3, 3, 1, 0, 2, 2).unwrap();
    assert!(copy_to_flipped_in_bounds(canvas.len(), 3, read.len(), 2, 2, get));
    copy_region_to_flipped_rows(&canvas, 3, &mut read, 2, 2, get);
    assert_eq!(read, data);
}

#[test]
fn double_flip_into_fresh_buffers_restores_the_image() {
    let image: Vec<u8> = (0..24).collect();
    let whole = CopyRegion { source_x: 0, source_y: 0, target_x: 0, target_y: 0, width: 2, height: 3 };
    let mut flipped = vec![0xaa; 24];
    assert!(copy_to_flipped_in_bounds(image.len(), 2, flipped.len(), 2, 3, whole));
    copy_region_to_flipped_rows(&image, 2, &mut flipped, 2, 3, whole);
    assert_eq!(&flipped[..8], &image[16..24]);
    assert_eq!(&flipped[16..24], &image[..8]);
    let mut restored = vec![0x55; 24];
    assert!(copy_from_flipped_in_bounds(flipped.len(), 2, 3, restored.len(), 2, whole));
    copy_region_from_flipped_rows(&flipped, 2, 3, &mut restored, 2, whole);
    assert_eq!(restored, image);
}

#[test]
fn from_flipped_copy_takes_rows_counted_from_the_bottom() {
    let source: Vec<u8> = (0..12).collect();
    let mut target = vec![0u8; 16];
    let r = CopyRegion { source_x: 0, source_y: 0, target_x: 1, target_y: 0, width: 1, height: 2 };
    assert!(copy_from_flipped_in_bounds(source.len(), 1, 3, target.len(), 2, r));
    copy_region_from_flipped_rows(&source, 1, 3, &mut target, 2, r);
    assert_eq!(target, vec![0, 0, 0, 0, 8, 9, 10, 11, 0, 0, 0, 0, 4, 5, 6, 7]);
}
