use gagaku_native::canvas::{copy_region, copy_region_in_bounds, copy_region_to_flipped_rows, NativeCanvas};
use gagaku_native::context2d::{draw_image_region, get_image_data_region, image_data_size};
use gagaku_native::image::{decode_image, ImageLoadError, NativeImage};
use gagaku_native::image_data::{checksum_fits, inspect_image_data, ImageDataInit, NativeImageData};
use gagaku_native::png::encode_png_data_url_from_rgba;
use gagaku_native::typed_array::{image_data_byte_length, typed_array_byte_range, ByteRange, ByteRangeError, ImageDataError};
use gagaku_native::data_url::DataUrlError;

#[test]
fn native_image_data_allocates_uint8_clamped_array() {
    let image_data = NativeImageData::new(ImageDataInit::Width(2), 3, None).unwrap();
    let length = image_data_byte_length(image_data.width(), image_data.height()).unwrap();
    assert_eq!(
        (image_data.width(), image_data.height(), length, image_data.color_space()),
        (2, 3, 24, "srgb")
    );
}

#[test]
fn native_image_data_exposes_js_mutations_to_rust() {
    let image_data = NativeImageData::new(ImageDataInit::Data { byte_length: 8 }, 1, None).unwrap();
    // A Uint8ClampedArray stores 5, 260 and -20 as 5, 255 and 0.
    let bytes = [5u8, 255, 0, 7, 0, 0, 0, 0];
    assert!(checksum_fits(&bytes));
    let probe = inspect_image_data(image_data.width(), image_data.height(), &bytes);
    assert_eq!(
        (probe.width, probe.height, probe.length, probe.checksum, probe.first, probe.second, probe.third, probe.fourth),
        (1, 2, 8, 267, 5, 255, 0, 7)
    );
}

const RED_BMP: &str = "data:image/bmp;base64,Qk06AAAAAAAAADYAAAAoAAAAAQAAAAEAAAABABgAAAAAAAQAAAAAAAAAAAAAAAAAAAAAAAAAAAD/AA==";

#[test]
fn native_canvas_draws_and_round_trips_png_data_url() {
    let mut image = NativeImage::new();
    image.begin_load(RED_BMP.to_string());
    let decoded = decode_image(RED_BMP).unwrap();
    image.finish_load(decoded.width, decoded.height);
    let image_pixels = decoded.rgba;

    let mut canvas = NativeCanvas::new();
    canvas.set_width(1);
    canvas.set_height(1);
    let len = canvas.pixels_to_allocate().unwrap().unwrap();
    let mut canvas_pixels = vec![0u8; len as usize];
    canvas.set_pixels();

    let region = draw_image_region(
        image.natural_width_value(),
        image.natural_height_value(),
        canvas.width_value(),
        canvas.height_value(),
        0,
        0,
        None,
        None,
    )
    .unwrap();
    assert!(copy_region_in_bounds(image_pixels.len(), 1, canvas_pixels.len(), 1, region));
    copy_region(&image_pixels, 1, &mut canvas_pixels, 1, region);

    let size = image_data_size(1, 1).unwrap();
    let mut pixels = vec![0u8; size.byte_length as usize];
    let region = get_image_data_region(1, 1, 0, 0, 1, 1).unwrap();
    copy_region_to_flipped_rows(&canvas_pixels, 1, &mut pixels, 1, 1, region);

    let data_url = encode_png_data_url_from_rgba(&canvas_pixels, 1, 1).unwrap();
    assert_eq!(
        (
            image.complete(),
            image.complete_value(),
            image.natural_width(),
            image.natural_height(),
            pixels,
            data_url.starts_with("data:image/png;base64,")
        ),
        (true, true, 1, 1, vec![255, 0, 0, 255], true)
    );
}

#[test]
fn image_load_errors() {
    let err = decode_image("data:image/png;base64,AAAA").err().unwrap();
    assert!(matches!(err, ImageLoadError::Decode(_)));
    assert!(!err.message().is_empty());
    let err = decode_image("http://example.com/a.png").err().unwrap();
    assert_eq!(err, ImageLoadError::DataUrl(DataUrlError::NotABase64DataUrl));
    assert_eq!(err.message(), "Paperback image polyfill only supports data URLs");
}

#[test]
fn image_state_follows_loads() {
    let mut image = NativeImage::new();
    assert!(!image.complete());
    assert_eq!(image.src(), "");
    image.set_width(5);
    image.set_height(6);
    assert_eq!((image.width(), image.height()), (5, 6));
    image.begin_load("x".to_string());
    assert_eq!(image.src(), "x");
    assert!(!image.complete());
    assert_eq!((image.width(), image.height()), (5, 6));
    image.finish_load(3, 4);
    assert!(image.complete());
    assert_eq!((image.natural_width(), image.natural_height(), image.width(), image.height()), (3, 4, 3, 4));
}

#[test]
fn image_data_from_data_checks_lengths() {
    let d = NativeImageData::new(ImageDataInit::Data { byte_length: 24 }, 2, Some(3)).unwrap();
    assert_eq!((d.width_value(), d.height_value()), (2, 3));
    assert_eq!(
        NativeImageData::new(ImageDataInit::Data { byte_length: 24 }, 2, Some(4)),
        Err(ImageDataError::LengthDoesNotMatchDimensions)
    );
    assert_eq!(
        NativeImageData::new(ImageDataInit::Data { byte_length: 20 }, 3, None),
        Err(ImageDataError::LengthDoesNotMatchWidth)
    );
    assert_eq!(
        NativeImageData::new(ImageDataInit::Data { byte_length: 0 }, 0, None),
        Err(ImageDataError::LengthDoesNotMatchWidth)
    );
    assert_eq!(
        NativeImageData::new(ImageDataInit::Data { byte_length: 4 }, u32::MAX, None),
        Err(ImageDataError::RowByteLengthOverflow)
    );
    assert_eq!(
        NativeImageData::new(ImageDataInit::Width(70000), 70000, None),
        Err(ImageDataError::PixelByteLengthOverflow)
    );
    assert_eq!(
        NativeImageData::new(ImageDataInit::NotAnObject, 1, None),
        Err(ImageDataError::DataNotAnArray)
    );
    assert!(ImageDataError::DataNotAnArray.is_type_error());
    assert!(!ImageDataError::RowByteLengthOverflow.is_type_error());
    let d = NativeImageData::from_data(4, 5);
    assert_eq!((d.width(), d.height()), (4, 5));
}

#[test]
fn checksum_limits() {
    assert!(checksum_fits(&[]));
    let probe = inspect_image_data(0, 0, &[]);
    assert_eq!((probe.length, probe.checksum, probe.first, probe.fourth), (0, 0, 0, 0));
    let probe = inspect_image_data(1, 1, &[1, 2]);
    assert_eq!((probe.checksum, probe.first, probe.second, probe.third), (3, 1, 2, 0));
}

#[test]
fn byte_ranges() {
    assert_eq!(typed_array_byte_range(10, 2, 8), Ok(ByteRange { start: 2, end: 10 }));
    assert_eq!(typed_array_byte_range(10, 2, 9), Err(ByteRangeError::OutOfBounds));
    assert_eq!(typed_array_byte_range(10, usize::MAX, 1), Err(ByteRangeError::Overflow));
    assert_eq!(ByteRangeError::OutOfBounds.message(), "RGBA byte range is out of bounds");
    assert_eq!(ByteRangeError::Overflow.message(), "RGBA byte range overflow");
    assert_eq!(image_data_byte_length(2, 3), Ok(24));
    assert_eq!(image_data_byte_length(u32::MAX, 2), Err(ImageDataError::PixelByteLengthOverflow));
}
