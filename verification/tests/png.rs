use gagaku_native::data_url::{decode_base64_data_url, DataUrlError};
use gagaku_native::png::{
    encode_png_data_url_from_rgba, encode_png_from_rgba, png_data_url, png_from_idat, write_chunk, PngError,
    PNG_DATA_URL_PREFIX,
};

#[test]
fn encodes_rgba_to_png_data_url() {
    let data_url = encode_png_data_url_from_rgba(&[255, 0, 0, 255], 1, 1).unwrap();

    assert!(data_url.starts_with(PNG_DATA_URL_PREFIX));
    assert!(data_url.len() > PNG_DATA_URL_PREFIX.len());
}

#[test]
fn rejects_rgba_length_mismatch() {
    let err = encode_png_data_url_from_rgba(&[255, 0, 0], 1, 1).unwrap_err();

    assert!(err.message().contains("RGBA byte length mismatch"));
}

#[test]
fn length_mismatch_message_names_both_lengths() {
    let err = encode_png_from_rgba(&[1, 2, 3], 1, 1).unwrap_err();
    assert_eq!(err, PngError::LengthMismatch { expected: 4, actual: 3 });
    assert_eq!(err.message(), "RGBA byte length mismatch: expected 4, got 3");
    let err = encode_png_from_rgba(&[0; 130], 4, 8).unwrap_err();
    assert_eq!(err.message(), "RGBA byte length mismatch: expected 128, got 130");
}

#[test]
fn rejects_zero_dimensions() {
    assert_eq!(encode_png_from_rgba(&[], 0, 1), Err(PngError::ZeroDimension));
    assert_eq!(encode_png_from_rgba(&[], 1, 0), Err(PngError::ZeroDimension));
    assert_eq!(
        PngError::ZeroDimension.message(),
        "PNG width and height must be greater than zero"
    );
}

#[test]
fn png_file_has_signature_header_and_end_chunks() {
    let png = encode_png_from_rgba(&[255, 0, 0, 255], 1, 1).unwrap();
    assert_eq!(&png[..8], &[0x89, b'P', b'N', b'G', 0x0d, 0x0a, 0x1a, 0x0a]);
    // IHDR: length 13, type, width 1, height 1, 8-bit RGBA.
    assert_eq!(&png[8..12], &[0, 0, 0, 13]);
    assert_eq!(&png[12..16], b"IHDR");
    assert_eq!(&png[16..29], &[0, 0, 0, 1, 0, 0, 0, 1, 8, 6, 0, 0, 0]);
    // IEND: empty, with the CRC-32 of "IEND".
    let end = &png[png.len() - 12..];
    assert_eq!(end, &[0, 0, 0, 0, b'I', b'E', b'N', b'D', 0xae, 0x42, 0x60, 0x82]);
    // IDAT holds a zlib stream (header 0x78 0x01) of the filtered row.
    assert_eq!(&png[37..41], b"IDAT");
    assert_eq!(png[41], 0x78);
}

#[test]
fn idat_stream_is_stored_filtered_rows() {
    let png = encode_png_from_rgba(&[1, 2, 3, 4, 5, 6, 7, 8], 1, 2).unwrap();
    let idat_len = u32::from_be_bytes([png[33], png[34], png[35], png[36]]) as usize;
    let idat = &png[41..41 + idat_len];
    // A zlib header, one stored final block of 10 bytes, then the data.
    assert_eq!(&idat[..2], &[0x78, 0x01]);
    assert_eq!(&idat[2..7], &[0x01, 10, 0, 0xf5, 0xff]);
    assert_eq!(&idat[7..17], &[0, 1, 2, 3, 4, 0, 5, 6, 7, 8]);
}

#[test]
fn png_from_idat_wraps_the_stream() {
    let png = png_from_idat(2, 3, &[9, 9]).unwrap();
    assert_eq!(png.len(), 8 + 25 + 14 + 12);
    assert_eq!(&png[16..24], &[0, 0, 0, 2, 0, 0, 0, 3]);
    assert_eq!(&png[33..37], &[0, 0, 0, 2]);
    assert_eq!(&png[41..43], &[9, 9]);
}

#[test]
fn write_chunk_appends_length_type_data_and_crc() {
    let mut out = vec![7u8];
    write_chunk(&mut out, b"IEND", &[]).unwrap();
    assert_eq!(out, vec![7, 0, 0, 0, 0, b'I', b'E', b'N', b'D', 0xae, 0x42, 0x60, 0x82]);
}

#[test]
fn png_data_url_is_prefix_and_base64() {
    assert_eq!(png_data_url(b"hello world"), "data:image/png;base64,aGVsbG8gd29ybGQ=");
    assert_eq!(png_data_url(b""), "data:image/png;base64,");
    assert_eq!(png_data_url(&[0xff, 0xfe]), "data:image/png;base64,//4=");
}

#[test]
fn png_data_url_decodes_back_to_the_png() {
    let rgba = [10, 20, 30, 40, 50, 60, 70, 80, 90, 100, 110, 120];
    let png = encode_png_from_rgba(&rgba, 3, 1).unwrap();
    let url = encode_png_data_url_from_rgba(&rgba, 3, 1).unwrap();
    assert_eq!(decode_base64_data_url(&url).unwrap(), png);
}

#[test]
fn data_url_errors() {
    assert_eq!(decode_base64_data_url("no comma here"), Err(DataUrlError::NotABase64DataUrl));
    assert_eq!(decode_base64_data_url(",aGk="), Err(DataUrlError::NotABase64DataUrl));
    assert_eq!(decode_base64_data_url("data:text/plain,aGk="), Err(DataUrlError::NotABase64DataUrl));
    assert_eq!(decode_base64_data_url("data:text/plain;base64,a*k="), Err(DataUrlError::InvalidBase64));
    assert_eq!(
        DataUrlError::NotABase64DataUrl.message(),
        "Paperback image polyfill only supports data URLs"
    );
    assert_eq!(
        DataUrlError::InvalidBase64.message(),
        "Invalid base64 image data URL: Base64Error"
    );
}

#[test]
fn data_url_marker_is_case_insensitive_and_before_first_comma() {
    assert_eq!(decode_base64_data_url("data:text/plain;BASE64,aGk=").unwrap(), b"hi".to_vec());
    assert_eq!(decode_base64_data_url("x;Base64,").unwrap(), Vec::<u8>::new());
    assert_eq!(
        decode_base64_data_url("data:x,;base64,aGk="),
        Err(DataUrlError::NotABase64DataUrl)
    );
}

#[test]
fn data_url_length_is_prefix_plus_padded_base64() {
    let rgba = [255u8, 0, 0, 255];
    let png = encode_png_from_rgba(&rgba, 1, 1).unwrap();
    let url = encode_png_data_url_from_rgba(&rgba, 1, 1).unwrap();
    assert_eq!(url.len(), 22 + (png.len() + 2) / 3 * 4);
    assert!(url.is_ascii());
}

#[test]
fn long_idat_stream_is_split_into_stored_blocks() {
    let rgba = vec![7u8; 100 * 100 * 4];
    let png = encode_png_from_rgba(&rgba, 100, 100).unwrap();
    let idat_len = u32::from_be_bytes([png[33], png[34], png[35], png[36]]) as usize;
    let raw = 100 * (100 * 4 + 1);
    assert_eq!(png.len(), 57 + idat_len);
    assert_eq!(idat_len, raw + 11 + 5 * (raw / 31745));
    // The first stored block is not final and holds 31745 bytes.
    assert_eq!(&png[43..48], &[0x00, 0x01, 0x7c, 0xfe, 0x83]);
}

#[test]
fn one_pixel_stream_has_one_final_stored_block() {
    let png = encode_png_from_rgba(&[255, 0, 0, 255], 1, 1).unwrap();
    let idat_len = u32::from_be_bytes([png[33], png[34], png[35], png[36]]) as usize;
    assert_eq!(idat_len, 5 + 11);
    assert_eq!(png.len(), 57 + 16);
}
