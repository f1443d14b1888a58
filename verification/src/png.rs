use vstd::prelude::*;

use std::io::Write;

use crc32fast::Hasher;
use flate2::write::ZlibEncoder;
use flate2::Compression;

use crate::base64::{
    ascii_chars, base64_alphabet, base64_encode_append, base64_encoded_length, base64_len, base64_standard,
};
use crate::data_url::{base64_marker, data_url_payload, lemma_find_byte_at, marker_at};
use crate::text::{decimal, push_decimal};
use vstd::string::StringSliceAdditionalSpecFns;

verus! {

/// `std::io::Error`, the error of a zlib write, held opaque.
#[verifier::external_type_specification]
#[verifier::external_body]
pub struct ExIoError(std::io::Error);

/// `crc32fast::Hasher`, held opaque.
#[verifier::external_type_specification]
#[verifier::external_body]
pub struct ExHasher(crc32fast::Hasher);

/// The start of every PNG data URL.
pub const PNG_DATA_URL_PREFIX: &'static str = "data:image/png;base64,";

/// The CRC-32 (IEEE) checksum of `data`.
pub uninterp spec fn crc32_ieee(data: Seq<u8>) -> u32;

/// The zlib stream that a `flate2` `ZlibEncoder` at `Compression::none()`
/// (stored blocks) produces when `writes` are written to it in this order and
/// it is then finished.
pub uninterp spec fn zlib_stored(writes: Seq<Seq<u8>>) -> Seq<u8>;

/// How many bytes `writes` hold together.
pub open spec fn written_len(writes: Seq<Seq<u8>>) -> int
    decreases writes.len(),
{
    if writes.len() == 0 {
        0
    } else {
        written_len(writes.drop_last()) + writes.last().len()
    }
}

/// The length of a stored-block zlib stream of `n` bytes as `flate2`'s
/// default backend (`miniz_oxide`) writes it, at most: a 2-byte header, a
/// 4-byte Adler-32 trailer, and a 5-byte header for each stored block, where
/// every block but the final one holds 31745 bytes.
pub open spec fn stored_zlib_max_len(n: int) -> int {
    n + 11 + 5 * (n / 31745)
}

/// A CRC-32 being computed over the bytes fed to it so far.
struct Crc32 {
    hasher: Hasher,
    fed: Ghost<Seq<u8>>,
}

impl Crc32 {
    closed spec fn fed(&self) -> Seq<u8> {
        self.fed@
    }

    /// `crc32fast::Hasher::new()`: a checksum over no bytes yet.
    #[verifier::external_body]
    fn new() -> (crc: Crc32)
        ensures
            crc.fed() == Seq::<u8>::empty(),
    {
        Crc32 { hasher: Hasher::new(), fed: Ghost(Seq::empty()) }
    }

    /// `crc32fast::Hasher::update(data)`: feeds `data` after the bytes fed so far.
    #[verifier::external_body]
    fn update(&mut self, data: &[u8])
        ensures
            final(self).fed() == old(self).fed() + data@,
    {
        self.hasher.update(data)
    }

    /// `crc32fast::Hasher::finalize()`: the CRC-32 (IEEE) of all bytes fed.
    #[verifier::external_body]
    fn finalize(self) -> (crc: u32)
        ensures
            crc == crc32_ieee(self.fed()),
    {
        self.hasher.finalize()
    }
}

/// A `flate2` zlib encoder writing stored (uncompressed) deflate blocks
/// into a `Vec<u8>`.
#[verifier::external_body]
pub struct StoredZlib {
    encoder: ZlibEncoder<Vec<u8>>,
}

/// The writes made so far to a stored-block zlib encoder, in order.
pub uninterp spec fn zlib_writes(zlib: StoredZlib) -> Seq<Seq<u8>>;

impl StoredZlib {
    /// `flate2::write::ZlibEncoder::new(Vec::with_capacity(capacity), Compression::none())`:
    /// an encoder with nothing written yet.
    #[verifier::external_body]
    fn new(capacity: usize) -> (zlib: StoredZlib)
        ensures
            zlib_writes(zlib) == Seq::<Seq<u8>>::empty(),
    {
        StoredZlib { encoder: ZlibEncoder::new(Vec::with_capacity(capacity), Compression::none()) }
    }

    /// `write_all(data)` on the encoder: `data` becomes the latest write. Into
    /// a `Vec<u8>` this always succeeds: writing to a `Vec` cannot fail, and the
    /// deflate codec reports an error only for a corrupt stream, which a
    /// compressor fed through this encoder never has.
    #[verifier::external_body]
    fn write_all(&mut self, data: &[u8]) -> (written: Result<(), std::io::Error>)
        ensures
            written is Ok,
            zlib_writes(*final(self)) == zlib_writes(*old(self)).push(data@),
    {
        self.encoder.write_all(data)
    }

    /// `ZlibEncoder::finish()`: the whole zlib stream for the writes made. Into
    /// a `Vec<u8>` this always succeeds, for the reasons `write_all` does. At
    /// level 0 `miniz_oxide` writes only stored blocks, and starts a new one
    /// each time 31745 bytes have gone into the current one (its
    /// `compress_stored` and `flush_block`), so the stream is no longer than
    /// `stored_zlib_max_len` of the bytes written.
    #[verifier::external_body]
    fn finish(self) -> (stream: Result<Vec<u8>, std::io::Error>)
        ensures
            stream is Ok,
            stream matches Ok(bytes) ==> bytes@ == zlib_stored(zlib_writes(self)),
            stream matches Ok(bytes) ==> bytes@.len() <= stored_zlib_max_len(written_len(zlib_writes(self))),
    {
        self.encoder.finish()
    }
}

/// `String::with_capacity(capacity)`: an empty string.
#[verifier::external_body]
fn string_with_capacity(capacity: usize) -> (s: String)
    ensures
        s@ == Seq::<char>::empty(),
{
    String::with_capacity(capacity)
}

/// Why RGBA pixels could not be made into a PNG file or data URL.
#[derive(Debug, Clone, Copy, PartialEq, Eq)]
pub enum PngError {
    /// The width or the height is zero.
    ZeroDimension,
    /// width x 4 does not fit a `usize`.
    RowLengthOverflow,
    /// width x 4 x height does not fit a `usize`.
    RgbaLengthOverflow,
    /// The pixel bytes are not width x height x 4 long.
    LengthMismatch { expected: usize, actual: usize },
    /// A chunk's data is longer than a chunk length can say.
    ChunkTooLarge,
    /// Writing to the zlib stream failed.
    Compression,
    /// The data URL would be longer than base64 encoding can make.
    DataUrlTooLong,
}

pub open spec fn png_error_text(e: PngError) -> Seq<char> {
    match e {
        PngError::ZeroDimension => "PNG width and height must be greater than zero"@,
        PngError::RowLengthOverflow => "PNG row byte length overflow"@,
        PngError::RgbaLengthOverflow => "PNG RGBA byte length overflow"@,
        PngError::LengthMismatch { expected, actual } => "RGBA byte length mismatch: expected "@ + decimal(
            expected as nat,
        ) + ", got "@ + decimal(actual as nat),
        PngError::ChunkTooLarge => "PNG chunk is too large"@,
        PngError::Compression => "PNG zlib stream could not be written"@,
        PngError::DataUrlTooLong => "PNG data URL is too long"@,
    }
}

impl PngError {
    /// The message a script sees for this error.
    pub fn message(&self) -> (text: String)
        ensures
            text@ == png_error_text(*self),
    {
        match self {
            PngError::ZeroDimension => String::from_str("PNG width and height must be greater than zero"),
            PngError::RowLengthOverflow => String::from_str("PNG row byte length overflow"),
            PngError::RgbaLengthOverflow => String::from_str("PNG RGBA byte length overflow"),
            PngError::LengthMismatch { expected, actual } => {
                let mut text = String::from_str("RGBA byte length mismatch: expected ");
                push_decimal(&mut text, *expected);
                text.append(", got ");
                push_decimal(&mut text, *actual);
                text
            },
            PngError::ChunkTooLarge => String::from_str("PNG chunk is too large"),
            PngError::Compression => String::from_str("PNG zlib stream could not be written"),
            PngError::DataUrlTooLong => String::from_str("PNG data URL is too long"),
        }
    }
}

/// `x` as four big-endian bytes.
pub open spec fn be_u32(x: u32) -> Seq<u8> {
    seq![(x / 0x100_0000) as u8, ((x / 0x1_0000) % 0x100) as u8, ((x / 0x100) % 0x100) as u8, (x % 0x100) as u8]
}

/// The eight bytes every PNG file starts with.
pub open spec fn png_signature() -> Seq<u8> {
    seq![0x89u8, 0x50u8, 0x4eu8, 0x47u8, 0x0du8, 0x0au8, 0x1au8, 0x0au8]
}

/// A PNG chunk: data length, type, data, and the CRC-32 of type and data.
pub open spec fn png_chunk(chunk_type: Seq<u8>, data: Seq<u8>) -> Seq<u8> {
    be_u32(data.len() as u32) + chunk_type + data + be_u32(crc32_ieee(chunk_type + data))
}

pub open spec fn ihdr_type() -> Seq<u8> {
    seq![0x49u8, 0x48u8, 0x44u8, 0x52u8]
}

pub open spec fn idat_type() -> Seq<u8> {
    seq![0x49u8, 0x44u8, 0x41u8, 0x54u8]
}

pub open spec fn iend_type() -> Seq<u8> {
    seq![0x49u8, 0x45u8, 0x4eu8, 0x44u8]
}

/// IHDR data: width, height, 8 bits per channel, RGBA colour, deflate,
/// adaptive filtering, no interlacing.
pub open spec fn ihdr_data(width: u32, height: u32) -> Seq<u8> {
    be_u32(width) + be_u32(height) + seq![8u8, 6u8, 0u8, 0u8, 0u8]
}

/// A PNG file of the given size whose image data stream is `idat`.
pub open spec fn png_file(width: u32, height: u32, idat: Seq<u8>) -> Seq<u8> {
    png_signature() + png_chunk(ihdr_type(), ihdr_data(width, height)) + png_chunk(idat_type(), idat) + png_chunk(
        iend_type(),
        Seq::<u8>::empty(),
    )
}

/// What is written to the zlib stream for the first `rows` rows of `rgba`
/// (`row_len` bytes each): for each row a filter byte 0, then the row.
pub open spec fn scanline_writes(rgba: Seq<u8>, row_len: int, rows: nat) -> Seq<Seq<u8>>
    decreases rows,
{
    if rows == 0 {
        Seq::empty()
    } else {
        let y = rows - 1;
        scanline_writes(rgba, row_len, (rows - 1) as nat).push(seq![0u8]).push(rgba.subrange(y * row_len, (y + 1) * row_len))
    }
}

/// The error `encode_png_from_rgba` reports for `len` pixel bytes of a
/// `width` x `height` image, if any.
pub open spec fn png_input_error(len: int, width: u32, height: u32) -> Option<PngError> {
    if width == 0 || height == 0 {
        Some(PngError::ZeroDimension)
    } else if width * 4 > usize::MAX {
        Some(PngError::RowLengthOverflow)
    } else if width * 4 * height > usize::MAX {
        Some(PngError::RgbaLengthOverflow)
    } else if len != width * 4 * height {
        Some(PngError::LengthMismatch { expected: (width * 4 * height) as usize, actual: len as usize })
    } else {
        None
    }
}

/// A chunk is its data's length (big-endian), its type, its data, and the
/// big-endian CRC-32 of its type and data together: the CRC in the last four
/// bytes is that of the chunk's own bytes from the type to the end of the data.
pub proof fn lemma_png_chunk_layout(chunk_type: Seq<u8>, data: Seq<u8>)
    requires
        chunk_type.len() == 4,
        data.len() <= u32::MAX,
    ensures
        ({
            let c = png_chunk(chunk_type, data);
            let n = data.len() as int;
            &&& c.len() == 12 + n
            &&& c.subrange(0, 4) == be_u32(n as u32)
            &&& c.subrange(4, 8) == chunk_type
            &&& c.subrange(8, 8 + n) == data
            &&& c.subrange(8 + n, 12 + n) == be_u32(crc32_ieee(c.subrange(4, 8 + n)))
            &&& c.subrange(4, 8 + n) == chunk_type + data
        }),
{
    let c = png_chunk(chunk_type, data);
    let n = data.len() as int;
    assert(c.subrange(0, 4) =~= be_u32(n as u32));
    assert(c.subrange(4, 8) =~= chunk_type);
    assert(c.subrange(8, 8 + n) =~= data);
    assert(c.subrange(4, 8 + n) =~= chunk_type + data);
    assert(c.subrange(8 + n, 12 + n) =~= be_u32(crc32_ieee(chunk_type + data)));
}

/// The bytes of the PNG file around an image data stream `idat`: the
/// signature, then the IHDR chunk (length 13, `IHDR`, width, height, 8-bit
/// RGBA, and the CRC-32 of bytes 12..29), the IDAT chunk holding `idat` with
/// the CRC-32 of its type and data, and the empty IEND chunk.
pub proof fn lemma_png_file_layout(width: u32, height: u32, idat: Seq<u8>)
    requires
        idat.len() <= u32::MAX,
    ensures
        ({
            let f = png_file(width, height, idat);
            let n = idat.len() as int;
            &&& f.len() == 57 + n
            &&& f.subrange(0, 8) == seq![0x89u8, 0x50u8, 0x4eu8, 0x47u8, 0x0du8, 0x0au8, 0x1au8, 0x0au8]
            &&& f.subrange(8, 12) == seq![0u8, 0u8, 0u8, 13u8]
            &&& f.subrange(12, 16) == seq![0x49u8, 0x48u8, 0x44u8, 0x52u8]
            &&& f.subrange(16, 29) == be_u32(width) + be_u32(height) + seq![8u8, 6u8, 0u8, 0u8, 0u8]
            &&& f.subrange(29, 33) == be_u32(crc32_ieee(f.subrange(12, 29)))
            &&& f.subrange(33, 37) == be_u32(n as u32)
            &&& f.subrange(37, 41) == seq![0x49u8, 0x44u8, 0x41u8, 0x54u8]
            &&& f.subrange(41, 41 + n) == idat
            &&& f.subrange(41 + n, 45 + n) == be_u32(crc32_ieee(f.subrange(37, 41 + n)))
            &&& f.subrange(45 + n, 49 + n) == seq![0u8, 0u8, 0u8, 0u8]
            &&& f.subrange(49 + n, 53 + n) == seq![0x49u8, 0x45u8, 0x4eu8, 0x44u8]
            &&& f.subrange(53 + n, 57 + n) == be_u32(crc32_ieee(f.subrange(49 + n, 53 + n)))
        }),
{
    let n = idat.len() as int;
    let sig = png_signature();
    let ihdr = png_chunk(ihdr_type(), ihdr_data(width, height));
    let idat_chunk = png_chunk(idat_type(), idat);
    let iend = png_chunk(iend_type(), Seq::<u8>::empty());
    lemma_png_chunk_layout(ihdr_type(), ihdr_data(width, height));
    lemma_png_chunk_layout(idat_type(), idat);
    lemma_png_chunk_layout(iend_type(), Seq::<u8>::empty());
    let f = png_file(width, height, idat);
    assert(f == sig + ihdr + idat_chunk + iend);
    assert(be_u32(13u32) =~= seq![0u8, 0u8, 0u8, 13u8]);
    assert(be_u32(0u32) =~= seq![0u8, 0u8, 0u8, 0u8]);
    assert(f.subrange(0, 8) =~= sig);
    assert(f.subrange(8, 33) =~= ihdr);
    assert(f.subrange(33, 45 + n) =~= idat_chunk);
    assert(f.subrange(45 + n, 57 + n) =~= iend);
    assert(f.subrange(8, 12) =~= ihdr.subrange(0, 4));
    assert(f.subrange(12, 16) =~= ihdr.subrange(4, 8));
    assert(f.subrange(16, 29) =~= ihdr.subrange(8, 21));
    assert(f.subrange(12, 29) =~= ihdr.subrange(4, 21));
    assert(f.subrange(29, 33) =~= ihdr.subrange(21, 25));
    assert(f.subrange(33, 37) =~= idat_chunk.subrange(0, 4));
    assert(f.subrange(37, 41) =~= idat_chunk.subrange(4, 8));
    assert(f.subrange(41, 41 + n) =~= idat_chunk.subrange(8, 8 + n));
    assert(f.subrange(37, 41 + n) =~= idat_chunk.subrange(4, 8 + n));
    assert(f.subrange(41 + n, 45 + n) =~= idat_chunk.subrange(8 + n, 12 + n));
    assert(f.subrange(45 + n, 49 + n) =~= iend.subrange(0, 4));
    assert(f.subrange(49 + n, 53 + n) =~= iend.subrange(4, 8));
    assert(iend.subrange(4, 8) =~= iend.subrange(4, 8 + 0int));
    assert(f.subrange(53 + n, 57 + n) =~= iend.subrange(8, 12));
}

/// What goes into the zlib stream for `rows` rows of `row_len` bytes: two
/// writes per row, in row order; for row `y`, a filter byte 0, then bytes
/// `y * row_len .. (y + 1) * row_len` of `rgba`, unchanged and in order.
pub proof fn lemma_scanline_writes_are_the_rows(rgba: Seq<u8>, row_len: int, rows: nat)
    requires
        0 <= row_len,
        rows * row_len <= rgba.len(),
    ensures
        scanline_writes(rgba, row_len, rows).len() == 2 * rows,
        forall|y: int| 0 <= y < rows ==> #[trigger] scanline_writes(rgba, row_len, rows)[2 * y] == seq![0u8],
        forall|y: int, i: int|
            0 <= y < rows && 0 <= i < row_len ==> #[trigger] scanline_writes(rgba, row_len, rows)[2 * y + 1][i] == rgba[y * row_len + i],
        forall|y: int| 0 <= y < rows ==> #[trigger] scanline_writes(rgba, row_len, rows)[2 * y + 1].len() == row_len,
    decreases rows,
{
    if rows > 0 {
        let r = (rows - 1) as nat;
        assert(r * row_len <= rows * row_len) by (nonlinear_arith)
            requires
                r <= rows,
                0 <= row_len,
        ;
        lemma_scanline_writes_are_the_rows(rgba, row_len, r);
        assert(r * row_len + row_len == rows * row_len) by (nonlinear_arith)
            requires
                r + 1 == rows,
        ;
        let w = scanline_writes(rgba, row_len, rows);
        assert forall|y: int, i: int| 0 <= y < rows && 0 <= i < row_len implies #[trigger] w[2 * y + 1][i] == rgba[y * row_len + i] by {
            if y == r {
                assert(w[2 * y + 1] == rgba.subrange(y * row_len, (y + 1) * row_len));
                assert((y + 1) * row_len == y * row_len + row_len) by (nonlinear_arith);
            } else {
                assert(w[2 * y + 1] == scanline_writes(rgba, row_len, r)[2 * y + 1]);
            }
        }
        assert forall|y: int| 0 <= y < rows implies #[trigger] w[2 * y + 1].len() == row_len by {
            if y == r {
                assert((y + 1) * row_len == y * row_len + row_len) by (nonlinear_arith);
            } else {
                assert(w[2 * y + 1] == scanline_writes(rgba, row_len, r)[2 * y + 1]);
            }
        }
        assert forall|y: int| 0 <= y < rows implies #[trigger] w[2 * y] == seq![0u8] by {
            if y < r {
                assert(w[2 * y] == scanline_writes(rgba, row_len, r)[2 * y]);
            }
        }
    }
}

/// `be_u32(x)` is four bytes, most significant first, whose value is `x`.
pub proof fn lemma_be_u32_value(x: u32)
    ensures
        be_u32(x).len() == 4,
        be_u32(x)[0] * 0x100_0000 + be_u32(x)[1] * 0x1_0000 + be_u32(x)[2] * 0x100 + be_u32(x)[3] == x,
{
    let b = be_u32(x);
    assert(b[0] == x / 0x100_0000);
    assert(b[1] == (x / 0x1_0000) % 0x100);
    assert(b[2] == (x / 0x100) % 0x100);
    assert(b[3] == x % 0x100);
    assert(b[0] * 0x100_0000 + b[1] * 0x1_0000 + b[2] * 0x100 + b[3] == x) by (nonlinear_arith)
        requires
            b[0] == x / 0x100_0000,
            b[1] == (x / 0x1_0000) % 0x100,
            b[2] == (x / 0x100) % 0x100,
            b[3] == x % 0x100,
            x <= u32::MAX,
    ;
}

/// The image data stream of the PNG file for `rgba` is the stored zlib
/// stream of these writes, in this order: for each row `y` from the top, a
/// filter byte 0 and then the row's `width` x 4 bytes of `rgba`, unchanged.
pub proof fn lemma_png_idat_is_the_rows(rgba: Seq<u8>, width: u32, height: u32, writes: Seq<Seq<u8>>)
    requires
        rgba.len() == width * 4 * height,
        writes.len() == 2 * height,
        forall|y: int| 0 <= y < height ==> #[trigger] writes[2 * y] == seq![0u8],
        forall|y: int| 0 <= y < height ==> #[trigger] writes[2 * y + 1] == rgba.subrange(y * width * 4, (y + 1) * width * 4),
    ensures
        png_idat(rgba, width, height) == zlib_stored(writes),
{
    let row_len = width * 4;
    assert(height * row_len == width * 4 * height) by (nonlinear_arith)
        requires
            row_len == width * 4,
    ;
    lemma_scanline_writes_are_the_rows(rgba, row_len, height as nat);
    let sw = scanline_writes(rgba, row_len, height as nat);
    assert forall|k: int| 0 <= k < writes.len() implies #[trigger] writes[k] == sw[k] by {
        let y = k / 2;
        assert(k == 2 * y || k == 2 * y + 1);
        if k == 2 * y {
            assert(writes[2 * y] == sw[2 * y]);
        } else {
            assert(y * width * 4 == y * row_len && (y + 1) * width * 4 == (y + 1) * row_len) by (nonlinear_arith)
                requires
                    row_len == width * 4,
            ;
            assert(0 <= y * row_len && (y + 1) * row_len <= height * row_len) by (nonlinear_arith)
                requires
                    0 <= y < height,
                    0 <= row_len,
            ;
            assert(sw[2 * y + 1] =~= rgba.subrange(y * row_len, (y + 1) * row_len)) by {
                assert((y + 1) * row_len == y * row_len + row_len) by (nonlinear_arith);
            }
        }
    }
    assert(writes =~= sw);
}

/// How many bytes go into the zlib stream of a `width` x `height` image: each
/// row's filter byte and its `width` x 4 pixel bytes.
pub open spec fn png_raw_len(width: u32, height: u32) -> int {
    height * (width * 4 + 1)
}

proof fn lemma_written_len_push(writes: Seq<Seq<u8>>, data: Seq<u8>)
    ensures
        written_len(writes.push(data)) == written_len(writes) + data.len(),
{
    assert(writes.push(data).drop_last() =~= writes);
}

/// The image data stream of the PNG file for `rgba`.
pub open spec fn png_idat(rgba: Seq<u8>, width: u32, height: u32) -> Seq<u8> {
    zlib_stored(scanline_writes(rgba, width * 4, height as nat))
}

fn push_be_u32(out: &mut Vec<u8>, x: u32)
    ensures
        final(out)@ == old(out)@ + be_u32(x),
{
    out.push((x / 0x100_0000) as u8);
    out.push(((x / 0x1_0000) % 0x100) as u8);
    out.push(((x / 0x100) % 0x100) as u8);
    out.push((x % 0x100) as u8);
}

/// Appends a PNG chunk of the given type holding `data`. Fails, appending
/// nothing, when `data` is longer than `u32::MAX` bytes.
pub fn write_chunk(png: &mut Vec<u8>, chunk_type: &[u8; 4], data: &[u8]) -> (written: Result<(), PngError>)
    ensures
        data@.len() > u32::MAX ==> written == Err::<(), PngError>(PngError::ChunkTooLarge) && final(png)@ == old(png)@,
        data@.len() <= u32::MAX ==> written is Ok && final(png)@ == old(png)@ + png_chunk(chunk_type@, data@),
        data@.len() <= u32::MAX ==> final(png)@ == old(png)@ + be_u32(data@.len() as u32) + chunk_type@ + data@ + be_u32(
            crc32_ieee(chunk_type@ + data@),
        ),
{
    let len = data.len();
    if len > 0xffff_ffff {
        return Err(PngError::ChunkTooLarge);
    }
    let data_len = len as u32;
    push_be_u32(png, data_len);
    png.extend_from_slice(chunk_type.as_slice());
    png.extend_from_slice(data);

    let mut hasher = Crc32::new();
    hasher.update(chunk_type.as_slice());
    hasher.update(data);
    assert(hasher.fed() == chunk_type@ + data@);
    push_be_u32(png, hasher.finalize());
    Ok(())
}

/// The PNG file (signature, IHDR, IDAT and IEND chunks) of a `width` x
/// `height` RGBA image whose zlib image data stream is `idat`. Fails when
/// `idat` is too long for one chunk.
pub fn png_from_idat(width: u32, height: u32, idat: &[u8]) -> (png: Result<Vec<u8>, PngError>)
    ensures
        idat@.len() > u32::MAX ==> png == Err::<Vec<u8>, PngError>(PngError::ChunkTooLarge),
        idat@.len() <= u32::MAX ==> (png matches Ok(bytes) && bytes@ == png_file(width, height, idat@)),
{
    let mut ihdr: Vec<u8> = Vec::with_capacity(13);
    push_be_u32(&mut ihdr, width);
    push_be_u32(&mut ihdr, height);
    let tail: [u8; 5] = [8, 6, 0, 0, 0];
    ihdr.extend_from_slice(tail.as_slice());
    assert(ihdr@ =~= ihdr_data(width, height));

    let mut png: Vec<u8> = Vec::with_capacity(57usize.saturating_add(idat.len()));
    let signature: [u8; 8] = [0x89, 0x50, 0x4e, 0x47, 0x0d, 0x0a, 0x1a, 0x0a];
    png.extend_from_slice(signature.as_slice());
    assert(png@ =~= png_signature());
    let ihdr_kind: [u8; 4] = [0x49, 0x48, 0x44, 0x52];
    let idat_kind: [u8; 4] = [0x49, 0x44, 0x41, 0x54];
    let iend_kind: [u8; 4] = [0x49, 0x45, 0x4e, 0x44];
    assert(ihdr_kind@ =~= ihdr_type());
    assert(idat_kind@ =~= idat_type());
    assert(iend_kind@ =~= iend_type());
    let _ = write_chunk(&mut png, &ihdr_kind, ihdr.as_slice());
    match write_chunk(&mut png, &idat_kind, idat) {
        Ok(()) => {},
        Err(e) => return Err(e),
    }
    let empty: Vec<u8> = Vec::new();
    let _ = write_chunk(&mut png, &iend_kind, empty.as_slice());
    assert(empty@ =~= Seq::<u8>::empty());
    Ok(png)
}

proof fn lemma_row_within(y: int, row_len: int, rows: int)
    requires
        0 <= y < rows,
        0 <= row_len,
    ensures
        0 <= y * row_len,
        (y + 1) * row_len <= rows * row_len,
        y * row_len + row_len == (y + 1) * row_len,
{
    assert((y + 1) * row_len <= rows * row_len) by (nonlinear_arith)
        requires
            0 <= y < rows,
            0 <= row_len,
    ;
    assert(y * row_len + row_len == (y + 1) * row_len) by (nonlinear_arith);
    assert(0 <= y * row_len) by (nonlinear_arith)
        requires
            0 <= y,
            0 <= row_len,
    ;
}

/// The PNG file (8-bit RGBA, no filtering, stored zlib blocks) of a `width`
/// x `height` image whose pixels are `rgba`, row by row. The size must be
/// non-zero and `rgba` exactly width x height x 4 bytes long.
pub fn encode_png_from_rgba(rgba: &[u8], width: u32, height: u32) -> (png: Result<Vec<u8>, PngError>)
    ensures
        match png_input_error(rgba@.len() as int, width, height) {
            Some(e) => png == Err::<Vec<u8>, PngError>(e),
            None => if png_idat(rgba@, width, height).len() <= u32::MAX {
                png matches Ok(bytes) && bytes@ == png_file(width, height, png_idat(rgba@, width, height))
            } else {
                png == Err::<Vec<u8>, PngError>(PngError::ChunkTooLarge)
            },
        },
        png_input_error(rgba@.len() as int, width, height) is None ==> png_idat(rgba@, width, height).len()
            <= stored_zlib_max_len(png_raw_len(width, height)),
        png_input_error(rgba@.len() as int, width, height) is None && stored_zlib_max_len(png_raw_len(width, height))
            <= u32::MAX ==> png is Ok,
{
    if width == 0 || height == 0 {
        return Err(PngError::ZeroDimension);
    }
    let width_len = width as usize;
    let height_len = height as usize;
    let row_len = match width_len.checked_mul(4) {
        Some(row_len) => row_len,
        None => return Err(PngError::RowLengthOverflow),
    };
    let expected_len = match row_len.checked_mul(height_len) {
        Some(expected_len) => expected_len,
        None => return Err(PngError::RgbaLengthOverflow),
    };
    if rgba.len() != expected_len {
        return Err(PngError::LengthMismatch { expected: expected_len, actual: rgba.len() });
    }

    let mut zlib = StoredZlib::new(expected_len.saturating_add(height_len));
    let filter = vec![0u8];
    let mut y: usize = 0;
    while y < height_len
        invariant
            y <= height_len,
            height_len == height,
            row_len == width * 4,
            expected_len == row_len * height_len,
            rgba@.len() == expected_len,
            filter@ == seq![0u8],
            png_input_error(rgba@.len() as int, width, height) is None,
            zlib_writes(zlib) == scanline_writes(rgba@, row_len as int, y as nat),
            written_len(zlib_writes(zlib)) == y * (row_len + 1),
        decreases height_len - y,
    {
        proof {
            lemma_row_within(y as int, row_len as int, height_len as int);
            lemma_written_len_push(zlib_writes(zlib), seq![0u8]);
            lemma_written_len_push(
                zlib_writes(zlib).push(seq![0u8]),
                rgba@.subrange(y * row_len, (y + 1) * row_len),
            );
            assert(y * (row_len + 1) + 1 + row_len == (y + 1) * (row_len + 1)) by (nonlinear_arith);
        }
        let start = y * row_len;
        let row = vstd::slice::slice_subrange(rgba, start, start + row_len);
        match zlib.write_all(filter.as_slice()) {
            Ok(()) => {},
            Err(_) => return Err(PngError::Compression),
        }
        match zlib.write_all(row) {
            Ok(()) => {},
            Err(_) => return Err(PngError::Compression),
        }
        y += 1;
    }
    let idat = match zlib.finish() {
        Ok(idat) => idat,
        Err(_) => return Err(PngError::Compression),
    };
    png_from_idat(width, height, idat.as_slice())
}

/// Base64 can encode `n` bytes: the length and the text's length are both at
/// most `usize::MAX / 2`.
pub open spec fn base64_encodable(n: int) -> bool {
    n <= usize::MAX / 2 && base64_len(n) <= usize::MAX / 2
}

proof fn lemma_base64_encodable_shorter(n: int, m: int)
    requires
        0 <= n <= m,
        base64_encodable(m),
    ensures
        base64_encodable(n),
{
    vstd::arithmetic::div_mod::lemma_div_is_ordered(n, m, 3);
}

/// The data URL of a PNG file: `data:image/png;base64,` and the file's
/// standard base64 text.
pub fn png_data_url(png: &[u8]) -> (url: String)
    requires
        base64_encodable(png@.len() as int),
    ensures
        url@ == PNG_DATA_URL_PREFIX@ + ascii_chars(base64_standard(png@)),
        url@.len() == 22 + base64_len(png@.len() as int),
        forall|i: int| 0 <= i < base64_standard(png@).len() ==> base64_alphabet(#[trigger] base64_standard(png@)[i]),
{
    proof {
        reveal_strlit("data:image/png;base64,");
    }
    let encoded_len = base64_encoded_length(png.len());
    let mut data_url = string_with_capacity(PNG_DATA_URL_PREFIX.len().saturating_add(encoded_len));
    data_url.append(PNG_DATA_URL_PREFIX);
    base64_encode_append(png, &mut data_url);
    data_url
}

/// The PNG data URL of a `width` x `height` image whose pixels are `rgba`:
/// what `encode_png_from_rgba` makes, as `png_data_url` writes it.
pub fn encode_png_data_url_from_rgba(rgba: &[u8], width: u32, height: u32) -> (url: Result<String, PngError>)
    ensures
        match png_input_error(rgba@.len() as int, width, height) {
            Some(e) => url == Err::<String, PngError>(e),
            None => {
                let png = png_file(width, height, png_idat(rgba@, width, height));
                if png_idat(rgba@, width, height).len() > u32::MAX {
                    url == Err::<String, PngError>(PngError::ChunkTooLarge)
                } else if !base64_encodable(png.len() as int) {
                    url == Err::<String, PngError>(PngError::DataUrlTooLong)
                } else {
                    url matches Ok(text) && {
                        &&& text@ == PNG_DATA_URL_PREFIX@ + ascii_chars(base64_standard(png))
                        &&& text@.len() == 22 + base64_len(png.len() as int)
                        &&& forall|i: int|
                            0 <= i < base64_standard(png).len() ==> base64_alphabet(#[trigger] base64_standard(png)[i])
                    }
                }
            },
        },
        png_input_error(rgba@.len() as int, width, height) is None && stored_zlib_max_len(png_raw_len(width, height))
            <= u32::MAX && base64_encodable(57 + stored_zlib_max_len(png_raw_len(width, height))) ==> url is Ok,
{
    let png = match encode_png_from_rgba(rgba, width, height) {
        Ok(png) => png,
        Err(e) => return Err(e),
    };
    let len = png.len();
    proof {
        let idat = png_idat(rgba@, width, height);
        assert(png_file(width, height, idat).len() == 57 + idat.len());
        if stored_zlib_max_len(png_raw_len(width, height)) <= u32::MAX && base64_encodable(
            57 + stored_zlib_max_len(png_raw_len(width, height)),
        ) {
            lemma_base64_encodable_shorter(len as int, 57 + stored_zlib_max_len(png_raw_len(width, height)));
        }
    }
    if len > usize::MAX / 2 {
        return Err(PngError::DataUrlTooLong);
    }
    if base64_encoded_length(len) > usize::MAX / 2 {
        return Err(PngError::DataUrlTooLong);
    }
    Ok(png_data_url(png.as_slice()))
}


/// The payload of the data URL that `png_data_url` makes (the text after its
/// first comma, with `;base64` before it) is the PNG's base64 text, so
/// `decode_base64_data_url` gives back the PNG's bytes.
pub proof fn lemma_png_data_url_payload(png: Seq<u8>, url: &str)
    requires
        url@ == PNG_DATA_URL_PREFIX@ + ascii_chars(base64_standard(png)),
        forall|i: int| 0 <= i < base64_standard(png).len() ==> base64_alphabet(#[trigger] base64_standard(png)[i]),
    ensures
        data_url_payload(url.spec_bytes()) == Some(base64_standard(png)),
{
    reveal_strlit("data:image/png;base64,");
    let text = base64_standard(png);
    let chars = url@;
    let prefix = PNG_DATA_URL_PREFIX@;
    assert(prefix.len() == 22);
    assert(vstd::utf8::is_ascii_chars(chars)) by {
        assert forall|i: int| 0 <= i < chars.len() implies '\0' <= #[trigger] chars[i] <= '\u{7f}' by {
            if i >= 22 {
                assert(chars[i] == text[i - 22] as char);
                assert(base64_alphabet(text[i - 22]));
            }
        }
    }
    vstd::utf8::is_ascii_chars_encode_utf8(chars);
    let bytes = url.spec_bytes();
    assert(bytes.len() == chars.len());
    assert(forall|i: int| 0 <= i < chars.len() ==> #[trigger] bytes[i] == chars[i] as u8);
    assert forall|j: int| 0 <= j < 21 implies #[trigger] bytes[j] != 44 by {
        assert(bytes[j] == prefix[j] as u8);
    }
    assert(bytes[21] == 44) by {
        assert(bytes[21] == prefix[21] as u8);
    }
    lemma_find_byte_at(bytes, 44, 0, 21);
    let before = bytes.subrange(0, 21);
    assert(marker_at(before, 14)) by {
        assert forall|k: int| 0 <= k < 7 implies crate::data_url::ascii_lower(#[trigger] before[14 + k]) == base64_marker()[k] by {
            assert(before[14 + k] == prefix[14 + k] as u8);
        }
    }
    let after = bytes.subrange(22, bytes.len() as int);
    assert forall|i: int| 0 <= i < text.len() implies #[trigger] after[i] == text[i] by {
        assert(after[i] == bytes[i + 22]);
        assert(chars[i + 22] == text[i] as char);
    }
    assert(after =~= text);
}

} // verus!
