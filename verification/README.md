# gagaku_native

The logic behind the Gagaku native image module for QuickJS: the
`ImageData`, `Image`, `HTMLCanvasElement` and `CanvasRenderingContext2D`
objects it gives to scripts, and the `gagaku.nativeImage.encodePngDataUrl`
and `gagaku.nativeCanvas.inspectImageData` helpers.

- `src/` is the library, verified with Verus:
  - `canvas.rs`: copy regions (clipping, row copies, flipped row copies),
    the bounds checks that go with them, and a canvas element's size state;
    `canvas_laws.rs` proves what the copies do pixel by pixel and that
    reading a region and writing it back restores the canvas.
  - `context2d.rs`: the regions `drawImage`, `getImageData` and
    `putImageData` copy.
  - `image_data.rs`, `typed_array.rs`: `ImageData` sizes, byte lengths,
    typed-array byte ranges, and the `inspectImageData` report.
  - `png.rs`, `base64.rs`, `data_url.rs`, `image.rs`: PNG files and data
    URLs from RGBA pixels, and images decoded from base64 data URLs. The
    CRC-32, zlib, base64 and image decoders are the `crc32fast`, `flate2`,
    `base64-simd` and `image` crates, called through small trusted wrappers.
- `app/` binds the library to QuickJS through `rquickjs` (classes, script
  values, exceptions, logging) and holds the `f64` conversions.
  Registering `init` with a host's native-extension table (the host's
  `fjs_native_extensions` crate, with `linkme`) is left to the host: this
  crate does not depend on it, and exposes `init` instead.
- `tests/` runs the library on concrete values.
