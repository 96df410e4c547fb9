# oelimg_rs

An RGBA image-processing library for the web whose integer core is verified
with Verus.

## Layout

- `src/` — the verified library:
  - `image_data.rs`: the RGBA buffer (`ImageData`), its pixel model and pixel
    re-arrangements;
  - `limits.rs`: the size rule shared by every constructor;
  - `crop.rs`, `rotate.rs`, `resize.rs`: cropping (plain, centred square,
    smart-crop candidates and detail samples), flips and right-angle turns,
    resizing through `fast_image_resize`, thumbnails;
  - `processor.rs`: the pixel-addressable processor;
  - `histogram.rs`: channel and luminance histograms, totals, percentiles;
  - `codec.rs`: decoding and encoding through the `image` crate;
  - `svg.rs`: recognising and checking SVG content;
  - `noise.rs`: the grain generator; `presets.rs`: named looks.
- `tests/` — tests of the library on concrete images.
- `app/` — the WebAssembly bindings, the floating-point filters (blurs,
  colour adjustments, levels, arbitrary rotation, scaling) and SVG rendering,
  built on the library.
