use vstd::prelude::*;

use crate::error::ImageError;
use crate::image_data::ImageData;

verus! {

/// File formats that images can be written in: those the `image` crate is
/// built here to write.
#[derive(Debug, Clone, Copy, PartialEq, Eq)]
pub enum ImageFormat {
    Png,
    Jpeg,
    Gif,
    WebP,
    Tiff,
    Bmp,
    Ico,
}

/// The file that the `image` crate writes in `format` for the `width` by
/// `height` RGBA image `data`, or `None` when it reports an error.
pub uninterp spec fn encoded_image(width: u32, height: u32, data: Seq<u8>, format: ImageFormat) -> Option<Seq<u8>>;

/// The width and height of the image that the `image` crate decodes from
/// `bytes` (format guessed from the bytes), or `None` when it cannot decode
/// them.
pub uninterp spec fn decoded_size(bytes: Seq<u8>) -> Option<(u32, u32)>;

/// Decodes an image with `image::load_from_memory` and converts it with
/// `DynamicImage::to_rgba8`.
///
/// Claimed: success exactly when the named decoding of the bytes succeeds,
/// with the named width and height, and a buffer of exactly four bytes per
/// pixel (`to_rgba8` builds it at that size); on failure, the decoder's
/// message. Whether the bytes decode, and to what size, follows from the
/// bytes alone. Which pixels come back is left unsaid: the JPEG decoder picks
/// SIMD code by the CPU it runs on, and its output differs between those
/// paths, so the same bytes need not decode to the same pixels on every machine.
#[verifier::external_body]
fn decode_rgba(bytes: &[u8]) -> (r: Result<(u32, u32, Vec<u8>), String>)
    ensures
        r is Ok <==> decoded_size(bytes@) is Some,
        r matches Ok((w, h, d)) ==> decoded_size(bytes@) == Some((w, h)) && d@.len() == w * h * 4,
{
    match image::load_from_memory(bytes) {
        Ok(img) => {
            let rgba = img.to_rgba8();
            let (width, height) = rgba.dimensions();
            Ok((width, height, rgba.into_raw()))
        },
        Err(e) => Err(e.to_string()),
    }
}

/// Encodes an RGBA image with `ImageBuffer::write_to` into an in-memory buffer.
///
/// Claimed: success exactly when the named encoding gives a file, which is
/// handed back. On failure, the encoder's message. The BMP encoder multiplies
/// the width by four in `u32` arithmetic, so wider images are left out.
#[verifier::external_body]
fn encode_rgba(width: u32, height: u32, data: &Vec<u8>, format: ImageFormat) -> (r: Result<Vec<u8>, String>)
    requires
        data@.len() == width * height * 4,
        format == ImageFormat::Bmp ==> width * 4 <= u32::MAX,
    ensures
        match r {
            Ok(b) => encoded_image(width, height, data@, format) == Some(b@),
            Err(_) => encoded_image(width, height, data@, format) is None,
        },
{
    let fmt = match format {
        ImageFormat::Png => image::ImageFormat::Png,
        ImageFormat::Jpeg => image::ImageFormat::Jpeg,
        ImageFormat::Gif => image::ImageFormat::Gif,
        ImageFormat::WebP => image::ImageFormat::WebP,
        ImageFormat::Tiff => image::ImageFormat::Tiff,
        ImageFormat::Bmp => image::ImageFormat::Bmp,
        ImageFormat::Ico => image::ImageFormat::Ico,
    };
    let buffer: image::RgbaImage = image::ImageBuffer::from_raw(width, height, data.clone()).unwrap();
    let mut bytes = Vec::new();
    buffer.write_to(&mut std::io::Cursor::new(&mut bytes), fmt).map_err(|e| e.to_string())?;
    Ok(bytes)
}

/// The image that a decoder's result stands for: its width, height and RGBA
/// bytes when they agree in size, `DecodeFailed` with the decoder's message
/// when it failed, and `DecodeFailed` with no message when the buffer does not
/// hold four bytes per pixel.
pub fn image_from_decoded(decoded: Result<(u32, u32, Vec<u8>), String>) -> (r: Result<ImageData, ImageError>)
    ensures
        match decoded {
            Ok((w, h, d)) => if d@.len() == w * h * 4 {
                r matches Ok(img) && img.w() == w && img.h() == h && img.bytes() == d@
            } else {
                r matches Err(ImageError::DecodeFailed(m)) && m@.len() == 0
            },
            Err(m) => r == Err::<ImageData, ImageError>(ImageError::DecodeFailed(m)),
        },
{
    match decoded {
        Ok((width, height, data)) => match ImageData::from_raw(width, height, data) {
            Some(img) => Ok(img),
            None => Err(ImageError::DecodeFailed(String::new())),
        },
        Err(message) => Err(ImageError::DecodeFailed(message)),
    }
}

/// Decodes a raster image file (PNG, JPEG, WebP, GIF, BMP, TIFF, ICO) into RGBA.
///
/// Succeeds exactly when the bytes decode, with their decoded width and
/// height and four bytes per pixel; every failure is `DecodeFailed`.
pub fn decode_image(bytes: &[u8]) -> (r: Result<ImageData, ImageError>)
    ensures
        r is Ok <==> decoded_size(bytes@) is Some,
        r matches Ok(img) ==> decoded_size(bytes@) == Some((img.w() as u32, img.h() as u32))
            && img.sized(),
        r is Err ==> r matches Err(ImageError::DecodeFailed(_)),
{
    image_from_decoded(decode_rgba(bytes))
}

/// Writes an image as a file in the given format.
pub fn image_to_bytes(image: &ImageData, format: ImageFormat) -> (r: Result<Vec<u8>, ImageError>)
    requires
        format == ImageFormat::Bmp ==> image.w() * 4 <= u32::MAX,
    ensures
        r is Ok <==> encoded_image(image.w() as u32, image.h() as u32, image.bytes(), format) is Some,
        r matches Ok(b) ==> encoded_image(image.w() as u32, image.h() as u32, image.bytes(), format)
            == Some(b@),
        r is Err ==> r matches Err(ImageError::EncodeFailed(_)),
{
    let width = image.width();
    let height = image.height();
    match encode_rgba(width, height, image.as_raw(), format) {
        Ok(bytes) => Ok(bytes),
        Err(message) => Err(ImageError::EncodeFailed(message)),
    }
}

/// The names of the supported image formats, in lower case.
pub fn get_supported_formats() -> (r: Vec<String>)
    ensures
        r@.len() == 3,
        r@[0]@ == "png"@,
        r@[1]@ == "jpeg"@,
        r@[2]@ == "webp"@,
{
    broadcast use vstd::string::to_string_from_display_ensures_for_str;

    let mut r: Vec<String> = Vec::new();
    r.push("png".to_string());
    r.push("jpeg".to_string());
    r.push("webp".to_string());
    r
}

} // verus!
