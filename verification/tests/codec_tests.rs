use oelimg_rs::codec::{decode_image, get_supported_formats, image_from_decoded, image_to_bytes, ImageFormat};
use oelimg_rs::error::ImageError;
use oelimg_rs::image_data::ImageData;
use oelimg_rs::resize::{ResizeAlgorithm, ResizeFilter, ThumbnailFilter};
use oelimg_rs::crop::SmartCropFilter;

fn checkerboard(w: u32, h: u32) -> ImageData {
    let mut data = Vec::new();
    for y in 0..h {
        for x in 0..w {
            let v = if (x + y) % 2 == 0 { 255 } else { 0 };
            data.extend_from_slice(&[v, v / 2, 255 - v, 255]);
        }
    }
    ImageData::from_raw(w, h, data).unwrap()
}

#[test]
fn png_round_trip_keeps_pixels() {
    let img = checkerboard(5, 3);
    let png = image_to_bytes(&img, ImageFormat::Png).unwrap();
    assert_eq!(&png[..8], b"\x89PNG\r\n\x1a\n");
    let back = decode_image(&png).unwrap();
    assert_eq!((back.width(), back.height()), (5, 3));
    assert_eq!(back.as_raw(), img.as_raw());
}

#[test]
fn decode_rejects_garbage() {
    assert!(matches!(decode_image(b"definitely not an image"), Err(ImageError::DecodeFailed(_))));
    assert!(matches!(decode_image(b""), Err(ImageError::DecodeFailed(_))));
}

#[test]
fn other_formats_encode() {
    let img = checkerboard(4, 4);
    let jpeg = image_to_bytes(&img, ImageFormat::Jpeg).unwrap();
    assert_eq!(&jpeg[..2], &[0xFF, 0xD8]);
    let ico = image_to_bytes(&img, ImageFormat::Ico).unwrap();
    assert_eq!(&ico[..4], &[0, 0, 1, 0]);
    let decoded = decode_image(&ico).unwrap();
    assert_eq!((decoded.width(), decoded.height()), (4, 4));
}

#[test]
fn supported_formats_listed() {
    assert_eq!(get_supported_formats(), vec!["png", "jpeg", "webp"]);
}

#[test]
fn resize_filter_constructors() {
    let f = ResizeFilter::new(10, 20, None, None).unwrap();
    assert_eq!((f.width(), f.height()), (10, 20));
    assert_eq!(f.algorithm(), ResizeAlgorithm::Lanczos3);
    assert!(!f.maintain_aspect_ratio());
    let f = ResizeFilter::fit(10, 20, Some(ResizeAlgorithm::Nearest)).unwrap();
    assert_eq!(f.algorithm(), ResizeAlgorithm::Nearest);
    assert!(f.maintain_aspect_ratio());
    assert!(matches!(ResizeFilter::new(0, 1, None, None), Err(ImageError::ZeroDimensions)));
    assert!(matches!(ResizeFilter::fit(1, 9999, None), Err(ImageError::DimensionsTooLarge)));
    assert_eq!(f.name(), "Resize");
}

#[test]
fn resize_changes_size() {
    let f = ResizeFilter::new(2, 2, Some(ResizeAlgorithm::Nearest), Some(false)).unwrap();
    let mut img = checkerboard(4, 4);
    assert_eq!(f.apply_with_dimensions(&mut img, 2, 2), Ok(()));
    assert_eq!((img.width(), img.height()), (2, 2));
    assert_eq!(img.as_raw().len(), 16);

    let mut img = checkerboard(2, 2);
    assert_eq!(f.apply_with_dimensions(&mut img, 6, 3), Ok(()));
    assert_eq!((img.width(), img.height()), (6, 3));
    assert_eq!(img.as_raw().len(), 72);
}

#[test]
fn resize_of_uniform_image_stays_uniform() {
    let data: Vec<u8> = [10u8, 20, 30, 255].repeat(16);
    let mut img = ImageData::from_raw(4, 4, data).unwrap();
    let f = ResizeFilter::new(3, 2, None, None).unwrap();
    assert_eq!(f.apply_with_dimensions(&mut img, 3, 2), Ok(()));
    assert_eq!(img.as_raw().clone(), [10u8, 20, 30, 255].repeat(6));
}

#[test]
fn resize_to_same_size_is_identity() {
    let f = ResizeFilter::new(5, 3, None, None).unwrap();
    let mut img = checkerboard(5, 3);
    assert_eq!(f.apply_with_dimensions(&mut img, 5, 3), Ok(()));
    assert_eq!(img.as_raw(), checkerboard(5, 3).as_raw());
}

#[test]
fn thumbnail_filter_constructor() {
    let t = ThumbnailFilter::new(150, None, None).unwrap();
    assert_eq!(t.size(), 150);
    assert!(t.crop_to_square());
    assert_eq!(t.algorithm(), ResizeAlgorithm::Lanczos3);
    let t = ThumbnailFilter::new(32, Some(ResizeAlgorithm::Bilinear), Some(false)).unwrap();
    assert!(!t.crop_to_square());
    assert!(matches!(ThumbnailFilter::new(2000, None, None), Err(ImageError::ThumbnailTooLarge)));
    assert!(matches!(ThumbnailFilter::new(0, None, None), Err(ImageError::ZeroDimensions)));
    assert!(matches!(ThumbnailFilter::new(9000, None, None), Err(ImageError::DimensionsTooLarge)));
    assert_eq!(t.name(), "Thumbnail");
}

#[test]
fn smart_crop_constructor() {
    let s = SmartCropFilter::new(10, 12).unwrap();
    assert_eq!((s.target_width(), s.target_height()), (10, 12));
    assert!(matches!(SmartCropFilter::new(0, 12), Err(ImageError::ZeroDimensions)));
    assert_eq!(s.name(), "Smart Crop");
}

#[test]
fn more_formats_encode_and_decode() {
    let img = checkerboard(4, 4);
    for (format, magic) in [
        (ImageFormat::Png, &b"\x89PNG"[..]),
        (ImageFormat::Gif, &b"GIF8"[..]),
        (ImageFormat::Bmp, &b"BM"[..]),
        (ImageFormat::Tiff, &b"II*\x00"[..]),
        (ImageFormat::WebP, &b"RIFF"[..]),
    ] {
        let bytes = image_to_bytes(&img, format).unwrap();
        assert_eq!(&bytes[..magic.len()], magic);
        let back = decode_image(&bytes).unwrap();
        assert_eq!((back.width(), back.height()), (4, 4));
    }
    let bmp = decode_image(&image_to_bytes(&img, ImageFormat::Bmp).unwrap()).unwrap();
    assert_eq!(bmp.as_raw(), img.as_raw());
}

#[test]
fn ico_rejects_large_images() {
    let img = checkerboard(300, 2);
    assert!(matches!(image_to_bytes(&img, ImageFormat::Ico), Err(ImageError::EncodeFailed(_))));
}

#[test]
fn decoder_results_become_images_or_errors() {
    let img = image_from_decoded(Ok((2, 1, vec![1, 2, 3, 4, 5, 6, 7, 8]))).unwrap();
    assert_eq!((img.width(), img.height()), (2, 1));
    assert_eq!(img.get_pixel(1, 0), [5, 6, 7, 8]);
    assert_eq!(
        image_from_decoded(Ok((2, 2, vec![0; 8]))).err(),
        Some(ImageError::DecodeFailed(String::new()))
    );
    assert_eq!(
        image_from_decoded(Err("bad header".to_string())).err(),
        Some(ImageError::DecodeFailed("bad header".to_string()))
    );
}
