use oelimg_rs::crop::CropFilter;
use oelimg_rs::error::ImageError;
use oelimg_rs::image_data::ImageData;
use oelimg_rs::limits::{clamp_u8, validate_image_size};
use oelimg_rs::processor::ImageProcessor;
use oelimg_rs::rotate::{background_color_from, rotate_180, rotate_90_ccw, rotate_90_cw, FlipFilter};

/// A `w` by `h` image whose pixel (x, y) is [x, y, x + 10 * y, 255].
fn gradient(w: u32, h: u32) -> ImageData {
    let mut data = Vec::new();
    for y in 0..h {
        for x in 0..w {
            data.extend_from_slice(&[x as u8, y as u8, (x + 10 * y) as u8, 255]);
        }
    }
    ImageData::from_raw(w, h, data).unwrap()
}

fn pixel(img: &ImageData, x: u32, y: u32) -> [u8; 4] {
    img.get_pixel(x, y)
}

#[test]
fn validate_image_size_accepts_and_rejects() {
    assert_eq!(validate_image_size(1, 1), Ok(()));
    assert_eq!(validate_image_size(8192, 7812), Ok(()));
    assert_eq!(validate_image_size(0, 10), Err(ImageError::ZeroDimensions));
    assert_eq!(validate_image_size(10, 0), Err(ImageError::ZeroDimensions));
    assert_eq!(validate_image_size(8193, 1), Err(ImageError::DimensionsTooLarge));
    assert_eq!(validate_image_size(1, 8193), Err(ImageError::DimensionsTooLarge));
    assert_eq!(validate_image_size(8192, 8192), Err(ImageError::TooManyPixels));
    assert_eq!(validate_image_size(8000, 8000), Ok(()));
    assert_eq!(validate_image_size(8000, 8001), Err(ImageError::TooManyPixels));
}

#[test]
fn clamp_u8_clamps() {
    assert_eq!(clamp_u8(-5), 0);
    assert_eq!(clamp_u8(0), 0);
    assert_eq!(clamp_u8(128), 128);
    assert_eq!(clamp_u8(255), 255);
    assert_eq!(clamp_u8(1000), 255);
}

#[test]
fn from_raw_needs_exact_length() {
    assert!(ImageData::from_raw(2, 2, vec![0; 16]).is_some());
    assert!(ImageData::from_raw(2, 2, vec![0; 15]).is_none());
    assert!(ImageData::from_raw(2, 2, vec![0; 17]).is_none());
    assert!(ImageData::from_raw(0, 5, vec![]).is_some());
}

#[test]
fn processor_new_checks_size_and_length() {
    let p = ImageProcessor::new(2, 1, vec![1, 2, 3, 4, 5, 6, 7, 8]).unwrap();
    assert_eq!(p.width(), 2);
    assert_eq!(p.height(), 1);
    assert_eq!(p.data(), vec![1, 2, 3, 4, 5, 6, 7, 8]);
    assert!(matches!(ImageProcessor::new(0, 1, vec![]), Err(ImageError::ZeroDimensions)));
    assert!(matches!(
        ImageProcessor::new(2, 2, vec![0; 15]),
        Err(ImageError::InvalidDataLength { expected: 16, actual: 15 })
    ));
    assert!(matches!(
        ImageProcessor::new(9000, 1, vec![0; 36000]),
        Err(ImageError::DimensionsTooLarge)
    ));
}

#[test]
fn processor_pixel_access() {
    let mut p = ImageProcessor::new(2, 2, vec![0; 16]).unwrap();
    assert_eq!(p.set_pixel(1, 0, vec![9, 8, 7, 6]), Ok(()));
    assert_eq!(p.get_pixel(1, 0), Ok(vec![9, 8, 7, 6]));
    assert_eq!(p.get_pixel(0, 0), Ok(vec![0, 0, 0, 0]));
    assert_eq!(p.data(), vec![0, 0, 0, 0, 9, 8, 7, 6, 0, 0, 0, 0, 0, 0, 0, 0]);
    assert_eq!(p.get_pixel(2, 0), Err(ImageError::PixelOutOfBounds));
    assert_eq!(p.get_pixel(0, 2), Err(ImageError::PixelOutOfBounds));
    assert_eq!(p.set_pixel(5, 5, vec![1, 2, 3, 4]), Err(ImageError::PixelOutOfBounds));
    assert_eq!(p.set_pixel(0, 0, vec![1, 2, 3]), Err(ImageError::InvalidRgbaLength));
    assert_eq!(p.set_pixel(0, 0, vec![1, 2, 3, 4, 5]), Err(ImageError::InvalidRgbaLength));
    assert_eq!(p.get_pixel(0, 0), Ok(vec![0, 0, 0, 0]));
}

#[test]
fn processor_round_trips_through_image_data() {
    let img = gradient(3, 2);
    let mut p = ImageProcessor::from_image_buffer(&img);
    assert_eq!(p.to_image_buffer().as_raw(), img.as_raw());
    let other = gradient(1, 4);
    p.update_from_image_buffer(&other);
    assert_eq!(p.width(), 1);
    assert_eq!(p.height(), 4);
    assert_eq!(p.data(), other.as_raw().clone());
}

#[test]
fn second_write_wins_and_rewrite_is_noop() {
    let mut p = ImageProcessor::from_image_buffer(&gradient(3, 3));
    let before = p.data();
    let current = p.get_pixel(1, 1).unwrap();
    p.set_pixel(1, 1, current).unwrap();
    assert_eq!(p.data(), before);
    p.set_pixel(2, 2, vec![1, 1, 1, 1]).unwrap();
    p.set_pixel(2, 2, vec![2, 2, 2, 2]).unwrap();
    assert_eq!(p.get_pixel(2, 2), Ok(vec![2, 2, 2, 2]));
}

#[test]
fn crop_new_validates_size() {
    let f = CropFilter::new(1, 2, 3, 4).unwrap();
    assert_eq!((f.x(), f.y(), f.width(), f.height()), (1, 2, 3, 4));
    assert!(matches!(CropFilter::new(0, 0, 0, 4), Err(ImageError::ZeroDimensions)));
    assert!(matches!(CropFilter::new(0, 0, 9000, 4), Err(ImageError::DimensionsTooLarge)));
    assert_eq!(f.name(), "Crop");
}

#[test]
fn crop_cuts_and_clips() {
    let mut img = gradient(5, 4);
    let f = CropFilter::new(1, 1, 2, 2).unwrap();
    assert_eq!(f.apply(&mut img), Ok(()));
    assert_eq!((img.width(), img.height()), (2, 2));
    assert_eq!(pixel(&img, 0, 0), [1, 1, 11, 255]);
    assert_eq!(pixel(&img, 1, 1), [2, 2, 22, 255]);

    let mut img = gradient(5, 4);
    let f = CropFilter::new(3, 2, 10, 10).unwrap();
    assert_eq!(f.apply(&mut img), Ok(()));
    assert_eq!((img.width(), img.height()), (2, 2));
    assert_eq!(pixel(&img, 1, 1), [4, 3, 34, 255]);
}

#[test]
fn crop_outside_fails_and_keeps_image() {
    let mut img = gradient(5, 4);
    let f = CropFilter::new(5, 0, 1, 1).unwrap();
    assert_eq!(f.apply(&mut img), Err(ImageError::CropStartOutOfBounds));
    assert_eq!(img.as_raw(), gradient(5, 4).as_raw());
    let f = CropFilter::new(0, 4, 1, 1).unwrap();
    assert_eq!(f.apply(&mut img), Err(ImageError::CropStartOutOfBounds));
}

#[test]
fn crop_whole_image_keeps_it() {
    let mut img = gradient(4, 3);
    CropFilter::new(0, 0, 100, 100).unwrap().apply(&mut img).unwrap();
    assert_eq!(img.as_raw(), gradient(4, 3).as_raw());
}

#[test]
fn center_square_picks_centred_square() {
    let f = CropFilter::center_square(10, 4).unwrap();
    assert_eq!((f.x(), f.y(), f.width(), f.height()), (3, 0, 4, 4));
    let f = CropFilter::center_square(5, 8).unwrap();
    assert_eq!((f.x(), f.y(), f.width(), f.height()), (0, 1, 5, 5));
    let f = CropFilter::center_square(6, 6).unwrap();
    assert_eq!((f.x(), f.y(), f.width(), f.height()), (0, 0, 6, 6));
    assert!(matches!(CropFilter::center_square(0, 6), Err(ImageError::ZeroDimensions)));
    assert!(matches!(CropFilter::center_square(9000, 9000), Err(ImageError::DimensionsTooLarge)));
}

#[test]
fn flips_mirror_pixels() {
    let mut img = gradient(3, 2);
    assert_eq!(FlipFilter::horizontal().apply(&mut img), Ok(()));
    assert_eq!(pixel(&img, 0, 0), [2, 0, 2, 255]);
    assert_eq!(pixel(&img, 2, 1), [0, 1, 10, 255]);

    let mut img = gradient(3, 2);
    FlipFilter::vertical().apply(&mut img).unwrap();
    assert_eq!(pixel(&img, 0, 0), [0, 1, 10, 255]);
    assert_eq!(pixel(&img, 2, 1), [2, 0, 2, 255]);

    let mut img = gradient(3, 2);
    FlipFilter::both().apply(&mut img).unwrap();
    assert_eq!(pixel(&img, 0, 0), [2, 1, 12, 255]);

    let mut img = gradient(3, 2);
    FlipFilter::new(false, false).apply(&mut img).unwrap();
    assert_eq!(img.as_raw(), gradient(3, 2).as_raw());
}

#[test]
fn flip_twice_is_identity() {
    for f in [FlipFilter::horizontal(), FlipFilter::vertical(), FlipFilter::both()] {
        let mut img = gradient(4, 3);
        f.apply(&mut img).unwrap();
        assert_ne!(img.as_raw(), gradient(4, 3).as_raw());
        f.apply(&mut img).unwrap();
        assert_eq!(img.as_raw(), gradient(4, 3).as_raw());
    }
}

#[test]
fn flip_names() {
    assert_eq!(FlipFilter::both().name(), "Flip Both");
    assert_eq!(FlipFilter::horizontal().name(), "Flip Horizontal");
    assert_eq!(FlipFilter::vertical().name(), "Flip Vertical");
    assert_eq!(FlipFilter::new(false, false).name(), "No Flip");
    assert!(FlipFilter::horizontal().is_horizontal());
    assert!(!FlipFilter::horizontal().is_vertical());
}

#[test]
fn quarter_turns() {
    let mut img = gradient(3, 2);
    rotate_90_cw(&mut img);
    assert_eq!((img.width(), img.height()), (2, 3));
    // The first row of the turned image is the first column read bottom to top.
    assert_eq!(pixel(&img, 0, 0), [0, 1, 10, 255]);
    assert_eq!(pixel(&img, 1, 0), [0, 0, 0, 255]);
    assert_eq!(pixel(&img, 0, 2), [2, 1, 12, 255]);

    let mut img = gradient(3, 2);
    rotate_90_ccw(&mut img);
    assert_eq!((img.width(), img.height()), (2, 3));
    assert_eq!(pixel(&img, 0, 0), [2, 0, 2, 255]);
    assert_eq!(pixel(&img, 1, 0), [2, 1, 12, 255]);
    assert_eq!(pixel(&img, 0, 2), [0, 0, 0, 255]);
}

#[test]
fn turns_compose() {
    let mut img = gradient(4, 3);
    rotate_90_cw(&mut img);
    rotate_90_ccw(&mut img);
    assert_eq!(img.as_raw(), gradient(4, 3).as_raw());

    let mut twice = gradient(4, 3);
    rotate_90_cw(&mut twice);
    rotate_90_cw(&mut twice);
    let mut half = gradient(4, 3);
    rotate_180(&mut half);
    assert_eq!(twice.as_raw(), half.as_raw());

    let mut both = gradient(4, 3);
    FlipFilter::both().apply(&mut both).unwrap();
    assert_eq!(both.as_raw(), half.as_raw());

    let mut four = gradient(4, 3);
    for _ in 0..4 {
        rotate_90_cw(&mut four);
    }
    assert_eq!(four.as_raw(), gradient(4, 3).as_raw());
}

#[test]
fn background_colour_parsing() {
    assert_eq!(background_color_from(None), Ok([0, 0, 0, 0]));
    assert_eq!(background_color_from(Some(vec![1, 2, 3, 4])), Ok([1, 2, 3, 4]));
    assert_eq!(background_color_from(Some(vec![1, 2, 3])), Err(ImageError::InvalidBackgroundColor));
    assert_eq!(background_color_from(Some(vec![])), Err(ImageError::InvalidBackgroundColor));
}
