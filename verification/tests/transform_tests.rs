use oelimg_rs::crop::{crop_window_gradients, SmartCropFilter};
use oelimg_rs::error::ImageError;
use oelimg_rs::image_data::ImageData;
use oelimg_rs::noise::{grain_cell_seed, next_noise_seed, noise_level};
use oelimg_rs::presets::InstagramPreset;
use oelimg_rs::resize::{ResizeAlgorithm, ThumbnailFilter};
use oelimg_rs::rotate::{rotate_180, rotate_90_ccw, rotate_90_cw, rotate_right_angle};

/// A `w` by `h` image whose pixel (x, y) is [x, y, x + 10 * y, 255].
fn gradient(w: u32, h: u32) -> ImageData {
    let mut data = Vec::new();
    for y in 0..h {
        for x in 0..w {
            data.extend_from_slice(&[x as u8, y as u8, (x + 10 * y) as u8, 255]);
        }
    }
    ImageData::from_raw(w, h, data).unwrap()
}

fn checkerboard(w: u32, h: u32) -> ImageData {
    let mut data = Vec::new();
    for y in 0..h {
        for x in 0..w {
            let v: u8 = if (x + y) % 2 == 0 { 255 } else { 0 };
            data.extend_from_slice(&[v, v / 2, 255 - v, 255]);
        }
    }
    ImageData::from_raw(w, h, data).unwrap()
}

#[test]
fn right_angles_rotate_exactly() {
    let mut expected = gradient(3, 2);
    rotate_90_cw(&mut expected);
    for angle in [90, -270] {
        let mut img = gradient(3, 2);
        assert!(rotate_right_angle(&mut img, angle));
        assert_eq!((img.width(), img.height()), (2, 3));
        assert_eq!(img.as_raw(), expected.as_raw());
    }

    let mut expected = gradient(3, 2);
    rotate_90_ccw(&mut expected);
    for angle in [270, -90] {
        let mut img = gradient(3, 2);
        assert!(rotate_right_angle(&mut img, angle));
        assert_eq!(img.as_raw(), expected.as_raw());
    }

    let mut expected = gradient(3, 2);
    rotate_180(&mut expected);
    for angle in [180, -180] {
        let mut img = gradient(3, 2);
        assert!(rotate_right_angle(&mut img, angle));
        assert_eq!(img.as_raw(), expected.as_raw());
    }
}

#[test]
fn other_angles_leave_image_alone() {
    let mut img = gradient(3, 2);
    assert!(rotate_right_angle(&mut img, 0));
    assert_eq!(img.as_raw(), gradient(3, 2).as_raw());
    for angle in [45, 360, -45, 1, 91] {
        let mut img = gradient(3, 2);
        assert!(!rotate_right_angle(&mut img, angle));
        assert_eq!((img.width(), img.height()), (3, 2));
        assert_eq!(img.as_raw(), gradient(3, 2).as_raw());
    }
}

#[test]
fn noise_generator_values() {
    assert_eq!(next_noise_seed(0), 12345);
    assert_eq!(next_noise_seed(1), 1103527590);
    assert_eq!(next_noise_seed(12345), 3554416254);
    assert_eq!(noise_level(1103527590), 198);
    assert_eq!(noise_level(0xABCD_EF12), 205);
    assert_eq!(grain_cell_seed(0, 0), 12345);
    assert_eq!(grain_cell_seed(3, 5), 1742938965);
}

#[test]
fn window_gradients_sample_every_fourth_pixel() {
    // Right neighbour differs by (1, 0, 1), lower neighbour by (0, 1, 10).
    assert_eq!(crop_window_gradients(&gradient(3, 3), 0, 0, 3, 3), vec![13]);
    assert_eq!(crop_window_gradients(&gradient(6, 6), 0, 0, 6, 6), vec![13, 13, 13, 13]);
    assert_eq!(crop_window_gradients(&gradient(6, 6), 4, 4, 2, 2), vec![13]);
    // Pixels in the last column or row have no neighbour and are skipped.
    assert_eq!(crop_window_gradients(&gradient(6, 6), 5, 0, 1, 6), Vec::<u32>::new());
    assert_eq!(crop_window_gradients(&gradient(6, 6), 0, 5, 6, 1), Vec::<u32>::new());
    // A checkerboard changes by 255 + 127 + 255 towards each neighbour.
    assert_eq!(crop_window_gradients(&checkerboard(4, 4), 0, 0, 1, 1), vec![1274]);
}

#[test]
fn smart_crop_candidates_step_by_eight() {
    let img = gradient(20, 12);
    let filter = SmartCropFilter::new(2, 2).unwrap();
    assert_eq!(
        filter.candidate_positions(&img),
        Ok(vec![(0, 0), (8, 0), (16, 0), (0, 8), (8, 8), (16, 8)])
    );
    let exact = SmartCropFilter::new(20, 12).unwrap();
    assert_eq!(exact.candidate_positions(&img), Ok(vec![(0, 0)]));
    let too_wide = SmartCropFilter::new(30, 2).unwrap();
    assert_eq!(too_wide.candidate_positions(&img), Err(ImageError::CropLargerThanImage));
    let too_tall = SmartCropFilter::new(2, 13).unwrap();
    assert_eq!(too_tall.candidate_positions(&img), Err(ImageError::CropLargerThanImage));
}

#[test]
fn thumbnail_prepare_squares_then_plans_resize() {
    let thumb = ThumbnailFilter::new(2, None, None).unwrap();
    let mut img = gradient(6, 4);
    let resize = thumb.prepare(&mut img).unwrap();
    assert_eq!((img.width(), img.height()), (4, 4));
    assert_eq!(img.get_pixel(0, 0), [1, 0, 1, 255]);
    assert_eq!(img.get_pixel(3, 3), [4, 3, 34, 255]);
    assert_eq!((resize.width(), resize.height()), (2, 2));
    assert!(!resize.maintain_aspect_ratio());
    assert_eq!(resize.algorithm(), ResizeAlgorithm::Lanczos3);

    let fit = ThumbnailFilter::new(2, Some(ResizeAlgorithm::Nearest), Some(false)).unwrap();
    let mut img = gradient(6, 4);
    let resize = fit.prepare(&mut img).unwrap();
    assert_eq!(img.as_raw(), gradient(6, 4).as_raw());
    assert_eq!((resize.width(), resize.height()), (2, 2));
    assert!(resize.maintain_aspect_ratio());
    assert_eq!(resize.algorithm(), ResizeAlgorithm::Nearest);

    let mut empty = ImageData::from_raw(0, 3, Vec::new()).unwrap();
    assert_eq!(thumb.prepare(&mut empty).err(), Some(ImageError::ZeroDimensions));
    assert_eq!(empty.height(), 3);
}

#[test]
fn presets_are_found_by_exact_name() {
    assert_eq!(InstagramPreset::from_name("clarendon"), Some(InstagramPreset::Clarendon));
    assert_eq!(InstagramPreset::from_name("gingham"), Some(InstagramPreset::Gingham));
    assert_eq!(InstagramPreset::from_name("moon"), Some(InstagramPreset::Moon));
    assert_eq!(InstagramPreset::from_name("lark"), Some(InstagramPreset::Lark));
    assert_eq!(InstagramPreset::from_name("reyes"), Some(InstagramPreset::Reyes));
    assert_eq!(InstagramPreset::from_name("Moon"), None);
    assert_eq!(InstagramPreset::from_name("moon "), None);
    assert_eq!(InstagramPreset::from_name(""), None);
    assert_eq!(InstagramPreset::from_name("valencia"), None);
}

#[test]
fn smart_crop_applies_the_chosen_candidate() {
    let filter = SmartCropFilter::new(2, 2).unwrap();
    // Candidates on a 20 by 12 image: (0,0) (8,0) (16,0) (0,8) (8,8) (16,8).
    let mut img = gradient(20, 12);
    assert_eq!(filter.apply(&mut img, 4), Ok(()));
    assert_eq!((img.width(), img.height()), (2, 2));
    assert_eq!(img.get_pixel(0, 0), [8, 8, 88, 255]);
    assert_eq!(img.get_pixel(1, 1), [9, 9, 99, 255]);

    let mut img = gradient(20, 12);
    assert_eq!(filter.apply(&mut img, 99), Ok(()));
    assert_eq!(img.get_pixel(0, 0), [0, 0, 0, 255]);

    let too_wide = SmartCropFilter::new(30, 2).unwrap();
    let mut img = gradient(20, 12);
    assert_eq!(too_wide.apply(&mut img, 0), Err(ImageError::CropLargerThanImage));
    assert_eq!(img.as_raw(), gradient(20, 12).as_raw());
}

#[test]
fn opposite_right_angles_cancel() {
    for angle in [0, 90, -90, 180, -180, 270, -270] {
        let mut img = gradient(4, 3);
        assert!(rotate_right_angle(&mut img, angle));
        assert!(rotate_right_angle(&mut img, -angle));
        assert_eq!((img.width(), img.height()), (4, 3));
        assert_eq!(img.as_raw(), gradient(4, 3).as_raw());
    }
    let mut img = gradient(4, 3);
    assert!(rotate_right_angle(&mut img, 180));
    assert!(rotate_right_angle(&mut img, 180));
    assert_eq!(img.as_raw(), gradient(4, 3).as_raw());
}
