use oelimg_rs::histogram::{Histogram, HistogramChannel};
use oelimg_rs::image_data::ImageData;

fn image(pixels: &[[u8; 4]]) -> ImageData {
    let data: Vec<u8> = pixels.iter().flat_map(|p| p.iter().copied()).collect();
    ImageData::from_raw(pixels.len() as u32, 1, data).unwrap()
}

#[test]
fn new_histogram_is_empty() {
    let h = Histogram::new();
    assert_eq!(h.red, vec![0; 256]);
    assert_eq!(h.green, vec![0; 256]);
    assert_eq!(h.blue, vec![0; 256]);
    assert_eq!(h.luminance, vec![0; 256]);
}

#[test]
fn from_image_counts_channels_and_levels() {
    let img = image(&[[10, 20, 30, 255], [10, 0, 255, 0], [0, 20, 30, 7]]);
    let h = Histogram::from_image(&img, &vec![5, 300, 5]);
    assert_eq!(h.red[10], 2);
    assert_eq!(h.red[0], 1);
    assert_eq!(h.green[20], 2);
    assert_eq!(h.green[0], 1);
    assert_eq!(h.blue[30], 2);
    assert_eq!(h.blue[255], 1);
    assert_eq!(h.luminance[5], 2);
    assert_eq!(h.luminance[255], 1);
    for ch in [HistogramChannel::Red, HistogramChannel::Green, HistogramChannel::Blue, HistogramChannel::Luminance] {
        assert_eq!(h.total(ch), 3);
    }
}

#[test]
fn weighted_sum_weights_by_value() {
    let img = image(&[[10, 1, 2, 0], [20, 1, 2, 0]]);
    let h = Histogram::from_image(&img, &vec![0, 0]);
    assert_eq!(h.weighted_sum(HistogramChannel::Red), 30);
    assert_eq!(h.weighted_sum(HistogramChannel::Green), 2);
    assert_eq!(h.weighted_sum(HistogramChannel::Luminance), 0);
}

#[test]
fn percentile_bin_finds_first_bin_reaching_target() {
    let mut h = Histogram::new();
    h.red[3] = 2;
    h.red[7] = 5;
    h.red[200] = 3;
    assert_eq!(h.percentile_bin(HistogramChannel::Red, 0), 0);
    assert_eq!(h.percentile_bin(HistogramChannel::Red, 1), 3);
    assert_eq!(h.percentile_bin(HistogramChannel::Red, 2), 3);
    assert_eq!(h.percentile_bin(HistogramChannel::Red, 3), 7);
    assert_eq!(h.percentile_bin(HistogramChannel::Red, 7), 7);
    assert_eq!(h.percentile_bin(HistogramChannel::Red, 8), 200);
    assert_eq!(h.percentile_bin(HistogramChannel::Red, 10), 200);
    assert_eq!(h.percentile_bin(HistogramChannel::Red, 11), 255);
    assert_eq!(h.percentile_bin(HistogramChannel::Green, 1), 255);
}

#[test]
fn percentile_bin_is_monotone() {
    let img = image(&[[1, 0, 0, 0], [50, 0, 0, 0], [50, 0, 0, 0], [99, 0, 0, 0], [250, 0, 0, 0]]);
    let h = Histogram::from_image(&img, &vec![0; 5]);
    let mut last = 0u8;
    for t in 0..=5u32 {
        let bin = h.percentile_bin(HistogramChannel::Red, t);
        assert!(bin >= last);
        last = bin;
    }
    assert_eq!(last, 250);
}
