use memory_image_viewer::{gray_alpha_to_rgba, ChannelOrder, ColorLayout, DataType, ImageProcessingError};

const ALL: [DataType; 16] = [
    DataType::CV_8UC1,
    DataType::CV_8UC2,
    DataType::CV_8UC3,
    DataType::CV_8UC4,
    DataType::CV_16UC1,
    DataType::CV_16UC2,
    DataType::CV_16UC3,
    DataType::CV_16UC4,
    DataType::CV_32FC1,
    DataType::CV_32FC2,
    DataType::CV_32FC3,
    DataType::CV_32FC4,
    DataType::CV_64FC1,
    DataType::CV_64FC2,
    DataType::CV_64FC3,
    DataType::CV_64FC4,
];

fn f32_bytes(values: &[f32]) -> Vec<u8> {
    values.iter().flat_map(|v| v.to_le_bytes()).collect()
}

fn f64_bytes(values: &[f64]) -> Vec<u8> {
    values.iter().flat_map(|v| v.to_le_bytes()).collect()
}

fn u16_bytes(values: &[u16]) -> Vec<u8> {
    values.iter().flat_map(|v| v.to_le_bytes()).collect()
}

#[test]
fn catalog_is_self_consistent() {
    for t in ALL {
        assert_eq!(
            t.channels() as u32 * t.bytes_per_color() as u32,
            t.bytes_per_pixel() as u32
        );
        assert_eq!(t.color_layout().channel_count(), t.channels());
    }
    assert_eq!(DataType::CV_16UC3.bytes_per_pixel(), 6);
    assert_eq!(DataType::CV_64FC4.bytes_per_pixel(), 32);
    assert_eq!(DataType::CV_8UC1.bytes_per_pixel(), 1);
}

#[test]
fn defaults() {
    assert_eq!(DataType::default(), DataType::CV_8UC3);
    assert!(ChannelOrder::default() == ChannelOrder::Rgb);
}

#[test]
fn zero_buffer_converts_to_zero_or_255_for_16_bit() {
    for t in ALL {
        for order in [ChannelOrder::Rgb, ChannelOrder::Bgr] {
            let len = 2 * 3 * t.bytes_per_pixel() as usize;
            let img = t.init_image_data(vec![0u8; len], 2, 3, order).unwrap();
            let expected = if t.bytes_per_color() == 2 { 255u8 } else { 0u8 };
            assert_eq!(img.data, vec![expected; 6 * t.channels() as usize]);
        }
    }
}

#[test]
fn float32_one_becomes_255() {
    for t in [DataType::CV_32FC1, DataType::CV_32FC2, DataType::CV_32FC3, DataType::CV_32FC4] {
        let c = t.channels() as usize;
        let bytes = f32_bytes(&vec![1.0f32; c]);
        let img = t.init_image_data(bytes, 1, 1, ChannelOrder::Rgb).unwrap();
        assert_eq!(img.data, vec![255u8; c]);
    }
}

#[test]
fn float64_one_becomes_255() {
    let bytes = f64_bytes(&[1.0, 1.0, 1.0]);
    let img = DataType::CV_64FC3.init_image_data(bytes, 1, 1, ChannelOrder::Bgr).unwrap();
    assert_eq!(img.data, vec![255u8; 3]);
}

#[test]
fn u16_extremes_become_255() {
    let bytes = u16_bytes(&[65535, 0, 1, 256, 32768, 65534]);
    let out = DataType::CV_16UC1.convert_to_supported(bytes, ChannelOrder::Rgb);
    assert_eq!(out, vec![255u8; 6]);
}

#[test]
fn float32_half_becomes_127() {
    let bytes = f32_bytes(&[0.5]);
    let img = DataType::CV_32FC1.init_image_data(bytes, 1, 1, ChannelOrder::Rgb).unwrap();
    assert_eq!(img.data, vec![127u8]);
    assert_eq!(img.color_type, ColorLayout::Gray8);
}

#[test]
fn float32_samples_match_multiply_and_cast() {
    let values = [
        0.0f32, -0.0, 0.1, 0.2, 0.25, 0.3333, 0.5, 0.7, 0.999, 0.99999994, 1.0, 1.5, 2.0, 1e-40,
        -0.5, -1e30, 1e30, 255.0, 3.0e38, f32::NAN, f32::INFINITY, f32::NEG_INFINITY,
        f32::MIN_POSITIVE, 0.003921569, 0.0039215684, 0.5019608,
    ];
    let out = DataType::CV_32FC1.convert_to_supported(f32_bytes(&values), ChannelOrder::Rgb);
    let expected: Vec<u8> = values.iter().map(|f| (f * 255.0) as u8).collect();
    assert_eq!(out, expected);
}

#[test]
fn float64_samples_match_multiply_and_cast() {
    let near_one_255th = 4521260802379792u64 as f64 * 2f64.powi(-60);
    let values = [
        0.0f64, -0.0, 0.1, 0.2, 0.25, 1.0 / 3.0, 0.5, 0.7, 0.999, 0.9999999999999999, 1.0, 1.5,
        2.0, 1e-310, -0.5, -1e300, 1e300, 255.0, f64::NAN, f64::INFINITY, f64::NEG_INFINITY,
        f64::MIN_POSITIVE, near_one_255th, 1.0 / 255.0, 2.0 / 255.0, 100.0 / 255.0,
    ];
    let out = DataType::CV_64FC1.convert_to_supported(f64_bytes(&values), ChannelOrder::Rgb);
    let expected: Vec<u8> = values.iter().map(|f| (f * 255.0) as u8).collect();
    assert_eq!(out, expected);
    assert_eq!(out[22], 1);
}

#[test]
fn negative_and_nan_samples_become_zero() {
    let out = DataType::CV_32FC2
        .convert_to_supported(f32_bytes(&[-0.25, f32::NAN]), ChannelOrder::Bgr);
    assert_eq!(out, vec![0u8, 0u8]);
}

#[test]
fn out_of_range_samples_saturate() {
    let out = DataType::CV_64FC2
        .convert_to_supported(f64_bytes(&[3.0, f64::INFINITY]), ChannelOrder::Rgb);
    assert_eq!(out, vec![255u8, 255u8]);
}

#[test]
fn bgr_swap_is_its_own_inverse() {
    let rgb3: Vec<u8> = (1..=12).collect();
    let once = DataType::CV_8UC3.convert_to_supported(rgb3.clone(), ChannelOrder::Bgr);
    assert_ne!(once, rgb3);
    let twice = DataType::CV_8UC3.convert_to_supported(once, ChannelOrder::Bgr);
    assert_eq!(twice, rgb3);

    let rgba: Vec<u8> = (1..=8).collect();
    let once = DataType::CV_8UC4.convert_to_supported(rgba.clone(), ChannelOrder::Bgr);
    assert_eq!(once, vec![3, 2, 1, 4, 7, 6, 5, 8]);
    let twice = DataType::CV_8UC4.convert_to_supported(once, ChannelOrder::Bgr);
    assert_eq!(twice, rgba);
}

#[test]
fn gray_buffers_ignore_channel_order() {
    let gray: Vec<u8> = vec![9, 8, 7, 6];
    for t in [DataType::CV_8UC1, DataType::CV_8UC2] {
        let bgr = t.convert_to_supported(gray.clone(), ChannelOrder::Bgr);
        let rgb = t.convert_to_supported(gray.clone(), ChannelOrder::Rgb);
        assert_eq!(bgr, gray);
        assert_eq!(rgb, gray);
    }
}

#[test]
fn bgr_applies_after_float_conversion() {
    let bytes = f32_bytes(&[1.0, 0.5, 0.0, 0.2]);
    let img = DataType::CV_32FC4.init_image_data(bytes, 1, 1, ChannelOrder::Bgr).unwrap();
    assert_eq!(img.data, vec![0, 127, 255, 51]);
    assert_eq!(img.color_type, ColorLayout::Rgba8);
}

#[test]
fn length_mismatch_is_a_precondition_violation() {
    let short = DataType::CV_8UC3.init_image_data(vec![0u8; 5], 2, 1, ChannelOrder::Rgb);
    assert!(matches!(short, Err(ImageProcessingError::PreconditionViolation)));
    let long = DataType::CV_16UC1.init_image_data(vec![0u8; 9], 2, 2, ChannelOrder::Rgb);
    assert!(matches!(long, Err(ImageProcessingError::PreconditionViolation)));
    let huge = DataType::CV_64FC4.init_image_data(vec![], u32::MAX, u32::MAX, ChannelOrder::Rgb);
    assert!(matches!(huge, Err(ImageProcessingError::PreconditionViolation)));
    let empty = DataType::CV_8UC1.init_image_data(vec![], 0, 7, ChannelOrder::Rgb).unwrap();
    assert!(empty.data.is_empty());
}

#[test]
fn rgb8_scenario() {
    let input = vec![10u8, 20, 30, 40, 50, 60];
    let rgb = DataType::CV_8UC3.init_image_data(input.clone(), 2, 1, ChannelOrder::Rgb).unwrap();
    assert_eq!(rgb.data, vec![10, 20, 30, 40, 50, 60]);
    assert_eq!(rgb.color_type, ColorLayout::Rgb8);
    assert_eq!((rgb.width, rgb.height), (2, 1));
    let bgr = DataType::CV_8UC3.init_image_data(input, 2, 1, ChannelOrder::Bgr).unwrap();
    assert_eq!(bgr.data, vec![30, 20, 10, 60, 50, 40]);
}

#[test]
fn layouts_follow_channel_count() {
    assert_eq!(DataType::CV_16UC1.color_layout(), ColorLayout::Gray8);
    assert_eq!(DataType::CV_64FC2.color_layout(), ColorLayout::GrayAlpha8);
    assert_eq!(DataType::CV_32FC3.color_layout(), ColorLayout::Rgb8);
    assert_eq!(DataType::CV_8UC4.color_layout(), ColorLayout::Rgba8);
}

#[test]
fn names_and_aliases() {
    assert_eq!(DataType::CV_8UC3.name(), "CV_8UC3");
    assert_eq!(DataType::CV_8UC3.alias(), "8UC3");
    assert_eq!(DataType::CV_64FC2.name(), "CV_64FC2");
    for t in ALL {
        assert_eq!(t.name(), format!("CV_{}", t.alias()));
    }
    let offered = DataType::cli_variants();
    assert_eq!(offered, ALL.to_vec());
}

#[test]
fn gray_alpha_expands_to_rgba() {
    assert_eq!(gray_alpha_to_rgba(&vec![10, 200, 0, 7]), vec![10, 10, 10, 200, 0, 0, 0, 7]);
    assert_eq!(gray_alpha_to_rgba(&vec![5, 6, 9]), vec![5, 5, 5, 6]);
    assert!(gray_alpha_to_rgba(&vec![]).is_empty());
}
