use cine_core::conversions::{
    apply_lut_10_to_12, bayer, flip_vertical_16bit, grayscale_10_to_16bit, ColorFilterArray,
};
use cine_core::errors::Failure;

#[test]
fn conversions_test_tests() {
    let a = 1;
    let b = 5;
    assert_eq!(a * b, 5);
}

#[test]
fn file_types_test_tests() {
    let a = 2;
    let b = 5;
    assert_eq!(a * b, 10);
}

#[test]
fn cfa_codes_zero_to_six() {
    let kinds = [
        ColorFilterArray::Gray,
        ColorFilterArray::Vri,
        ColorFilterArray::VriV6,
        ColorFilterArray::Bayer,
        ColorFilterArray::BayerFlip,
        ColorFilterArray::BayerFlipPb,
        ColorFilterArray::BayerFlipPh,
    ];
    for (code, kind) in kinds.iter().enumerate() {
        assert_eq!(ColorFilterArray::get_cfa(&(code as u32)).unwrap(), *kind);
    }
}

#[test]
fn cfa_ignores_the_bits_above_the_low_byte() {
    for high in [0x8000_0000u32, 0x4000_0000, 0x2000_0000, 0x1000_0000, 0xf000_0000, 0x00ab_cd00] {
        assert_eq!(ColorFilterArray::get_cfa(&(high | 3)).unwrap(), ColorFilterArray::Bayer);
        assert_eq!(ColorFilterArray::get_cfa(&high).unwrap(), ColorFilterArray::Gray);
        assert_eq!(ColorFilterArray::get_cfa(&(high | 7)).unwrap_err().kind(), Failure::Unsupported);
    }
}

#[test]
fn cfa_refuses_every_other_low_byte() {
    for low in 7u32..=255 {
        let refused = ColorFilterArray::get_cfa(&low).unwrap_err();
        assert_eq!(refused.kind(), Failure::Unsupported);
    }
}

#[test]
fn gray_heads() {
    assert_eq!(ColorFilterArray::get_color_head(&0x8000_0003), Some(ColorFilterArray::TopLeftGray));
    assert_eq!(ColorFilterArray::get_color_head(&0x4000_0000), Some(ColorFilterArray::TopRightGray));
    assert_eq!(ColorFilterArray::get_color_head(&0x2000_00ff), Some(ColorFilterArray::BottomLeftGray));
    assert_eq!(ColorFilterArray::get_color_head(&0x1000_0000), Some(ColorFilterArray::BottomRightGray));
    assert_eq!(ColorFilterArray::get_color_head(&0x0000_0003), None);
    assert_eq!(ColorFilterArray::get_color_head(&0x0fff_ffff), None);
    assert_eq!(ColorFilterArray::get_color_head(&0xc000_0000), None);
}

#[test]
fn layout_and_head_together() {
    assert_eq!(ColorFilterArray::from_u32(3).unwrap(), vec![ColorFilterArray::Bayer]);
    assert_eq!(
        ColorFilterArray::from_u32(0x4000_0000).unwrap(),
        vec![ColorFilterArray::Gray, ColorFilterArray::TopRightGray]
    );
    assert_eq!(ColorFilterArray::from_u32(0x4000_0009).unwrap_err().kind(), Failure::Unsupported);
}

#[test]
fn gray_is_a_shift_by_six() {
    let mut out = vec![9u16; 4];
    assert!(grayscale_10_to_16bit(&[0, 1, 512, 1023], &mut out).is_ok());
    assert_eq!(out, vec![0, 64, 32768, 65472]);
    assert!(grayscale_10_to_16bit(&[1024, 4095, 65535], &mut out).is_ok());
    assert_eq!(out, vec![0, 65472, 65472, 65472]);
    assert!(grayscale_10_to_16bit(&[], &mut out).is_ok());
    assert_eq!(out, vec![0, 65472, 65472, 65472]);
    let refused = grayscale_10_to_16bit(&[1, 2, 3, 4, 5], &mut out).unwrap_err();
    assert_eq!(refused.kind(), Failure::Conversion);
    assert_eq!(out, vec![0, 65472, 65472, 65472]);
}

#[test]
fn flat_field_stays_flat() {
    for value in [0u16, 1, 511, 512, 1023] {
        let samples = vec![value; 6 * 5];
        let mut out = vec![1u16; 6 * 5 * 3];
        assert!(bayer(&samples, 6, 5, &mut out).is_ok());
        assert_eq!(out, vec![value << 6; 6 * 5 * 3]);
    }
}

#[test]
fn flat_neighbourhood_gives_a_flat_pixel() {
    // Flat but for the top row; the pixels of row 2 see the flat part only.
    let mut samples = vec![300u16; 5 * 5];
    for c in 0..5 {
        samples[c] = 900;
    }
    let mut out = vec![0u16; 5 * 5 * 3];
    assert!(bayer(&samples, 5, 5, &mut out).is_ok());
    for c in 1..4 {
        let i = (2 * 5 + c) * 3;
        assert_eq!(&out[i..i + 3], &[300 << 6, 300 << 6, 300 << 6]);
    }
    let i = (5 + 1) * 3;
    assert_eq!(&out[i..i + 3], &[600 << 6, 300 << 6, 300 << 6]);
}

#[test]
fn bayer_sites_by_parity() {
    // 4 wide, 4 high; the interior is rows 1..=2, columns 1..=2.
    let samples: Vec<u16> = vec![
        10, 20, 30, 40, //
        50, 60, 70, 80, //
        90, 100, 110, 120, //
        130, 140, 150, 160,
    ];
    let mut out = vec![0u16; 4 * 4 * 3];
    assert!(bayer(&samples, 4, 4, &mut out).is_ok());
    let pixel = |r: usize, c: usize| -> [u16; 3] {
        let i = (r * 4 + c) * 3;
        [out[i], out[i + 1], out[i + 2]]
    };
    // Row 1 (odd), column 1 (odd): green site; red from above and below,
    // blue from left and right.
    assert_eq!(pixel(1, 1), [((20 + 100) / 2) << 6, 60 << 6, ((50 + 70) / 2) << 6]);
    // Row 1 (odd), column 2 (even): red site; green from the four edges,
    // blue from the four corners.
    assert_eq!(
        pixel(1, 2),
        [70 << 6, ((60 + 80 + 30 + 110) / 4) << 6, ((20 + 40 + 100 + 120) / 4) << 6]
    );
    // Row 2 (even), column 1 (odd): blue site; red from the four corners,
    // green from the four edges.
    assert_eq!(
        pixel(2, 1),
        [((50 + 70 + 130 + 150) / 4) << 6, ((90 + 110 + 60 + 140) / 4) << 6, 100 << 6]
    );
    // Row 2 (even), column 2 (even): green site; red from left and right,
    // blue from above and below.
    assert_eq!(pixel(2, 2), [((100 + 120) / 2) << 6, 110 << 6, ((70 + 150) / 2) << 6]);
}

#[test]
fn bayer_border_takes_the_nearest_interior_pixel() {
    let samples: Vec<u16> = (0u16..20).map(|v| v * 7).collect();
    let mut out = vec![0u16; 5 * 4 * 3];
    assert!(bayer(&samples, 5, 4, &mut out).is_ok());
    let pixel = |r: usize, c: usize| -> [u16; 3] {
        let i = (r * 5 + c) * 3;
        [out[i], out[i + 1], out[i + 2]]
    };
    assert_eq!(pixel(0, 0), pixel(1, 1));
    assert_eq!(pixel(0, 2), pixel(1, 2));
    assert_eq!(pixel(0, 4), pixel(1, 3));
    assert_eq!(pixel(2, 0), pixel(2, 1));
    assert_eq!(pixel(2, 4), pixel(2, 3));
    assert_eq!(pixel(3, 0), pixel(2, 1));
    assert_eq!(pixel(3, 3), pixel(2, 3));
    assert_eq!(pixel(3, 4), pixel(2, 3));
}

#[test]
fn bayer_means_do_not_overflow() {
    let samples = vec![65535u16; 9];
    let mut out = vec![0u16; 27];
    assert!(bayer(&samples, 3, 3, &mut out).is_ok());
    assert_eq!(out, vec![65535u16 << 6; 27]);
}

#[test]
fn bayer_refuses_frames_without_interior_or_samples() {
    let samples = vec![1u16; 12];
    let mut out = vec![5u16; 48];
    assert_eq!(bayer(&samples, 2, 6, &mut out).unwrap_err().kind(), Failure::Conversion);
    assert_eq!(bayer(&samples, 6, 2, &mut out).unwrap_err().kind(), Failure::Conversion);
    assert_eq!(bayer(&samples, 0, 0, &mut out).unwrap_err().kind(), Failure::Conversion);
    assert_eq!(bayer(&samples, 4, 4, &mut out).unwrap_err().kind(), Failure::Conversion);
    assert_eq!(bayer(&samples, u32::MAX, u32::MAX, &mut out).unwrap_err().kind(), Failure::Conversion);
    assert_eq!(out, vec![5; 48]);
    let mut short = vec![5u16; 26];
    assert_eq!(bayer(&samples, 3, 3, &mut short).unwrap_err().kind(), Failure::Conversion);
    assert_eq!(short, vec![5; 26]);
    assert!(bayer(&samples, 3, 3, &mut out).is_ok());
    let mut expected = vec![64u16; 27];
    expected.extend(vec![5u16; 21]);
    assert_eq!(out, expected);
}

#[test]
fn reconstruct_by_layout() {
    let samples = vec![100u16; 9];
    let mut out = vec![1u16; 27];
    assert!(ColorFilterArray::Gray.reconstruct(&samples, 3, 3, &mut out).is_ok());
    let mut expected = vec![6400u16; 9];
    expected.extend(vec![1u16; 18]);
    assert_eq!(out, expected);
    assert!(ColorFilterArray::Bayer.reconstruct(&samples, 3, 3, &mut out).is_ok());
    assert_eq!(out, vec![6400; 27]);
    let mut short = vec![1u16; 8];
    let refused = ColorFilterArray::Gray.reconstruct(&samples, 3, 3, &mut short).unwrap_err();
    assert_eq!(refused.kind(), Failure::Conversion);
    assert_eq!(short, vec![1; 8]);
    for kind in [
        ColorFilterArray::Vri,
        ColorFilterArray::VriV6,
        ColorFilterArray::BayerFlip,
        ColorFilterArray::BayerFlipPb,
        ColorFilterArray::BayerFlipPh,
        ColorFilterArray::TopLeftGray,
        ColorFilterArray::TopRightGray,
        ColorFilterArray::BottomLeftGray,
        ColorFilterArray::BottomRightGray,
    ] {
        let refused = kind.reconstruct(&samples, 3, 3, &mut out).unwrap_err();
        assert_eq!(refused.kind(), Failure::Unsupported);
        assert_eq!(out, vec![6400; 27]);
    }
}

#[test]
fn vertical_flip() {
    let mut data: Vec<u16> = (1u16..=12).collect();
    flip_vertical_16bit(&mut data, 3, 4);
    assert_eq!(data, vec![10, 11, 12, 7, 8, 9, 4, 5, 6, 1, 2, 3]);
    flip_vertical_16bit(&mut data, 3, 4);
    assert_eq!(data, (1u16..=12).collect::<Vec<u16>>());
    flip_vertical_16bit(&mut data, 4, 3);
    assert_eq!(data, vec![9, 10, 11, 12, 5, 6, 7, 8, 1, 2, 3, 4]);
    let mut data: Vec<u16> = vec![1, 2, 3, 4, 5];
    flip_vertical_16bit(&mut data, 2, 2);
    assert_eq!(data, vec![3, 4, 1, 2, 5]);
    flip_vertical_16bit(&mut data, 0, 9);
    assert_eq!(data, vec![3, 4, 1, 2, 5]);
    flip_vertical_16bit(&mut data, 5, 1);
    assert_eq!(data, vec![3, 4, 1, 2, 5]);
    flip_vertical_16bit(&mut data, 9, 1);
    assert_eq!(data, vec![3, 4, 1, 2, 5]);
    flip_vertical_16bit(&mut data, u32::MAX, 0);
    assert_eq!(data, vec![3, 4, 1, 2, 5]);
}

#[test]
fn lookup_table() {
    let lut: Vec<u16> = (0u16..1024).map(|v| v * 4 + 1).collect();
    let mut pixels = vec![0u16, 1, 1023, 1024, 65535];
    apply_lut_10_to_12(&mut pixels, &lut);
    assert_eq!(pixels, vec![1, 5, 4093, 4093, 4093]);
}
