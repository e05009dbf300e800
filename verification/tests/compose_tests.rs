use degen_pov::compose::{Raster, ComposeError, overlay_image, is_portrait};

fn rgb1x1(r: u8, g: u8, b: u8) -> Raster {
    Raster { width: 1, height: 1, channels: 3, data: vec![r, g, b] }
}

fn rgba1x1(r: u8, g: u8, b: u8, a: u8) -> Raster {
    Raster { width: 1, height: 1, channels: 4, data: vec![r, g, b, a] }
}

#[test]
fn output_dimensions_equal_base_dimensions() {
    let base = Raster {
        width: 3,
        height: 2,
        channels: 3,
        data: vec![0; 3 * 2 * 3],
    };
    let overlay = Raster {
        width: 2,
        height: 1,
        channels: 4,
        data: vec![0; 2 * 1 * 4],
    };
    let out = overlay_image(&base, &overlay, None).unwrap();
    assert_eq!(out.width, base.width);
    assert_eq!(out.height, base.height);
    assert_eq!(out.channels, 4);
    assert_eq!(out.data.len(), 3 * 2 * 4);
}

#[test]
fn previous_result_has_no_effect() {
    let base = rgb1x1(10, 20, 30);
    let overlay = rgba1x1(200, 100, 50, 128);
    let stale = rgba1x1(1, 2, 3, 4);
    let without = overlay_image(&base, &overlay, None).unwrap();
    let with = overlay_image(&base, &overlay, Some(&stale)).unwrap();
    assert_eq!(without.width, with.width);
    assert_eq!(without.height, with.height);
    assert_eq!(without.channels, with.channels);
    assert_eq!(without.data, with.data);
}

#[test]
fn opaque_overlay_replaces_the_base_pixel() {
    let base = rgb1x1(10, 20, 30);
    let overlay = rgba1x1(200, 100, 50, 255);
    let out = overlay_image(&base, &overlay, None).unwrap();
    assert_eq!(out.data, vec![200, 100, 50, 255]);
}

#[test]
fn transparent_overlay_leaves_the_promoted_base() {
    let base = rgb1x1(10, 20, 30);
    let overlay = rgba1x1(200, 100, 50, 0);
    let out = overlay_image(&base, &overlay, None).unwrap();
    // untouched, with the promoted fully-opaque alpha plane
    assert_eq!(out.data, vec![10, 20, 30, 255]);
}

#[test]
fn half_alpha_blends_exactly() {
    let base = rgb1x1(100, 100, 100);
    let overlay = rgba1x1(200, 200, 200, 128);
    let out = overlay_image(&base, &overlay, None).unwrap();
    // ((255 - 128) * 100 + 128 * 200) / 255 = 38300 / 255 = 150
    assert_eq!(out.data, vec![150, 150, 150, 255]);
}

#[test]
fn four_channel_base_keeps_its_alpha_where_uncovered() {
    let base = rgba1x1(10, 20, 30, 7);
    let overlay = rgba1x1(200, 100, 50, 0);
    let out = overlay_image(&base, &overlay, None).unwrap();
    assert_eq!(out.data, vec![10, 20, 30, 7]);
}

#[test]
fn overlay_sits_at_the_bottom_of_a_tall_base() {
    // base is one column of three rows; the 1x1 overlay covers only the last
    let base = Raster {
        width: 1,
        height: 3,
        channels: 3,
        data: vec![5, 5, 5, 6, 6, 6, 7, 7, 7],
    };
    let overlay = rgba1x1(90, 91, 92, 255);
    let out = overlay_image(&base, &overlay, None).unwrap();
    assert_eq!(
        out.data,
        vec![5, 5, 5, 255, 6, 6, 6, 255, 90, 91, 92, 255]
    );
}

#[test]
fn taller_overlay_keeps_its_top_and_crops_the_bottom() {
    // the overlay resized to the base width is four rows tall; only its
    // topmost row lands on the one-row base
    let base = Raster {
        width: 2,
        height: 1,
        channels: 3,
        data: vec![50, 50, 50, 60, 60, 60],
    };
    let overlay = Raster {
        width: 1,
        height: 2,
        channels: 4,
        data: vec![1, 2, 3, 255, 9, 9, 9, 255],
    };
    let out = overlay_image(&base, &overlay, None).unwrap();
    assert_eq!(out.data, vec![1, 2, 3, 255, 1, 2, 3, 255]);
}

#[test]
fn resized_height_rounds_half_up_and_columns_sample_across() {
    // a 2x1 overlay on a 3-wide base scales to 3x2 (1.5 rounds up to 2),
    // covering the bottom two of the five base rows; the overlay's two
    // columns stretch across the base's three
    let base = Raster {
        width: 3,
        height: 5,
        channels: 3,
        data: vec![10; 3 * 5 * 3],
    };
    let overlay = Raster {
        width: 2,
        height: 1,
        channels: 4,
        data: vec![100, 110, 120, 255, 200, 210, 220, 255],
    };
    let out = overlay_image(&base, &overlay, None).unwrap();
    assert_eq!((out.width, out.height, out.channels), (3, 5, 4));
    let uncovered = [10, 10, 10, 255];
    let left = [100, 110, 120, 255];
    let right = [200, 210, 220, 255];
    let mut expected: Vec<u8> = Vec::new();
    for _ in 0..9usize {
        expected.extend_from_slice(&uncovered); // rows 0..3, all columns
    }
    for _ in 0..2usize {
        expected.extend_from_slice(&left); // rows 3 and 4: columns 0 and 1
        expected.extend_from_slice(&left); // sample overlay column 0,
        expected.extend_from_slice(&right); // column 2 samples column 1
    }
    assert_eq!(out.data, expected);
}

#[test]
fn unsupported_channel_count_is_refused() {
    let base = Raster { width: 1, height: 1, channels: 2, data: vec![8, 9] };
    let overlay = rgba1x1(0, 0, 0, 255);
    let r = overlay_image(&base, &overlay, None);
    match r {
        Err(e) => assert_eq!(e, ComposeError::UnsupportedFormat),
        Ok(_) => panic!("a two-channel base must be refused"),
    }
}

#[test]
fn portrait_needs_more_than_five_percent_extra_height() {
    assert!(is_portrait(100, 106));
    assert!(!is_portrait(100, 105)); // exactly 1.05 is not portrait
    assert!(!is_portrait(100, 100));
    assert!(!is_portrait(106, 100));
    assert!(is_portrait(20, 21 + 1));
    assert!(!is_portrait(20, 21));
}
