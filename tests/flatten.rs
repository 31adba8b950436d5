use alpha_flatten::{
    composite_sample, flatten, flatten_rgba16, flatten_rgba8, narrow_samples, pack_u16_be,
    remove_alpha_from_4_channel, unpack_u16_be, widen_samples, ColorSpace, ColorType,
    RasterImage, RemoveAlpha,
};

#[test]
fn half_transparent_pixel_blends_toward_white() {
    assert_eq!(flatten_rgba8(&[200, 100, 50, 128]), vec![227, 177, 152]);
}

#[test]
fn opaque_pixel_keeps_its_colour() {
    assert_eq!(flatten_rgba8(&[10, 20, 30, 255]), vec![10, 20, 30]);
}

#[test]
fn transparent_pixel_turns_white() {
    assert_eq!(flatten_rgba8(&[10, 20, 30, 0]), vec![255, 255, 255]);
}

#[test]
fn opaque_buffer_loses_only_alpha() {
    let input = [0, 1, 2, 255, 253, 254, 255, 255, 7, 8, 9, 255];
    assert_eq!(flatten_rgba8(&input), vec![0, 1, 2, 253, 254, 255, 7, 8, 9]);
}

#[test]
fn transparent_pixels_turn_white_whatever_their_colour() {
    let input = [0, 0, 0, 0, 255, 255, 255, 0, 17, 200, 3, 0];
    assert_eq!(flatten_rgba8(&input), vec![255; 9]);
}

#[test]
fn blend_rounds_to_nearest() {
    // 127.5019... rounds up, 127.0 stays
    assert_eq!(flatten_rgba8(&[1, 0, 255, 128]), vec![128, 127, 255]);
    assert_eq!(flatten_rgba8(&[255, 0, 0, 1, 0, 0, 0, 254]), vec![255, 254, 254, 1, 1, 1]);
}

#[test]
fn output_length_is_three_quarters() {
    assert_eq!(flatten_rgba8(&[]).len(), 0);
    assert_eq!(flatten_rgba8(&[5; 40]).len(), 30);
    assert_eq!(flatten_rgba16(&[5; 80]).len(), 60);
    assert_eq!(flatten_rgba16(&[]).len(), 0);
}

#[test]
fn every_output_sample_stays_in_range() {
    let mut input: Vec<u16> = Vec::new();
    for c in [0u16, 1, 100, 254, 255] {
        for a in [0u16, 1, 127, 128, 254, 255] {
            input.extend_from_slice(&[c, 255 - c, c / 2, a]);
        }
    }
    let out = remove_alpha_from_4_channel(&input, 255);
    assert_eq!(out.len(), input.len() / 4 * 3);
    assert!(out.iter().all(|&v| v <= 255));
}

#[test]
fn sixteen_bit_opaque_pixel_keeps_its_colour() {
    let input = [0x12, 0x34, 0xab, 0xcd, 0x00, 0x00, 0xff, 0xff];
    assert_eq!(flatten_rgba16(&input), vec![0x12, 0x34, 0xab, 0xcd, 0x00, 0x00]);
}

#[test]
fn sixteen_bit_transparent_pixel_turns_white() {
    let input = [0x12, 0x34, 0xab, 0xcd, 0x00, 0x00, 0x00, 0x00];
    assert_eq!(flatten_rgba16(&input), vec![0xff; 6]);
}

#[test]
fn sixteen_bit_half_transparent_pixel() {
    let input = [0x00, 0x00, 0xff, 0xff, 0x03, 0xe8, 0x80, 0x00];
    assert_eq!(flatten_rgba16(&input), vec![0x7f, 0xff, 0xff, 0xff, 0x81, 0xf3]);
}

#[test]
fn composite_sample_at_both_depths() {
    assert_eq!(composite_sample(200, 128, 255), 227);
    assert_eq!(composite_sample(0, 0, 255), 255);
    assert_eq!(composite_sample(1000, 32768, 65535), 33267);
    assert_eq!(composite_sample(65535, 65535, 65535), 65535);
    assert_eq!(composite_sample(0, 65535, 65535), 0);
}

#[test]
fn packing_sixteen_bit_values_round_trips() {
    let values: Vec<u16> = vec![0, 1, 255, 256, 0x1234, 0xfffe, 65535];
    let bytes = pack_u16_be(&values);
    assert_eq!(&bytes[..4], &[0, 0, 0, 1]);
    assert_eq!(&bytes[8..10], &[0x12, 0x34]);
    assert_eq!(unpack_u16_be(&bytes), values);
}

#[test]
fn unpacking_reads_big_endian_pairs() {
    assert_eq!(unpack_u16_be(&[0x01, 0x02, 0xff, 0x00]), vec![0x0102, 0xff00]);
}

#[test]
fn widening_and_narrowing_keep_values() {
    let bytes: Vec<u8> = vec![0, 7, 128, 255];
    let wide = widen_samples(&bytes);
    assert_eq!(wide, vec![0u16, 7, 128, 255]);
    assert_eq!(narrow_samples(&wide), bytes);
}

#[test]
fn flatten_dispatches_on_layout() {
    assert_eq!(flatten(&[10, 20, 30, 0], ColorType::Rgba8), Some(vec![255, 255, 255]));
    assert_eq!(
        flatten(&[0, 10, 0, 20, 0, 30, 0xff, 0xff], ColorType::Rgba16),
        Some(vec![0, 10, 0, 20, 0, 30])
    );
}

#[test]
fn unsupported_layouts_are_left_alone() {
    let data = [1u8, 2, 3, 4, 5, 6, 7, 8];
    for color_type in [
        ColorType::L8,
        ColorType::La8,
        ColorType::Rgb8,
        ColorType::L16,
        ColorType::La16,
        ColorType::Rgb16,
        ColorType::Rgb32F,
        ColorType::Rgba32F,
    ] {
        assert_eq!(flatten(&data, color_type), None);
    }
    assert_eq!(flatten(&data[..6], ColorType::Rgba8), None);
    assert_eq!(flatten(&data[..4], ColorType::Rgba16), None);
}

#[test]
fn remove_alpha_replaces_data_and_tag() {
    let mut image = RasterImage { image_data: vec![200, 100, 50, 128], color_space: ColorSpace::Rgba };
    image.remove_alpha(ColorType::Rgba8);
    assert_eq!(image.image_data, vec![227, 177, 152]);
    assert_eq!(image.color_space, ColorSpace::Rgb);

    let mut image = RasterImage {
        image_data: vec![0x12, 0x34, 0xab, 0xcd, 0x00, 0x00, 0x00, 0x00],
        color_space: ColorSpace::Rgba,
    };
    image.remove_alpha(ColorType::Rgba16);
    assert_eq!(image.image_data, vec![0xff; 6]);
    assert_eq!(image.color_space, ColorSpace::Rgb);
}

#[test]
fn remove_alpha_on_other_layouts_changes_nothing() {
    let mut image = RasterImage { image_data: vec![9, 8, 7, 6], color_space: ColorSpace::GreyscaleAlpha };
    image.remove_alpha(ColorType::La16);
    assert_eq!(image.image_data, vec![9, 8, 7, 6]);
    assert_eq!(image.color_space, ColorSpace::GreyscaleAlpha);

    let mut image = RasterImage { image_data: vec![9, 8, 7], color_space: ColorSpace::Rgba };
    image.remove_alpha(ColorType::Rgba8);
    assert_eq!(image.image_data, vec![9, 8, 7]);
    assert_eq!(image.color_space, ColorSpace::Rgba);
}
