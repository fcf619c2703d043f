use lf_watermark::{
    embed_watermark_color, Alphabet, EmbedConfig, Image, Rgba, Strategy, Strength, WatermarkError,
};
use rustdct::DctPlanner;
use std::io::Cursor;

fn config(strategy: Strategy, micros: i64) -> EmbedConfig {
    EmbedConfig { strategy, alphabet: Alphabet::Extended, strength: Strength::new(micros).unwrap() }
}

fn four_pixels() -> Image {
    let samples = [10, 20, 30, 200, 100, 50, 0, 0, 0, 255, 255, 255];
    Image::from_rgb_samples(2, 2, &samples).unwrap()
}

fn to_floats(levels: &[i128]) -> Vec<f32> {
    levels.iter().map(|&level| (level as f64 / 1_000_000.0) as f32).collect()
}

fn to_levels(values: &[f32]) -> Vec<i128> {
    values.iter().map(|&value| (value as f64 * 1_000_000.0).round() as i128).collect()
}

fn forward(levels: &[i128]) -> Vec<i128> {
    let mut buffer = to_floats(levels);
    let len = buffer.len();
    if len > 0 {
        let mut planner: DctPlanner<f32> = DctPlanner::new();
        planner.plan_dct2(len).process_dct2(&mut buffer);
        let factor = (2.0 / len as f32).sqrt();
        for value in buffer.iter_mut() {
            *value *= factor;
        }
    }
    to_levels(&buffer)
}

fn inverse(levels: &[i128]) -> Vec<i128> {
    let mut buffer = to_floats(levels);
    let len = buffer.len();
    if len > 0 {
        let mut planner: DctPlanner<f32> = DctPlanner::new();
        planner.plan_dct3(len).process_dct3(&mut buffer);
        let factor = (2.0 / len as f32).sqrt();
        for value in buffer.iter_mut() {
            *value *= factor;
        }
    }
    to_levels(&buffer)
}

fn embed(image: &Image, watermark: &str, config: &EmbedConfig) -> Result<Image, WatermarkError> {
    let (pending, channel) = embed_watermark_color(image, watermark, config)?;
    let (pending, buffer) = pending.inject(forward(&channel))?;
    pending.reconstruct(&inverse(&buffer))
}

fn embed_without_transform(
    image: &Image,
    watermark: &str,
    config: &EmbedConfig,
) -> Result<Image, WatermarkError> {
    let (pending, channel) = embed_watermark_color(image, watermark, config)?;
    let (pending, buffer) = pending.inject(channel)?;
    pending.reconstruct(&buffer)
}

#[test]
fn test_watermark() {
    let mut samples = Vec::new();
    for y in 0..8u32 {
        for x in 0..8u32 {
            samples.extend_from_slice(&[(x * 30) as u8, (y * 30) as u8, ((x + y) * 15) as u8]);
        }
    }
    let source = image::RgbImage::from_raw(8, 8, samples).unwrap();
    let mut encoded = Vec::new();
    source.write_to(&mut Cursor::new(&mut encoded), image::ImageFormat::Png).unwrap();

    let img = image::load_from_memory(&encoded).unwrap().to_rgb8();
    let img = Image::from_rgb_samples(img.width(), img.height(), img.as_raw()).unwrap();
    let watermark = "Hello, World!";
    let watermarked_img = embed(&img, watermark, &EmbedConfig::default());
    assert!(watermarked_img.is_ok(), "Failed to embed watermark");
    let watermarked_img = watermarked_img.unwrap();
    let output =
        image::RgbImage::from_raw(8, 8, watermarked_img.to_samples()).expect("one sample short");
    let mut saved = Vec::new();
    assert!(
        output.write_to(&mut Cursor::new(&mut saved), image::ImageFormat::Png).is_ok(),
        "Failed to save image"
    );
}

#[test]
fn spatial_bias_hands_out_the_biased_luma() {
    let (_, channel) =
        embed_watermark_color(&four_pixels(), "Hello, World!", &EmbedConfig::default()).unwrap();
    assert_eq!(channel, vec![23_350_000, 129_350_000, 5_350_000, 260_350_000]);
}

#[test]
fn spatial_bias_leaves_the_coefficients_alone() {
    let (pending, _) =
        embed_watermark_color(&four_pixels(), "Hello, World!", &EmbedConfig::default()).unwrap();
    let coefficients = vec![7, -3, i128::MAX, i128::MIN];
    let (_, buffer) = pending.inject(coefficients.clone()).unwrap();
    assert_eq!(buffer, coefficients);
}

#[test]
fn spatial_bias_rebuilds_from_the_biased_luma_and_the_chroma() {
    let image =
        embed_without_transform(&four_pixels(), "Hello, World!", &EmbedConfig::default()).unwrap();
    assert_eq!(image.width(), 2);
    assert_eq!(image.height(), 2);
    assert!(!image.has_alpha());
    assert_eq!(image.to_samples(), vec![15, 25, 36, 205, 105, 55, 5, 5, 5, 255, 255, 255]);
}

#[test]
fn spatial_bias_through_the_transform_pair() {
    let image = embed(&four_pixels(), "Hello, World!", &EmbedConfig::default()).unwrap();
    assert_eq!(image.to_samples(), vec![15, 25, 36, 205, 105, 55, 5, 5, 5, 255, 255, 255]);
}

#[test]
fn spatial_bias_drops_alpha() {
    let source = Image::from_rgba_samples(1, 1, &[10, 20, 30, 7]).unwrap();
    let image = embed_without_transform(&source, "", &EmbedConfig::default()).unwrap();
    assert!(!image.has_alpha());
    assert_eq!(image.to_samples(), vec![10, 20, 30]);
    assert_eq!(image.pixel(0, 0), Some(Rgba { r: 10, g: 20, b: 30, a: 255 }));
}

#[test]
fn spatial_bias_of_an_empty_text_changes_nothing_here() {
    let image = embed_without_transform(&four_pixels(), "", &EmbedConfig::default()).unwrap();
    assert_eq!(image.to_samples(), four_pixels().to_samples());
}

#[test]
fn coefficient_domain_hands_out_the_green_plane() {
    let (_, channel) = embed_watermark_color(
        &four_pixels(),
        "Hello, World!",
        &config(Strategy::CoefficientDomain, 10_000),
    ).unwrap();
    assert_eq!(channel, vec![20_000_000, 100_000_000, 0, 255_000_000]);
}

#[test]
fn coefficient_domain_raises_the_first_coefficient_only() {
    let (pending, _) = embed_watermark_color(
        &four_pixels(),
        "Hello, World!",
        &config(Strategy::CoefficientDomain, 10_000),
    ).unwrap();
    let (_, buffer) = pending.inject(vec![1_000_000, 2_000_000, -3_000_000, 4]).unwrap();
    assert_eq!(buffer, vec![6_350_000, 2_000_000, -3_000_000, 4]);
}

#[test]
fn coefficient_domain_stops_at_the_largest_entry() {
    let (pending, _) = embed_watermark_color(
        &four_pixels(),
        "Hello, World!",
        &config(Strategy::CoefficientDomain, 10_000),
    ).unwrap();
    let (_, buffer) = pending.inject(vec![i128::MAX - 1, 0, 0, i128::MIN]).unwrap();
    assert_eq!(buffer, vec![i128::MAX, 0, 0, i128::MIN]);
}

#[test]
fn coefficient_domain_rebuilds_green_and_keeps_the_rest() {
    let source = Image::from_rgba_samples(2, 2, &[
        10, 20, 30, 40, 200, 100, 50, 0, 0, 0, 0, 255, 255, 255, 255, 128,
    ]).unwrap();
    let (pending, channel) = embed_watermark_color(
        &source,
        "Hello, World!",
        &config(Strategy::CoefficientDomain, 10_000),
    ).unwrap();
    let (pending, buffer) = pending.inject(channel).unwrap();
    assert_eq!(buffer, vec![25_350_000, 100_000_000, 0, 255_000_000]);
    let image = pending.reconstruct(&buffer).unwrap();
    assert_eq!(image.width(), 2);
    assert_eq!(image.height(), 2);
    assert!(image.has_alpha());
    assert_eq!(
        image.to_samples(),
        vec![10, 25, 30, 40, 200, 100, 50, 0, 0, 0, 0, 255, 255, 255, 255, 128]
    );
}

#[test]
fn coefficient_domain_through_the_transform_pair() {
    // Raising the first of four coefficients by 5.35 raises every sample by
    // 5.35 / sqrt(8) = 1.89.
    let image =
        embed(&four_pixels(), "Hello, World!", &config(Strategy::CoefficientDomain, 10_000))
            .unwrap();
    assert!(image.has_alpha());
    assert_eq!(
        image.to_samples(),
        vec![10, 22, 30, 255, 200, 102, 50, 255, 0, 2, 0, 255, 255, 255, 255, 255]
    );
}

#[test]
fn samples_out_of_range_are_clamped() {
    let (pending, channel) = embed_watermark_color(
        &four_pixels(),
        "",
        &config(Strategy::CoefficientDomain, 10_000),
    ).unwrap();
    let (pending, _) = pending.inject(channel).unwrap();
    let image = pending.reconstruct(&[300_000_000, -5_000_000, i128::MAX, i128::MIN]).unwrap();
    assert_eq!(
        image.to_samples(),
        vec![10, 255, 30, 255, 200, 0, 50, 255, 0, 255, 0, 255, 255, 0, 255, 255]
    );
}

#[test]
fn a_large_payload_saturates_the_image() {
    let image =
        embed_without_transform(&four_pixels(), "Hello, World!", &config(Strategy::SpatialBias, 1_000_000))
            .unwrap();
    assert_eq!(image.to_samples(), vec![255; 12]);
    let image =
        embed(&four_pixels(), "Hello, World!", &config(Strategy::SpatialBias, 1_000_000)).unwrap();
    assert_eq!(image.to_samples(), vec![255; 12]);
}

#[test]
fn an_invalid_character_stops_the_embedding_before_anything_is_done() {
    let source = four_pixels();
    let before = source.to_samples();
    for strategy in [Strategy::SpatialBias, Strategy::CoefficientDomain] {
        let first = embed_watermark_color(&source, "Hello\u{7e}World", &config(strategy, 10_000));
        let second = embed_watermark_color(&source, "Hello\u{7e}World", &config(strategy, 10_000));
        assert_eq!(first.err(), Some(WatermarkError::InvalidCharacter('~')));
        assert_eq!(second.err(), Some(WatermarkError::InvalidCharacter('~')));
    }
    assert_eq!(source.to_samples(), before);
    assert_eq!(
        embed(&source, "tab\there", &EmbedConfig::default()).err(),
        Some(WatermarkError::InvalidCharacter('\t'))
    );
}

#[test]
fn the_alphabet_of_the_configuration_decides() {
    let base64 = EmbedConfig {
        strategy: Strategy::SpatialBias,
        alphabet: Alphabet::Base64,
        strength: Strength::default(),
    };
    assert_eq!(
        embed_watermark_color(&four_pixels(), "Hello, World!", &base64).err(),
        Some(WatermarkError::InvalidCharacter(','))
    );
    // Q = 16, U = 20, J = 9, D = 3: a payload of 0.48.
    let (_, channel) = embed_watermark_color(&four_pixels(), "QUJD", &base64).unwrap();
    assert_eq!(channel, vec![18_480_000, 124_480_000, 480_000, 255_480_000]);
}

#[test]
fn buffers_of_the_wrong_length_are_refused() {
    let (pending, _) =
        embed_watermark_color(&four_pixels(), "a", &EmbedConfig::default()).unwrap();
    assert_eq!(pending.inject(vec![0; 3]).err(), Some(WatermarkError::DimensionMismatch));
    let (pending, _) =
        embed_watermark_color(&four_pixels(), "a", &EmbedConfig::default()).unwrap();
    assert_eq!(pending.inject(vec![0; 5]).err(), Some(WatermarkError::DimensionMismatch));
    let (pending, _) =
        embed_watermark_color(&four_pixels(), "a", &EmbedConfig::default()).unwrap();
    assert_eq!(pending.inject(vec![]).err(), Some(WatermarkError::DimensionMismatch));

    let (pending, channel) =
        embed_watermark_color(&four_pixels(), "a", &EmbedConfig::default()).unwrap();
    let (pending, _) = pending.inject(channel).unwrap();
    assert_eq!(pending.reconstruct(&[0; 3]).err(), Some(WatermarkError::DimensionMismatch));
    let (pending, channel) =
        embed_watermark_color(&four_pixels(), "a", &EmbedConfig::default()).unwrap();
    let (pending, _) = pending.inject(channel).unwrap();
    assert_eq!(pending.reconstruct(&[0; 12]).err(), Some(WatermarkError::DimensionMismatch));
}

#[test]
fn an_empty_image_embeds_to_an_empty_image() {
    for strategy in [Strategy::SpatialBias, Strategy::CoefficientDomain] {
        let source = Image::from_rgb_samples(0, 3, &[]).unwrap();
        let (pending, channel) =
            embed_watermark_color(&source, "Hello, World!", &config(strategy, 10_000)).unwrap();
        assert_eq!(channel, Vec::<i128>::new());
        let (pending, buffer) = pending.inject(channel).unwrap();
        assert_eq!(buffer, Vec::<i128>::new());
        let image = pending.reconstruct(&buffer).unwrap();
        assert_eq!((image.width(), image.height()), (0, 3));
        assert_eq!(image.to_samples(), Vec::<u8>::new());
    }
}

#[test]
fn embedding_twice_gives_the_same_bytes() {
    for strategy in [Strategy::SpatialBias, Strategy::CoefficientDomain] {
        let first = embed(&four_pixels(), "Hello, World!", &config(strategy, 10_000)).unwrap();
        let second = embed(&four_pixels(), "Hello, World!", &config(strategy, 10_000)).unwrap();
        assert_eq!(first.to_samples(), second.to_samples());
        assert_eq!(first.width(), second.width());
        assert_eq!(first.height(), second.height());
        assert_eq!(first.has_alpha(), second.has_alpha());
    }
}

#[test]
fn default_configuration_is_a_spatial_bias_over_the_extended_alphabet() {
    let config = EmbedConfig::default();
    assert_eq!(config.strategy, Strategy::SpatialBias);
    assert_eq!(config.alphabet, Alphabet::Extended);
    assert_eq!(config.strength.micros(), 10_000);
}

#[test]
fn transform_pair_gives_the_buffer_back() {
    let buffer: Vec<i128> =
        (0..37).map(|i: i128| (i * 7 % 256) * 1_000_000 + 5_350_000).collect();
    let restored = inverse(&forward(&buffer));
    assert_eq!(restored.len(), buffer.len());
    for (before, after) in buffer.iter().zip(restored.iter()) {
        let tolerance = (before.abs() / 10_000).max(100);
        assert!((before - after).abs() <= tolerance, "{} became {}", before, after);
    }
}
