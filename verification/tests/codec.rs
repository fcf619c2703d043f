use lf_watermark::{
    encode_symbols, get_watermark_from_str, scalar_payload, symbol_index, Alphabet, Strength,
    WatermarkError, DEFAULT_STRENGTH_MICROS, MAX_PAYLOAD, MAX_STRENGTH_MICROS,
};

#[test]
fn test_get_watermark_from_str() {
    let words = "Hello, World!";
    let payload = get_watermark_from_str(words, Strength::default()).unwrap();
    assert_eq!(payload, 5_350_000);
    assert_eq!(payload as f32 / 1_000_000.0, 5.35);
}

#[test]
fn extended_alphabet_places_each_symbol_by_position() {
    assert_eq!(symbol_index(Alphabet::Extended, 'A'), Some(0));
    assert_eq!(symbol_index(Alphabet::Extended, 'Z'), Some(25));
    assert_eq!(symbol_index(Alphabet::Extended, 'a'), Some(26));
    assert_eq!(symbol_index(Alphabet::Extended, 'z'), Some(51));
    assert_eq!(symbol_index(Alphabet::Extended, '0'), Some(52));
    assert_eq!(symbol_index(Alphabet::Extended, '9'), Some(61));
    assert_eq!(symbol_index(Alphabet::Extended, '!'), Some(62));
    assert_eq!(symbol_index(Alphabet::Extended, ','), Some(72));
    assert_eq!(symbol_index(Alphabet::Extended, ';'), Some(78));
    assert_eq!(symbol_index(Alphabet::Extended, ' '), Some(79));
}

#[test]
fn extended_alphabet_lacks_what_is_not_listed() {
    assert_eq!(symbol_index(Alphabet::Extended, '~'), None);
    assert_eq!(symbol_index(Alphabet::Extended, '+'), None);
    assert_eq!(symbol_index(Alphabet::Extended, '\n'), None);
    assert_eq!(symbol_index(Alphabet::Extended, 'é'), None);
}

#[test]
fn base64_alphabet_has_sixty_four_symbols() {
    assert_eq!(Alphabet::Base64.size(), 64);
    assert_eq!(Alphabet::Base64.table().chars().count(), 64);
    assert_eq!(symbol_index(Alphabet::Base64, 'A'), Some(0));
    assert_eq!(symbol_index(Alphabet::Base64, '9'), Some(61));
    assert_eq!(symbol_index(Alphabet::Base64, '+'), Some(62));
    assert_eq!(symbol_index(Alphabet::Base64, '/'), Some(63));
    assert_eq!(symbol_index(Alphabet::Base64, '!'), None);
    assert_eq!(symbol_index(Alphabet::Base64, ' '), None);
}

#[test]
fn extended_alphabet_has_eighty_symbols() {
    assert_eq!(Alphabet::Extended.size(), 80);
    assert_eq!(Alphabet::Extended.table().chars().count(), 80);
}

#[test]
fn every_symbol_is_found_at_its_own_position() {
    for alphabet in [Alphabet::Base64, Alphabet::Extended] {
        for (position, c) in alphabet.table().chars().enumerate() {
            assert_eq!(symbol_index(alphabet, c), Some(position as u8));
        }
    }
}

#[test]
fn encode_symbols_gives_one_index_per_character_in_order() {
    let indices = encode_symbols("Hello, World!", Alphabet::Extended).unwrap();
    assert_eq!(indices, vec![7, 30, 37, 37, 40, 72, 79, 22, 40, 43, 37, 29, 62]);
}

#[test]
fn encode_symbols_of_nothing_is_nothing() {
    assert_eq!(encode_symbols("", Alphabet::Extended), Ok(vec![]));
    assert_eq!(encode_symbols("", Alphabet::Base64), Ok(vec![]));
}

#[test]
fn encode_symbols_over_base64() {
    assert_eq!(encode_symbols("QUJD+/", Alphabet::Base64), Ok(vec![16, 20, 9, 3, 62, 63]));
}

#[test]
fn encode_symbols_fails_on_the_first_character_outside_the_alphabet() {
    assert_eq!(
        encode_symbols("ab~cd|", Alphabet::Extended),
        Err(WatermarkError::InvalidCharacter('~'))
    );
    assert_eq!(
        encode_symbols("Hello, World!", Alphabet::Base64),
        Err(WatermarkError::InvalidCharacter(','))
    );
    assert_eq!(
        encode_symbols("caf\u{e9}", Alphabet::Extended),
        Err(WatermarkError::InvalidCharacter('\u{e9}'))
    );
}

#[test]
fn scalar_payload_is_the_index_sum_times_the_strength() {
    let half = Strength::new(500_000).unwrap();
    assert_eq!(scalar_payload("BC", Alphabet::Extended, half), Ok(1_500_000));
    let one = Strength::new(1_000_000).unwrap();
    assert_eq!(scalar_payload("Hello, World!", Alphabet::Extended, one), Ok(535_000_000));
    let smallest = Strength::new(1).unwrap();
    assert_eq!(scalar_payload("Hello, World!", Alphabet::Extended, smallest), Ok(535));
}

#[test]
fn scalar_payload_of_nothing_is_zero() {
    assert_eq!(scalar_payload("", Alphabet::Extended, Strength::default()), Ok(0));
    assert_eq!(get_watermark_from_str("", Strength::default()), Ok(0));
}

#[test]
fn scalar_payload_of_zero_indices_is_zero() {
    assert_eq!(scalar_payload("AAAA", Alphabet::Base64, Strength::default()), Ok(0));
}

#[test]
fn scalar_payload_fails_on_the_first_character_outside_the_alphabet() {
    assert_eq!(
        scalar_payload("ok then\tno~", Alphabet::Extended, Strength::default()),
        Err(WatermarkError::InvalidCharacter('\t'))
    );
    assert_eq!(
        get_watermark_from_str("Hello, World~", Strength::default()),
        Err(WatermarkError::InvalidCharacter('~'))
    );
}

#[test]
fn scalar_payload_stays_within_its_bound_at_the_largest_strength() {
    let largest = Strength::new(MAX_STRENGTH_MICROS).unwrap();
    let text = "          ";
    let payload = scalar_payload(text, Alphabet::Extended, largest).unwrap();
    assert_eq!(payload, 790 * 4_294_967_295);
    assert!(payload <= MAX_PAYLOAD);
}

#[test]
fn encoding_is_the_same_on_every_call() {
    let first = get_watermark_from_str("Hello, World!", Strength::default());
    let second = get_watermark_from_str("Hello, World!", Strength::default());
    assert_eq!(first, second);
    let first = get_watermark_from_str("bad\u{7f}", Strength::default());
    let second = get_watermark_from_str("bad\u{7f}", Strength::default());
    assert_eq!(first, Err(WatermarkError::InvalidCharacter('\u{7f}')));
    assert_eq!(first, second);
}

#[test]
fn default_strength_is_one_hundredth() {
    assert_eq!(DEFAULT_STRENGTH_MICROS, 10_000);
    assert_eq!(Strength::default().micros(), 10_000);
    assert_eq!(Strength::default(), Strength::new(10_000).unwrap());
}

#[test]
fn strength_must_be_positive_and_fit() {
    assert_eq!(Strength::new(0), Err(WatermarkError::InvalidStrengthConfiguration));
    assert_eq!(Strength::new(-1), Err(WatermarkError::InvalidStrengthConfiguration));
    assert_eq!(Strength::new(i64::MIN), Err(WatermarkError::InvalidStrengthConfiguration));
    assert_eq!(
        Strength::new(MAX_STRENGTH_MICROS + 1),
        Err(WatermarkError::InvalidStrengthConfiguration)
    );
    assert_eq!(Strength::new(i64::MAX), Err(WatermarkError::InvalidStrengthConfiguration));
    assert_eq!(Strength::new(1).unwrap().micros(), 1);
    assert_eq!(Strength::new(MAX_STRENGTH_MICROS).unwrap().micros(), 4_294_967_295);
}
