use codexlaunch::utf16::{
    contains_utf16_double_nul, nul_terminated_utf16_to_string, text_of_units, units_of_bytes,
    utf16_double_nul_position,
};

#[test]
fn double_nul_is_found_at_even_places_only() {
    assert_eq!(utf16_double_nul_position(&[0, 0, 0, 0]), Some(0));
    assert_eq!(utf16_double_nul_position(&[1, 0, 0, 0, 0, 0]), Some(2));
    assert_eq!(utf16_double_nul_position(&[1, 0, 0, 0, 0, 1]), None);
    assert_eq!(utf16_double_nul_position(&[1, 0, 0, 0, 0]), None);
    assert_eq!(utf16_double_nul_position(&[0, 1, 0, 0, 0, 0, 9, 9, 0, 0, 0, 0]), Some(2));
    assert_eq!(utf16_double_nul_position(&[]), None);
    assert_eq!(utf16_double_nul_position(&[0, 0, 0]), None);
    assert!(contains_utf16_double_nul(&[7, 7, 0, 0, 0, 0]));
    assert!(!contains_utf16_double_nul(&[7, 0, 0, 0, 0, 7]));
}

#[test]
fn double_nul_is_where_windows_of_four_bytes_are_zero() {
    let mut seed: u32 = 1;
    for _ in 0..500 {
        let mut bytes: Vec<u8> = Vec::new();
        for _ in 0..12 {
            seed = seed.wrapping_mul(1664525).wrapping_add(1013904223);
            bytes.push(if seed >> 24 < 200 { 0 } else { 1 });
        }
        let expected = bytes
            .windows(4)
            .step_by(2)
            .position(|window| window == [0, 0, 0, 0])
            .map(|index| index * 2);
        assert_eq!(utf16_double_nul_position(&bytes), expected);
        assert_eq!(contains_utf16_double_nul(&bytes), expected.is_some());
    }
}

#[test]
fn units_have_their_low_byte_first() {
    assert_eq!(units_of_bytes(&[0x34, 0x12, 0xff, 0x00, 0x01]), vec![0x1234, 0x00ff]);
    assert_eq!(units_of_bytes(&[1]), Vec::<u16>::new());
}

#[test]
fn single_surrogates_are_replaced() {
    let cases: [&[u16]; 8] = [
        &[],
        &[0x41, 0x3000],
        &[0xd83d, 0xde00],
        &[0xd83d],
        &[0xde00, 0xd83d],
        &[0xd83d, 0xd83d, 0xde00],
        &[0xdbff, 0xdfff, 0xd800, 0xdc00],
        &[0xffff, 0xd7ff, 0xe000, 0xdfff, 0x41],
    ];
    for units in cases {
        assert_eq!(text_of_units(units), String::from_utf16_lossy(units));
    }
    assert_eq!(text_of_units(&[0xd83d, 0x41]), "\u{fffd}A");
}

#[test]
fn decoding_agrees_on_many_units() {
    let mut seed: u32 = 7;
    for _ in 0..500 {
        let mut units: Vec<u16> = Vec::new();
        for _ in 0..10 {
            seed = seed.wrapping_mul(1664525).wrapping_add(1013904223);
            let low = (seed >> 16) as u16;
            units.push(if seed & 0x8000 == 0 { low } else { 0xd800 | (low & 0x7ff) });
        }
        assert_eq!(text_of_units(&units), String::from_utf16_lossy(&units));
    }
}

#[test]
fn encoded_text_is_read_back() {
    for text in ["", "Codex", "\u{0}a\u{0}", "\u{ffff}\u{10000}\u{10ffff}", "\u{1f600}\u{e9}"] {
        let units: Vec<u16> = text.encode_utf16().collect();
        assert_eq!(text_of_units(&units), text);
    }
}

#[test]
fn names_end_at_the_first_zero() {
    let mut buffer: Vec<u16> = "codex.exe".encode_utf16().collect();
    assert_eq!(nul_terminated_utf16_to_string(&buffer), "codex.exe");
    buffer.push(0);
    buffer.push(0x41);
    assert_eq!(nul_terminated_utf16_to_string(&buffer), "codex.exe");
    assert_eq!(nul_terminated_utf16_to_string(&[0, 0x41]), "");
    assert_eq!(nul_terminated_utf16_to_string(&[]), "");
}
