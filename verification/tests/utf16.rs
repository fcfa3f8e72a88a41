use minifilter_com::utf16::{decode_utf16_units, encode_utf16_units};

#[test]
fn ascii_encodes_one_unit_per_char() {
    let units = encode_utf16_units("C:\\Users");
    let expect: Vec<u16> = "C:\\Users".encode_utf16().collect();
    assert_eq!(units, expect);
}

#[test]
fn astral_chars_encode_as_surrogate_pairs() {
    let units = encode_utf16_units("\u{1D11E}");
    assert_eq!(units, vec![0xD834, 0xDD1E]);
}

#[test]
fn decode_inverts_encode() {
    let samples = ["", "plain", "C:\\tmp\\f\u{00E9}.txt", "mixed \u{1F600}\u{1D11E} end"];
    for s in samples {
        let units = encode_utf16_units(s);
        assert_eq!(decode_utf16_units(&units), s);
    }
}

#[test]
fn lone_surrogates_decode_to_replacement_char() {
    assert_eq!(decode_utf16_units(&[0xD800]), "\u{FFFD}");
    assert_eq!(decode_utf16_units(&[0xDC00, 0x41]), "\u{FFFD}A");
    // A high surrogate followed by a non-low unit is lone too.
    assert_eq!(decode_utf16_units(&[0xD834, 0x42]), "\u{FFFD}B");
}

#[test]
fn decode_matches_std_lossy_decoding() {
    let cases: Vec<Vec<u16>> = vec![
        vec![0x68, 0x69],
        vec![0xD834, 0xDD1E, 0x21],
        vec![0xD834, 0xD834, 0xDD1E],
        vec![0xDD1E],
    ];
    for units in cases {
        assert_eq!(decode_utf16_units(&units), String::from_utf16_lossy(&units));
    }
}
