use omegabot_pipe::utf16::{decode_utf16, encode_utf16, push_char_units, REPLACEMENT};

#[test]
fn units_agree_with_the_standard_encoder() {
    for text in [
        "",
        "plain",
        "r\u{e9}sum\u{e9}",
        "\u{D7FF}\u{E000}\u{FFFF}",
        "\u{10000}\u{1F600}\u{10FFFF}",
        "a\0b",
        "\u{FFFD}",
    ] {
        let expected: Vec<u16> = text.encode_utf16().collect();
        assert_eq!(encode_utf16(text), expected);
    }
}

#[test]
fn units_of_every_character() {
    let mut code: u32 = 0;
    while code <= 0x10FFFF {
        if let Some(c) = char::from_u32(code) {
            let mut expected = [0u16; 2];
            let expected = c.encode_utf16(&mut expected);
            let mut units: Vec<u16> = vec![7];
            push_char_units(&mut units, c);
            assert_eq!(units[0], 7);
            assert_eq!(&units[1..], &expected[..]);
            assert_eq!(decode_utf16(&units[1..]), c.to_string());
        }
        code += 1;
    }
}

#[test]
fn exact_units() {
    assert_eq!(encode_utf16("A"), vec![0x41]);
    assert_eq!(encode_utf16("\u{20AC}"), vec![0x20AC]);
    assert_eq!(encode_utf16("\u{10000}"), vec![0xD800, 0xDC00]);
    assert_eq!(encode_utf16("\u{1F600}"), vec![0xD83D, 0xDE00]);
    assert_eq!(encode_utf16("\u{10FFFF}"), vec![0xDBFF, 0xDFFF]);
}

#[test]
fn text_of_well_formed_units() {
    assert_eq!(decode_utf16(&[]), "");
    assert_eq!(decode_utf16(&[0x41, 0x20AC]), "A\u{20AC}");
    assert_eq!(decode_utf16(&[0xD83D, 0xDE00]), "\u{1F600}");
    assert_eq!(decode_utf16(&[0xD800, 0xDC00, 0xDBFF, 0xDFFF]), "\u{10000}\u{10FFFF}");
    assert_eq!(decode_utf16(&[0x61, 0, 0x62]), "a\0b");
}

#[test]
fn lone_surrogates_become_the_replacement_character() {
    assert_eq!(REPLACEMENT, '\u{FFFD}');
    assert_eq!(decode_utf16(&[0xD800]), "\u{FFFD}");
    assert_eq!(decode_utf16(&[0xDC00]), "\u{FFFD}");
    assert_eq!(decode_utf16(&[0xDFFF, 0x41]), "\u{FFFD}A");
    assert_eq!(decode_utf16(&[0xD800, 0x41]), "\u{FFFD}A");
    assert_eq!(decode_utf16(&[0xDC00, 0xD800]), "\u{FFFD}\u{FFFD}");
    assert_eq!(decode_utf16(&[0xD800, 0xD83D, 0xDE00]), "\u{FFFD}\u{1F600}");
    assert_eq!(decode_utf16(&[0xD83D, 0xDE00, 0xDE00]), "\u{1F600}\u{FFFD}");
}

#[test]
fn text_agrees_with_the_standard_lossy_decoder() {
    let samples: [&[u16]; 8] = [
        &[],
        &[0x68, 0x69],
        &[0xD83D, 0xDE00, 0x21],
        &[0xD83D],
        &[0xDE00, 0xD83D],
        &[0xD800, 0xD800, 0xDC00, 0xDC00],
        &[0xFFFF, 0xE000, 0xD7FF],
        &[0xDBFF, 0xDFFF, 0xDBFF],
    ];
    for units in samples {
        assert_eq!(decode_utf16(units), String::from_utf16_lossy(units));
    }
}

#[test]
fn text_survives_its_units() {
    for text in ["", "x", "replays/\u{1F600}.replay", "\u{10FFFF}\u{0}\u{FFFF}"] {
        assert_eq!(decode_utf16(&encode_utf16(text)), text);
    }
}
