use moon_win32_utils::string::{
    cstr_to_rust_str, decode_utf16, str_to_unicode_string, string_to_u16_bytes2,
    string_to_u16_slice, string_to_u16_slice_u16, u16_slice_to_string, u16_slice_to_unicode_string,
    u16_to_u8_le, unicode_string_to_string, UnicodeString,
};

#[test]
fn encodes_ascii_and_bmp_characters() {
    assert_eq!(string_to_u16_slice("aé"), vec![0x61u16, 0xE9]);
    assert_eq!(string_to_u16_slice(""), Vec::<u16>::new());
}

#[test]
fn encodes_supplementary_character_as_surrogate_pair() {
    assert_eq!(string_to_u16_slice("😀"), vec![0xD83Du16, 0xDE00]);
    assert_eq!(string_to_u16_slice("\u{10FFFF}"), vec![0xDBFFu16, 0xDFFF]);
}

#[test]
fn encoding_matches_std() {
    let s = "C:\\Windows\\ドライバ\\😀.sys";
    let expected: Vec<u16> = s.encode_utf16().collect();
    assert_eq!(string_to_u16_slice(s), expected);
}

#[test]
fn appends_terminator_on_request() {
    assert_eq!(string_to_u16_slice_u16("ab", true), vec![0x61u16, 0x62, 0]);
    assert_eq!(string_to_u16_slice_u16("ab", false), vec![0x61u16, 0x62]);
}

#[test]
fn little_endian_bytes() {
    assert_eq!(u16_to_u8_le(&[0x1234, 0x00FF, 0xFF00]), vec![0x34u8, 0x12, 0xFF, 0x00, 0x00, 0xFF]);
    assert_eq!(u16_to_u8_le(&[]), Vec::<u8>::new());
}

#[test]
fn string_to_bytes_with_and_without_terminator() {
    assert_eq!(string_to_u16_bytes2("A\\", true), vec![0x41u8, 0, 0x5C, 0, 0, 0]);
    assert_eq!(string_to_u16_bytes2("A\\", false), vec![0x41u8, 0, 0x5C, 0]);
    assert_eq!(string_to_u16_bytes2("€", false), vec![0xACu8, 0x20]);
}

#[test]
fn decodes_valid_units() {
    assert_eq!(u16_slice_to_string(&[0x68, 0x69]), "hi");
    assert_eq!(u16_slice_to_string(&[0xD83D, 0xDE00, 0x21]), "😀!");
    assert_eq!(decode_utf16(&[]), Some(String::new()));
}

#[test]
fn unpaired_surrogates_give_empty_string() {
    assert_eq!(u16_slice_to_string(&[0x61, 0xD800]), "");
    assert_eq!(u16_slice_to_string(&[0xDC00, 0x61]), "");
    assert_eq!(u16_slice_to_string(&[0xD800, 0x61]), "");
    assert_eq!(decode_utf16(&[0xDFFF]), None);
}

#[test]
fn decode_of_encode_gives_the_string_back() {
    for s in ["", "plain", "ümlaut", "日本語", "😀 and 𝄞", "\u{FFFF}\u{10000}"] {
        assert_eq!(u16_slice_to_string(&string_to_u16_slice(s)), s);
    }
}

#[test]
fn encode_of_decode_gives_the_units_back() {
    let units = [0x41u16, 0xD834, 0xDD1E, 0xFFFD];
    let text = u16_slice_to_string(&units);
    assert_eq!(string_to_u16_slice(&text), units.to_vec());
}

#[test]
fn unicode_string_from_terminated_slice() {
    let s = u16_slice_to_unicode_string(&[0x61, 0x62, 0]);
    assert_eq!(s.length, 4);
    assert_eq!(s.maximum_length, 6);
    assert_eq!(s.buffer, vec![0x61u16, 0x62, 0]);
}

#[test]
fn unicode_string_from_unterminated_slice() {
    let s = u16_slice_to_unicode_string(&[0x61, 0x62]);
    assert_eq!(s.length, 4);
    assert_eq!(s.maximum_length, 4);
    let empty = u16_slice_to_unicode_string(&[]);
    assert_eq!((empty.length, empty.maximum_length), (0, 0));
}

#[test]
fn unicode_string_lengths_wrap_to_16_bits() {
    let units = vec![0x61u16; 40000];
    let s = u16_slice_to_unicode_string(&units);
    assert_eq!(s.length, (80000u32 % 65536) as u16);
    assert_eq!(s.maximum_length, (80000u32 % 65536) as u16);
}

#[test]
fn str_to_unicode_string_owns_terminated_buffer() {
    let s = str_to_unicode_string("\\Driver");
    let u = s.as_ref();
    assert_eq!(u.length, 14);
    assert_eq!(u.maximum_length, 16);
    assert_eq!(u.buffer.len(), 8);
    assert_eq!(u.buffer[7], 0);
}

#[test]
fn unicode_string_round_trip() {
    for text in ["", "\\Registry\\Machine\\System", "名前😀"] {
        let s = str_to_unicode_string(text);
        assert_eq!(unicode_string_to_string(s.as_ref()), text);
    }
}

#[test]
fn unicode_string_to_string_reads_length_units_only() {
    let u = UnicodeString { length: 2, maximum_length: 8, buffer: vec![0x78, 0x79, 0x7A, 0] };
    assert_eq!(unicode_string_to_string(&u), "x");
    let odd = UnicodeString { length: 3, maximum_length: 4, buffer: vec![0x78, 0x79] };
    assert_eq!(unicode_string_to_string(&odd), "x");
}

#[test]
fn cstr_stops_at_first_nul() {
    assert_eq!(cstr_to_rust_str(b"win32k.sys\0garbage\0"), "win32k.sys");
    assert_eq!(cstr_to_rust_str(b"\0abc"), "");
}

#[test]
fn cstr_replaces_invalid_utf8() {
    assert_eq!(cstr_to_rust_str(&[0x61, 0xFF, 0x62, 0]), "a\u{FFFD}b");
    assert_eq!(cstr_to_rust_str(&[0xC3, 0xA9, 0]), "é");
}

#[test]
fn each_unit_is_rebuilt_from_its_two_bytes() {
    let units = [0u16, 1, 0x00FF, 0x0100, 0xABCD, 0xFFFF];
    let bytes = u16_to_u8_le(&units);
    assert_eq!(bytes.len(), 2 * units.len());
    for (j, u) in units.iter().enumerate() {
        assert_eq!(bytes[2 * j] as u16 + 256 * bytes[2 * j + 1] as u16, *u);
    }
}
