//! Tests for the serialization sink and the encoding engine, run against
//! the real encoding tables.

use tes3_core::codepage::Codepage;
use tes3_core::writer::{WriteError, Writer};

#[test]
fn empty_string_serializes_to_five_bytes() {
    let mut w = Writer::new(Vec::new());
    assert!(w.save_string("").is_ok());
    assert_eq!(vec![0x01, 0x00, 0x00, 0x00, 0x00], w.buffer);

    let mut w = Writer::new(Vec::new());
    assert!(w.save_string_auto("").is_ok());
    assert_eq!(vec![0x01, 0x00, 0x00, 0x00, 0x00], w.buffer);
}

#[test]
fn plain_string_gets_length_and_terminator() {
    let mut w = Writer::new(Vec::new());
    assert!(w.save_string("abc").is_ok());
    assert_eq!(vec![0x04, 0x00, 0x00, 0x00, b'a', b'b', b'c', 0x00], w.buffer);
}

#[test]
fn embedded_zero_truncates_strict_string() {
    // the length field is the position of the embedded zero, not the
    // full encoded length, and nothing after it is written
    let mut w = Writer::new(Vec::new());
    assert!(w.save_string("ab\0cd").is_ok());
    assert_eq!(vec![0x02, 0x00, 0x00, 0x00, b'a', b'b'], w.buffer);
}

#[test]
fn embedded_zero_truncates_auto_string() {
    let mut w = Writer::new(Vec::new());
    assert!(w.save_string_auto("ab\0cd").is_ok());
    assert_eq!(vec![0x03, 0x00, 0x00, 0x00, b'a', b'b', 0x00], w.buffer);
}

#[test]
fn encode_truncates_at_embedded_zero() {
    let w = Writer::new(Vec::new());
    let bytes = w.encode("ab\0cd").unwrap();
    assert_eq!(vec![b'a', b'b'], bytes);
    assert!(w.buffer.is_empty());
}

#[test]
fn cyrillic_text_selects_cyrillic_codepage() {
    let mut w = Writer::new(Vec::new());
    let selected = w.auto_set_encoding("Привет");
    assert_eq!(Codepage::Windows1251, selected);
    assert_eq!("windows-1251", w.encoding_name());
}

#[test]
fn central_european_text_selects_central_european_codepage() {
    let mut w = Writer::new(Vec::new());
    let selected = w.auto_set_encoding("Łódź");
    assert_eq!(Codepage::Windows1250, selected);
    assert_eq!("windows-1250", w.encoding_name());
}

#[test]
fn active_codepage_wins_when_it_fits() {
    let mut w = Writer::new_windows_1250(Vec::new());
    let selected = w.auto_set_encoding("plain ascii");
    assert_eq!(Codepage::Windows1250, selected);
    assert_eq!("windows-1250", w.encoding_name());
}

#[test]
fn unrepresentable_text_fails_strict_write_and_best_fit() {
    let mut w = Writer::new(Vec::new());
    assert_eq!(Err(WriteError::Encoding), w.save_string("漢字"));
    assert!(w.buffer.is_empty());
    assert!(matches!(w.encode_with_best_fit("漢字"), Err(WriteError::Encoding)));
    assert_eq!(Err(WriteError::Encoding), w.save_string_auto("漢字"));
    assert!(w.buffer.is_empty());
    assert_eq!("windows-1252", w.encoding_name());
}

#[test]
fn auto_write_switches_codepage_and_writes() {
    let mut w = Writer::new(Vec::new());
    assert!(w.save_string_auto("Привет").is_ok());
    assert_eq!("windows-1251", w.encoding_name());
    let encoded = encoding_rs::WINDOWS_1251.encode("Привет").0;
    assert_eq!(w.buffer[0] as usize, encoded.len() + 1);
    assert_eq!(&w.buffer[4..4 + encoded.len()], &encoded[..]);
    assert_eq!(0x00, w.buffer[w.buffer.len() - 1]);
}

#[test]
fn strict_write_refuses_what_active_codepage_cannot_hold() {
    let mut w = Writer::new_windows_1250(Vec::new());
    assert_eq!(Err(WriteError::Encoding), w.save_string("Привет"));
    assert!(w.buffer.is_empty());
    assert_eq!("windows-1250", w.encoding_name());
}

#[test]
fn round_trip_each_codepage() {
    // lossless encoding with a codepage, decoded with the same codepage,
    // reproduces the original text
    let cases: [(&str, &'static encoding_rs::Encoding, fn(Vec<u8>) -> Writer); 3] = [
        ("Grüße!", encoding_rs::WINDOWS_1252, Writer::new_windows_1252),
        ("Šumavská ťava Łódź", encoding_rs::WINDOWS_1250, Writer::new_windows_1250),
        ("Привет мир", encoding_rs::WINDOWS_1251, Writer::new_windows_1251),
    ];
    for (text, table, make) in cases {
        let w = make(Vec::new());
        assert!(w.can_encode(text));
        let bytes = w.encode(text).unwrap();
        let (decoded, _, had_errors) = table.decode(&bytes);
        assert!(!had_errors);
        assert_eq!(text, decoded);
    }
}

#[test]
fn best_fit_returns_bytes_and_codepage() {
    let w = Writer::new(Vec::new());
    let (bytes, cp) = w.encode_with_best_fit("Привет").unwrap();
    assert_eq!(Codepage::Windows1251, cp);
    let (decoded, _, had_errors) = encoding_rs::WINDOWS_1251.decode(&bytes);
    assert!(!had_errors);
    assert_eq!("Привет", decoded);
    // the writer itself is untouched
    assert_eq!("windows-1252", w.encoding_name());
}

#[test]
fn can_encode_follows_active_codepage() {
    let mut w = Writer::new(Vec::new());
    assert!(w.can_encode("café"));
    assert!(!w.can_encode("Привет"));
    w.set_windows_1251();
    assert!(w.can_encode("Привет"));
    assert!(!w.can_encode("Łódź"));
    w.set_windows_1250();
    assert!(w.can_encode("Łódź"));
    w.set_windows_1252();
    assert!(!w.can_encode("Łódź"));
}

#[test]
fn primitives_serialize_little_endian() {
    let mut w = Writer::new(Vec::new());
    assert!(w.save(&0x12u8).is_ok());
    assert!(w.save(&0x3456u16).is_ok());
    assert!(w.save(&0x789ABCDEu32).is_ok());
    assert!(w.save(&0x0102030405060708u64).is_ok());
    assert_eq!(
        vec![
            0x12, 0x56, 0x34, 0xDE, 0xBC, 0x9A, 0x78, 0x08, 0x07, 0x06, 0x05, 0x04, 0x03, 0x02,
            0x01,
        ],
        w.buffer
    );
}

#[test]
fn save_as_checks_the_narrowing() {
    let mut w = Writer::new(Vec::new());
    assert!(w.save_as::<usize, u32>(7usize).is_ok());
    assert_eq!(vec![0x07, 0x00, 0x00, 0x00], w.buffer);

    let too_big = u32::MAX as usize + 1;
    let r = w.save_as::<usize, u32>(too_big);
    assert_eq!(Err(WriteError::Conversion), r);
    assert_eq!("Invalid Save Conversion", r.unwrap_err().message());
    assert_eq!(4, w.buffer.len());
}

#[test]
fn save_bytes_appends_verbatim() {
    let mut w = Writer::new(vec![0xAA]);
    assert!(w.save_bytes(&[1, 2, 3]).is_ok());
    assert_eq!(vec![0xAA, 1, 2, 3], w.buffer);
}

#[test]
fn error_helper_and_messages() {
    assert_eq!(Err(WriteError::Conversion), Writer::error(WriteError::Conversion));
    assert_eq!("Invalid String Encoding", WriteError::Encoding.message());
}

#[test]
fn constructors_set_codepage_and_keep_bytes() {
    assert_eq!("windows-1252", Writer::new(vec![1]).encoding_name());
    assert_eq!("windows-1252", Writer::new_windows_1252(Vec::new()).encoding_name());
    assert_eq!("windows-1250", Writer::new_windows_1250(Vec::new()).encoding_name());
    assert_eq!("windows-1251", Writer::new_windows_1251(Vec::new()).encoding_name());
    assert_eq!(vec![9u8, 8], Writer::new(vec![9, 8]).buffer);
    assert!(Writer::default().buffer.is_empty());
}

#[test]
fn context_is_scratch_space_for_serializers() {
    let mut w = Writer::new(Vec::new());
    w.context.map.insert(42, 7);
    assert!(w.save_string("abc").is_ok());
    assert_eq!(Some(&7), w.context.map.get(&42));
}

#[test]
fn chain_tries_central_european_without_hint_characters() {
    // a caron exists in the Central European table but is not in the
    // curated hint set, so detection reaches the plain fallback step
    let mut w = Writer::new(Vec::new());
    let selected = w.auto_set_encoding("\u{2C7}");
    assert_eq!(Codepage::Windows1250, selected);
}

#[test]
fn cyrillic_block_character_outside_all_tables_fails() {
    // an archaic Cyrillic-block letter that none of the three tables
    // holds: detection falls back to Western European, and the write
    // reports an encoding error
    let mut w = Writer::new(Vec::new());
    assert_eq!(Err(WriteError::Encoding), w.save_string_auto("\u{460}"));
    assert_eq!("windows-1252", w.encoding_name());
    assert!(w.buffer.is_empty());
}
