use lszr::names::{decode_file_name, decode_name, FileNameError, NameEncoding};

#[test]
fn utf8_name_is_decoded() {
    let bytes = "h\u{e9}llo/\u{65e5}\u{672c}.txt".as_bytes().to_vec();
    let name = decode_file_name(&bytes, true).unwrap();
    assert_eq!(name, "h\u{e9}llo/\u{65e5}\u{672c}.txt");
}

#[test]
fn empty_name_is_decoded_either_way() {
    assert_eq!(decode_file_name(&Vec::new(), true).unwrap(), "");
    assert_eq!(decode_file_name(&Vec::new(), false).unwrap(), "");
}

#[test]
fn invalid_utf8_is_refused() {
    let r = decode_file_name(&vec![b'a', 0xFF, b'b'], true);
    assert!(matches!(r, Err(FileNameError::FromUtf8Error)));
}

#[test]
fn truncated_utf8_is_refused() {
    // The first two bytes of a three-byte character.
    let r = decode_file_name(&vec![0xE6, 0x97], true);
    assert!(matches!(r, Err(FileNameError::FromUtf8Error)));
}

#[test]
fn shift_jis_name_is_decoded() {
    let bytes = vec![0x93, 0xFA, 0x96, 0x7B, 0x8C, 0xEA, b'.', b't', b'x', b't'];
    let name = decode_file_name(&bytes, false).unwrap();
    assert_eq!(name, "\u{65e5}\u{672c}\u{8a9e}.txt");
}

#[test]
fn shift_jis_half_width_katakana_is_decoded() {
    let name = decode_file_name(&vec![0xB1], false).unwrap();
    assert_eq!(name, "\u{ff71}");
}

#[test]
fn ascii_name_is_the_same_in_both_encodings() {
    let bytes = b"dir/file-1.txt".to_vec();
    assert_eq!(decode_file_name(&bytes, false).unwrap(), "dir/file-1.txt");
    assert_eq!(decode_file_name(&bytes, true).unwrap(), "dir/file-1.txt");
}

#[test]
fn shift_jis_lone_lead_byte_is_refused() {
    let r = decode_file_name(&vec![b'a', 0x81], false);
    assert!(matches!(r, Err(FileNameError::FromSJISError)));
}

#[test]
fn shift_jis_unassigned_byte_is_refused() {
    let r = decode_file_name(&vec![0xFF], false);
    assert!(matches!(r, Err(FileNameError::FromSJISError)));
}

#[test]
fn the_flag_selects_the_encoding() {
    // Valid as Shift_JIS, not as UTF-8.
    let bytes = vec![0x93, 0xFA];
    assert!(decode_file_name(&bytes, false).is_ok());
    assert!(matches!(decode_file_name(&bytes, true), Err(FileNameError::FromUtf8Error)));
}

#[test]
fn shift_jis_is_not_swapped_for_utf8_by_a_byte_order_mark() {
    let bytes = vec![0xEF, 0xBB, 0xBF, b'A'];
    let r = decode_file_name(&bytes, false);
    assert!(!matches!(r, Ok(ref name) if name == "A"));
}

#[test]
fn longest_name_is_decoded() {
    let bytes = vec![b'x'; 0xFFFF];
    assert_eq!(decode_file_name(&bytes, false).unwrap().len(), 0xFFFF);
    assert_eq!(decode_file_name(&bytes, true).unwrap().len(), 0xFFFF);
}

#[test]
fn encoding_is_selected_by_the_flag() {
    assert_eq!(NameEncoding::of_flag(true), NameEncoding::Utf8);
    assert_eq!(NameEncoding::of_flag(false), NameEncoding::ShiftJis);
}

#[test]
fn name_is_decoded_in_the_encoding_given() {
    let kanji = vec![0x8A, 0xBF, 0x8E, 0x9A];
    assert_eq!(decode_name(&kanji, NameEncoding::ShiftJis).unwrap(), "\u{6f22}\u{5b57}");
    assert!(matches!(
        decode_name(&kanji, NameEncoding::Utf8),
        Err(FileNameError::FromUtf8Error)
    ));
    let utf8 = "\u{6f22}\u{5b57}".as_bytes().to_vec();
    assert_eq!(decode_name(&utf8, NameEncoding::Utf8).unwrap(), "\u{6f22}\u{5b57}");
}

#[test]
fn utf8_failure_becomes_a_name_error() {
    let failure = String::from_utf8(vec![0xC0]).unwrap_err();
    assert!(matches!(FileNameError::from(failure), FileNameError::FromUtf8Error));
}
