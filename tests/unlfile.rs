use guest_checkin::unlfile::{build_unl, export_text, UnlFileError};

fn s(v: &str) -> String {
    v.to_string()
}

#[test]
fn export_text_layout() {
    let t = export_text("A|head", &vec![s("U|one"), s("U|two")]);
    assert_eq!(t, "A|head\r\nU|one\r\nU|two\r\n");
    assert_eq!(export_text("A", &vec![]), "A\r\n");
}

#[test]
fn ascii_export_is_byte_identical() {
    let b = build_unl("A|head", &vec![s("U|one")]).ok().unwrap();
    assert_eq!(b, b"A|head\r\nU|one\r\n".to_vec());
}

#[test]
fn central_european_letters_use_windows_1250() {
    let b = build_unl("A", &vec![s("Žluťoučký")]).ok().unwrap();
    assert_eq!(b, vec![b'A', b'\r', b'\n', 0x8E, b'l', b'u', 0x9D, b'o', b'u', 0xE8, b'k', 0xFD, b'\r', b'\n']);
}

#[test]
fn unmappable_character_is_an_error() {
    let r = build_unl("A", &vec![s("U|日本")]);
    assert!(matches!(r, Err(UnlFileError::EncodingError)));
}
