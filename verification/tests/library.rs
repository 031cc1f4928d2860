use auroragba::desktop::library::{ascii_field, boxart_name, cache_key, header_fields, percent_encode};

#[test]
fn percent_encode_spaces_and_parens() {
    assert_eq!(percent_encode("Ruby (USA, Europe)"), "Ruby%20%28USA%2C%20Europe%29");
}

#[test]
fn boxart_lookup() {
    assert_eq!(boxart_name("BPEE"), Some("Pokemon - Emerald Version (USA, Europe)"));
    assert_eq!(boxart_name("ZZZZ"), None);
}

#[test]
fn ascii_field_trims_garbage() {
    let mut f = *b"POKEMON EMER";
    assert_eq!(ascii_field(&f), "POKEMON EMER");
    f[5] = 0;
    assert_eq!(ascii_field(&f), "POKEM");
}

#[test]
fn ascii_field_drops_unprintable_and_spaces() {
    assert_eq!(ascii_field(b"  A\x01B\x7F  "), "AB");
    assert_eq!(ascii_field(b"\0ABC"), "");
}

#[test]
fn percent_encode_keeps_unreserved_and_encodes_utf8() {
    assert_eq!(percent_encode("a-b.c_d~e"), "a-b.c_d~e");
    assert_eq!(percent_encode("é"), "%C3%A9");
}

#[test]
fn cache_key_prefers_the_code() {
    assert_eq!(cache_key("BPEE", "my rom"), "BPEE");
    assert_eq!(cache_key("", "my rom (v1)"), "my_rom__v1_");
}

#[test]
fn header_fields_fall_back_to_the_file_name() {
    let mut h = vec![0u8; 0xB0];
    h[0xAC..0xB0].copy_from_slice(b"AXVE");
    let (title, code) = header_fields(&h, "ruby");
    assert_eq!(title, "ruby");
    assert_eq!(code, "AXVE");
    h[0xA0..0xA4].copy_from_slice(b"RUBY");
    let (title, _) = header_fields(&h, "ruby");
    assert_eq!(title, "RUBY");
}
