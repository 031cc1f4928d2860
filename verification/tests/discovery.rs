use auroragba::desktop::discovery::{decode_announce, encode_announce, instance_name, mdns_hostname};

#[test]
fn anuncio_roundtrip() {
    let buf = encode_announce(7777, "Sala do Ash");
    assert_eq!(decode_announce(&buf), Some((7777, "Sala do Ash".to_string())));
}

#[test]
fn decode_rejeita_lixo() {
    assert_eq!(decode_announce(b"xx"), None);
    assert_eq!(decode_announce(b"NOPEv...."), None);
    let mut bad = encode_announce(1, "a");
    bad[4] = 99;
    assert_eq!(decode_announce(&bad), None);
}

#[test]
fn mdns_hostname_sanitiza() {
    assert_eq!(mdns_hostname("Sala do Ash"), "Sala-do-Ash.local.");
    assert_eq!(mdns_hostname("!!!"), "auroragba.local.");
    assert_eq!(instance_name("Ash._auroragba-link._tcp.local."), "Ash");
}

#[test]
fn announce_layout_and_long_names() {
    let buf = encode_announce(0x1E61, "x");
    assert_eq!(buf, vec![b'A', b'G', b'B', b'D', 1, 0x61, 0x1E, 1, b'x']);
    let long = "n".repeat(100);
    let buf = encode_announce(1, &long);
    assert_eq!(buf[7], 64);
    assert_eq!(buf.len(), 8 + 64);
}

#[test]
fn truncated_name_is_rejected() {
    let mut buf = encode_announce(5, "abc");
    buf.pop();
    assert_eq!(decode_announce(&buf), None);
}

#[test]
fn accented_names_keep_their_letters_in_announcements() {
    let buf = encode_announce(7777, "Ginásio");
    assert_eq!(decode_announce(&buf), Some((7777, "Ginásio".to_string())));
    assert_eq!(mdns_hostname("-Ginásio-"), "Gin-sio.local.");
}
