use auroragba::desktop::shader::{Active, MultipassKind, ShaderKind};

#[test]
fn shader_keys_round_trip() {
    for k in ShaderKind::all() {
        assert_eq!(ShaderKind::from_key(k.key()), k);
    }
    assert_eq!(ShaderKind::from_key("unknown"), ShaderKind::NoEffect);
    assert_eq!(ShaderKind::LcdGrid.key(), "lcd-grid");
    assert_eq!(ShaderKind::Crt.label(), "CRT");
}

#[test]
fn multipass_keys() {
    for k in MultipassKind::all() {
        assert_eq!(MultipassKind::from_key(k.key()), Some(k));
    }
    assert_eq!(MultipassKind::from_key("crt"), None);
    assert_eq!(MultipassKind::ScaleFx.label(), "ScaleFX");
}

#[test]
fn default_effect_is_none() {
    assert_eq!(Active::default(), Active::Builtin(ShaderKind::NoEffect));
    assert_eq!(ShaderKind::default(), ShaderKind::NoEffect);
}
