use auroragba::scale::{Scaler, Upscale};

#[test]
fn off_copia_intacto() {
    let src = vec![1, 2, 3, 4, 5, 6, 7, 8];
    let mut out = Vec::new();
    let (w, h) = Scaler::new().scale(Upscale::Off, &src, 2, 1, &mut out);
    assert_eq!((w, h), (2, 1));
    assert_eq!(out, src);
}

#[test]
fn hq2x_dobra_dimensoes_e_preserva_cor_solida() {
    let red = [0xFF, 0x00, 0x00, 0xFF];
    let src: Vec<u8> = red.iter().copied().cycle().take(2 * 2 * 4).collect();
    let mut out = Vec::new();
    let (w, h) = Scaler::new().scale(Upscale::Hq2x, &src, 2, 2, &mut out);
    assert_eq!((w, h), (4, 4));
    assert_eq!(out.len(), 4 * 4 * 4);
    for px in out.chunks_exact(4) {
        assert_eq!(px, red, "the colour survives packing and unpacking");
    }
}

#[test]
fn fatores_e_chaves() {
    assert_eq!(Upscale::Hq4x.factor(), 4);
    assert_eq!(Upscale::from_key("hq3x"), Upscale::Hq3x);
    assert_eq!(Upscale::from_key("xxx"), Upscale::Off);
    assert_eq!(Upscale::from_factor(2), Upscale::Hq2x);
    assert_eq!(Upscale::from_factor(9), Upscale::Off);
}

#[test]
fn hq3x_and_hq4x_sizes_and_solid_colour() {
    let blue = [0x00, 0x00, 0xFF, 0x80];
    let src: Vec<u8> = blue.iter().copied().cycle().take(3 * 2 * 4).collect();
    let mut s = Scaler::new();
    let mut out = Vec::new();
    assert_eq!(s.scale(Upscale::Hq3x, &src, 3, 2, &mut out), (9, 6));
    assert_eq!(out.len(), 9 * 6 * 4);
    assert!(out.chunks_exact(4).all(|px| px == blue));
    assert_eq!(s.scale(Upscale::Hq4x, &src, 3, 2, &mut out), (12, 8));
    assert_eq!(out.len(), 12 * 8 * 4);
}

#[test]
fn keys_and_labels_round_trip() {
    for u in Upscale::all() {
        assert_eq!(Upscale::from_key(u.key()), u);
    }
    assert_eq!(Upscale::Off.label(), "Nenhum");
    assert_eq!(Upscale::default(), Upscale::Off);
}
