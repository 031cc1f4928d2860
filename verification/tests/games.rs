use auroragba::shiny::games::{detect, profiles, HuntMethod, Slot, StarterCursor, TargetDef};

#[test]
fn detects_emerald_by_code() {
    let p = detect("BPEE").expect("Emerald should be recognised");
    assert_eq!(p.name, "Pokémon Emerald");
    assert!(!p.targets.is_empty());
}

#[test]
fn detects_ruby_and_sapphire_by_code() {
    let r = detect("AXVE").expect("Ruby should be recognised");
    let s = detect("AXPE").expect("Sapphire should be recognised");
    assert!(r.targets.iter().any(|t| t.name == "Groudon"));
    assert!(!r.targets.iter().any(|t| t.name == "Kyogre"));
    assert!(s.targets.iter().any(|t| t.name == "Kyogre"));
    assert!(!s.targets.iter().any(|t| t.name == "Groudon"));
    assert!(r.starter_menu.is_some() && s.starter_menu.is_some());
    assert!(r.rng_addr.is_some() && s.rng_addr.is_some());
}

#[test]
fn unknown_code_returns_none() {
    assert!(detect("ZZZZ").is_none());
}

#[test]
fn target_base_picks_right_party() {
    let p = detect("BPEE").unwrap();
    let enemy_target = TargetDef {
        name: "x",
        species: 0,
        slot: Slot::Enemy,
        method: HuntMethod::SoftResetLegendary,
        cursor: StarterCursor::Center,
    };
    let player_target = TargetDef { slot: Slot::Player, ..enemy_target };
    assert_eq!(p.target_base(&enemy_target), p.enemy_party);
    assert_eq!(p.target_base(&player_target), p.player_party);
}

#[test]
fn starter_cursor_values() {
    assert_eq!(StarterCursor::Left.value(), 0);
    assert_eq!(StarterCursor::Center.value(), 1);
    assert_eq!(StarterCursor::Right.value(), 2);
}

#[test]
fn three_profiles_are_known() {
    let all = profiles();
    assert_eq!(all.len(), 3);
    assert_eq!(all[0].code, "BPEE");
    assert_eq!(all[0].enemy_party, 0x0202_4744);
}
