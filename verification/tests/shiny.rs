use auroragba::gba::Gba;
use auroragba::shiny::games::{GameProfile, HuntMethod, Slot, StarterCursor, StarterMenu, TargetDef};
use auroragba::shiny::{
    force_starter_cursor, is_shiny_gen3, read_mon, shiny_value, substruct_order, CheckResult, Hunter,
};

fn profile_without_menu() -> GameProfile {
    GameProfile {
        code: "TEST",
        name: "test",
        player_party: 0x0200_0000,
        enemy_party: 0x0200_1000,
        rng_addr: None,
        starter_menu: None,
        targets: Vec::new(),
    }
}

fn enemy_target() -> TargetDef {
    TargetDef {
        name: "alvo",
        species: 0,
        slot: Slot::Enemy,
        method: HuntMethod::SoftResetLegendary,
        cursor: StarterCursor::Center,
    }
}

/// Writes a synthetic third-generation Pokémon: encrypts the Growth
/// substructure holding the species and stores the right checksum.
fn write_synthetic_mon(gba: &mut Gba, base: u32, pid: u32, otid: u32, species: u16) {
    gba.bus.write_u32(base, pid);
    gba.bus.write_u32(base + 0x04, otid);
    let key = pid ^ otid;
    let mut words = [0u32; 12];
    let order = substruct_order(pid % 24);
    let growth_slot = order.iter().position(|&t| t == 0).unwrap();
    words[growth_slot * 3] = species as u32;
    let mut sum: u32 = 0;
    for w in words {
        sum = sum.wrapping_add(w & 0xFFFF).wrapping_add(w >> 16);
    }
    gba.bus.write_u16(base + 0x1C, sum as u16);
    for (i, w) in words.iter().enumerate() {
        gba.bus.write_u32(base + 0x20 + (i as u32) * 4, w ^ key);
    }
}

#[test]
fn force_starter_cursor_only_writes_when_menu_open() {
    let cursor_addr = 0x0300_5E08;
    let func_addr = cursor_addr - 8;
    let input_func = 0x0813_425D;
    let profile = GameProfile {
        code: "TEST",
        name: "test",
        player_party: 0x0200_0000,
        enemy_party: 0x0200_1000,
        rng_addr: None,
        starter_menu: Some(StarterMenu { cursor_addr, input_funcs: vec![0x0813_425D] }),
        targets: Vec::new(),
    };
    let mudkip = TargetDef {
        name: "Mudkip",
        species: 283,
        slot: Slot::Player,
        method: HuntMethod::Starter,
        cursor: StarterCursor::Right,
    };

    let mut gba = Gba::new();
    gba.bus.write_u32(func_addr, 0xDEAD_BEEF);
    gba.bus.write_u8(cursor_addr, 1);
    force_starter_cursor(&mut gba, &profile, &mudkip);
    assert_eq!(gba.bus.read_u8(cursor_addr), 1, "a closed menu is not forced");

    gba.bus.write_u32(func_addr, input_func);
    force_starter_cursor(&mut gba, &profile, &mudkip);
    assert_eq!(gba.bus.read_u8(cursor_addr), 2, "Mudkip (2) should be forced");

    let legend = TargetDef { method: HuntMethod::SoftResetLegendary, ..mudkip };
    gba.bus.write_u8(cursor_addr, 1);
    force_starter_cursor(&mut gba, &profile, &legend);
    assert_eq!(gba.bus.read_u8(cursor_addr), 1, "a legendary leaves the cursor alone");
}

#[test]
fn shiny_formula_known_values() {
    assert!(is_shiny_gen3(0, 0, 0));
    assert!(!is_shiny_gen3(0xABCD_1234, 0x1111, 0x2222));
}

#[test]
fn shiny_value_of_a_known_pid() {
    assert_eq!(shiny_value(0x0000_3301, 0x1111, 0x2222), 0x0032);
    assert_eq!(shiny_value(0x1234_5678, 0, 0), 0x1234 ^ 0x5678);
}

#[test]
fn read_mon_decrypts_species_and_validates() {
    let mut gba = Gba::new();
    let base = 0x0200_0000;
    write_synthetic_mon(&mut gba, base, 0x1234_5678, 0xDEAD_BEEF, 384);
    let mon = read_mon(&mut gba, base);
    assert_eq!(mon.pid, 0x1234_5678);
    assert_eq!(mon.otid, 0xDEAD_BEEF);
    assert_eq!(mon.species, 384);
    assert!(mon.valid, "the checksum should match");
    assert_eq!(mon.tid(), 0xBEEF);
    assert_eq!(mon.sid(), 0xDEAD);
}

#[test]
fn read_mon_empty_slot_is_invalid() {
    let mut gba = Gba::new();
    let mon = read_mon(&mut gba, 0x0200_0200);
    assert_eq!(mon.pid, 0);
    assert!(!mon.valid);
}

#[test]
fn read_mon_flags_garbage_as_invalid() {
    let mut gba = Gba::new();
    let base = 0x0200_0100;
    gba.bus.write_u32(base, 0x1111_1111);
    gba.bus.write_u16(base + 0x1C, 0x9999);
    let mon = read_mon(&mut gba, base);
    assert!(!mon.valid);
}

#[test]
fn seeds_do_not_cycle() {
    let mut h = Hunter::new();
    let mut seen = std::collections::HashSet::new();
    for _ in 0..5000 {
        h.reroll_seed();
        seen.insert(h.pending_seed);
    }
    assert!(seen.len() > 4990, "seeds not diverse enough ({} distinct)", seen.len());
}

#[test]
fn instances_diverge() {
    let (mut a, mut b) = (Hunter::new(), Hunter::new());
    let seq = |h: &mut Hunter| {
        (0..50)
            .map(|_| {
                h.reroll_seed();
                h.pending_seed
            })
            .collect::<Vec<_>>()
    };
    assert_ne!(seq(&mut a), seq(&mut b), "two instances drew the same sequence");
}

#[test]
fn seeded_hunters_repeat_their_sequence() {
    let mut a = Hunter::from_seed(42);
    let mut b = Hunter::from_seed(42);
    assert_eq!(a.pending_seed, b.pending_seed);
    assert_eq!(a.next_rng(), b.next_rng());
}

#[test]
fn splitmix_first_output_of_zero() {
    // SplitMix64 seeded with 0 yields 0xE220A8397B1DCDAF first.
    let mut h = Hunter::from_seed(0);
    h.rng_state = 0;
    assert_eq!(h.next_rng(), 0xE220_A839_7B1D_CDAF);
}

#[test]
fn tracks_closest_shiny_value() {
    let mut gba = Gba::new();
    let profile = profile_without_menu();
    let target = enemy_target();
    let otid = 0x2222_1111;
    write_synthetic_mon(&mut gba, profile.player_party, 0xAAAA_BBBB, otid, 1);

    let mut hunter = Hunter::new();
    for (pid, expected_sv) in [(0x0000_3301u32, 50u16), (0x0000_3327, 20), (0x0000_3363, 80)] {
        write_synthetic_mon(&mut gba, profile.enemy_party, pid, otid, 100);
        hunter.check(&mut gba, &profile, &target);
        assert_eq!(hunter.last_shiny_value, expected_sv);
    }
    assert_eq!(hunter.best_shiny_value, 20);
    assert_eq!(hunter.best_attempt, 2);
}

#[test]
fn check_detects_shiny_from_player_ids() {
    let mut gba = Gba::new();
    let profile = profile_without_menu();
    let target = enemy_target();
    let otid = 0x2222_1111;
    write_synthetic_mon(&mut gba, profile.player_party, 0xAAAA_BBBB, otid, 1);
    let pid = 0x0000_3333;
    write_synthetic_mon(&mut gba, profile.enemy_party, pid, otid, 100);

    let mut hunter = Hunter::new();
    assert_eq!(hunter.check(&mut gba, &profile, &target), CheckResult::Shiny);
    assert!(hunter.found);
    assert_eq!(hunter.last_pid, pid);

    write_synthetic_mon(&mut gba, profile.enemy_party, 0x1234_5678, otid, 100);
    let mut hunter2 = Hunter::new();
    assert_eq!(hunter2.check(&mut gba, &profile, &target), CheckResult::NotShiny);
}

#[test]
fn check_of_an_empty_slot_is_not_ready() {
    let mut gba = Gba::new();
    let profile = profile_without_menu();
    let mut hunter = Hunter::new();
    assert_eq!(hunter.check(&mut gba, &profile, &enemy_target()), CheckResult::NotReady);
    assert_eq!(hunter.attempts, 0);
}

#[test]
fn tick_after_found_reports_shiny() {
    let mut gba = Gba::new();
    let profile = profile_without_menu();
    let mut hunter = Hunter::new();
    hunter.found = true;
    assert_eq!(hunter.tick(&mut gba, &profile, &enemy_target(), 10, 100), CheckResult::Shiny);
}
