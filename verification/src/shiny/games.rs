//! The game database: each `GameProfile` says, as plain data, where a game
//! keeps its Pokémon in RAM and which hunt targets it offers. A game is
//! recognised by the game code of its ROM header.
use vstd::prelude::*;
use crate::text::str_eq;

verus! {

/// The party the target is read from.
#[derive(Debug, Clone, Copy, PartialEq, Eq, Structural)]
pub enum Slot {
    /// Slot 0 of the player's party (a starter just chosen).
    Player,
    /// Slot 0 of the enemy party (a legendary or wild Pokémon in battle).
    Enemy,
}

/// How a hunt is driven.
#[derive(Debug, Clone, Copy, PartialEq, Eq, Structural)]
pub enum HuntMethod {
    /// Soft reset in front of a static legendary.
    SoftResetLegendary,
    /// A starter in the lab: the bag's selection is forced to the target.
    Starter,
    /// A wild Pokémon in the grass, stepping around one tile.
    WildSpin,
}

/// Where the target sits in the starter menu (three Poké Balls in a row).
#[derive(Debug, Clone, Copy, PartialEq, Eq, Structural)]
pub enum StarterCursor {
    Left,
    Center,
    Right,
}

/// The value of the selection byte for a cursor position.
pub open spec fn cursor_value(c: StarterCursor) -> u8 {
    match c {
        StarterCursor::Left => 0,
        StarterCursor::Center => 1,
        StarterCursor::Right => 2,
    }
}

impl StarterCursor {
    /// The value the selection byte takes at this position.
    pub fn value(self) -> (r: u8)
        ensures
            r == cursor_value(self),
    {
        match self {
            StarterCursor::Left => 0,
            StarterCursor::Center => 1,
            StarterCursor::Right => 2,
        }
    }
}

/// The starter menu's addresses: the selection byte and the task functions
/// that mark the menu as open and taking input (one per ROM revision).
#[derive(Debug, Clone)]
pub struct StarterMenu {
    pub cursor_addr: u32,
    pub input_funcs: Vec<u32>,
}

/// A hunt target of a game.
#[derive(Debug, Clone, Copy)]
pub struct TargetDef {
    pub name: &'static str,
    /// Internal species index; 0 accepts any species.
    pub species: u16,
    pub slot: Slot,
    pub method: HuntMethod,
    /// Position in the starter menu (used by the Starter method only).
    pub cursor: StarterCursor,
}

/// A game's RAM addresses and hunt targets.
#[derive(Debug, Clone)]
pub struct GameProfile {
    /// Game code of the ROM header (offset 0xAC).
    pub code: &'static str,
    pub name: &'static str,
    /// Address of the player's party, slot 0.
    pub player_party: u32,
    /// Address of the enemy party, slot 0.
    pub enemy_party: u32,
    /// Address of the game's RNG seed, where a fresh seed is injected.
    pub rng_addr: Option<u32>,
    pub starter_menu: Option<StarterMenu>,
    pub targets: Vec<TargetDef>,
}

/// A party address whose 0x50-byte Pokémon lies inside work RAM (on-board
/// 0x02000000-0x0203FFFF or on-chip 0x03000000-0x03007FFF).
pub open spec fn ram_party(a: u32) -> bool {
    (0x0200_0000 <= a && a as int + 0x50 <= 0x0204_0000) || (0x0300_0000 <= a && a as int + 0x50 <= 0x0300_8000)
}

impl GameProfile {
    /// The addresses a hunt reads lie in work RAM (the starter menu's
    /// selection byte and the task function 8 bytes before it too).
    pub open spec fn wf(&self) -> bool {
        &&& ram_party(self.player_party)
        &&& ram_party(self.enemy_party)
        &&& self.starter_menu matches Some(m) ==> ram_party((m.cursor_addr - 8) as u32) && m.cursor_addr >= 8
    }
}

/// The base address of the target's Pokémon.
pub open spec fn base_of(p: GameProfile, t: TargetDef) -> u32 {
    match t.slot {
        Slot::Player => p.player_party,
        Slot::Enemy => p.enemy_party,
    }
}

impl GameProfile {
    /// The base address of the target, by its slot.
    pub fn target_base(&self, target: &TargetDef) -> (r: u32)
        ensures
            r == base_of(*self, *target),
    {
        match target.slot {
            Slot::Player => self.player_party,
            Slot::Enemy => self.enemy_party,
        }
    }
}

/// `t` is the target `name` (species, slot, method, starter-menu position).
pub open spec fn target_is(
    t: TargetDef,
    name: Seq<char>,
    species: u16,
    slot: Slot,
    method: HuntMethod,
    cursor: StarterCursor,
) -> bool {
    t.name@ == name && t.species == species && t.slot == slot && t.method == method && t.cursor == cursor
}

/// A soft-reset legendary, met as the enemy.
pub open spec fn legendary_is(t: TargetDef, name: Seq<char>, species: u16) -> bool {
    target_is(t, name, species, Slot::Enemy, HuntMethod::SoftResetLegendary, StarterCursor::Center)
}

/// A starter, received in the player's party.
pub open spec fn starter_is(t: TargetDef, name: Seq<char>, species: u16, cursor: StarterCursor) -> bool {
    target_is(t, name, species, Slot::Player, HuntMethod::Starter, cursor)
}

/// The Emerald profile: its name, party and RNG addresses, starter menu and
/// targets (Rayquaza, Groudon, Kyogre, the three Regis, the three starters,
/// any wild Pokémon).
pub open spec fn emerald_profile(p: GameProfile) -> bool {
    let t = p.targets@;
    &&& p.code@ == "BPEE"@
    &&& p.name@ == "Pokémon Emerald"@
    &&& p.player_party == 0x0202_44EC && p.enemy_party == 0x0202_4744
    &&& p.rng_addr == Some(0x0300_5D80u32)
    &&& p.starter_menu matches Some(m) && m.cursor_addr == 0x0300_5E08 && m.input_funcs@ == seq![0x0813_425Du32]
    &&& t.len() == 10
    &&& legendary_is(t[0], "Rayquaza"@, 406) && legendary_is(t[1], "Groudon"@, 405) && legendary_is(t[2], "Kyogre"@, 404)
    &&& legendary_is(t[3], "Regirock"@, 401) && legendary_is(t[4], "Regice"@, 402) && legendary_is(t[5], "Registeel"@, 403)
    &&& starter_is(t[6], "Treecko (inicial)"@, 277, StarterCursor::Left)
    &&& starter_is(t[7], "Torchic (inicial)"@, 280, StarterCursor::Center)
    &&& starter_is(t[8], "Mudkip (inicial)"@, 283, StarterCursor::Right)
    &&& target_is(t[9], "Selvagem (qualquer)"@, 0, Slot::Enemy, HuntMethod::WildSpin, StarterCursor::Center)
}

/// A Ruby or Sapphire profile: the shared RAM layout and starter menu, and
/// the targets (the version's mascot `mascot`, Rayquaza, the three Regis,
/// the three starters).
pub open spec fn ruby_sapphire_profile(p: GameProfile, code: Seq<char>, name: Seq<char>, mascot: Seq<char>, species: u16) -> bool {
    let t = p.targets@;
    &&& p.code@ == code
    &&& p.name@ == name
    &&& p.player_party == 0x0300_4360 && p.enemy_party == 0x0300_45C0
    &&& p.rng_addr == Some(0x0300_4818u32)
    &&& p.starter_menu matches Some(m) && m.cursor_addr == 0x0300_4B28 && m.input_funcs@ == seq![
        0x0810_A179u32,
        0x0810_A199u32,
    ]
    &&& t.len() == 8
    &&& legendary_is(t[0], mascot, species) && legendary_is(t[1], "Rayquaza"@, 406)
    &&& legendary_is(t[2], "Regirock"@, 401) && legendary_is(t[3], "Regice"@, 402) && legendary_is(t[4], "Registeel"@, 403)
    &&& starter_is(t[5], "Treecko (inicial)"@, 277, StarterCursor::Left)
    &&& starter_is(t[6], "Torchic (inicial)"@, 280, StarterCursor::Center)
    &&& starter_is(t[7], "Mudkip (inicial)"@, 283, StarterCursor::Right)
}

/// The profile of a known game code.
pub open spec fn profile_of(p: GameProfile, code: Seq<char>) -> bool {
    &&& code == "BPEE"@ ==> emerald_profile(p)
    &&& code == "AXVE"@ ==> ruby_sapphire_profile(p, "AXVE"@, "Pokémon Ruby"@, "Groudon"@, 405)
    &&& code == "AXPE"@ ==> ruby_sapphire_profile(p, "AXPE"@, "Pokémon Sapphire"@, "Kyogre"@, 404)
}

fn legendary(name: &'static str, species: u16) -> (r: TargetDef)
    ensures
        r.name == name && r.species == species && r.slot == Slot::Enemy,
        r.method == HuntMethod::SoftResetLegendary && r.cursor == StarterCursor::Center,
{
    TargetDef { name, species, slot: Slot::Enemy, method: HuntMethod::SoftResetLegendary, cursor: StarterCursor::Center }
}

fn starter(name: &'static str, species: u16, cursor: StarterCursor) -> (r: TargetDef)
    ensures
        r.name == name && r.species == species && r.slot == Slot::Player,
        r.method == HuntMethod::Starter && r.cursor == cursor,
{
    TargetDef { name, species, slot: Slot::Player, method: HuntMethod::Starter, cursor }
}

/// Pokémon Emerald (BPEE).
fn emerald() -> (r: GameProfile)
    ensures
        r.code@ == "BPEE"@,
        r.wf(),
        emerald_profile(r),
{
    let mut targets: Vec<TargetDef> = Vec::new();
    targets.push(legendary("Rayquaza", 406));
    targets.push(legendary("Groudon", 405));
    targets.push(legendary("Kyogre", 404));
    targets.push(legendary("Regirock", 401));
    targets.push(legendary("Regice", 402));
    targets.push(legendary("Registeel", 403));
    targets.push(starter("Treecko (inicial)", 277, StarterCursor::Left));
    targets.push(starter("Torchic (inicial)", 280, StarterCursor::Center));
    targets.push(starter("Mudkip (inicial)", 283, StarterCursor::Right));
    targets.push(
        TargetDef {
            name: "Selvagem (qualquer)",
            species: 0,
            slot: Slot::Enemy,
            method: HuntMethod::WildSpin,
            cursor: StarterCursor::Center,
        },
    );
    let mut funcs: Vec<u32> = Vec::new();
    funcs.push(0x0813_425D);
    GameProfile {
        code: "BPEE",
        name: "Pokémon Emerald",
        player_party: 0x0202_44EC,
        enemy_party: 0x0202_4744,
        rng_addr: Some(0x0300_5D80),
        starter_menu: Some(StarterMenu { cursor_addr: 0x0300_5E08, input_funcs: funcs }),
        targets,
    }
}

/// Ruby and Sapphire share their RAM layout; each has its own mascot, which
/// comes first in its target list.
fn ruby_sapphire(code: &'static str, name: &'static str, mascot: TargetDef) -> (r: GameProfile)
    ensures
        r.code == code,
        r.wf(),
        legendary_is(mascot, mascot.name@, mascot.species) ==> ruby_sapphire_profile(
            r,
            code@,
            name@,
            mascot.name@,
            mascot.species,
        ),
{
    let mut targets: Vec<TargetDef> = Vec::new();
    targets.push(mascot);
    targets.push(legendary("Rayquaza", 406));
    targets.push(legendary("Regirock", 401));
    targets.push(legendary("Regice", 402));
    targets.push(legendary("Registeel", 403));
    targets.push(starter("Treecko (inicial)", 277, StarterCursor::Left));
    targets.push(starter("Torchic (inicial)", 280, StarterCursor::Center));
    targets.push(starter("Mudkip (inicial)", 283, StarterCursor::Right));
    let mut funcs: Vec<u32> = Vec::new();
    funcs.push(0x0810_A179);
    funcs.push(0x0810_A199);
    assert(funcs@ =~= seq![0x0810_A179u32, 0x0810_A199u32]);
    GameProfile {
        code,
        name,
        player_party: 0x0300_4360,
        enemy_party: 0x0300_45C0,
        rng_addr: Some(0x0300_4818),
        starter_menu: Some(StarterMenu { cursor_addr: 0x0300_4B28, input_funcs: funcs }),
        targets,
    }
}

/// The game codes with a profile.
pub open spec fn known_code(code: Seq<char>) -> bool {
    code == "BPEE"@ || code == "AXVE"@ || code == "AXPE"@
}

/// Every known profile: Emerald, Ruby, Sapphire.
pub fn profiles() -> (r: Vec<GameProfile>)
    ensures
        r@.len() == 3,
        r@[0].code@ == "BPEE"@,
        r@[1].code@ == "AXVE"@,
        r@[2].code@ == "AXPE"@,
        forall|i: int| 0 <= i < 3 ==> (#[trigger] r@[i]).wf(),
        emerald_profile(r@[0]),
        ruby_sapphire_profile(r@[1], "AXVE"@, "Pokémon Ruby"@, "Groudon"@, 405),
        ruby_sapphire_profile(r@[2], "AXPE"@, "Pokémon Sapphire"@, "Kyogre"@, 404),
{
    let mut v: Vec<GameProfile> = Vec::new();
    v.push(emerald());
    v.push(ruby_sapphire("AXVE", "Pokémon Ruby", legendary("Groudon", 405)));
    v.push(ruby_sapphire("AXPE", "Pokémon Sapphire", legendary("Kyogre", 404)));
    v
}

/// Finds the profile of a game code.
pub fn detect(game_code: &str) -> (r: Option<GameProfile>)
    ensures
        r.is_some() <==> known_code(game_code@),
        r matches Some(p) ==> p.code@ == game_code@ && p.wf() && profile_of(p, game_code@),
{
    let mut all = profiles();
    proof {
        reveal_strlit("BPEE");
        reveal_strlit("AXVE");
        reveal_strlit("AXPE");
    }
    let mut i: usize = 0;
    while i < all.len()
        invariant
            all@.len() == 3,
            all@[0].code@ == "BPEE"@,
            all@[1].code@ == "AXVE"@,
            all@[2].code@ == "AXPE"@,
            forall|j: int| 0 <= j < 3 ==> (#[trigger] all@[j]).wf(),
            emerald_profile(all@[0]),
            ruby_sapphire_profile(all@[1], "AXVE"@, "Pokémon Ruby"@, "Groudon"@, 405),
            ruby_sapphire_profile(all@[2], "AXPE"@, "Pokémon Sapphire"@, "Kyogre"@, 404),
            i <= 3,
            forall|j: int| 0 <= j < i ==> all@[j].code@ != game_code@,
        decreases all.len() - i,
    {
        if str_eq(all[i].code, game_code) {
            proof {
                reveal_strlit("BPEE");
                reveal_strlit("AXVE");
                reveal_strlit("AXPE");
                assert("BPEE"@[0] != "AXVE"@[0] && "BPEE"@[0] != "AXPE"@[0] && "AXVE"@[2] != "AXPE"@[2]);
                assert(all@[i as int].code@ == game_code@);
                if i == 0 {
                    assert(game_code@ == "BPEE"@);
                } else if i == 1 {
                    assert(game_code@ == "AXVE"@);
                } else {
                    assert(game_code@ == "AXPE"@);
                }
                assert(profile_of(all@[i as int], game_code@));
            }
            return Some(all.remove(i));
        }
        i = i + 1;
    }
    None
}

} // verus!
