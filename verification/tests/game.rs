use std::collections::HashMap;

use cs2_killtimer::game::{
    active_weapon_id, controller_to_pawn, enemies_alive, find_local_controller, get_entity, is_alive,
    is_round_live, round_kills, team,
};
use cs2_killtimer::kill_timer::{observe, Observation};
use cs2_killtimer::memory::Handle;
use cs2_killtimer::offsets::Offsets;

/// A fake process memory: individual bytes by address.
#[derive(Default)]
struct Mem {
    bytes: HashMap<u64, u8>,
}

impl Mem {
    fn write(&mut self, addr: u64, data: &[u8]) {
        for (i, b) in data.iter().enumerate() {
            self.bytes.insert(addr + i as u64, *b);
        }
    }
    fn u64(&mut self, addr: u64, v: u64) {
        self.write(addr, &v.to_le_bytes());
    }
    fn u32(&mut self, addr: u64, v: u32) {
        self.write(addr, &v.to_le_bytes());
    }
    fn i32(&mut self, addr: u64, v: i32) {
        self.write(addr, &v.to_le_bytes());
    }
    fn u16(&mut self, addr: u64, v: u16) {
        self.write(addr, &v.to_le_bytes());
    }
    fn u8(&mut self, addr: u64, v: u8) {
        self.write(addr, &[v]);
    }
    fn read(&self, addr: u64, n: usize) -> Option<Vec<u8>> {
        (0..n as u64).map(|i| self.bytes.get(&(addr + i)).copied()).collect()
    }
}

const CLIENT: u64 = 0x1000_0000;
const LIST: u64 = 0x2000_0000;
const CHUNK: u64 = 0x3000_0000;
const RULES: u64 = 0x4000_0000;

fn offsets() -> Offsets {
    Offsets {
        dw_entity_list: 0x10,
        dw_game_rules: 0x18,
        dw_local_player_controller: 0x20,
        dw_local_player_pawn: 0x28,
        m_h_pawn: 0x60,
        m_p_action_tracking_services: 0x70,
        m_i_num_round_kills: 0x8,
        m_p_weapon_services: 0x80,
        m_h_active_weapon: 0x10,
        m_attribute_manager: 0x100,
        m_f_accuracy_penalty: 0x200,
        m_item: 0x20,
        m_i_item_definition_index: 0x8,
        m_i_health: 0x40,
        m_i_team_num: 0x48,
        m_life_state: 0x4c,
        m_b_freeze_period: 0x1,
        m_b_warmup_period: 0x2,
        m_i_round_win_status: 0x4,
        m_b_switching_teams_at_round_reset: 0x8,
        m_b_team_intro_period: 0x9,
    }
}

fn entity_addr(idx: u64) -> u64 {
    0x5000_0000 + idx * 0x1000
}

/// A game with: local controller 1 (pawn 2, team 2, alive, 3 kills, holding
/// weapon entity 10 = ak47), enemy controller 3 (pawn 4, team 3, alive),
/// teammate controller 5 (pawn 6, team 2, alive), dead enemy controller 7
/// (pawn 8, team 3), live round.
fn game() -> Mem {
    let off = offsets();
    let mut m = Mem::default();
    m.u64(CLIENT + off.dw_entity_list as u64, LIST);
    m.u64(CLIENT + off.dw_game_rules as u64, RULES);
    // chunk 0 pointer at LIST + 0x10
    m.u64(LIST + 0x10, CHUNK);
    for idx in 1..=10u64 {
        m.u64(CHUNK + 0x70 * idx, entity_addr(idx));
    }
    for (ctrl, pawn) in [(1u64, 2u64), (3, 4), (5, 6), (7, 8)] {
        m.u32(entity_addr(ctrl) + off.m_h_pawn as u64, 0x1234_8000 | pawn as u32);
    }
    for (pawn, team, hp) in [(2u64, 2u8, 100i32), (4, 3, 57), (6, 2, 100), (8, 3, 0)] {
        m.u8(entity_addr(pawn) + off.m_i_team_num as u64, team);
        m.i32(entity_addr(pawn) + off.m_i_health as u64, hp);
        m.u8(entity_addr(pawn) + off.m_life_state as u64, if hp > 0 { 0 } else { 2 });
    }
    m.u64(CLIENT + off.dw_local_player_pawn as u64, entity_addr(2));
    // kills of local controller 1
    m.u64(entity_addr(1) + off.m_p_action_tracking_services as u64, 0x6000_0000);
    m.i32(0x6000_0000 + off.m_i_num_round_kills as u64, 3);
    // weapon of pawn 2
    m.u64(entity_addr(2) + off.m_p_weapon_services as u64, 0x7000_0000);
    m.u32(0x7000_0000 + off.m_h_active_weapon as u64, 0x0040_000a);
    m.u16(entity_addr(10) + (off.m_attribute_manager + off.m_item + off.m_i_item_definition_index) as u64, 7);
    // rules: all flags clear, win status 0
    for f in [off.m_b_freeze_period, off.m_b_warmup_period, off.m_b_switching_teams_at_round_reset, off.m_b_team_intro_period] {
        m.u8(RULES + f as u64, 0);
    }
    m.i32(RULES + off.m_i_round_win_status as u64, 0);
    m
}

#[test]
fn get_entity_walks_the_chunk_list() {
    let m = game();
    let r = |a: u64, n: usize| m.read(a, n);
    let list = Handle::new(&r, LIST);
    assert_eq!(get_entity(list, 3).addr(), entity_addr(3));
    assert_eq!(get_entity(list, 10).addr(), entity_addr(10));
    // indices the list cannot hold give null without reading
    assert!(get_entity(list, 0).is_null());
    assert!(get_entity(list, -5).is_null());
    assert!(get_entity(list, 8192).is_null());
    // an index whose chunk pointer is unreadable gives null
    assert!(get_entity(list, 600).is_null());
}

#[test]
fn controller_pawn_kills_and_weapon() {
    let m = game();
    let off = offsets();
    let r = |a: u64, n: usize| m.read(a, n);
    let list = Handle::new(&r, LIST);
    let ctrl = Handle::new(&r, entity_addr(1));
    let pawn = controller_to_pawn(list, ctrl, &off);
    assert_eq!(pawn.addr(), entity_addr(2));
    assert_eq!(round_kills(ctrl, &off), 3);
    assert_eq!(active_weapon_id(list, pawn, &off), 7);
    let null = Handle::new(&r, 0);
    assert!(controller_to_pawn(list, null, &off).is_null());
    assert_eq!(round_kills(null, &off), 0);
    assert_eq!(active_weapon_id(list, null, &off), 0);
}

#[test]
fn life_and_team() {
    let m = game();
    let off = offsets();
    let r = |a: u64, n: usize| m.read(a, n);
    assert!(is_alive(Handle::new(&r, entity_addr(4)), &off));
    assert!(!is_alive(Handle::new(&r, entity_addr(8)), &off));
    assert!(!is_alive(Handle::new(&r, 0), &off));
    assert_eq!(team(Handle::new(&r, entity_addr(4)), &off), 3);
    assert_eq!(team(Handle::new(&r, 0), &off), 0);
    // negative health reads as negative, so not alive
    let mut m2 = game();
    m2.i32(entity_addr(4) + off.m_i_health as u64, -20);
    let r2 = |a: u64, n: usize| m2.read(a, n);
    assert!(!is_alive(Handle::new(&r2, entity_addr(4)), &off));
}

#[test]
fn round_live_flags() {
    let off = offsets();
    let m = game();
    let r = |a: u64, n: usize| m.read(a, n);
    assert!(is_round_live(Handle::new(&r, CLIENT), &off));
    for f in [off.m_b_freeze_period, off.m_b_warmup_period, off.m_b_switching_teams_at_round_reset, off.m_b_team_intro_period] {
        let mut m2 = game();
        m2.u8(RULES + f as u64, 1);
        let r2 = |a: u64, n: usize| m2.read(a, n);
        assert!(!is_round_live(Handle::new(&r2, CLIENT), &off));
    }
    let mut m3 = game();
    m3.i32(RULES + off.m_i_round_win_status as u64, 2);
    let r3 = |a: u64, n: usize| m3.read(a, n);
    assert!(!is_round_live(Handle::new(&r3, CLIENT), &off));
    let mut m4 = game();
    m4.u64(CLIENT + off.dw_game_rules as u64, 0);
    let r4 = |a: u64, n: usize| m4.read(a, n);
    assert!(!is_round_live(Handle::new(&r4, CLIENT), &off));
}

#[test]
fn counts_living_enemies() {
    let m = game();
    let off = offsets();
    let r = |a: u64, n: usize| m.read(a, n);
    let list = Handle::new(&r, LIST);
    let local = Handle::new(&r, entity_addr(2));
    // enemy pawn 4 alive, enemy pawn 8 dead, pawn 6 a teammate
    assert_eq!(enemies_alive(list, local, 2, &off), 1);
    // from the other side, the two living team-2 pawns other than pawn 4 count
    let other = Handle::new(&r, entity_addr(4));
    assert_eq!(enemies_alive(list, other, 3, &off), 2);
    // unassigned or spectator team, or no local pawn: nobody
    assert_eq!(enemies_alive(list, local, 1, &off), 0);
    assert_eq!(enemies_alive(list, Handle::new(&r, 0), 2, &off), 0);
}

#[test]
fn finds_local_controller_by_pawn() {
    let m = game();
    let off = offsets();
    let r = |a: u64, n: usize| m.read(a, n);
    let list = Handle::new(&r, LIST);
    assert_eq!(find_local_controller(list, Handle::new(&r, entity_addr(2)), &off).addr(), entity_addr(1));
    assert_eq!(find_local_controller(list, Handle::new(&r, entity_addr(6)), &off).addr(), entity_addr(5));
    assert!(find_local_controller(list, Handle::new(&r, 0x1234), &off).is_null());
    assert!(find_local_controller(list, Handle::new(&r, 0), &off).is_null());
}

#[test]
fn observation_of_the_fake_game() {
    let m = game();
    let off = offsets();
    let r = |a: u64, n: usize| m.read(a, n);
    let client = Handle::new(&r, CLIENT);
    match observe(client, &off, 1) {
        Observation::Player(s) => {
            assert_eq!(s.entity_list, LIST);
            assert_eq!(s.pawn, entity_addr(2));
            assert_eq!(s.controller, entity_addr(1));
            assert!(s.alive && s.live_round);
            assert_eq!(s.team, 2);
            assert_eq!(s.kills, 3);
            assert_eq!(s.weapon_id, 7);
            assert_eq!(s.remaining, vec![1, 1]);
        }
        _ => panic!("expected a player"),
    }
    // before the baseline (negative previous count), neither weapon nor enemies are read
    match observe(client, &off, -1) {
        Observation::Player(s) => {
            assert_eq!(s.weapon_id, 0);
            assert!(s.remaining.is_empty());
        }
        _ => panic!("expected a player"),
    }
    let mut m2 = game();
    m2.u64(CLIENT + off.dw_local_player_pawn as u64, 0);
    let r2 = |a: u64, n: usize| m2.read(a, n);
    assert!(matches!(observe(Handle::new(&r2, CLIENT), &off, 1), Observation::NoLocalPlayer));
    let empty = Mem::default();
    let r3 = |a: u64, n: usize| empty.read(a, n);
    assert!(matches!(observe(Handle::new(&r3, CLIENT), &off, 1), Observation::NoEntityList));
}
