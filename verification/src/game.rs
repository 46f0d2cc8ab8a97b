//! Reads of game state through the entity list, the local player and the
//! game rules.
//!
//! Each function's contract names, by a predicate over the reader, every
//! result that the reads it makes could lead to: the reads happen in the
//! order the predicate nests them, and the result is decided from their
//! answers as stated there.

use vstd::prelude::*;

use crate::memory::{reader_ok, reads_i32, reads_le, wrap64, Handle};
use crate::offsets::Offsets;

verus! {

/// Stride between consecutive entries inside an entity-list chunk.
pub const ENTITY_STRIDE: i64 = 0x70;

/// Indices the entity list can hold.
pub open spec fn entity_index_ok(idx: i32) -> bool {
    0 < idx < 8192
}

/// Offset, from the list, of the pointer to the chunk holding `idx`.
pub open spec fn chunk_offset(idx: i32) -> int {
    8 * (idx / 512) + 0x10
}

/// Offset, inside its chunk, of the entry for `idx`.
pub open spec fn entry_offset(idx: i32) -> int {
    0x70 * (idx % 512)
}

/// The entity index carried by an entity handle value.
pub open spec fn handle_index(h: nat) -> i32 {
    ((h as u32) & 0x7fff) as i32
}

/// `e` is a possible address of entity `idx` in the list at `list`.
pub open spec fn entity_read<R: Fn(u64, usize) -> Option<Vec<u8>>>(
    r: &R,
    list: u64,
    idx: i32,
    e: u64,
) -> bool {
    if !entity_index_ok(idx) {
        e == 0
    } else {
        exists|chunk: nat| #[trigger]
            reads_le(r, wrap64(list + chunk_offset(idx)), 8, chunk) && reads_le(
                r,
                wrap64(chunk + entry_offset(idx)),
                8,
                e as nat,
            )
    }
}

/// `p` is a possible pawn address of the controller at `ctrl`; the
/// controller is read with `rc`, the entity list with `rl`.
pub open spec fn pawn_read<R: Fn(u64, usize) -> Option<Vec<u8>>>(
    rl: &R,
    rc: &R,
    list: u64,
    ctrl: u64,
    off: Offsets,
    p: u64,
) -> bool {
    if ctrl == 0 {
        p == 0
    } else {
        exists|h: nat| #[trigger]
            reads_le(rc, wrap64(ctrl + off.m_h_pawn), 4, h) && entity_read(
                rl,
                list,
                handle_index(h),
                p,
            )
    }
}

/// `k` is a possible kill count of the current round for the controller at `ctrl`.
pub open spec fn kills_read<R: Fn(u64, usize) -> Option<Vec<u8>>>(
    r: &R,
    ctrl: u64,
    off: Offsets,
    k: i32,
) -> bool {
    if ctrl == 0 {
        k == 0
    } else {
        exists|t: nat| #[trigger]
            reads_le(r, wrap64(ctrl + off.m_p_action_tracking_services), 8, t) && reads_i32(
                r,
                wrap64(t + off.m_i_num_round_kills),
                k,
            )
    }
}

/// `id` is a possible item definition index of the weapon held by the pawn at `pawn`.
pub open spec fn weapon_read<R: Fn(u64, usize) -> Option<Vec<u8>>>(
    rl: &R,
    rp: &R,
    list: u64,
    pawn: u64,
    off: Offsets,
    id: u16,
) -> bool {
    if pawn == 0 {
        id == 0
    } else {
        exists|ws: nat| #[trigger]
            reads_le(rp, wrap64(pawn + off.m_p_weapon_services), 8, ws) && (ws == 0 ==> id == 0)
                && (ws != 0 ==> exists|h: nat| #[trigger]
                reads_le(rp, wrap64(ws + off.m_h_active_weapon), 4, h) && exists|wpn: u64| #[trigger]
                entity_read(rl, list, handle_index(h), wpn) && (wpn == 0 ==> id == 0) && (wpn != 0
                ==> reads_le(
                rl,
                wrap64(wrap64(wrap64(wpn + off.m_attribute_manager) + off.m_item)
                    + off.m_i_item_definition_index),
                2,
                id as nat,
            )))
    }
}

/// `b` is a possible answer to whether the pawn at `pawn` is alive.
pub open spec fn alive_read<R: Fn(u64, usize) -> Option<Vec<u8>>>(
    r: &R,
    pawn: u64,
    off: Offsets,
    b: bool,
) -> bool {
    if pawn == 0 {
        !b
    } else {
        exists|hp: i32, life: nat|
            #![trigger reads_i32(r, wrap64(pawn + off.m_i_health), hp), reads_le(r, wrap64(pawn + off.m_life_state), 1, life)]
            reads_i32(r, wrap64(pawn + off.m_i_health), hp) && reads_le(
                r,
                wrap64(pawn + off.m_life_state),
                1,
                life,
            ) && b == (hp > 0 && life == 0)
    }
}

/// `t` is a possible team number of the pawn at `pawn`.
pub open spec fn team_read<R: Fn(u64, usize) -> Option<Vec<u8>>>(
    r: &R,
    pawn: u64,
    off: Offsets,
    t: u8,
) -> bool {
    if pawn == 0 {
        t == 0
    } else {
        reads_le(r, wrap64(pawn + off.m_i_team_num), 1, t as nat)
    }
}

/// `b` is a possible answer to whether the round is in active play, given
/// the client module at `client`.
pub open spec fn round_live_read<R: Fn(u64, usize) -> Option<Vec<u8>>>(
    r: &R,
    client: u64,
    off: Offsets,
    b: bool,
) -> bool {
    exists|rules: nat| #[trigger]
        reads_le(r, wrap64(client + off.dw_game_rules), 8, rules) && (rules == 0 ==> !b) && (rules
            != 0 ==> rules_live_read(r, rules, off, b))
}

/// `b` is a possible answer to whether the game rules at `rules` say the
/// round is in active play.
pub open spec fn rules_live_read<R: Fn(u64, usize) -> Option<Vec<u8>>>(
    r: &R,
    rules: nat,
    off: Offsets,
    b: bool,
) -> bool {
    exists|warm: nat, freeze: nat|
        #![trigger reads_le(r, wrap64(rules + off.m_b_warmup_period), 1, warm), reads_le(r, wrap64(rules + off.m_b_freeze_period), 1, freeze)]
        reads_le(r, wrap64(rules + off.m_b_warmup_period), 1, warm) && reads_le(
            r,
            wrap64(rules + off.m_b_freeze_period),
            1,
            freeze,
        ) && (warm != 0 || freeze != 0 ==> !b) && (warm == 0 && freeze == 0 ==> exists|sw: nat| #[trigger]
            reads_le(r, wrap64(rules + off.m_b_switching_teams_at_round_reset), 1, sw) && (sw != 0
                ==> !b) && (sw == 0 ==> exists|intro: nat| #[trigger]
            reads_le(r, wrap64(rules + off.m_b_team_intro_period), 1, intro) && (intro != 0 ==> !b)
                && (intro == 0 ==> exists|win: i32| #[trigger]
            reads_i32(r, wrap64(rules + off.m_i_round_win_status), win) && b == (win == 0))))
}

/// `b` is a possible answer to whether controller `i` of the list stands for
/// a living enemy of `local_team` other than the local pawn.
pub open spec fn enemy_counted<R: Fn(u64, usize) -> Option<Vec<u8>>>(
    r: &R,
    list: u64,
    local: u64,
    local_team: u8,
    off: Offsets,
    i: i32,
    b: bool,
) -> bool {
    exists|ctrl: u64| #[trigger]
        entity_read(r, list, i, ctrl) && (ctrl == 0 ==> !b) && (ctrl != 0 ==> exists|p: u64| #[trigger]
            pawn_read(r, r, list, ctrl, off, p) && ((p == 0 || p == local) ==> !b) && ((p != 0 && p
                != local) ==> exists|t: u8| #[trigger]
            team_read(r, p, off, t) && ((t <= 1 || t == local_team) ==> !b) && ((t > 1 && t
                != local_team) ==> alive_read(r, p, off, b))))
}

/// Number of `true` entries of `bs`.
pub open spec fn count_true(bs: Seq<bool>) -> nat
    decreases bs.len(),
{
    if bs.len() == 0 {
        0
    } else {
        count_true(bs.drop_last()) + (if bs.last() {
            1nat
        } else {
            0nat
        })
    }
}

/// `bs[k]` is a possible answer for controller `k + 1`, for each `k` in `bs`.
pub open spec fn enemy_answers<R: Fn(u64, usize) -> Option<Vec<u8>>>(
    r: &R,
    list: u64,
    local: u64,
    local_team: u8,
    off: Offsets,
    bs: Seq<bool>,
) -> bool {
    forall|k: int|
        0 <= k < bs.len() ==> enemy_counted(r, list, local, local_team, off, (k + 1) as i32, #[trigger] bs[k])
}

/// `n` is a possible number of living enemies among controllers 1 to 63.
pub open spec fn enemies_read<R: Fn(u64, usize) -> Option<Vec<u8>>>(
    r: &R,
    list: u64,
    local: u64,
    local_team: u8,
    off: Offsets,
    n: nat,
) -> bool {
    exists|bs: Seq<bool>| #[trigger]
        enemy_answers(r, list, local, local_team, off, bs) && bs.len() == 63 && n == count_true(bs)
}

/// `res` is a possible result of searching controllers `i .. 64` for the one
/// whose pawn is at `target`.
pub open spec fn local_ctrl_from<R: Fn(u64, usize) -> Option<Vec<u8>>>(
    r: &R,
    list: u64,
    target: u64,
    off: Offsets,
    i: int,
    res: u64,
) -> bool
    decreases 64 - i,
{
    if i >= 64 || i < 1 {
        res == 0
    } else {
        exists|ctrl: u64| #[trigger]
            entity_read(r, list, i as i32, ctrl) && (ctrl == 0 ==> local_ctrl_from(
                r,
                list,
                target,
                off,
                i + 1,
                res,
            )) && (ctrl != 0 ==> exists|p: u64| #[trigger]
                pawn_read(r, r, list, ctrl, off, p) && (if p != 0 && p == target {
                    res == ctrl
                } else {
                    local_ctrl_from(r, list, target, off, i + 1, res)
                }))
    }
}

/// A handle on the null address, read through the same process as `anchor`.
pub fn null_like<'p, R>(anchor: Handle<'p, R>) -> (h: Handle<'p, R>) where
    R: Fn(u64, usize) -> Option<Vec<u8>>,

    ensures
        h.proc == anchor.proc,
        h.addr == 0,
{
    Handle::new(anchor.proc, 0)
}

/// Entity `idx` of the entity list at `list`; null for an index the list
/// cannot hold, or when a read along the way fails.
pub fn get_entity<'p, R>(list: Handle<'p, R>, idx: i32) -> (e: Handle<'p, R>) where
    R: Fn(u64, usize) -> Option<Vec<u8>>,

    requires
        reader_ok(list.proc),
    ensures
        e.proc == list.proc,
        entity_read(list.proc, list.addr, idx, e.addr),
{
    if idx <= 0 || idx >= 8192 {
        return null_like(list);
    }
    let masked: i32 = idx & 0x7FFF;
    let low: i32 = idx & 0x1FF;
    assert(masked >> 9 == idx / 512 && low == idx % 512) by (bit_vector)
        requires
            0 < idx < 8192,
            masked == idx & 0x7FFF,
            low == idx & 0x1FF,
    ;
    let chunk_off: i64 = 8 * ((masked >> 9) as i64) + 0x10;
    let entry_off: i64 = ENTITY_STRIDE * (low as i64);
    let chunk = list.add(chunk_off).deref();
    let ent = chunk.add(entry_off).deref();
    assert(reads_le(list.proc, wrap64(list.addr + chunk_offset(idx)), 8, chunk.addr as nat));
    ent
}

/// The pawn of the controller at `ctrl`; null when `ctrl` is null.
pub fn controller_to_pawn<'p, R>(list: Handle<'p, R>, ctrl: Handle<'p, R>, off: &Offsets) -> (p:
    Handle<'p, R>) where R: Fn(u64, usize) -> Option<Vec<u8>>,

    requires
        reader_ok(list.proc),
        reader_ok(ctrl.proc),
    ensures
        p.proc == list.proc,
        pawn_read(list.proc, ctrl.proc, list.addr, ctrl.addr, *off, p.addr),
{
    if ctrl.is_null() {
        return null_like(list);
    }
    let h: u32 = ctrl.add(off.m_h_pawn).read_or_u32();
    let p = get_entity(list, (h & 0x7FFF) as i32);
    assert(reads_le(ctrl.proc, wrap64(ctrl.addr + off.m_h_pawn), 4, h as nat));
    p
}

/// Kills of the current round recorded for the controller at `ctrl`; zero
/// when `ctrl` is null.
pub fn round_kills<'p, R>(ctrl: Handle<'p, R>, off: &Offsets) -> (k: i32) where
    R: Fn(u64, usize) -> Option<Vec<u8>>,

    requires
        reader_ok(ctrl.proc),
    ensures
        kills_read(ctrl.proc, ctrl.addr, *off, k),
{
    if ctrl.is_null() {
        return 0;
    }
    let services = ctrl.add(off.m_p_action_tracking_services).deref();
    let k = services.add(off.m_i_num_round_kills).read_or_i32();
    assert(reads_le(
        ctrl.proc,
        wrap64(ctrl.addr + off.m_p_action_tracking_services),
        8,
        services.addr as nat,
    ));
    k
}

/// Item definition index of the weapon the pawn at `pawn` holds; zero when
/// the pawn, its weapon services or the weapon is null.
pub fn active_weapon_id<'p, R>(list: Handle<'p, R>, pawn: Handle<'p, R>, off: &Offsets) -> (id:
    u16) where R: Fn(u64, usize) -> Option<Vec<u8>>,

    requires
        reader_ok(list.proc),
        reader_ok(pawn.proc),
    ensures
        weapon_read(list.proc, pawn.proc, list.addr, pawn.addr, *off, id),
{
    if pawn.is_null() {
        return 0;
    }
    let ws = pawn.add(off.m_p_weapon_services).deref();
    assert(reads_le(pawn.proc, wrap64(pawn.addr + off.m_p_weapon_services), 8, ws.addr as nat));
    if ws.is_null() {
        return 0;
    }
    let h: u32 = ws.add(off.m_h_active_weapon).read_or_u32();
    assert(reads_le(pawn.proc, wrap64(ws.addr + off.m_h_active_weapon), 4, h as nat));
    let weapon = get_entity(list, (h & 0x7FFF) as i32);
    assert(entity_read(list.proc, list.addr, handle_index(h as nat), weapon.addr));
    if weapon.is_null() {
        return 0;
    }
    let id = weapon.add(off.m_attribute_manager).add(off.m_item).add(
        off.m_i_item_definition_index,
    ).read_or_u16();
    id
}

/// Whether the pawn at `pawn` is alive: health above zero and life state zero.
pub fn is_alive<'p, R>(pawn: Handle<'p, R>, off: &Offsets) -> (b: bool) where
    R: Fn(u64, usize) -> Option<Vec<u8>>,

    requires
        reader_ok(pawn.proc),
    ensures
        alive_read(pawn.proc, pawn.addr, *off, b),
{
    if pawn.is_null() {
        return false;
    }
    let hp: i32 = pawn.add(off.m_i_health).read_or_i32();
    let life: u8 = pawn.add(off.m_life_state).read_or_u8();
    assert(reads_i32(pawn.proc, wrap64(pawn.addr + off.m_i_health), hp) && reads_le(
        pawn.proc,
        wrap64(pawn.addr + off.m_life_state),
        1,
        life as nat,
    ));
    hp > 0 && life == 0
}

/// Pawn's team number (0 = unassigned, 1 = spectator, 2 and 3 = the two sides).
pub fn team<'p, R>(pawn: Handle<'p, R>, off: &Offsets) -> (t: u8) where
    R: Fn(u64, usize) -> Option<Vec<u8>>,

    requires
        reader_ok(pawn.proc),
    ensures
        team_read(pawn.proc, pawn.addr, *off, t),
{
    if pawn.is_null() {
        return 0;
    }
    pawn.add(off.m_i_team_num).read_or_u8()
}

/// True only when the round is in active play (no warmup, freeze time,
/// team switch, team intro, or decided round).
pub fn is_round_live<'p, R>(client: Handle<'p, R>, off: &Offsets) -> (b: bool) where
    R: Fn(u64, usize) -> Option<Vec<u8>>,

    requires
        reader_ok(client.proc),
    ensures
        round_live_read(client.proc, client.addr, *off, b),
{
    let rules = client.add(off.dw_game_rules).deref();
    assert(reads_le(client.proc, wrap64(client.addr + off.dw_game_rules), 8, rules.addr as nat));
    if rules.is_null() {
        return false;
    }
    let ghost ra = rules.addr as nat;
    let warmup: u8 = rules.add(off.m_b_warmup_period).read_or_u8();
    let freeze: u8 = rules.add(off.m_b_freeze_period).read_or_u8();
    assert(reads_le(client.proc, wrap64(ra + off.m_b_warmup_period), 1, warmup as nat)
        && reads_le(client.proc, wrap64(ra + off.m_b_freeze_period), 1, freeze as nat));
    if warmup != 0 || freeze != 0 {
        return false;
    }
    let switching: u8 = rules.add(off.m_b_switching_teams_at_round_reset).read_or_u8();
    assert(reads_le(
        client.proc,
        wrap64(ra + off.m_b_switching_teams_at_round_reset),
        1,
        switching as nat,
    ));
    if switching != 0 {
        return false;
    }
    let intro: u8 = rules.add(off.m_b_team_intro_period).read_or_u8();
    assert(reads_le(client.proc, wrap64(ra + off.m_b_team_intro_period), 1, intro as nat));
    if intro != 0 {
        return false;
    }
    let win_status: i32 = rules.add(off.m_i_round_win_status).read_or_i32();
    assert(reads_i32(client.proc, wrap64(ra + off.m_i_round_win_status), win_status));
    win_status == 0
}

/// Whether controller `i` stands for a living enemy: a pawn other than the
/// local one, on a playing team other than `local_team`, alive.
fn enemy_at<'p, R>(list: Handle<'p, R>, local_pawn: u64, local_team: u8, off: &Offsets, i: i32) -> (b:
    bool) where R: Fn(u64, usize) -> Option<Vec<u8>>,

    requires
        reader_ok(list.proc),
    ensures
        enemy_counted(list.proc, list.addr, local_pawn, local_team, *off, i, b),
{
    let ctrl = get_entity(list, i);
    assert(entity_read(list.proc, list.addr, i, ctrl.addr));
    if ctrl.is_null() {
        return false;
    }
    let pawn = controller_to_pawn(list, ctrl, off);
    assert(pawn_read(list.proc, list.proc, list.addr, ctrl.addr, *off, pawn.addr));
    if pawn.is_null() || pawn.addr() == local_pawn {
        return false;
    }
    let t = team(pawn, off);
    assert(team_read(list.proc, pawn.addr, *off, t));
    if t <= 1 || t == local_team {
        return false;
    }
    is_alive(pawn, off)
}

/// Count enemies still alive (team other than `local_team`, health above
/// zero, life state zero) among controllers 1 to 63.
pub fn enemies_alive<'p, R>(
    list: Handle<'p, R>,
    local_pawn: Handle<'p, R>,
    local_team: u8,
    off: &Offsets,
) -> (n: u32) where R: Fn(u64, usize) -> Option<Vec<u8>>,

    requires
        reader_ok(list.proc),
    ensures
        (local_team <= 1 || local_pawn.addr == 0) ==> n == 0,
        !(local_team <= 1 || local_pawn.addr == 0) ==> enemies_read(
            list.proc,
            list.addr,
            local_pawn.addr,
            local_team,
            *off,
            n as nat,
        ),
{
    if local_team <= 1 || local_pawn.is_null() {
        return 0;
    }
    let mut n: u32 = 0;
    let mut i: i32 = 1;
    let ghost mut bs: Seq<bool> = Seq::empty();
    while i < 64
        invariant
            reader_ok(list.proc),
            1 <= i <= 64,
            bs.len() == i - 1,
            n == count_true(bs),
            n < i,
            enemy_answers(list.proc, list.addr, local_pawn.addr, local_team, *off, bs),
        decreases 64 - i,
    {
        let b = enemy_at(list, local_pawn.addr, local_team, off, i);
        if b {
            n += 1;
        }
        proof {
            let old_bs = bs;
            bs = bs.push(b);
            assert(bs.drop_last() =~= old_bs);
            assert forall|k: int| 0 <= k < bs.len() implies enemy_counted(
                list.proc,
                list.addr,
                local_pawn.addr,
                local_team,
                *off,
                (k + 1) as i32,
                #[trigger] bs[k],
            ) by {
                if k < old_bs.len() {
                    assert(bs[k] == old_bs[k]);
                }
            }
        }
        i += 1;
    }
    assert(enemy_answers(list.proc, list.addr, local_pawn.addr, local_team, *off, bs));
    n
}

/// The local player's controller, found as the controller whose pawn is
/// the local pawn (controllers 1 to 63, first match); null when there is none.
pub fn find_local_controller<'p, R>(list: Handle<'p, R>, local_pawn: Handle<'p, R>, off: &Offsets) -> (c:
    Handle<'p, R>) where R: Fn(u64, usize) -> Option<Vec<u8>>,

    requires
        reader_ok(list.proc),
    ensures
        c.proc == list.proc,
        local_pawn.addr == 0 ==> c.addr == 0,
        local_pawn.addr != 0 ==> local_ctrl_from(list.proc, list.addr, local_pawn.addr, *off, 1, c.addr),
{
    let target = local_pawn.addr();
    if target == 0 {
        return null_like(list);
    }
    let mut i: i32 = 1;
    while i < 64
        invariant
            reader_ok(list.proc),
            1 <= i <= 64,
            target == local_pawn.addr,
            forall|res: u64| #[trigger]
                local_ctrl_from(list.proc, list.addr, target, *off, i as int, res) ==> local_ctrl_from(
                    list.proc,
                    list.addr,
                    target,
                    *off,
                    1,
                    res,
                ),
        decreases 64 - i,
    {
        let ctrl = get_entity(list, i);
        assert(entity_read(list.proc, list.addr, (i as int) as i32, ctrl.addr));
        let ghost mut pa: u64 = 0;
        if !ctrl.is_null() {
            let p = controller_to_pawn(list, ctrl, off);
            proof {
                pa = p.addr;
            }
            assert(pawn_read(list.proc, list.proc, list.addr, ctrl.addr, *off, p.addr));
            if !p.is_null() && p.addr() == target {
                assert(local_ctrl_from(list.proc, list.addr, target, *off, i as int, ctrl.addr));
                return ctrl;
            }
        }
        assert forall|res: u64| #[trigger]
            local_ctrl_from(list.proc, list.addr, target, *off, i + 1, res) implies local_ctrl_from(
                list.proc,
                list.addr,
                target,
                *off,
                i as int,
                res,
            ) by {
            assert(entity_read(list.proc, list.addr, (i as int) as i32, ctrl.addr));
            if ctrl.addr != 0 {
                assert(pawn_read(list.proc, list.proc, list.addr, ctrl.addr, *off, pa));
            }
        }
        i += 1;
    }
    assert(local_ctrl_from(list.proc, list.addr, target, *off, 64, 0));
    null_like(list)
}

/// Where an entity lives: for an index the list can hold, the list keeps at
/// `list + 8 * (idx >> 9) + 0x10` the pointer to the chunk of 512 entries
/// holding it, and the chunk keeps the entity's address at
/// `0x70 * (idx & 0x1FF)`. When those two reads give `chunk` and `e0`, the
/// entity read is `e0`; outside the indices the list can hold it is null.
pub proof fn entity_location<R: Fn(u64, usize) -> Option<Vec<u8>>>(
    r: &R,
    list: u64,
    idx: i32,
    chunk: nat,
    e0: nat,
    e: u64,
)
    requires
        forall|v: nat| #[trigger] reads_le(r, wrap64(list + 8 * (idx >> 9) + 0x10), 8, v) ==> v == chunk,
        forall|v: nat| #[trigger] reads_le(r, wrap64(chunk + 0x70 * (idx & 0x1FF)), 8, v) ==> v == e0,
        entity_read(r, list, idx, e),
    ensures
        0 < idx < 8192 ==> e == e0,
        !(0 < idx < 8192) ==> e == 0,
{
    if 0 < idx < 8192 {
        assert(idx >> 9 == idx / 512 && idx & 0x1FF == idx % 512) by (bit_vector)
            requires
                0 < idx < 8192,
        ;
        let c = choose|c: nat| #[trigger]
            reads_le(r, wrap64(list + chunk_offset(idx)), 8, c) && reads_le(
                r,
                wrap64(c + entry_offset(idx)),
                8,
                e as nat,
            );
        assert(reads_le(r, wrap64(list + 8 * (idx >> 9) + 0x10), 8, c));
        assert(reads_le(r, wrap64(chunk + 0x70 * (idx & 0x1FF)), 8, e as nat));
    }
}

/// When the rules pointer reads `rules` and the warmup, freeze, team
/// switch and team intro flags and the round win status read as given, the
/// round is live exactly when the pointer is not null, the four flags are
/// off and the win status is 0 (no side has won the round yet).
pub proof fn round_live_when<R: Fn(u64, usize) -> Option<Vec<u8>>>(
    r: &R,
    client: u64,
    off: Offsets,
    rules: nat,
    warm: nat,
    freeze: nat,
    switching: nat,
    intro: nat,
    win: i32,
    b: bool,
)
    requires
        forall|v: nat| #[trigger] reads_le(r, wrap64(client + off.dw_game_rules), 8, v) ==> v == rules,
        forall|v: nat| #[trigger] reads_le(r, wrap64(rules + off.m_b_warmup_period), 1, v) ==> v == warm,
        forall|v: nat| #[trigger] reads_le(r, wrap64(rules + off.m_b_freeze_period), 1, v) ==> v == freeze,
        forall|v: nat|
            #[trigger] reads_le(r, wrap64(rules + off.m_b_switching_teams_at_round_reset), 1, v) ==> v
                == switching,
        forall|v: nat| #[trigger] reads_le(r, wrap64(rules + off.m_b_team_intro_period), 1, v) ==> v == intro,
        forall|v: i32| #[trigger] reads_i32(r, wrap64(rules + off.m_i_round_win_status), v) ==> v == win,
        round_live_read(r, client, off, b),
    ensures
        b == (rules != 0 && warm == 0 && freeze == 0 && switching == 0 && intro == 0 && win == 0),
{
}

/// Controller `i` is present and its pawn is `target`.
pub open spec fn controls(ctrl: spec_fn(int) -> u64, pawn: spec_fn(int) -> u64, target: u64, i: int) -> bool {
    ctrl(i) != 0 && pawn(i) == target
}

/// The local controller search covers controllers 1 to 63 in order: when
/// entity `i` reads as `ctrl(i)` and its pawn as `pawn(i)`, the result is the
/// first controller whose pawn is the local pawn `target`, and null only when
/// none of the 63 is.
pub proof fn local_controller_is_first_match<R: Fn(u64, usize) -> Option<Vec<u8>>>(
    r: &R,
    list: u64,
    target: u64,
    off: Offsets,
    ctrl: spec_fn(int) -> u64,
    pawn: spec_fn(int) -> u64,
    res: u64,
)
    requires
        target != 0,
        forall|i: int, c: u64| 1 <= i < 64 && #[trigger] entity_read(r, list, i as i32, c) ==> c == ctrl(i),
        forall|i: int, p: u64|
            1 <= i < 64 && ctrl(i) != 0 && #[trigger] pawn_read(r, r, list, ctrl(i), off, p) ==> p == pawn(i),
        local_ctrl_from(r, list, target, off, 1, res),
    ensures
        forall|i: int|
            1 <= i < 64 && #[trigger] controls(ctrl, pawn, target, i) && (forall|j: int|
                1 <= j < i ==> !controls(ctrl, pawn, target, j)) ==> res == ctrl(i),
        (forall|i: int| 1 <= i < 64 ==> !#[trigger] controls(ctrl, pawn, target, i)) ==> res == 0,
{
    lemma_search_from(r, list, target, off, ctrl, pawn, 1, res);
}

proof fn lemma_search_from<R: Fn(u64, usize) -> Option<Vec<u8>>>(
    r: &R,
    list: u64,
    target: u64,
    off: Offsets,
    ctrl: spec_fn(int) -> u64,
    pawn: spec_fn(int) -> u64,
    k: int,
    res: u64,
)
    requires
        1 <= k <= 64,
        target != 0,
        forall|i: int, c: u64| 1 <= i < 64 && #[trigger] entity_read(r, list, i as i32, c) ==> c == ctrl(i),
        forall|i: int, p: u64|
            1 <= i < 64 && ctrl(i) != 0 && #[trigger] pawn_read(r, r, list, ctrl(i), off, p) ==> p == pawn(i),
        local_ctrl_from(r, list, target, off, k, res),
    ensures
        forall|i: int|
            k <= i < 64 && #[trigger] controls(ctrl, pawn, target, i) && (forall|j: int|
                k <= j < i ==> !controls(ctrl, pawn, target, j)) ==> res == ctrl(i),
        (forall|i: int| k <= i < 64 ==> !#[trigger] controls(ctrl, pawn, target, i)) ==> res == 0,
    decreases 64 - k,
{
    if k < 64 {
        let c = choose|c: u64| #[trigger]
            entity_read(r, list, k as i32, c) && (c == 0 ==> local_ctrl_from(r, list, target, off, k + 1, res))
                && (c != 0 ==> exists|p: u64| #[trigger]
                pawn_read(r, r, list, c, off, p) && (if p != 0 && p == target {
                    res == c
                } else {
                    local_ctrl_from(r, list, target, off, k + 1, res)
                }));
        assert(c == ctrl(k));
        if c != 0 {
            let p = choose|p: u64| #[trigger]
                pawn_read(r, r, list, c, off, p) && (if p != 0 && p == target {
                    res == c
                } else {
                    local_ctrl_from(r, list, target, off, k + 1, res)
                });
            assert(p == pawn(k));
        }
        if controls(ctrl, pawn, target, k) {
            assert forall|i: int|
                k <= i < 64 && #[trigger] controls(ctrl, pawn, target, i) && (forall|j: int|
                    k <= j < i ==> !controls(ctrl, pawn, target, j)) implies res == ctrl(i) by {
                if i > k {
                    assert(!controls(ctrl, pawn, target, k));
                }
            }
        } else {
            lemma_search_from(r, list, target, off, ctrl, pawn, k + 1, res);
            assert forall|i: int|
                k <= i < 64 && #[trigger] controls(ctrl, pawn, target, i) && (forall|j: int|
                    k <= j < i ==> !controls(ctrl, pawn, target, j)) implies res == ctrl(i) by {
                assert(forall|j: int| k + 1 <= j < i ==> !controls(ctrl, pawn, target, j));
            }
        }
    }
}

/// When the health reads `hp` and the life state reads `life`, a pawn is
/// alive exactly when its health is above zero and its life state is 0; a
/// null pawn is not alive.
pub proof fn alive_when<R: Fn(u64, usize) -> Option<Vec<u8>>>(
    r: &R,
    pawn: u64,
    off: Offsets,
    hp: i32,
    life: nat,
    b: bool,
)
    requires
        forall|v: i32| #[trigger] reads_i32(r, wrap64(pawn + off.m_i_health), v) ==> v == hp,
        forall|v: nat| #[trigger] reads_le(r, wrap64(pawn + off.m_life_state), 1, v) ==> v == life,
        alive_read(r, pawn, off, b),
    ensures
        b == (pawn != 0 && hp > 0 && life == 0),
{
}

/// When controller `i` reads as `ctrl`, its pawn as `p`, the pawn's team as
/// `t` and whether it is alive as `alive`, the controller counts as a living
/// enemy exactly when it and its pawn are present, the pawn is not the local
/// one, its team is a playing team (above 1) other than `local_team`, and it
/// is alive.
pub proof fn enemy_when<R: Fn(u64, usize) -> Option<Vec<u8>>>(
    r: &R,
    list: u64,
    local: u64,
    local_team: u8,
    off: Offsets,
    i: i32,
    ctrl: u64,
    p: u64,
    t: u8,
    alive: bool,
    b: bool,
)
    requires
        forall|c: u64| #[trigger] entity_read(r, list, i, c) ==> c == ctrl,
        forall|q: u64| #[trigger] pawn_read(r, r, list, ctrl, off, q) ==> q == p,
        forall|u: u8| #[trigger] team_read(r, p, off, u) ==> u == t,
        forall|a: bool| #[trigger] alive_read(r, p, off, a) ==> a == alive,
        enemy_counted(r, list, local, local_team, off, i, b),
    ensures
        b == (ctrl != 0 && p != 0 && p != local && t > 1 && t != local_team && alive),
{
}

/// The enemy count covers controllers 1 to 63: when controller `i` counts
/// as a living enemy exactly when `enemy(i)`, the count is the number of
/// those 63 controllers that do.
pub proof fn enemy_count_covers_all_controllers<R: Fn(u64, usize) -> Option<Vec<u8>>>(
    r: &R,
    list: u64,
    local: u64,
    local_team: u8,
    off: Offsets,
    enemy: spec_fn(int) -> bool,
    n: nat,
)
    requires
        forall|i: int, b: bool|
            1 <= i < 64 && #[trigger] enemy_counted(r, list, local, local_team, off, i as i32, b) ==> b
                == enemy(i),
        enemies_read(r, list, local, local_team, off, n),
    ensures
        n == count_true(Seq::new(63, |k: int| enemy(k + 1))),
{
    let bs = choose|bs: Seq<bool>| #[trigger]
        enemy_answers(r, list, local, local_team, off, bs) && bs.len() == 63 && n == count_true(bs);
    assert forall|k: int| 0 <= k < 63 implies #[trigger] bs[k] == enemy(k + 1) by {
        assert(enemy_counted(r, list, local, local_team, off, (k + 1) as i32, bs[k]));
    }
    assert(bs =~= Seq::new(63, |k: int| enemy(k + 1)));
}

} // verus!
