//! Kill detection, streak timing and what the overlay is told.
//!
//! The worker is a state machine: `KillTimer::step` takes one event (the
//! outcome of attaching to the game, or one observation of the game state
//! with the current time) and returns what to publish, what to log and how
//! long to wait before the next event. `observe` makes the reads of one
//! observation.

use vstd::prelude::*;

use crate::game::{
    alive_read, enemies_read, find_local_controller, is_alive, is_round_live, kills_read,
    local_ctrl_from, round_kills, round_live_read, team, team_read, weapon_read, active_weapon_id,
    enemies_alive,
};
use crate::memory::{reader_ok, reads_le, wrap64, Handle};
use crate::offsets::Offsets;
use crate::settings::{
    OVERLAY_HIDDEN_RGB, OVERLAY_TIMER_RGB_HIGH, OVERLAY_TIMER_RGB_LOW, OVERLAY_TIMER_RGB_MID,
    POLL_COMBAT_MS, POLL_IDLE_MS, POLL_TIMER_MS, REATTACH_DELAY_MS,
};
use crate::weapons::{is_kill_ignored, kill_ignored_spec};

verus! {

/// Color band for a timer showing `shown` seconds.
pub open spec fn timer_rgb_spec(shown: u32) -> (u8, u8, u8) {
    if shown < 10 {
        OVERLAY_TIMER_RGB_LOW
    } else if shown < 15 {
        OVERLAY_TIMER_RGB_MID
    } else {
        OVERLAY_TIMER_RGB_HIGH
    }
}

/// Color band for a timer showing `shown` seconds: low below 10, mid below 15, high from 15.
pub fn timer_rgb(shown: u32) -> (c: (u8, u8, u8))
    ensures
        c == timer_rgb_spec(shown),
{
    if shown < 10 {
        OVERLAY_TIMER_RGB_LOW
    } else if shown < 15 {
        OVERLAY_TIMER_RGB_MID
    } else {
        OVERLAY_TIMER_RGB_HIGH
    }
}

/// One state published to the overlay.
#[derive(Clone, Copy, Debug)]
pub struct Publish {
    pub visible: bool,
    pub value: u32,
    pub rgb: (u8, u8, u8),
    pub connected: bool,
}

/// The hidden overlay state.
pub open spec fn hidden(connected: bool) -> Publish {
    Publish { visible: false, value: 1, rgb: OVERLAY_HIDDEN_RGB, connected }
}

/// The timer showing `shown` seconds.
pub open spec fn showing(shown: u32) -> Publish {
    Publish { visible: true, value: shown, rgb: timer_rgb_spec(shown), connected: true }
}

fn hidden_state(connected: bool) -> (p: Publish)
    ensures
        p == hidden(connected),
{
    Publish { visible: false, value: 1, rgb: OVERLAY_HIDDEN_RGB, connected }
}

fn showing_state(shown: u32) -> (p: Publish)
    ensures
        p == showing(shown),
{
    Publish { visible: true, value: shown, rgb: timer_rgb(shown), connected: true }
}

/// Why a running streak stopped.
#[derive(Clone, Copy, Debug, PartialEq, Eq, Structural)]
pub enum StopReason {
    LocalDeath,
    RoundEnded,
    RoundKillsReset,
}

/// What the worker reports.
#[derive(Clone, Copy, Debug, PartialEq, Eq, Structural)]
pub enum Log {
    /// The game process is not running (warning).
    WaitingForProcess,
    /// The game runs but its client module is not loaded (warning).
    WaitingForModule,
    /// Attached to the game process.
    Attached { pid: u32 },
    /// A running streak stopped.
    StreakStopped(StopReason),
    /// A kill started a streak.
    StreakStarted { weapon_id: u16, kills: i32, enemies_alive: u32 },
    /// A kill restarted the running streak.
    StreakReset { weapon_id: u16, kills: i32, enemies_alive: u32 },
    /// The game process was lost (warning).
    LostProcess,
}

/// How long to wait before the next event.
#[derive(Clone, Copy, Debug, PartialEq, Eq, Structural)]
pub enum Poll {
    Idle,
    Combat,
    Timer,
    Reattach,
    Now,
}

/// The wait, in milliseconds, of each poll.
pub open spec fn poll_ms_spec(p: Poll) -> u64 {
    match p {
        Poll::Idle => POLL_IDLE_MS,
        Poll::Combat => POLL_COMBAT_MS,
        Poll::Timer => POLL_TIMER_MS,
        Poll::Reattach => REATTACH_DELAY_MS,
        Poll::Now => 0,
    }
}

/// The wait, in milliseconds, before the next event.
pub fn poll_ms(p: Poll) -> (ms: u64)
    ensures
        ms == poll_ms_spec(p),
{
    match p {
        Poll::Idle => POLL_IDLE_MS,
        Poll::Combat => POLL_COMBAT_MS,
        Poll::Timer => POLL_TIMER_MS,
        Poll::Reattach => REATTACH_DELAY_MS,
        Poll::Now => 0,
    }
}

/// The game state read in one tick, for a local player that was found.
pub struct Sample {
    /// Address of the entity list.
    pub entity_list: u64,
    /// Address of the local pawn.
    pub pawn: u64,
    /// Address of the local controller.
    pub controller: u64,
    pub alive: bool,
    pub live_round: bool,
    pub team: u8,
    /// Kills of the current round.
    pub kills: i32,
    /// Weapon held after new kills; zero when not read.
    pub weapon_id: u16,
    /// Living enemies counted once for each new kill; empty when not read.
    pub remaining: Vec<u32>,
}

/// One observation of the game.
pub enum Observation {
    /// The entity list is null: the game process is gone.
    NoEntityList,
    /// There is no local pawn, or no controller for it.
    NoLocalPlayer,
    /// The local player was found.
    Player(Sample),
}

/// Input of the worker.
pub enum Event {
    /// The game process was not found.
    ProcessMissing,
    /// The game process runs but its client module is not loaded.
    ModuleMissing,
    /// Attached to the game process.
    Attached { pid: u32 },
    /// One observation, made at `now_ms` milliseconds on a monotonic clock.
    Tick { obs: Observation, now_ms: u64 },
}

/// Output of the worker for one event.
pub struct Action {
    /// States published to the overlay, in order.
    pub publish: Vec<Publish>,
    /// Reports, in order.
    pub logs: Vec<Log>,
    pub poll: Poll,
}

/// The worker's memory between events.
pub struct KillTimer {
    /// A waiting message was already reported.
    pub announced_waiting: bool,
    /// Round kills at the previous tick; negative before the first tick after attaching.
    pub prev_round_kills: i32,
    /// When the running streak started, if one runs.
    pub streak_start_ms: Option<u64>,
}

/// The new kills that count for the streak: those with enemies still alive,
/// unless the weapon is ignored.
pub open spec fn counted(remaining: Seq<u32>, ignored: bool) -> Seq<u32>
    decreases remaining.len(),
{
    if ignored || remaining.len() == 0 {
        Seq::empty()
    } else if remaining.last() != 0 {
        counted(remaining.drop_last(), ignored).push(remaining.last())
    } else {
        counted(remaining.drop_last(), ignored)
    }
}

/// Report for the `j`-th counted kill.
pub open spec fn kill_log(running: bool, j: int, weapon_id: u16, kills: i32, enemies: u32) -> Log {
    if j == 0 && !running {
        Log::StreakStarted { weapon_id, kills, enemies_alive: enemies }
    } else {
        Log::StreakReset { weapon_id, kills, enemies_alive: enemies }
    }
}

/// Reports for the counted kills `c`, when a streak was `running` before them.
pub open spec fn kill_logs(running: bool, c: Seq<u32>, weapon_id: u16, kills: i32) -> Seq<Log> {
    Seq::new(c.len(), |j: int| kill_log(running, j, weapon_id, kills, c[j]))
}

/// Seconds shown for a streak started at `start` when the time is `now`.
pub open spec fn shown_secs(start: u64, now: u64) -> u32 {
    ((if now >= start {
        now - start
    } else {
        0
    }) / 1000 + 1) as u32
}

/// Wait that follows a tick with no timer shown: the combat poll while the
/// local player is alive in a live round, else the idle poll.
pub open spec fn combat_poll(alive: bool, live_round: bool) -> Poll {
    if alive && live_round {
        Poll::Combat
    } else {
        Poll::Idle
    }
}

/// What one observation does, made at `now_ms`: `pre` is the state before,
/// `post` the state after, `a` the action returned.
pub open spec fn tick_outcome(pre: KillTimer, post: KillTimer, obs: Observation, now_ms: u64, a: Action) -> bool {
    &&& post.announced_waiting == pre.announced_waiting
    &&& match obs {
        Observation::NoEntityList => {
            &&& a.logs@ == seq![Log::LostProcess]
            &&& a.publish@ == seq![hidden(false)]
            &&& a.poll == Poll::Reattach
            &&& post.prev_round_kills == pre.prev_round_kills
            &&& post.streak_start_ms == pre.streak_start_ms
        },
        Observation::NoLocalPlayer => {
            &&& a.logs@ == Seq::<Log>::empty()
            &&& a.publish@ == seq![hidden(true)]
            &&& a.poll == Poll::Idle
            &&& post.prev_round_kills == -1
            &&& post.streak_start_ms is None
        },
        Observation::Player(s) => {
            &&& post.prev_round_kills == s.kills
            &&& if pre.prev_round_kills < 0 {
                // First tick: the kill count becomes the baseline.
                &&& a.logs@ == Seq::<Log>::empty()
                &&& a.publish@ == Seq::<Publish>::empty()
                &&& a.poll == combat_poll(s.alive, s.live_round)
                &&& post.streak_start_ms == pre.streak_start_ms
            } else if !s.alive || !s.live_round {
                // Dead, or the round is not live: hide.
                &&& a.logs@ == (if pre.streak_start_ms is Some {
                    seq![
                        Log::StreakStopped(
                            if !s.alive {
                                StopReason::LocalDeath
                            } else {
                                StopReason::RoundEnded
                            },
                        ),
                    ]
                } else {
                    Seq::<Log>::empty()
                })
                &&& a.publish@ == seq![hidden(true)]
                &&& a.poll == Poll::Idle
                &&& post.streak_start_ms is None
            } else if s.kills > pre.prev_round_kills {
                // New kills: each counted one (re)starts the streak now.
                let c = counted(s.remaining@, kill_ignored_spec(s.weapon_id));
                let running = pre.streak_start_ms is Some;
                &&& a.logs@ == kill_logs(running, c, s.weapon_id, s.kills)
                &&& post.streak_start_ms == (if c.len() > 0 {
                    Some(now_ms)
                } else {
                    pre.streak_start_ms
                })
                &&& a.publish@ == Seq::new(c.len(), |j: int| showing(1)).push(
                    match post.streak_start_ms {
                        Some(st) => showing(shown_secs(st, now_ms)),
                        None => hidden(true),
                    },
                )
                &&& a.poll == (if post.streak_start_ms is Some {
                    Poll::Timer
                } else {
                    Poll::Combat
                })
            } else if s.kills < pre.prev_round_kills {
                // The round's kill count went down: the streak stops.
                &&& a.logs@ == (if pre.streak_start_ms is Some {
                    seq![Log::StreakStopped(StopReason::RoundKillsReset)]
                } else {
                    Seq::<Log>::empty()
                })
                &&& a.publish@ == seq![hidden(true)].push(hidden(true))
                &&& a.poll == Poll::Combat
                &&& post.streak_start_ms is None
            } else {
                // No change: keep showing the running timer.
                &&& a.logs@ == Seq::<Log>::empty()
                &&& post.streak_start_ms == pre.streak_start_ms
                &&& a.publish@ == seq![
                    match pre.streak_start_ms {
                        Some(st) => showing(shown_secs(st, now_ms)),
                        None => hidden(true),
                    },
                ]
                &&& a.poll == (if pre.streak_start_ms is Some {
                    Poll::Timer
                } else {
                    Poll::Combat
                })
            }
        },
    }
}

/// Whether the worker is attached to the game while it handles `event`:
/// not when the process or its module is missing, nor when the process was
/// lost.
pub open spec fn attached_during(event: Event) -> bool {
    match event {
        Event::ProcessMissing => false,
        Event::ModuleMissing => false,
        Event::Attached { .. } => true,
        Event::Tick { obs, .. } => !(obs is NoEntityList),
    }
}

/// A published state the overlay can show: a visible timer shows at least
/// one second in its color band and only while attached; a hidden one holds
/// the value 1 and the hidden color.
pub open spec fn publish_ok(p: Publish, connected: bool) -> bool {
    &&& p.connected == connected
    &&& p.visible ==> p.connected && p.value >= 1 && p.rgb == timer_rgb_spec(p.value)
    &&& !p.visible ==> p.value == 1 && p.rgb == OVERLAY_HIDDEN_RGB
}

impl KillTimer {
    /// A running streak has a kill count to compare against: it only
    /// starts after a tick that set the baseline.
    pub open spec fn wf(self) -> bool {
        self.streak_start_ms is Some ==> self.prev_round_kills >= 0
    }

    /// The state before the first attach.
    pub fn new() -> (t: Self)
        ensures
            !t.announced_waiting,
            t.prev_round_kills == -1,
            t.streak_start_ms is None,
            t.wf(),
    {
        KillTimer { announced_waiting: false, prev_round_kills: -1, streak_start_ms: None }
    }

    /// Handle one event. Every state it publishes is one the overlay can
    /// show (`publish_ok`), connected exactly while attached, and it keeps
    /// `wf`.
    pub fn step(&mut self, event: Event) -> (a: Action)
        requires
            event matches Event::Tick { now_ms, .. } ==> now_ms / 1000 < 0xFFFF_FFFF,
        ensures
            match event {
                Event::ProcessMissing => {
                    &&& a.logs@ == (if old(self).announced_waiting {
                        Seq::<Log>::empty()
                    } else {
                        seq![Log::WaitingForProcess]
                    })
                    &&& a.publish@ == seq![hidden(false)]
                    &&& a.poll == Poll::Idle
                    &&& final(self).announced_waiting
                    &&& final(self).prev_round_kills == old(self).prev_round_kills
                    &&& final(self).streak_start_ms == old(self).streak_start_ms
                },
                Event::ModuleMissing => {
                    &&& a.logs@ == (if old(self).announced_waiting {
                        Seq::<Log>::empty()
                    } else {
                        seq![Log::WaitingForModule]
                    })
                    &&& a.publish@ == seq![hidden(false)]
                    &&& a.poll == Poll::Idle
                    &&& final(self).announced_waiting
                    &&& final(self).prev_round_kills == old(self).prev_round_kills
                    &&& final(self).streak_start_ms == old(self).streak_start_ms
                },
                Event::Attached { pid } => {
                    &&& a.logs@ == seq![Log::Attached { pid }]
                    &&& a.publish@ == seq![hidden(true)]
                    &&& a.poll == Poll::Now
                    &&& !final(self).announced_waiting
                    &&& final(self).prev_round_kills == -1
                    &&& final(self).streak_start_ms is None
                },
                Event::Tick { obs, now_ms } => tick_outcome(*old(self), *final(self), obs, now_ms, a),
            },
            forall|i: int|
                0 <= i < a.publish@.len() ==> publish_ok(#[trigger] a.publish@[i], attached_during(event)),
            old(self).wf() ==> final(self).wf(),
    {
        match event {
            Event::ProcessMissing => {
                let mut logs: Vec<Log> = Vec::new();
                if !self.announced_waiting {
                    logs.push(Log::WaitingForProcess);
                    self.announced_waiting = true;
                }
                let mut publish: Vec<Publish> = Vec::new();
                publish.push(hidden_state(false));
                Action { publish, logs, poll: Poll::Idle }
            },
            Event::ModuleMissing => {
                let mut logs: Vec<Log> = Vec::new();
                if !self.announced_waiting {
                    logs.push(Log::WaitingForModule);
                    self.announced_waiting = true;
                }
                let mut publish: Vec<Publish> = Vec::new();
                publish.push(hidden_state(false));
                Action { publish, logs, poll: Poll::Idle }
            },
            Event::Attached { pid } => {
                let mut logs: Vec<Log> = Vec::new();
                logs.push(Log::Attached { pid });
                self.announced_waiting = false;
                let mut publish: Vec<Publish> = Vec::new();
                publish.push(hidden_state(true));
                self.prev_round_kills = -1;
                self.streak_start_ms = None;
                Action { publish, logs, poll: Poll::Now }
            },
            Event::Tick { obs, now_ms } => {
                let ghost seen = obs;
                let a = self.tick(obs, now_ms);
                proof {
                    lemma_tick_publishes_ok(*old(self), *self, seen, now_ms, a);
                }
                a
            },
        }
    }

    /// Handle one observation made at `now_ms`.
    fn tick(&mut self, obs: Observation, now_ms: u64) -> (a: Action)
        requires
            now_ms / 1000 < 0xFFFF_FFFF,
        ensures
            tick_outcome(*old(self), *final(self), obs, now_ms, a),
    {
        let mut logs: Vec<Log> = Vec::new();
        let mut publish: Vec<Publish> = Vec::new();
        let s = match obs {
            Observation::NoEntityList => {
                logs.push(Log::LostProcess);
                publish.push(hidden_state(false));
                return Action { publish, logs, poll: Poll::Reattach };
            },
            Observation::NoLocalPlayer => {
                publish.push(hidden_state(true));
                self.streak_start_ms = None;
                self.prev_round_kills = -1;
                return Action { publish, logs, poll: Poll::Idle };
            },
            Observation::Player(s) => s,
        };
        let alive = s.alive;
        let kills = s.kills;
        let no_timer_poll = if alive && s.live_round {
            Poll::Combat
        } else {
            Poll::Idle
        };

        // First tick: baseline.
        if self.prev_round_kills < 0 {
            self.prev_round_kills = kills;
            return Action { publish, logs, poll: no_timer_poll };
        }

        // Dead or round not live: hide.
        if !alive || !s.live_round {
            if self.streak_start_ms.is_some() {
                let reason = if !alive {
                    StopReason::LocalDeath
                } else {
                    StopReason::RoundEnded
                };
                logs.push(Log::StreakStopped(reason));
            }
            self.streak_start_ms = None;
            publish.push(hidden_state(true));
            self.prev_round_kills = kills;
            return Action { publish, logs, poll: Poll::Idle };
        }

        if kills > self.prev_round_kills {
            // New kill(s). Ignored kills (non-firearm, or no enemy left) leave
            // the running streak alone: they neither reset nor stop it.
            self.prev_round_kills = kills;
            let ignored = is_kill_ignored(s.weapon_id);
            let ghost running = old(self).streak_start_ms is Some;
            let ghost start0 = old(self).streak_start_ms;
            let mut k: usize = 0;
            while k < s.remaining.len()
                invariant
                    k <= s.remaining.len(),
                    ignored == kill_ignored_spec(s.weapon_id),
                    running == (start0 is Some),
                    logs@ == kill_logs(
                        running,
                        counted(s.remaining@.subrange(0, k as int), ignored),
                        s.weapon_id,
                        kills,
                    ),
                    publish@ == Seq::new(
                        counted(s.remaining@.subrange(0, k as int), ignored).len(),
                        |j: int| showing(1),
                    ),
                    self.streak_start_ms == (if counted(
                        s.remaining@.subrange(0, k as int),
                        ignored,
                    ).len() > 0 {
                        Some(now_ms)
                    } else {
                        start0
                    }),
                    self.prev_round_kills == kills,
                    self.announced_waiting == old(self).announced_waiting,
                decreases s.remaining.len() - k,
            {
                let remaining = s.remaining[k];
                let ghost before = counted(s.remaining@.subrange(0, k as int), ignored);
                proof {
                    assert(s.remaining@.subrange(0, k + 1).drop_last() =~= s.remaining@.subrange(
                        0,
                        k as int,
                    ));
                }
                if !(remaining == 0 || ignored) {
                    let was_running = self.streak_start_ms.is_some();
                    self.streak_start_ms = Some(now_ms);
                    if was_running {
                        logs.push(
                            Log::StreakReset { weapon_id: s.weapon_id, kills, enemies_alive: remaining },
                        );
                    } else {
                        logs.push(
                            Log::StreakStarted {
                                weapon_id: s.weapon_id,
                                kills,
                                enemies_alive: remaining,
                            },
                        );
                    }
                    publish.push(showing_state(1));
                    proof {
                        let after = counted(s.remaining@.subrange(0, k + 1), ignored);
                        assert(after == before.push(remaining));
                        assert(logs@ =~= kill_logs(running, after, s.weapon_id, kills));
                        assert(publish@ =~= Seq::new(after.len(), |j: int| showing(1)));
                    }
                } else {
                    proof {
                        let after = counted(s.remaining@.subrange(0, k + 1), ignored);
                        assert(after == before);
                    }
                }
                k += 1;
            }
            assert(s.remaining@.subrange(0, s.remaining.len() as int) =~= s.remaining@);
        } else if kills < self.prev_round_kills {
            self.prev_round_kills = kills;
            if self.streak_start_ms.is_some() {
                logs.push(Log::StreakStopped(StopReason::RoundKillsReset));
            }
            self.streak_start_ms = None;
            publish.push(hidden_state(true));
        }

        // Publish the current timer state.
        let poll = match self.streak_start_ms {
            Some(start) => {
                let elapsed = if now_ms >= start {
                    now_ms - start
                } else {
                    0
                };
                let shown = (elapsed / 1000) as u32 + 1;
                publish.push(showing_state(shown));
                Poll::Timer
            },
            None => {
                publish.push(hidden_state(true));
                no_timer_poll
            },
        };
        Action { publish, logs, poll }
    }
}

/// The reads of one tick, for the client module at `client`. The kill
/// count of the previous tick, `prev_round_kills`, decides whether the
/// weapon and the enemies are read: only after new kills, with the local
/// player alive in a live round, and once per new kill for the enemies.
pub fn observe<'p, R>(client: Handle<'p, R>, off: &Offsets, prev_round_kills: i32) -> (obs:
    Observation) where R: Fn(u64, usize) -> Option<Vec<u8>>,

    requires
        reader_ok(client.proc),
    ensures
        exists|el: nat| #[trigger]
            reads_le(client.proc, wrap64(client.addr + off.dw_entity_list), 8, el) && match obs {
                Observation::NoEntityList => el == 0,
                Observation::NoLocalPlayer => el != 0 && exists|pawn: nat| #[trigger]
                    reads_le(client.proc, wrap64(client.addr + off.dw_local_player_pawn), 8, pawn)
                        && (pawn == 0 || local_ctrl_from(
                        client.proc,
                        el as u64,
                        pawn as u64,
                        *off,
                        1,
                        0,
                    )),
                Observation::Player(s) => {
                    &&& el != 0
                    &&& s.entity_list == el
                    &&& s.pawn != 0
                    &&& reads_le(
                        client.proc,
                        wrap64(client.addr + off.dw_local_player_pawn),
                        8,
                        s.pawn as nat,
                    )
                    &&& s.controller != 0
                    &&& local_ctrl_from(client.proc, s.entity_list, s.pawn, *off, 1, s.controller)
                    &&& alive_read(client.proc, s.pawn, *off, s.alive)
                    &&& round_live_read(client.proc, client.addr, *off, s.live_round)
                    &&& team_read(client.proc, s.pawn, *off, s.team)
                    &&& kills_read(client.proc, s.controller, *off, s.kills)
                    &&& if prev_round_kills >= 0 && s.alive && s.live_round && s.kills
                        > prev_round_kills {
                        &&& weapon_read(
                            client.proc,
                            client.proc,
                            s.entity_list,
                            s.pawn,
                            *off,
                            s.weapon_id,
                        )
                        &&& s.remaining@.len() == s.kills - prev_round_kills
                        &&& forall|k: int|
                            0 <= k < s.remaining@.len() ==> if s.team <= 1 {
                                #[trigger] s.remaining@[k] == 0
                            } else {
                                enemies_read(
                                    client.proc,
                                    s.entity_list,
                                    s.pawn,
                                    s.team,
                                    *off,
                                    s.remaining@[k] as nat,
                                )
                            }
                    } else {
                        s.weapon_id == 0 && s.remaining@.len() == 0
                    }
                },
            },
{
    let entity_list = client.add(off.dw_entity_list).deref();
    assert(reads_le(
        client.proc,
        wrap64(client.addr + off.dw_entity_list),
        8,
        entity_list.addr as nat,
    ));
    if entity_list.is_null() {
        return Observation::NoEntityList;
    }
    let pawn = client.add(off.dw_local_player_pawn).deref();
    assert(reads_le(
        client.proc,
        wrap64(client.addr + off.dw_local_player_pawn),
        8,
        pawn.addr as nat,
    ));
    if pawn.is_null() {
        return Observation::NoLocalPlayer;
    }
    let ctrl = find_local_controller(entity_list, pawn, off);
    if ctrl.is_null() {
        assert(local_ctrl_from(
            client.proc,
            (entity_list.addr as nat) as u64,
            (pawn.addr as nat) as u64,
            *off,
            1,
            0,
        ));
        return Observation::NoLocalPlayer;
    }
    let alive = is_alive(pawn, off);
    let live_round = is_round_live(client, off);
    let local_team = team(pawn, off);
    let kills = round_kills(ctrl, off);
    let mut weapon_id: u16 = 0;
    let mut remaining: Vec<u32> = Vec::new();
    if prev_round_kills >= 0 && alive && live_round && kills > prev_round_kills {
        weapon_id = active_weapon_id(entity_list, pawn, off);
        let delta = kills - prev_round_kills;
        let mut k: i32 = 0;
        while k < delta
            invariant
                reader_ok(client.proc),
                entity_list.proc == client.proc,
                pawn.proc == client.proc,
                pawn.addr != 0,
                0 <= k <= delta,
                remaining@.len() == k,
                forall|j: int|
                    0 <= j < remaining@.len() ==> if local_team <= 1 {
                        #[trigger] remaining@[j] == 0
                    } else {
                        enemies_read(
                            client.proc,
                            entity_list.addr,
                            pawn.addr,
                            local_team,
                            *off,
                            remaining@[j] as nat,
                        )
                    },
            decreases delta - k,
        {
            let n = enemies_alive(entity_list, pawn, local_team, off);
            remaining.push(n);
            k += 1;
        }
    }
    let s = Sample {
        entity_list: entity_list.addr,
        pawn: pawn.addr,
        controller: ctrl.addr,
        alive,
        live_round,
        team: local_team,
        kills,
        weapon_id,
        remaining,
    };
    Observation::Player(s)
}

/// Kills that do not count leave the streak alone: when the weapon is
/// ignored, or no enemy was left after any of the new kills, no kill is
/// counted (so the streak neither starts, restarts nor stops). When the
/// weapon counts, the counted kills are exactly those that left enemies alive.
pub proof fn ignored_kills_keep_streak(remaining: Seq<u32>, ignored: bool)
    ensures
        (ignored || forall|k: int| 0 <= k < remaining.len() ==> #[trigger] remaining[k] == 0)
            ==> counted(remaining, ignored).len() == 0,
        !ignored ==> counted(remaining, ignored) == remaining.filter(|r: u32| r != 0),
    decreases remaining.len(),
{
    if remaining.len() > 0 {
        ignored_kills_keep_streak(remaining.drop_last(), ignored);
        if !ignored {
            remaining.drop_last().lemma_filter_push(remaining.last(), |r: u32| r != 0);
            assert(remaining.drop_last().push(remaining.last()) =~= remaining);
        }
        if !ignored && forall|k: int| 0 <= k < remaining.len() ==> #[trigger] remaining[k] == 0 {
            assert(remaining[remaining.len() - 1] == 0);
            assert forall|k: int| 0 <= k < remaining.drop_last().len() implies #[trigger] remaining.drop_last()[k] == 0 by {
                assert(remaining[k] == 0);
            }
        }
    } else {
        assert(remaining.filter(|r: u32| r != 0) =~= Seq::<u32>::empty());
    }
}

/// Every state a tick publishes is one the overlay can show, connected
/// unless the entity list was lost, and a tick keeps `wf`.
proof fn lemma_tick_publishes_ok(pre: KillTimer, post: KillTimer, obs: Observation, now_ms: u64, a: Action)
    requires
        tick_outcome(pre, post, obs, now_ms, a),
        now_ms / 1000 < 0xFFFF_FFFF,
    ensures
        forall|i: int|
            0 <= i < a.publish@.len() ==> publish_ok(#[trigger] a.publish@[i], !(obs is NoEntityList)),
        pre.wf() ==> post.wf(),
{
    match pre.streak_start_ms {
        Some(st) => shown_value_at_least_one(st, now_ms),
        None => {},
    }
    shown_value_at_least_one(now_ms, now_ms);
    match obs {
        Observation::Player(s) => {
            if pre.prev_round_kills >= 0 && s.alive && s.live_round && s.kills > pre.prev_round_kills {
                let c = counted(s.remaining@, kill_ignored_spec(s.weapon_id));
                assert forall|i: int| 0 <= i < a.publish@.len() implies publish_ok(
                    #[trigger] a.publish@[i],
                    true,
                ) by {
                    if i < c.len() {
                        assert(a.publish@[i] == showing(1));
                    }
                }
            }
        },
        _ => {},
    }
}

/// The timer never shows zero: a streak shows one more than its whole
/// elapsed seconds, so 1 when it has just started.
pub proof fn shown_value_at_least_one(start: u64, now: u64)
    requires
        now / 1000 < 0xFFFF_FFFF,
    ensures
        shown_secs(start, now) >= 1,
        shown_secs(now, now) == 1,
        now >= start ==> shown_secs(start, now) == (now - start) / 1000 + 1,
{
}

/// The timer's colors by the seconds shown: the low-band color for the
/// first 9 seconds, the mid-band color from 10 to 14, the high-band color
/// from 15 on.
pub proof fn timer_color_bands(shown: u32)
    ensures
        1 <= shown <= 9 ==> timer_rgb_spec(shown) == OVERLAY_TIMER_RGB_LOW,
        10 <= shown <= 14 ==> timer_rgb_spec(shown) == OVERLAY_TIMER_RGB_MID,
        15 <= shown ==> timer_rgb_spec(shown) == OVERLAY_TIMER_RGB_HIGH,
{
}

/// The fast combat poll is only used while the local player is alive in a
/// live round, and whenever the local player is dead or the round is not
/// live the worker falls back to the idle poll.
pub proof fn combat_poll_only_in_live_rounds(pre: KillTimer, post: KillTimer, obs: Observation, now_ms: u64, a: Action)
    requires
        tick_outcome(pre, post, obs, now_ms, a),
    ensures
        a.poll == Poll::Combat ==> (obs matches Observation::Player(s) && s.alive && s.live_round),
        (obs matches Observation::Player(s) && (!s.alive || !s.live_round)) ==> a.poll == Poll::Idle,
{
}

} // verus!
