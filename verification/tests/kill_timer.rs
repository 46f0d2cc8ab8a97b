use cs2_killtimer::kill_timer::{
    poll_ms, timer_rgb, Event, KillTimer, Log, Observation, Poll, Publish, Sample, StopReason,
};
use cs2_killtimer::settings::{
    OVERLAY_HIDDEN_RGB, OVERLAY_TIMER_RGB_HIGH, OVERLAY_TIMER_RGB_LOW, OVERLAY_TIMER_RGB_MID,
};

fn sample(alive: bool, live_round: bool, kills: i32, weapon_id: u16, remaining: Vec<u32>) -> Sample {
    Sample {
        entity_list: 0x100,
        pawn: 0x200,
        controller: 0x300,
        alive,
        live_round,
        team: 2,
        kills,
        weapon_id,
        remaining,
    }
}

fn tick(t: &mut KillTimer, s: Sample, now_ms: u64) -> (Vec<Publish>, Vec<Log>, Poll) {
    let a = t.step(Event::Tick { obs: Observation::Player(s), now_ms });
    (a.publish, a.logs, a.poll)
}

fn is_hidden(p: &Publish, connected: bool) -> bool {
    !p.visible && p.value == 1 && p.rgb == OVERLAY_HIDDEN_RGB && p.connected == connected
}

fn attached() -> KillTimer {
    let mut t = KillTimer::new();
    let a = t.step(Event::Attached { pid: 42 });
    assert_eq!(a.logs, vec![Log::Attached { pid: 42 }]);
    assert_eq!(a.poll, Poll::Now);
    assert!(is_hidden(&a.publish[0], true));
    t
}

#[test]
fn color_bands() {
    assert_eq!(timer_rgb(1), OVERLAY_TIMER_RGB_LOW);
    assert_eq!(timer_rgb(9), OVERLAY_TIMER_RGB_LOW);
    assert_eq!(timer_rgb(10), OVERLAY_TIMER_RGB_MID);
    assert_eq!(timer_rgb(14), OVERLAY_TIMER_RGB_MID);
    assert_eq!(timer_rgb(15), OVERLAY_TIMER_RGB_HIGH);
    assert_eq!(timer_rgb(u32::MAX), OVERLAY_TIMER_RGB_HIGH);
}

#[test]
fn poll_durations() {
    assert_eq!(poll_ms(Poll::Idle), 1000);
    assert_eq!(poll_ms(Poll::Combat), 20);
    assert_eq!(poll_ms(Poll::Timer), 50);
    assert_eq!(poll_ms(Poll::Reattach), 500);
    assert_eq!(poll_ms(Poll::Now), 0);
}

#[test]
fn waiting_is_announced_once() {
    let mut t = KillTimer::new();
    let a = t.step(Event::ProcessMissing);
    assert_eq!(a.logs, vec![Log::WaitingForProcess]);
    assert!(is_hidden(&a.publish[0], false));
    assert_eq!(a.poll, Poll::Idle);
    let b = t.step(Event::ModuleMissing);
    assert!(b.logs.is_empty());
    let _ = t.step(Event::Attached { pid: 1 });
    let c = t.step(Event::ModuleMissing);
    assert_eq!(c.logs, vec![Log::WaitingForModule]);
}

#[test]
fn first_tick_sets_baseline() {
    let mut t = attached();
    let (p, l, poll) = tick(&mut t, sample(true, true, 5, 7, vec![]), 0);
    assert!(p.is_empty() && l.is_empty());
    assert_eq!(poll, Poll::Combat);
    assert_eq!(t.prev_round_kills, 5);
    let mut t2 = attached();
    let (_, _, poll2) = tick(&mut t2, sample(false, true, 0, 0, vec![]), 0);
    assert_eq!(poll2, Poll::Idle);
    // alive during warmup or freeze time: idle poll too
    let mut t3 = attached();
    let (_, _, poll3) = tick(&mut t3, sample(true, false, 0, 0, vec![]), 0);
    assert_eq!(poll3, Poll::Idle);
}

#[test]
fn firearm_kill_starts_and_resets_streak() {
    let mut t = attached();
    tick(&mut t, sample(true, true, 0, 0, vec![]), 0);
    // one ak47 kill with 3 enemies left
    let (p, l, poll) = tick(&mut t, sample(true, true, 1, 7, vec![3]), 1_000);
    assert_eq!(l, vec![Log::StreakStarted { weapon_id: 7, kills: 1, enemies_alive: 3 }]);
    assert_eq!(p.len(), 2);
    assert!(p[1].visible && p[1].value == 1 && p[1].rgb == OVERLAY_TIMER_RGB_LOW);
    assert_eq!(poll, Poll::Timer);
    assert_eq!(t.streak_start_ms, Some(1_000));
    // 12.5 s later the timer shows 13 in the mid band
    let (p, l, _) = tick(&mut t, sample(true, true, 1, 0, vec![]), 13_500);
    assert!(l.is_empty());
    assert_eq!(p.len(), 1);
    assert_eq!(p[0].value, 13);
    assert_eq!(p[0].rgb, OVERLAY_TIMER_RGB_MID);
    // two more kills at once: the first counted one resets the streak
    let (p, l, _) = tick(&mut t, sample(true, true, 3, 7, vec![2, 1]), 20_000);
    assert_eq!(
        l,
        vec![
            Log::StreakReset { weapon_id: 7, kills: 3, enemies_alive: 2 },
            Log::StreakReset { weapon_id: 7, kills: 3, enemies_alive: 1 },
        ]
    );
    assert_eq!(p.len(), 3);
    assert_eq!(p[2].value, 1);
    assert_eq!(t.streak_start_ms, Some(20_000));
}

#[test]
fn ignored_kills_leave_streak_alone() {
    let mut t = attached();
    tick(&mut t, sample(true, true, 0, 0, vec![]), 0);
    tick(&mut t, sample(true, true, 1, 7, vec![3]), 1_000);
    // knife kill: ignored
    let (p, l, _) = tick(&mut t, sample(true, true, 2, 42, vec![2]), 4_000);
    assert!(l.is_empty());
    assert_eq!(t.streak_start_ms, Some(1_000));
    assert_eq!(p.last().unwrap().value, 4);
    // last enemy killed with a firearm: ignored too
    let (_, l, _) = tick(&mut t, sample(true, true, 3, 7, vec![0]), 5_000);
    assert!(l.is_empty());
    assert_eq!(t.streak_start_ms, Some(1_000));
    assert_eq!(t.prev_round_kills, 3);
}

#[test]
fn ignored_kill_without_streak_stays_hidden() {
    let mut t = attached();
    tick(&mut t, sample(true, true, 0, 0, vec![]), 0);
    let (p, l, poll) = tick(&mut t, sample(true, true, 1, 31, vec![4]), 500);
    assert!(l.is_empty());
    assert_eq!(p.len(), 1);
    assert!(is_hidden(&p[0], true));
    assert_eq!(poll, Poll::Combat);
}

#[test]
fn death_and_round_end_stop_streak() {
    let mut t = attached();
    tick(&mut t, sample(true, true, 0, 0, vec![]), 0);
    tick(&mut t, sample(true, true, 1, 7, vec![3]), 1_000);
    let (p, l, poll) = tick(&mut t, sample(false, true, 1, 0, vec![]), 2_000);
    assert_eq!(l, vec![Log::StreakStopped(StopReason::LocalDeath)]);
    assert!(is_hidden(&p[0], true));
    assert_eq!(poll, Poll::Idle);
    assert_eq!(t.streak_start_ms, None);
    // nothing to stop any more
    let (_, l, _) = tick(&mut t, sample(false, true, 1, 0, vec![]), 3_000);
    assert!(l.is_empty());

    let mut u = attached();
    tick(&mut u, sample(true, true, 0, 0, vec![]), 0);
    tick(&mut u, sample(true, true, 1, 7, vec![3]), 1_000);
    let (_, l, poll) = tick(&mut u, sample(true, false, 1, 0, vec![]), 2_000);
    assert_eq!(l, vec![Log::StreakStopped(StopReason::RoundEnded)]);
    // alive, but the round is not live: back to the idle poll
    assert_eq!(poll, Poll::Idle);
}

#[test]
fn kill_count_reset_stops_streak() {
    let mut t = attached();
    tick(&mut t, sample(true, true, 2, 0, vec![]), 0);
    tick(&mut t, sample(true, true, 3, 7, vec![3]), 1_000);
    let (p, l, poll) = tick(&mut t, sample(true, true, 0, 0, vec![]), 2_000);
    assert_eq!(l, vec![Log::StreakStopped(StopReason::RoundKillsReset)]);
    assert_eq!(p.len(), 2);
    assert!(is_hidden(&p[0], true) && is_hidden(&p[1], true));
    assert_eq!(poll, Poll::Combat);
    assert_eq!(t.prev_round_kills, 0);
}

#[test]
fn lost_player_and_lost_process() {
    let mut t = attached();
    tick(&mut t, sample(true, true, 0, 0, vec![]), 0);
    tick(&mut t, sample(true, true, 1, 7, vec![3]), 1_000);
    let a = t.step(Event::Tick { obs: Observation::NoLocalPlayer, now_ms: 2_000 });
    assert!(is_hidden(&a.publish[0], true));
    assert_eq!(a.poll, Poll::Idle);
    assert_eq!(t.prev_round_kills, -1);
    assert_eq!(t.streak_start_ms, None);
    let b = t.step(Event::Tick { obs: Observation::NoEntityList, now_ms: 3_000 });
    assert_eq!(b.logs, vec![Log::LostProcess]);
    assert!(is_hidden(&b.publish[0], false));
    assert_eq!(b.poll, Poll::Reattach);
}

#[test]
fn published_states_match_attachment() {
    // every state published while not attached says so; a visible one
    // shows at least one second in its band
    let mut t = KillTimer::new();
    for p in t.step(Event::ProcessMissing).publish {
        assert!(is_hidden(&p, false));
    }
    let mut t = attached();
    tick(&mut t, sample(true, true, 0, 0, vec![]), 0);
    let a = t.step(Event::Tick { obs: Observation::Player(sample(true, true, 1, 7, vec![3])), now_ms: 999 });
    for p in &a.publish {
        assert!(p.connected && p.visible && p.value >= 1 && p.rgb == timer_rgb(p.value));
    }
    let b = t.step(Event::Tick { obs: Observation::NoEntityList, now_ms: 1_500 });
    for p in &b.publish {
        assert!(is_hidden(p, false));
    }
}
