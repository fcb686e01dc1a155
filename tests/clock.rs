use curse::clock::{
    pause_playback, pulses_per_step_from_ppqn, set_bpm, start_playback, step_interval_for,
    take_overrun_stats, timer_prescaler, toggle_playback, StepClock, StepInterval,
    MAX_SEGMENT_US,
};
use curse::context::SequencerContext;
use curse::dirty::{take_dirty, DirtyFlags, DIRTY_BPM};
use curse::store::{set_pattern_length, toggle_step};

fn sum_of_steps(iv: &mut StepInterval, n: u32) -> u64 {
    let mut total: u64 = 0;
    for _ in 0..n {
        total += iv.next_interval_us() as u64;
    }
    total
}

#[test]
fn pulses_per_step_supported_resolutions() {
    assert_eq!(pulses_per_step_from_ppqn(4), Some(1));
    assert_eq!(pulses_per_step_from_ppqn(24), Some(6));
    assert_eq!(pulses_per_step_from_ppqn(96), None);
    assert_eq!(pulses_per_step_from_ppqn(0), None);
}

#[test]
fn exact_interval_at_120_bpm_24_ppqn() {
    let mut iv = step_interval_for(120, 24);
    assert_eq!(iv.base_us, 125_000);
    assert_eq!(iv.rem, 0);
    assert_eq!(iv.denom, 2880);
    assert_eq!(sum_of_steps(&mut iv, 16), 2_000_000);
}

#[test]
fn fractional_interval_spreads_the_remainder() {
    let iv = step_interval_for(130, 4);
    assert_eq!(iv.base_us, 115_384);
    assert_eq!(iv.rem, 320);
    assert_eq!(iv.denom, 520);
    let mut a = iv;
    assert_eq!(a.next_interval_us(), 115_384);
    assert_eq!(a.next_interval_us(), 115_385);
    assert_eq!(a.next_interval_us(), 115_384);
    let mut b = iv;
    assert_eq!(sum_of_steps(&mut b, 3), 346_153);
    let mut c = iv;
    assert_eq!(sum_of_steps(&mut c, 13), 1_500_000);
}

#[test]
fn interval_sum_stays_within_a_microsecond_of_exact() {
    for bpm in [20u32, 97, 133, 250, 300] {
        for ppqn in [4u32, 24] {
            let pulses: u64 = if ppqn == 4 { 1 } else { 6 };
            let numer = 60_000_000u64 * pulses;
            let denom = (bpm * ppqn) as u64;
            let mut iv = step_interval_for(bpm, ppqn);
            let n = 1000u64;
            let total = sum_of_steps(&mut iv, n as u32);
            assert_eq!(total, n * numer / denom);
        }
    }
}

#[test]
fn unsupported_ppqn_falls_back_to_one_pulse() {
    let iv = step_interval_for(120, 96);
    assert_eq!(iv.denom, 11_520);
    assert_eq!(iv.base_us, 5208);
    assert_eq!(iv.rem, 3840);
}

#[test]
fn zero_bpm_does_not_divide_by_zero() {
    let iv = step_interval_for(0, 24);
    assert_eq!(iv.denom, 1);
    assert_eq!(iv.base_us, 360_000_000);
}

#[test]
fn prescaler_divides_to_one_megahertz() {
    assert_eq!(timer_prescaler(100_000_000), 99);
    assert_eq!(timer_prescaler(1_000_000), 0);
    assert_eq!(timer_prescaler(500_000), 0);
}

#[test]
fn long_step_is_chained_in_bounded_segments() {
    let ctx = SequencerContext::new();
    let mut clock = StepClock::new();
    let mut d = DirtyFlags::new();
    clock.ppqn = 4;
    assert_eq!(set_bpm(&mut clock, 20, 0, &mut d), None);
    assert_eq!(take_dirty(&mut d), DIRTY_BPM);
    // 60_000_000 / 80 = 750_000 us per step: eleven full segments and one of 29_115.
    let first = start_playback(&mut clock);
    assert_eq!(first, 0xFFFF);
    assert_eq!(clock.remaining_us, 750_000 - MAX_SEGMENT_US);
    let mut cnt = first;
    let mut segments = 1;
    loop {
        let prev = cnt;
        let action = clock.on_compare_match(&ctx.caches, cnt);
        let delta = action.compare.wrapping_sub(prev) as u32;
        assert!(delta >= 1 && delta <= MAX_SEGMENT_US);
        cnt = action.compare;
        if clock.step_flag {
            break;
        }
        segments += 1;
        assert!(segments <= 12);
    }
    assert_eq!(segments, 12);
    assert_eq!(clock.current_step, 0);
    assert_eq!(clock.next_step, 1);
    assert!(clock.take_step_changed());
    assert!(!clock.take_step_changed());
}

#[test]
fn late_interrupt_catches_up() {
    let ctx = SequencerContext::new();
    let mut clock = StepClock::new();
    let mut d = DirtyFlags::new();
    set_bpm(&mut clock, 300, 0, &mut d);
    assert_eq!(clock.interval.base_us, 50_000);
    assert_eq!(start_playback(&mut clock), 50_000);
    // Serviced 60_000 us after the compare point.
    let cnt = 50_000u16.wrapping_add(60_000);
    let action = clock.on_compare_match(&ctx.caches, cnt);
    assert_eq!(clock.current_step, 1);
    assert_eq!(clock.next_step, 2);
    assert_eq!(action.gate, Some(false));
    assert_eq!(action.compare, cnt.wrapping_sub(10_000).wrapping_add(50_000));
    assert_eq!(take_overrun_stats(&mut clock), (1, 60_000));
    assert_eq!(take_overrun_stats(&mut clock), (0, 0));
}

#[test]
fn step_index_wraps_at_track_length() {
    let mut ctx = SequencerContext::new();
    set_pattern_length(&mut ctx.state, 0, 3, &mut ctx.dirty);
    toggle_step(&mut ctx.state, 2, 1, &mut ctx.dirty);
    ctx.drain_dirty();
    let mut d = DirtyFlags::new();
    set_bpm(&mut ctx.clock, 300, 0, &mut d);
    let mut cnt = start_playback(&mut ctx.clock);
    let mut seen = Vec::new();
    let mut gates = Vec::new();
    for _ in 0..7 {
        let action = ctx.clock.on_compare_match(&ctx.caches, cnt);
        cnt = action.compare;
        seen.push(ctx.clock.current_step);
        gates.push(action.gate);
        assert!(ctx.clock.next_step < 3);
    }
    assert_eq!(seen, vec![0, 1, 2, 0, 1, 2, 0]);
    assert_eq!(
        gates,
        vec![Some(false), Some(true), Some(false), Some(false), Some(true), Some(false), Some(false)]
    );
}

#[test]
fn zero_cached_length_neither_advances_nor_gates() {
    let mut ctx = SequencerContext::new();
    ctx.caches.buffers[ctx.caches.active as usize].lengths[2] = 0;
    let mut d = DirtyFlags::new();
    set_bpm(&mut ctx.clock, 300, 0, &mut d);
    let cnt = start_playback(&mut ctx.clock);
    let action = ctx.clock.on_compare_match(&ctx.caches, cnt);
    assert_eq!(action.gate, None);
    assert_eq!(ctx.clock.next_step, 0);
}

#[test]
fn pause_stops_step_advance() {
    let ctx = SequencerContext::new();
    let mut clock = StepClock::new();
    let cnt = start_playback(&mut clock);
    assert!(clock.playing);
    pause_playback(&mut clock);
    assert!(!clock.playing);
    assert_eq!(clock.remaining_us, 0);
    let action = clock.on_compare_match(&ctx.caches, cnt);
    assert_eq!(action.gate, None);
    assert!(!clock.step_flag);
    assert_eq!(clock.next_step, 0);
}

#[test]
fn toggle_playback_alternates() {
    let mut clock = StepClock::new();
    assert!(toggle_playback(&mut clock));
    assert!(clock.playing);
    assert_eq!(clock.last_ccr1, 0xFFFF);
    assert!(!toggle_playback(&mut clock));
    assert!(!clock.playing);
}

#[test]
fn set_bpm_while_playing_reschedules() {
    let mut clock = StepClock::new();
    let mut d = DirtyFlags::new();
    start_playback(&mut clock);
    let r = set_bpm(&mut clock, 300, 1000, &mut d);
    assert_eq!(r, Some(51_000));
    assert_eq!(clock.bpm, 300);
    assert_eq!(clock.remaining_us, 0);
    assert_eq!(clock.interval.acc, 0);
}

#[test]
fn compare_stays_within_one_segment_of_a_late_counter() {
    let ctx = SequencerContext::new();
    let mut clock = StepClock::new();
    let mut d = DirtyFlags::new();
    set_bpm(&mut clock, 300, 0, &mut d);
    let mut compare = start_playback(&mut clock);
    for late in [0u16, 1, 9_999, 49_999, 50_000, 65_535] {
        let cnt = compare.wrapping_add(late);
        let action = clock.on_compare_match(&ctx.caches, cnt);
        let delta = action.compare.wrapping_sub(cnt) as u32;
        assert!(delta >= 1 && delta <= MAX_SEGMENT_US);
        compare = action.compare;
    }
}
