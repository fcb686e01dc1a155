use curse::cache::{gate_mask_of, pitches_of, rebuild_rt_cache, RtCache, RtCachePair};
use curse::context::SequencerContext;
use curse::dirty::{mark_dirty, DirtyFlags, DIRTY_BPM, DIRTY_RT_CACHE};
use curse::store::{set_pattern_length, set_step, toggle_step, PlayMode, SequencerState, Track};

#[test]
fn new_cache_is_zeroed() {
    let c = RtCache::new();
    for t in 0..8 {
        assert_eq!(c.gate_masks[t], 0);
        assert_eq!(c.lengths[t], 0);
        assert_eq!(c.gate_lengths[t], 0);
        assert_eq!(c.pitches[t], [0u8; 16]);
    }
}

#[test]
fn gate_mask_has_a_bit_per_active_step() {
    let mut track = Track::new();
    track.steps[0].active = true;
    track.steps[5].active = true;
    track.steps[15].active = true;
    track.steps[7].pitch = 40;
    assert_eq!(gate_mask_of(&track), 0b1000_0000_0010_0001);
    let p = pitches_of(&track);
    assert_eq!(p[7], 40);
    assert_eq!(p[0], 0);
}

#[test]
fn rebuild_fills_inactive_buffer_then_flips() {
    let mut s = SequencerState::new();
    let mut d = DirtyFlags::new();
    toggle_step(&mut s, 2, 0, &mut d);
    set_step(&mut s, 0b0000_0011, 4, 67, &mut d);
    set_pattern_length(&mut s, 0, 12, &mut d);
    let mut caches = RtCachePair::new();
    let before = caches.buffers[0];
    assert_eq!(caches.active, 0);
    rebuild_rt_cache(&mut caches, &s);
    assert_eq!(caches.active, 1);
    let c = caches.active_cache();
    assert_eq!(c.gate_masks[2], 0b1);
    assert_eq!(c.gate_masks[0], 0b1_0000);
    assert_eq!(c.gate_masks[1], 0b1_0000);
    assert_eq!(c.gate_masks[3], 0);
    assert_eq!(c.pitches[2][0], 60);
    assert_eq!(c.pitches[0][4], 67);
    for t in 0..8 {
        assert_eq!(c.lengths[t], 12);
        assert_eq!(c.gate_lengths[t], 1);
    }
    // The buffer that was being read is untouched.
    assert_eq!(caches.buffers[0].gate_masks, before.gate_masks);
    assert_eq!(caches.buffers[0].lengths, before.lengths);
    // A second rebuild flips back.
    rebuild_rt_cache(&mut caches, &s);
    assert_eq!(caches.active, 0);
    assert_eq!(caches.active_cache().gate_masks[2], 0b1);
}

#[test]
fn rebuild_reads_the_playing_pattern() {
    let mut s = SequencerState::new();
    let mut d = DirtyFlags::new();
    s.visible_pattern = 4;
    toggle_step(&mut s, 2, 3, &mut d);
    let mut caches = RtCachePair::new();
    rebuild_rt_cache(&mut caches, &s);
    assert_eq!(caches.active_cache().gate_masks[2], 0);
    s.playing_pattern = 4;
    rebuild_rt_cache(&mut caches, &s);
    assert_eq!(caches.active_cache().gate_masks[2], 0b1000);
    s.playing_pattern = 0;
    s.play_mode = PlayMode::Song;
    s.song.entries[0] = 4;
    rebuild_rt_cache(&mut caches, &s);
    assert_eq!(caches.active_cache().gate_masks[2], 0b1000);
}

#[test]
fn context_rebuilds_only_when_cache_is_dirty() {
    let mut ctx = SequencerContext::new();
    let first = ctx.caches.active;
    assert_eq!(ctx.caches.active_cache().lengths[0], 16);
    mark_dirty(&mut ctx.dirty, DIRTY_BPM);
    assert_eq!(ctx.drain_dirty(), DIRTY_BPM);
    assert_eq!(ctx.caches.active, first);
    set_pattern_length(&mut ctx.state, 0, 5, &mut ctx.dirty);
    let bits = ctx.drain_dirty();
    assert_ne!(bits & DIRTY_RT_CACHE, 0);
    assert_ne!(ctx.caches.active, first);
    assert_eq!(ctx.caches.active_cache().lengths[0], 5);
    assert_eq!(ctx.dirty.bits, 0);
}
