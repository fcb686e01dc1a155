use vstd::prelude::*;

use crate::bits::mask_bit;
use crate::store::{Pattern, SequencerState, Track, MAX_STEPS, MAX_TRACKS};

verus! {

/// Value every track's gate length is rebuilt with, until gate duration is
/// controllable.
pub const DEFAULT_GATE_LENGTH: u8 = 1;

/// What the timing path reads of the playing pattern: per track, a gate bit per
/// step, the pitches and the length.
#[derive(Clone, Copy)]
pub struct RtCache {
    pub gate_masks: [u16; MAX_TRACKS],
    pub pitches: [[u8; MAX_STEPS]; MAX_TRACKS],
    pub lengths: [u8; MAX_TRACKS],
    pub gate_lengths: [u8; MAX_TRACKS],
}

/// Two cache buffers and the index of the one the timing path reads.
pub struct RtCachePair {
    pub buffers: [RtCache; 2],
    pub active: u8,
}

/// Track `t` of cache `c` is a copy of `track`.
pub open spec fn track_cached(c: RtCache, t: int, track: Track) -> bool {
    &&& c.lengths[t] == track.length
    &&& c.gate_lengths[t] == DEFAULT_GATE_LENGTH
    &&& forall|i: int|
        0 <= i < MAX_STEPS ==> (#[trigger] c.pitches[t][i]) == track.steps[i].pitch && mask_bit(
            c.gate_masks[t],
            i,
        ) == track.steps[i].active
}

/// Every track of cache `c` is a copy of the same track of `p`.
pub open spec fn cache_of(c: RtCache, p: Pattern) -> bool {
    forall|t: int| 0 <= t < MAX_TRACKS ==> #[trigger] track_cached(c, t, p.tracks[t])
}

/// `cur` is a state that a rebuild from `before` towards pattern `p` passes
/// through after it has written its first `k` tracks: nothing but the inactive
/// buffer has changed.
pub open spec fn rebuild_stage(before: RtCachePair, cur: RtCachePair, p: Pattern, k: int) -> bool {
    &&& cur.active == before.active
    &&& cur.buffers[before.active as int] == before.buffers[before.active as int]
    &&& forall|t: int| 0 <= t < k ==> #[trigger] track_cached(cur.buffers[1 - before.active], t, p.tracks[t])
}

/// The buffer a reader sees when it samples the active index.
pub open spec fn observed(pair: RtCachePair) -> RtCache {
    pair.buffers[pair.active as int]
}

proof fn lemma_set_bit(m: u16, k: u16, j: u16)
    requires
        k < 16,
        j < 16,
    ensures
        (m | (1u16 << k)) & (1u16 << j) != 0 <==> (m & (1u16 << j) != 0 || j == k),
{
    assert((m | (1u16 << k)) & (1u16 << j) != 0 <==> (m & (1u16 << j) != 0 || j == k))
        by (bit_vector)
        requires
            k < 16,
            j < 16,
    ;
}

impl RtCache {
    pub fn new() -> (r: RtCache)
        ensures
            forall|t: int|
                0 <= t < MAX_TRACKS ==> #[trigger] r.gate_masks[t] == 0 && r.lengths[t] == 0
                    && r.gate_lengths[t] == 0,
            forall|t: int, i: int|
                0 <= t < MAX_TRACKS && 0 <= i < MAX_STEPS ==> #[trigger] r.pitches[t][i] == 0,
    {
        RtCache {
            gate_masks: [0u16;MAX_TRACKS],
            pitches: [[0u8;MAX_STEPS];MAX_TRACKS],
            lengths: [0u8;MAX_TRACKS],
            gate_lengths: [0u8;MAX_TRACKS],
        }
    }
}

/// A track's gate mask: bit `i` is set exactly when step `i` is active.
pub fn gate_mask_of(track: &Track) -> (r: u16)
    ensures
        forall|i: int| 0 <= i < MAX_STEPS ==> mask_bit(r, i) == (#[trigger] track.steps[i]).active,
{
    let mut mask: u16 = 0;
    let mut i: usize = 0;
    assert forall|j: int| 0 <= j < MAX_STEPS implies !mask_bit(0u16, j) by {
        let b = j as u16;
        assert(0u16 & (1u16 << b) == 0) by (bit_vector);
    }
    while i < MAX_STEPS
        invariant
            i <= MAX_STEPS,
            forall|j: int|
                #![trigger mask_bit(mask, j)]
                0 <= j < MAX_STEPS ==> mask_bit(mask, j) == (j < i && track.steps[j].active),
        decreases MAX_STEPS - i,
    {
        let ghost prev = mask;
        let active = track.steps[i].active;
        if active {
            mask = mask | (1u16 << (i as u16));
        }
        assert forall|j: int| 0 <= j < MAX_STEPS implies #[trigger] mask_bit(mask, j) == (j < i + 1
            && track.steps[j].active) by {
            assert(mask_bit(prev, j) == (j < i && track.steps[j].active));
            if active {
                lemma_set_bit(prev, i as u16, j as u16);
            }
        }
        i = i + 1;
    }
    mask
}

/// The pitches of a track's steps, in step order.
pub fn pitches_of(track: &Track) -> (r: [u8; MAX_STEPS])
    ensures
        forall|i: int| 0 <= i < MAX_STEPS ==> #[trigger] r[i] == track.steps[i].pitch,
{
    let mut r: [u8; MAX_STEPS] = [0u8;MAX_STEPS];
    let mut i: usize = 0;
    while i < MAX_STEPS
        invariant
            i <= MAX_STEPS,
            forall|j: int| 0 <= j < i ==> #[trigger] r[j] == track.steps[j].pitch,
        decreases MAX_STEPS - i,
    {
        r[i] = track.steps[i].pitch;
        i = i + 1;
    }
    r
}

impl RtCachePair {
    pub open spec fn wf(&self) -> bool {
        self.active < 2
    }

    pub fn new() -> (r: RtCachePair)
        ensures
            r.wf(),
            r.active == 0,
            r.buffers[0] == r.buffers[1],
    {
        let c = RtCache::new();
        RtCachePair { buffers: [c, c], active: 0 }
    }

    /// The buffer the timing path reads.
    pub fn active_cache(&self) -> (r: &RtCache)
        requires
            self.wf(),
        ensures
            *r == observed(*self),
    {
        &self.buffers[self.active as usize]
    }

    /// Copies track `t` of `pattern` into the inactive buffer; the active buffer
    /// and index stay as they are.
    pub fn rebuild_track(&mut self, pattern: &Pattern, t: usize)
        requires
            old(self).wf(),
            t < MAX_TRACKS,
        ensures
            final(self).active == old(self).active,
            final(self).buffers[old(self).active as int] == old(self).buffers[old(self).active as int],
            track_cached(final(self).buffers[1 - old(self).active], t as int, pattern.tracks[t as int]),
            forall|u: int|
                0 <= u < MAX_TRACKS && u != t ==> #[trigger] track_cached(
                    old(self).buffers[1 - old(self).active],
                    u,
                    pattern.tracks[u],
                ) ==> track_cached(final(self).buffers[1 - old(self).active], u, pattern.tracks[u]),
    {
        let inactive = (1 - self.active) as usize;
        let track = &pattern.tracks[t];
        let ghost prev = self.buffers[inactive as int];
        self.buffers[inactive].lengths[t] = track.length;
        self.buffers[inactive].gate_lengths[t] = DEFAULT_GATE_LENGTH;
        self.buffers[inactive].pitches[t] = pitches_of(track);
        self.buffers[inactive].gate_masks[t] = gate_mask_of(track);
        let ghost cur = self.buffers[inactive as int];
        assert forall|u: int|
            0 <= u < MAX_TRACKS && u != t && #[trigger] track_cached(prev, u, pattern.tracks[u])
            implies track_cached(cur, u, pattern.tracks[u]) by {
            assert(cur.pitches[u] == prev.pitches[u]);
            assert(cur.gate_masks[u] == prev.gate_masks[u]);
        }
    }

    /// Makes the inactive buffer the one the timing path reads.
    pub fn flip(&mut self)
        requires
            old(self).wf(),
        ensures
            final(self).wf(),
            final(self).active == 1 - old(self).active,
            final(self).buffers == old(self).buffers,
    {
        self.active = 1 - self.active;
    }
}

/// Rebuilds the inactive buffer from the playing pattern, then makes it the
/// active one. The buffer that was active is left untouched.
pub fn rebuild_rt_cache(caches: &mut RtCachePair, sequencer_state: &SequencerState)
    requires
        old(caches).wf(),
        sequencer_state.wf(),
    ensures
        final(caches).wf(),
        final(caches).active == 1 - old(caches).active,
        final(caches).buffers[old(caches).active as int] == old(caches).buffers[old(caches).active as int],
        cache_of(
            observed(*final(caches)),
            sequencer_state.patterns[sequencer_state.playing_index()],
        ),
{
    let pattern = sequencer_state.get_playing_pattern();
    let ghost before = *caches;
    let mut t: usize = 0;
    while t < MAX_TRACKS
        invariant
            t <= MAX_TRACKS,
            before.wf(),
            caches.wf(),
            rebuild_stage(before, *caches, *pattern, t as int),
        decreases MAX_TRACKS - t,
    {
        let ghost prev = *caches;
        caches.rebuild_track(pattern, t);
        assert forall|u: int| 0 <= u < t + 1 implies #[trigger] track_cached(
            caches.buffers[1 - before.active],
            u,
            pattern.tracks[u],
        ) by {
            if u < t {
                assert(track_cached(prev.buffers[1 - before.active], u, pattern.tracks[u]));
            }
        }
        t = t + 1;
    }
    caches.flip();
}

/// Cache coherence: while a rebuild is under way a reader that samples the
/// active index sees the previous snapshot, whole; once the rebuild has flipped
/// the index it sees the new snapshot, whole. Gate masks and pitches are never
/// observed from two different rebuilds.
pub proof fn lemma_reader_sees_whole_snapshot(
    before: RtCachePair,
    cur: RtCachePair,
    after: RtCachePair,
    p: Pattern,
    k: int,
)
    requires
        before.wf(),
        0 <= k <= MAX_TRACKS,
        rebuild_stage(before, cur, p, k),
        rebuild_stage(before, after, p, MAX_TRACKS as int),
    ensures
        observed(cur) == observed(before),
        cache_of(
            observed(RtCachePair { buffers: after.buffers, active: (1 - before.active) as u8 }),
            p,
        ),
{
}

} // verus!
