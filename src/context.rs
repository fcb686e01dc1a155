use vstd::prelude::*;

use crate::cache::{cache_of, observed, rebuild_rt_cache, RtCachePair};
use crate::clock::StepClock;
use crate::dirty::{take_dirty, DirtyFlags, DIRTY_RT_CACHE};
use crate::store::SequencerState;

verus! {

/// The single sequencer instance: pattern store, dirty-flag bus, runtime
/// cache pair and step clock, shared by the timing path and the main loop.
pub struct SequencerContext {
    pub state: SequencerState,
    pub dirty: DirtyFlags,
    pub caches: RtCachePair,
    pub clock: StepClock,
}

impl SequencerContext {
    pub open spec fn wf(&self) -> bool {
        &&& self.state.wf()
        &&& self.caches.wf()
        &&& self.clock.wf()
    }

    /// A fresh instance whose active cache already mirrors the playing pattern.
    pub fn new() -> (r: SequencerContext)
        ensures
            r.wf(),
            r.dirty.bits == 0,
            cache_of(observed(r.caches), r.state.patterns[r.state.playing_index()]),
    {
        let state = SequencerState::new();
        let mut caches = RtCachePair::new();
        rebuild_rt_cache(&mut caches, &state);
        SequencerContext { state, dirty: DirtyFlags::new(), caches, clock: StepClock::new() }
    }

    /// One consumer cycle's drain: takes the dirty bits and, when they hold
    /// `DIRTY_RT_CACHE`, rebuilds the runtime cache from the playing pattern.
    /// Returns the bits taken.
    pub fn drain_dirty(&mut self) -> (r: u8)
        requires
            old(self).wf(),
        ensures
            final(self).wf(),
            r == old(self).dirty.bits,
            final(self).dirty.bits == 0,
            final(self).state == old(self).state,
            final(self).clock == old(self).clock,
            r & DIRTY_RT_CACHE != 0 ==> cache_of(
                observed(final(self).caches),
                old(self).state.patterns[old(self).state.playing_index()],
            ) && final(self).caches.buffers[old(self).caches.active as int]
                == old(self).caches.buffers[old(self).caches.active as int],
            r & DIRTY_RT_CACHE == 0 ==> final(self).caches == old(self).caches,
    {
        let bits = take_dirty(&mut self.dirty);
        if bits & DIRTY_RT_CACHE != 0 {
            rebuild_rt_cache(&mut self.caches, &self.state);
        }
        bits
    }
}

} // verus!
