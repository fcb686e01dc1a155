use vstd::prelude::*;

use crate::bits::mask_bit;
use crate::dirty::{
    mark_dirty, DirtyFlags, DIRTY_NOTE_DATA, DIRTY_PATTERN, DIRTY_RT_CACHE, DIRTY_STEP_SELECTION,
    DIRTY_TRACK_SELECTION,
};

verus! {

pub const MAX_TRACKS: usize = 8;
pub const MAX_STEPS: usize = 16;
pub const MAX_PATTERNS: usize = 16;
pub const MAX_SONG_LENGTH: usize = 64;

/// Highest pitch a step can hold.
pub const MAX_PITCH: u8 = 127;
/// Pitch given to a step that becomes active while it holds no pitch (C4).
pub const DEFAULT_PITCH: u8 = 60;

/// One slot of a track: whether it sounds, and at which pitch.
#[derive(Clone, Copy, Debug)]
pub struct Step {
    pub active: bool,
    pub pitch: u8,
}

/// A fixed row of steps; only the first `length` of them are played.
#[derive(Clone, Copy)]
pub struct Track {
    pub steps: [Step; MAX_STEPS],
    pub length: u8,
}

/// An ordered list of pattern indices, played in song mode.
#[derive(Clone, Copy)]
pub struct Song {
    pub entries: [u8; MAX_SONG_LENGTH],
    pub length: u8,
}

/// One track per instrument channel.
#[derive(Clone, Copy)]
pub struct Pattern {
    pub tracks: [Track; MAX_TRACKS],
}

/// Whether the playing pattern is chosen directly or through the song.
#[derive(Clone, Copy)]
pub enum PlayMode {
    Pattern,
    Song,
}

/// All musical content plus the editing selection.
#[derive(Clone, Copy)]
pub struct SequencerState {
    pub max_steps: u8,
    pub patterns: [Pattern; MAX_PATTERNS],
    pub song: Song,
    pub play_mode: PlayMode,
    pub song_position: u8,
    pub step_position: u8,
    pub visible_pattern: u8,
    pub playing_pattern: u8,
    pub selected_tracks: u8,
    /// Selected step of the visible pattern, if any.
    pub selected_step: Option<u8>,
    pub prev_selected_step: Option<u8>,
}

impl Step {
    pub open spec fn wf(&self) -> bool {
        self.pitch <= MAX_PITCH
    }

    pub fn new() -> (r: Step)
        ensures
            !r.active,
            r.pitch == 0,
    {
        Step { active: false, pitch: 0 }
    }

    /// Note name of an active step, `--` for a silent step or an unnamed pitch.
    pub fn as_str(&self) -> (r: &'static str)
        ensures
            r@ == step_label(*self),
    {
        proof {
            reveal_strlit("--");
            reveal_strlit("C4");
            reveal_strlit("C#4");
            reveal_strlit("D4");
        }
        if !self.active {
            return "--";
        }
        match self.pitch {
            60 => "C4",
            61 => "C#4",
            62 => "D4",
            _ => "--",
        }
    }
}

/// The label a step is shown with.
pub open spec fn step_label(s: Step) -> Seq<char> {
    if !s.active {
        seq!['-', '-']
    } else if s.pitch == 60 {
        seq!['C', '4']
    } else if s.pitch == 61 {
        seq!['C', '#', '4']
    } else if s.pitch == 62 {
        seq!['D', '4']
    } else {
        seq!['-', '-']
    }
}

impl Track {
    pub open spec fn wf(&self) -> bool {
        &&& 1 <= self.length <= MAX_STEPS
        &&& forall|i: int| 0 <= i < MAX_STEPS ==> (#[trigger] self.steps[i]).wf()
    }

    pub fn new() -> (r: Track)
        ensures
            r.wf(),
            r.length == MAX_STEPS,
            forall|i: int|
                0 <= i < MAX_STEPS ==> !(#[trigger] r.steps[i]).active && r.steps[i].pitch == 0,
    {
        Track { steps: [Step::new();MAX_STEPS], length: MAX_STEPS as u8 }
    }
}

impl Song {
    pub open spec fn wf(&self) -> bool {
        &&& self.length <= MAX_SONG_LENGTH
        &&& forall|i: int| 0 <= i < MAX_SONG_LENGTH ==> #[trigger] self.entries[i] < MAX_PATTERNS
    }

    pub fn new() -> (r: Song)
        ensures
            r.wf(),
            r.length == 0,
            forall|i: int| 0 <= i < MAX_SONG_LENGTH ==> #[trigger] r.entries[i] == 0,
    {
        Song { entries: [0u8;MAX_SONG_LENGTH], length: 0 }
    }
}

impl Pattern {
    pub open spec fn wf(&self) -> bool {
        forall|t: int| 0 <= t < MAX_TRACKS ==> (#[trigger] self.tracks[t]).wf()
    }

    pub fn new() -> (r: Pattern)
        ensures
            r.wf(),
            forall|t: int| 0 <= t < MAX_TRACKS ==> (#[trigger] r.tracks[t]).length == MAX_STEPS,
            forall|t: int, i: int|
                0 <= t < MAX_TRACKS && 0 <= i < MAX_STEPS ==> !(#[trigger] r.tracks[t].steps[i]).active
                    && r.tracks[t].steps[i].pitch == 0,
    {
        Pattern { tracks: [Track::new();MAX_TRACKS] }
    }

    /// Gives every track the same length; the steps are kept.
    pub fn set_length(&mut self, len: u8, dirty: &mut DirtyFlags)
        requires
            1 <= len <= MAX_STEPS,
        ensures
            forall|t: int|
                0 <= t < MAX_TRACKS ==> (#[trigger] final(self).tracks[t]).length == len
                    && final(self).tracks[t].steps == old(self).tracks[t].steps,
            final(dirty).bits == old(dirty).bits | (DIRTY_PATTERN | DIRTY_RT_CACHE),
            old(self).wf() ==> final(self).wf(),
    {
        let mut t: usize = 0;
        while t < MAX_TRACKS
            invariant
                1 <= len <= MAX_STEPS,
                t <= MAX_TRACKS,
                forall|u: int|
                    0 <= u < MAX_TRACKS ==> (#[trigger] self.tracks[u]).steps == old(
                        self,
                    ).tracks[u].steps,
                forall|u: int| 0 <= u < t ==> (#[trigger] self.tracks[u]).length == len,
            decreases MAX_TRACKS - t,
        {
            self.tracks[t].length = len;
            t = t + 1;
        }
        mark_dirty(dirty, DIRTY_PATTERN | DIRTY_RT_CACHE);
    }
}

/// `b` equals `a` except in the patterns.
pub open spec fn same_but_patterns(a: SequencerState, b: SequencerState) -> bool {
    b == (SequencerState { patterns: b.patterns, ..a })
}

/// `b` equals `a` except in pattern `p`.
pub open spec fn same_but_pattern(a: SequencerState, b: SequencerState, p: int) -> bool {
    &&& same_but_patterns(a, b)
    &&& forall|q: int| 0 <= q < MAX_PATTERNS && q != p ==> #[trigger] b.patterns[q] == a.patterns[q]
}

impl SequencerState {
    pub open spec fn wf(&self) -> bool {
        &&& self.max_steps == MAX_STEPS
        &&& forall|p: int| 0 <= p < MAX_PATTERNS ==> (#[trigger] self.patterns[p]).wf()
        &&& self.song.wf()
        &&& self.song_position < MAX_SONG_LENGTH
        &&& self.step_position < MAX_STEPS
        &&& self.visible_pattern < MAX_PATTERNS
        &&& self.playing_pattern < MAX_PATTERNS
        &&& self.selected_tracks != 0
        &&& (self.selected_step matches Some(s) ==> s < MAX_STEPS)
        &&& (self.prev_selected_step matches Some(s) ==> s < MAX_STEPS)
    }

    /// Index of the pattern that is sounding.
    pub open spec fn playing_index(&self) -> int {
        match self.play_mode {
            PlayMode::Pattern => self.playing_pattern as int,
            PlayMode::Song => self.song.entries[self.song_position as int] as int,
        }
    }

    pub fn new() -> (r: SequencerState)
        ensures
            r.wf(),
            r.visible_pattern == 0,
            r.playing_pattern == 0,
            r.play_mode == PlayMode::Pattern,
            r.song_position == 0,
            r.step_position == 0,
            r.selected_tracks == 1,
            r.selected_step.is_none(),
            r.prev_selected_step.is_none(),
            r.song.length == 0,
            forall|i: int| 0 <= i < MAX_SONG_LENGTH ==> #[trigger] r.song.entries[i] == 0,
            forall|p: int, t: int|
                0 <= p < MAX_PATTERNS && 0 <= t < MAX_TRACKS ==> (#[trigger] r.patterns[p].tracks[t]).length
                    == MAX_STEPS,
            forall|p: int, t: int, i: int|
                0 <= p < MAX_PATTERNS && 0 <= t < MAX_TRACKS && 0 <= i < MAX_STEPS
                    ==> !(#[trigger] r.patterns[p].tracks[t].steps[i]).active
                    && r.patterns[p].tracks[t].steps[i].pitch == 0,
    {
        SequencerState {
            max_steps: MAX_STEPS as u8,
            patterns: [Pattern::new();MAX_PATTERNS],
            song: Song::new(),
            play_mode: PlayMode::Pattern,
            song_position: 0,
            step_position: 0,
            visible_pattern: 0,
            playing_pattern: 0,
            selected_tracks: 1,
            selected_step: None,
            prev_selected_step: None,
        }
    }

    /// The pattern that is sounding: the playing pattern, or the song's entry at
    /// the song position.
    pub fn get_playing_pattern(&self) -> (r: &Pattern)
        requires
            self.wf(),
        ensures
            0 <= self.playing_index() < MAX_PATTERNS,
            *r == self.patterns[self.playing_index()],
    {
        let pattern_index = match self.play_mode {
            PlayMode::Pattern => self.playing_pattern,
            PlayMode::Song => self.song.entries[self.song_position as usize],
        };
        &self.patterns[pattern_index as usize]
    }

    pub fn is_track_selected(&self, track: u8) -> (r: bool)
        requires
            track < MAX_TRACKS,
        ensures
            r == (self.selected_tracks & (1u8 << track) != 0),
    {
        self.selected_tracks & (1u8 << track) != 0
    }

    /// Flips one track in the selection; the last selected track cannot be
    /// deselected.
    pub fn toggle_track(&mut self, track: u8, dirty: &mut DirtyFlags)
        requires
            track < MAX_TRACKS,
        ensures
            ({
                let flipped = old(self).selected_tracks ^ (1u8 << track);
                &&& flipped != 0 ==> final(self).selected_tracks == flipped && final(dirty).bits
                    == old(dirty).bits | DIRTY_TRACK_SELECTION
                &&& flipped == 0 ==> final(self).selected_tracks == old(self).selected_tracks
                    && final(dirty).bits == old(dirty).bits
            }),
            *final(self) == (SequencerState {
                selected_tracks: final(self).selected_tracks,
                ..*old(self)
            }),
            old(self).wf() ==> final(self).wf(),
    {
        let selected_tracks = self.selected_tracks ^ (1u8 << track);
        if selected_tracks != 0 {
            self.selected_tracks = selected_tracks;
            mark_dirty(dirty, DIRTY_TRACK_SELECTION);
        }
    }

    pub fn select_only_track(&mut self, track: u8, dirty: &mut DirtyFlags)
        requires
            track < MAX_TRACKS,
        ensures
            *final(self) == (SequencerState { selected_tracks: 1u8 << track, ..*old(self) }),
            final(dirty).bits == old(dirty).bits | DIRTY_TRACK_SELECTION,
            old(self).wf() ==> final(self).wf(),
    {
        assert(1u8 << track != 0) by (bit_vector)
            requires
                track < 8,
        ;
        self.selected_tracks = 1u8 << track;
        mark_dirty(dirty, DIRTY_TRACK_SELECTION);
    }

    /// Indices of the selected tracks, in ascending order.
    pub fn selected_tracks_iter(&self) -> (r: Vec<u8>)
        ensures
            r@ == crate::bits::set_bits(self.selected_tracks as u16, 8),
    {
        crate::bits::iter_bits_u8(self.selected_tracks)
    }

    /// Mask with every track set.
    pub fn get_all_tracks(&self) -> (r: u8)
        ensures
            r == 0xFFu8,
    {
        0xFF
    }
}

/// Step `i` of track `t` in pattern `p` of `s`.
pub open spec fn step_at(s: SequencerState, p: int, t: int, i: int) -> Step {
    s.patterns[p].tracks[t].steps[i]
}

/// `b` equals `a` except in the steps of the visible pattern, whose track
/// lengths are kept too.
pub open spec fn same_but_visible_steps(a: SequencerState, b: SequencerState) -> bool {
    &&& same_but_pattern(a, b, a.visible_pattern as int)
    &&& forall|t: int|
        0 <= t < MAX_TRACKS ==> (#[trigger] b.patterns[a.visible_pattern as int].tracks[t]).length
            == a.patterns[a.visible_pattern as int].tracks[t].length
}

/// A step after it was toggled: its activity flips, and a step that becomes
/// active without a pitch gets the default pitch.
pub open spec fn toggled(s: Step) -> Step {
    Step {
        active: !s.active,
        pitch: if !s.active && s.pitch == 0 {
            DEFAULT_PITCH
        } else {
            s.pitch
        },
    }
}

/// Records the previous step selection and selects `step_index`.
pub fn select_step(seq: &mut SequencerState, step_index: u8, dirty: &mut DirtyFlags)
    requires
        step_index < MAX_STEPS,
    ensures
        *final(seq) == (SequencerState {
            prev_selected_step: old(seq).selected_step,
            selected_step: Some(step_index),
            ..*old(seq)
        }),
        final(dirty).bits == old(dirty).bits | DIRTY_STEP_SELECTION,
        old(seq).wf() ==> final(seq).wf(),
{
    seq.prev_selected_step = seq.selected_step;
    seq.selected_step = Some(step_index);
    mark_dirty(dirty, DIRTY_STEP_SELECTION);
}

/// A step activated with pitch `pitch`: a pitch of 0 is replaced by the
/// default pitch, so an active step never holds pitch 0.
pub open spec fn entered(pitch: u8) -> Step {
    Step {
        active: true,
        pitch: if pitch == 0 {
            DEFAULT_PITCH
        } else {
            pitch
        },
    }
}

/// Gives step `step_index` of every track in `tracks` the pitch `pitch` (the
/// default pitch when `pitch` is 0) and makes it active, in the visible pattern.
pub fn set_step(
    sequencer_state: &mut SequencerState,
    tracks: u8,
    step_index: u8,
    pitch: u8,
    dirty: &mut DirtyFlags,
)
    requires
        old(sequencer_state).wf(),
        step_index < MAX_STEPS,
        pitch <= MAX_PITCH,
    ensures
        final(sequencer_state).wf(),
        same_but_visible_steps(*old(sequencer_state), *final(sequencer_state)),
        forall|t: int, i: int|
            0 <= t < MAX_TRACKS && 0 <= i < MAX_STEPS ==> #[trigger] step_at(
                *final(sequencer_state),
                old(sequencer_state).visible_pattern as int,
                t,
                i,
            ) == if i == step_index && mask_bit(tracks as u16, t) {
                entered(pitch)
            } else {
                step_at(*old(sequencer_state), old(sequencer_state).visible_pattern as int, t, i)
            },
        final(dirty).bits == old(dirty).bits | (DIRTY_NOTE_DATA | DIRTY_RT_CACHE),
{
    let vp = sequencer_state.visible_pattern as usize;
    let stored = if pitch == 0 {
        DEFAULT_PITCH
    } else {
        pitch
    };
    let ghost start = *sequencer_state;
    let mut t: u16 = 0;
    while t < MAX_TRACKS as u16
        invariant
            t <= MAX_TRACKS,
            vp == start.visible_pattern,
            start.wf(),
            step_index < MAX_STEPS,
            pitch <= MAX_PITCH,
            stored == entered(pitch).pitch,
            stored <= MAX_PITCH,
            sequencer_state.wf(),
            same_but_visible_steps(start, *sequencer_state),
            forall|u: int, i: int|
                0 <= u < MAX_TRACKS && 0 <= i < MAX_STEPS ==> #[trigger] step_at(
                    *sequencer_state,
                    vp as int,
                    u,
                    i,
                ) == if u < t && i == step_index && mask_bit(tracks as u16, u) {
                    entered(pitch)
                } else {
                    step_at(start, vp as int, u, i)
                },
        decreases MAX_TRACKS - t,
    {
        let ghost before = *sequencer_state;
        let selected = (tracks as u16) & (1u16 << t) != 0;
        if selected {
            sequencer_state.patterns[vp].tracks[t as usize].steps[step_index as usize] = Step {
                active: true,
                pitch: stored,
            };
        }
        assert forall|u: int, i: int|
            0 <= u < MAX_TRACKS && 0 <= i < MAX_STEPS implies #[trigger] step_at(
                *sequencer_state,
                vp as int,
                u,
                i,
            ) == if u < t + 1 && i == step_index && mask_bit(tracks as u16, u) {
                entered(pitch)
            } else {
                step_at(start, vp as int, u, i)
            } by {
            if u == t {
                assert(mask_bit(tracks as u16, u) == selected);
                assert(i != step_index ==> step_at(*sequencer_state, vp as int, u, i) == step_at(
                    before,
                    vp as int,
                    u,
                    i,
                ));
            } else {
                assert(step_at(*sequencer_state, vp as int, u, i) == step_at(before, vp as int, u, i));
            }
        }
        t = t + 1;
    }
    mark_dirty(dirty, DIRTY_NOTE_DATA | DIRTY_RT_CACHE);
}

/// Flips step `step` of track `track` in the visible pattern; a step that becomes
/// active while it holds no pitch gets the default pitch.
pub fn toggle_step(
    sequencer_state: &mut SequencerState,
    track: u8,
    step: u8,
    dirty: &mut DirtyFlags,
)
    requires
        old(sequencer_state).wf(),
        track < MAX_TRACKS,
        step < MAX_STEPS,
    ensures
        final(sequencer_state).wf(),
        same_but_visible_steps(*old(sequencer_state), *final(sequencer_state)),
        forall|t: int, i: int|
            0 <= t < MAX_TRACKS && 0 <= i < MAX_STEPS ==> #[trigger] step_at(
                *final(sequencer_state),
                old(sequencer_state).visible_pattern as int,
                t,
                i,
            ) == if t == track && i == step {
                toggled(
                    step_at(
                        *old(sequencer_state),
                        old(sequencer_state).visible_pattern as int,
                        t,
                        i,
                    ),
                )
            } else {
                step_at(*old(sequencer_state), old(sequencer_state).visible_pattern as int, t, i)
            },
        final(dirty).bits == old(dirty).bits | (DIRTY_NOTE_DATA | DIRTY_RT_CACHE),
{
    let vp = sequencer_state.visible_pattern as usize;
    let old_step = sequencer_state.patterns[vp].tracks[track as usize].steps[step as usize];
    let pitch = if !old_step.active && old_step.pitch == 0 {
        DEFAULT_PITCH
    } else {
        old_step.pitch
    };
    sequencer_state.patterns[vp].tracks[track as usize].steps[step as usize] = Step {
        active: !old_step.active,
        pitch,
    };
    mark_dirty(dirty, DIRTY_NOTE_DATA | DIRTY_RT_CACHE);
}

/// Shows pattern `n` for editing.
pub fn set_visible_pattern(sequencer_state: &mut SequencerState, n: u8, dirty: &mut DirtyFlags)
    requires
        n < MAX_PATTERNS,
    ensures
        *final(sequencer_state) == (SequencerState { visible_pattern: n, ..*old(sequencer_state) }),
        final(dirty).bits == old(dirty).bits | DIRTY_PATTERN,
        old(sequencer_state).wf() ==> final(sequencer_state).wf(),
{
    sequencer_state.visible_pattern = n;
    mark_dirty(dirty, DIRTY_PATTERN);
}

/// Gives every track of pattern `pattern` the length `len`.
pub fn set_pattern_length(
    sequencer_state: &mut SequencerState,
    pattern: u8,
    len: u8,
    dirty: &mut DirtyFlags,
)
    requires
        old(sequencer_state).wf(),
        pattern < MAX_PATTERNS,
        1 <= len <= MAX_STEPS,
    ensures
        final(sequencer_state).wf(),
        same_but_pattern(*old(sequencer_state), *final(sequencer_state), pattern as int),
        forall|t: int|
            0 <= t < MAX_TRACKS ==> (#[trigger] final(sequencer_state).patterns[pattern as int].tracks[t]).length
                == len && final(sequencer_state).patterns[pattern as int].tracks[t].steps
                == old(sequencer_state).patterns[pattern as int].tracks[t].steps,
        final(dirty).bits == old(dirty).bits | (DIRTY_PATTERN | DIRTY_RT_CACHE),
{
    sequencer_state.patterns[pattern as usize].set_length(len, dirty);
}

} // verus!
