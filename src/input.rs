use vstd::prelude::*;

use crate::bits::mask_bit;
use crate::dirty::{
    mark_dirty, DirtyFlags, DIRTY_NOTE_DATA, DIRTY_PATTERN, DIRTY_RT_CACHE, DIRTY_STEP_SELECTION,
    DIRTY_TRACK_SELECTION,
};
use crate::store::{
    entered, same_but_pattern, select_step, set_step, set_visible_pattern, step_at, toggle_step, toggled,
    SequencerState, MAX_PATTERNS, MAX_PITCH, MAX_STEPS, MAX_TRACKS,
};

verus! {

/// A decoded front-panel or keyboard command.
#[derive(Clone, Copy, Debug, PartialEq, Eq, Structural)]
pub enum Button {
    /// Step 0 to 15.
    Step(u8),
    /// Track 0 to 7.
    Track(u8),
    /// Pattern 0 to 15.
    Pattern(u8),
    /// A pitch for the selected step.
    Note(u8),
    OctaveUp,
    OctaveDown,
    Play,
    Stop,
}

/// What a button asks of playback, for the caller to carry out on the clock
/// and the timer.
#[derive(Clone, Copy, Debug, PartialEq, Eq, Structural)]
pub enum PlaybackRequest {
    Keep,
    Toggle,
    Stop,
}

impl Button {
    /// Its index or pitch is in range.
    pub open spec fn wf(&self) -> bool {
        match *self {
            Button::Step(n) => n < MAX_STEPS,
            Button::Track(n) => n < MAX_TRACKS,
            Button::Pattern(n) => n < MAX_PATTERNS,
            Button::Note(n) => n <= MAX_PITCH,
            _ => true,
        }
    }
}

/// The keyboard layout: digits and `q`..`y` select steps, shifted digits select
/// tracks, the bottom row and the row above it play notes from C4, `+` and `-`
/// change octave, space toggles playback.
pub open spec fn key_button(key: u8) -> Option<Button> {
    if 0x31 <= key <= 0x39 {
        Some(Button::Step((key - 0x31) as u8))
    } else if key == 0x30 {
        Some(Button::Step(9))
    } else if key == 0x71 {
        Some(Button::Step(10))
    } else if key == 0x77 {
        Some(Button::Step(11))
    } else if key == 0x65 {
        Some(Button::Step(12))
    } else if key == 0x72 {
        Some(Button::Step(13))
    } else if key == 0x74 {
        Some(Button::Step(14))
    } else if key == 0x79 {
        Some(Button::Step(15))
    } else if key == 0x21 {
        Some(Button::Track(0))
    } else if key == 0x40 {
        Some(Button::Track(1))
    } else if key == 0x23 {
        Some(Button::Track(2))
    } else if key == 0x24 {
        Some(Button::Track(3))
    } else if key == 0x25 {
        Some(Button::Track(4))
    } else if key == 0x5e {
        Some(Button::Track(5))
    } else if key == 0x26 {
        Some(Button::Track(6))
    } else if key == 0x2a {
        Some(Button::Track(7))
    } else if key == 0x7a {
        Some(Button::Note(60))
    } else if key == 0x73 {
        Some(Button::Note(61))
    } else if key == 0x78 {
        Some(Button::Note(62))
    } else if key == 0x64 {
        Some(Button::Note(63))
    } else if key == 0x63 {
        Some(Button::Note(64))
    } else if key == 0x76 {
        Some(Button::Note(65))
    } else if key == 0x67 {
        Some(Button::Note(66))
    } else if key == 0x62 {
        Some(Button::Note(67))
    } else if key == 0x68 {
        Some(Button::Note(68))
    } else if key == 0x6e {
        Some(Button::Note(69))
    } else if key == 0x6a {
        Some(Button::Note(70))
    } else if key == 0x6d {
        Some(Button::Note(71))
    } else if key == 0x2b {
        Some(Button::OctaveUp)
    } else if key == 0x2d {
        Some(Button::OctaveDown)
    } else if key == 0x20 {
        Some(Button::Play)
    } else {
        None
    }
}

/// Decodes a keyboard byte into a button, `None` for an unmapped key.
pub fn key_to_button(key: u8) -> (r: Option<Button>)
    ensures
        r == key_button(key),
        r matches Some(b) ==> b.wf(),
{
    match key {
        0x31 => Some(Button::Step(0)), // '1'
        0x32 => Some(Button::Step(1)), // '2'
        0x33 => Some(Button::Step(2)), // '3'
        0x34 => Some(Button::Step(3)), // '4'
        0x35 => Some(Button::Step(4)), // '5'
        0x36 => Some(Button::Step(5)), // '6'
        0x37 => Some(Button::Step(6)), // '7'
        0x38 => Some(Button::Step(7)), // '8'
        0x39 => Some(Button::Step(8)), // '9'
        0x30 => Some(Button::Step(9)), // '0'
        0x71 => Some(Button::Step(10)), // 'q'
        0x77 => Some(Button::Step(11)), // 'w'
        0x65 => Some(Button::Step(12)), // 'e'
        0x72 => Some(Button::Step(13)), // 'r'
        0x74 => Some(Button::Step(14)), // 't'
        0x79 => Some(Button::Step(15)), // 'y'
        0x21 => Some(Button::Track(0)), // '!'
        0x40 => Some(Button::Track(1)), // '@'
        0x23 => Some(Button::Track(2)), // '#'
        0x24 => Some(Button::Track(3)), // '$'
        0x25 => Some(Button::Track(4)), // '%'
        0x5e => Some(Button::Track(5)), // '^'
        0x26 => Some(Button::Track(6)), // '&'
        0x2a => Some(Button::Track(7)), // '*'
        0x7a => Some(Button::Note(60)), // 'z'
        0x73 => Some(Button::Note(61)), // 's'
        0x78 => Some(Button::Note(62)), // 'x'
        0x64 => Some(Button::Note(63)), // 'd'
        0x63 => Some(Button::Note(64)), // 'c'
        0x76 => Some(Button::Note(65)), // 'v'
        0x67 => Some(Button::Note(66)), // 'g'
        0x62 => Some(Button::Note(67)), // 'b'
        0x68 => Some(Button::Note(68)), // 'h'
        0x6e => Some(Button::Note(69)), // 'n'
        0x6a => Some(Button::Note(70)), // 'j'
        0x6d => Some(Button::Note(71)), // 'm'
        0x2b => Some(Button::OctaveUp), // '+'
        0x2d => Some(Button::OctaveDown), // '-'
        0x20 => Some(Button::Play), // space
        _ => None,
    }
}

proof fn lemma_or_twice(a: u8, x: u8)
    ensures
        (a | x) | x == a | x,
{
    assert((a | x) | x == a | x) by (bit_vector);
}

/// Toggles step `n` on every selected track of the visible pattern, then
/// selects that step.
fn press_step(sequencer_state: &mut SequencerState, n: u8, dirty: &mut DirtyFlags)
    requires
        old(sequencer_state).wf(),
        n < MAX_STEPS,
    ensures
        final(sequencer_state).wf(),
        pressed_step(*old(sequencer_state), *final(sequencer_state), n),
        final(dirty).bits == (old(dirty).bits | (DIRTY_NOTE_DATA | DIRTY_RT_CACHE))
            | DIRTY_STEP_SELECTION,
{
    let tracks = sequencer_state.selected_tracks;
    let ghost start = *sequencer_state;
    let ghost vp = start.visible_pattern as int;
    let ghost bits0 = dirty.bits;
    let mut t: u8 = 0;
    while t < MAX_TRACKS as u8
        invariant
            t <= MAX_TRACKS,
            n < MAX_STEPS,
            start.wf(),
            tracks == start.selected_tracks,
            vp == start.visible_pattern,
            sequencer_state.wf(),
            same_but_pattern(start, *sequencer_state, vp),
            forall|u: int|
                0 <= u < MAX_TRACKS ==> (#[trigger] sequencer_state.patterns[vp].tracks[u]).length
                    == start.patterns[vp].tracks[u].length,
            forall|u: int, i: int|
                0 <= u < MAX_TRACKS && 0 <= i < MAX_STEPS ==> #[trigger] step_at(
                    *sequencer_state,
                    vp,
                    u,
                    i,
                ) == if u < t && i == n && mask_bit(tracks as u16, u) {
                    toggled(step_at(start, vp, u, i))
                } else {
                    step_at(start, vp, u, i)
                },
            dirty.bits == bits0 || dirty.bits == bits0 | (DIRTY_NOTE_DATA | DIRTY_RT_CACHE),
        decreases MAX_TRACKS - t,
    {
        let ghost before = *sequencer_state;
        let selected = (tracks as u16) & (1u16 << (t as u16)) != 0;
        if selected {
            toggle_step(sequencer_state, t, n, dirty);
            proof {
                lemma_or_twice(bits0, DIRTY_NOTE_DATA | DIRTY_RT_CACHE);
            }
        }
        assert forall|u: int, i: int|
            0 <= u < MAX_TRACKS && 0 <= i < MAX_STEPS implies #[trigger] step_at(
                *sequencer_state,
                vp,
                u,
                i,
            ) == if u < t + 1 && i == n && mask_bit(tracks as u16, u) {
                toggled(step_at(start, vp, u, i))
            } else {
                step_at(start, vp, u, i)
            } by {
            assert(step_at(before, vp, u, i) == if u < t && i == n && mask_bit(tracks as u16, u) {
                toggled(step_at(start, vp, u, i))
            } else {
                step_at(start, vp, u, i)
            });
            if u == t {
                assert(mask_bit(tracks as u16, u) == selected);
            }
        }
        t = t + 1;
    }
    mark_dirty(dirty, DIRTY_NOTE_DATA | DIRTY_RT_CACHE);
    proof {
        lemma_or_twice(bits0, DIRTY_NOTE_DATA | DIRTY_RT_CACHE);
    }
    let ghost toggled_state = *sequencer_state;
    select_step(sequencer_state, n, dirty);
    assert forall|u: int, i: int|
        0 <= u < MAX_TRACKS && 0 <= i < MAX_STEPS implies #[trigger] step_at(*sequencer_state, vp, u, i) == if i == n
            && mask_bit(start.selected_tracks as u16, u) {
            toggled(step_at(start, vp, u, i))
        } else {
            step_at(start, vp, u, i)
        } by {
        assert(step_at(*sequencer_state, vp, u, i) == step_at(toggled_state, vp, u, i));
    }
}

/// `b` is `a` after pressing step `n`: the step is toggled on every selected
/// track of the visible pattern, and it becomes the selected step.
pub open spec fn pressed_step(a: SequencerState, b: SequencerState, n: u8) -> bool {
    let vp = a.visible_pattern as int;
    &&& b == (SequencerState {
        patterns: b.patterns,
        selected_step: Some(n),
        prev_selected_step: a.selected_step,
        ..a
    })
    &&& forall|q: int| 0 <= q < MAX_PATTERNS && q != vp ==> #[trigger] b.patterns[q] == a.patterns[q]
    &&& forall|u: int|
        0 <= u < MAX_TRACKS ==> (#[trigger] b.patterns[vp].tracks[u]).length
            == a.patterns[vp].tracks[u].length
    &&& forall|u: int, i: int|
        0 <= u < MAX_TRACKS && 0 <= i < MAX_STEPS ==> #[trigger] step_at(b, vp, u, i) == if i == n
            && mask_bit(a.selected_tracks as u16, u) {
            toggled(step_at(a, vp, u, i))
        } else {
            step_at(a, vp, u, i)
        }
}

/// `b` is `a` after pitch `p` is entered on the selected step, if there is one:
/// that step of every selected track of the visible pattern gets the pitch (the
/// default pitch for 0) and becomes active.
pub open spec fn entered_note(a: SequencerState, b: SequencerState, p: u8) -> bool {
    match a.selected_step {
        None => b == a,
        Some(s) => {
            let vp = a.visible_pattern as int;
            &&& same_but_pattern(a, b, vp)
            &&& forall|u: int|
                0 <= u < MAX_TRACKS ==> (#[trigger] b.patterns[vp].tracks[u]).length
                    == a.patterns[vp].tracks[u].length
            &&& forall|u: int, i: int|
                0 <= u < MAX_TRACKS && 0 <= i < MAX_STEPS ==> #[trigger] step_at(b, vp, u, i) == if i
                    == s && mask_bit(a.selected_tracks as u16, u) {
                    entered(p)
                } else {
                    step_at(a, vp, u, i)
                }
        },
    }
}

/// Applies a button press to the pattern store and reports what it asks of
/// playback.
pub fn handle_button_press(
    button: Button,
    sequencer_state: &mut SequencerState,
    dirty: &mut DirtyFlags,
) -> (r: PlaybackRequest)
    requires
        old(sequencer_state).wf(),
        button.wf(),
    ensures
        final(sequencer_state).wf(),
        r == match button {
            Button::Play => PlaybackRequest::Toggle,
            Button::Stop => PlaybackRequest::Stop,
            _ => PlaybackRequest::Keep,
        },
        match button {
            Button::Step(n) => pressed_step(*old(sequencer_state), *final(sequencer_state), n)
                && final(dirty).bits == (old(dirty).bits | (DIRTY_NOTE_DATA | DIRTY_RT_CACHE))
                | DIRTY_STEP_SELECTION,
            Button::Track(n) => *final(sequencer_state) == (SequencerState {
                selected_tracks: 1u8 << n,
                ..*old(sequencer_state)
            }) && final(dirty).bits == old(dirty).bits | DIRTY_TRACK_SELECTION,
            Button::Pattern(n) => *final(sequencer_state) == (SequencerState {
                visible_pattern: n,
                ..*old(sequencer_state)
            }) && final(dirty).bits == old(dirty).bits | DIRTY_PATTERN,
            Button::Note(p) => entered_note(*old(sequencer_state), *final(sequencer_state), p) && (
            final(dirty).bits == if old(sequencer_state).selected_step is Some {
                old(dirty).bits | (DIRTY_NOTE_DATA | DIRTY_RT_CACHE)
            } else {
                old(dirty).bits
            }),
            _ => *final(sequencer_state) == *old(sequencer_state) && final(dirty).bits == old(
                dirty,
            ).bits,
        },
{
    match button {
        Button::Step(n) => {
            press_step(sequencer_state, n, dirty);
            PlaybackRequest::Keep
        },
        Button::Track(n) => {
            sequencer_state.select_only_track(n, dirty);
            PlaybackRequest::Keep
        },
        Button::Pattern(n) => {
            set_visible_pattern(sequencer_state, n, dirty);
            PlaybackRequest::Keep
        },
        Button::Play => PlaybackRequest::Toggle,
        Button::Stop => PlaybackRequest::Stop,
        Button::Note(p) => {
            match sequencer_state.selected_step {
                Some(s) => {
                    let tracks = sequencer_state.selected_tracks;
                    set_step(sequencer_state, tracks, s, p, dirty);
                },
                None => {},
            }
            PlaybackRequest::Keep
        },
        Button::OctaveUp => PlaybackRequest::Keep,
        Button::OctaveDown => PlaybackRequest::Keep,
    }
}

} // verus!
