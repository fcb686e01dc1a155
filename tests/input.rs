use curse::dirty::{
    take_dirty, DirtyFlags, DIRTY_NOTE_DATA, DIRTY_PATTERN, DIRTY_RT_CACHE, DIRTY_STEP_SELECTION,
    DIRTY_TRACK_SELECTION,
};
use curse::input::{handle_button_press, key_to_button, Button, PlaybackRequest};
use curse::store::{SequencerState, DEFAULT_PITCH};

#[test]
fn keys_map_to_buttons() {
    assert_eq!(key_to_button(b'1'), Some(Button::Step(0)));
    assert_eq!(key_to_button(b'0'), Some(Button::Step(9)));
    assert_eq!(key_to_button(b'y'), Some(Button::Step(15)));
    assert_eq!(key_to_button(b'!'), Some(Button::Track(0)));
    assert_eq!(key_to_button(b'*'), Some(Button::Track(7)));
    assert_eq!(key_to_button(b'z'), Some(Button::Note(60)));
    assert_eq!(key_to_button(b'x'), Some(Button::Note(62)));
    assert_eq!(key_to_button(b'm'), Some(Button::Note(71)));
    assert_eq!(key_to_button(b'+'), Some(Button::OctaveUp));
    assert_eq!(key_to_button(b'-'), Some(Button::OctaveDown));
    assert_eq!(key_to_button(b' '), Some(Button::Play));
    assert_eq!(key_to_button(b'?'), None);
    assert_eq!(key_to_button(0), None);
}

#[test]
fn step_button_toggles_selected_tracks_and_selects() {
    let mut s = SequencerState::new();
    let mut d = DirtyFlags::new();
    s.selected_tracks = 0b0000_0110;
    let r = handle_button_press(Button::Step(3), &mut s, &mut d);
    assert_eq!(r, PlaybackRequest::Keep);
    assert!(s.patterns[0].tracks[1].steps[3].active);
    assert!(s.patterns[0].tracks[2].steps[3].active);
    assert_eq!(s.patterns[0].tracks[2].steps[3].pitch, DEFAULT_PITCH);
    assert!(!s.patterns[0].tracks[0].steps[3].active);
    assert_eq!(s.selected_step, Some(3));
    assert_eq!(
        take_dirty(&mut d),
        DIRTY_NOTE_DATA | DIRTY_RT_CACHE | DIRTY_STEP_SELECTION
    );
}

#[test]
fn note_button_sets_pitch_on_selected_step() {
    let mut s = SequencerState::new();
    let mut d = DirtyFlags::new();
    handle_button_press(Button::Note(65), &mut s, &mut d);
    assert_eq!(take_dirty(&mut d), 0);
    handle_button_press(Button::Step(5), &mut s, &mut d);
    handle_button_press(Button::Step(5), &mut s, &mut d);
    assert!(!s.patterns[0].tracks[0].steps[5].active);
    take_dirty(&mut d);
    handle_button_press(Button::Note(65), &mut s, &mut d);
    assert!(s.patterns[0].tracks[0].steps[5].active);
    assert_eq!(s.patterns[0].tracks[0].steps[5].pitch, 65);
    assert_eq!(take_dirty(&mut d), DIRTY_NOTE_DATA | DIRTY_RT_CACHE);
}

#[test]
fn track_and_pattern_buttons() {
    let mut s = SequencerState::new();
    let mut d = DirtyFlags::new();
    handle_button_press(Button::Track(6), &mut s, &mut d);
    assert_eq!(s.selected_tracks, 0x40);
    assert_eq!(take_dirty(&mut d), DIRTY_TRACK_SELECTION);
    handle_button_press(Button::Pattern(11), &mut s, &mut d);
    assert_eq!(s.visible_pattern, 11);
    assert_eq!(take_dirty(&mut d), DIRTY_PATTERN);
}

#[test]
fn transport_buttons_ask_for_playback_changes() {
    let mut s = SequencerState::new();
    let mut d = DirtyFlags::new();
    assert_eq!(handle_button_press(Button::Play, &mut s, &mut d), PlaybackRequest::Toggle);
    assert_eq!(handle_button_press(Button::Stop, &mut s, &mut d), PlaybackRequest::Stop);
    assert_eq!(handle_button_press(Button::OctaveUp, &mut s, &mut d), PlaybackRequest::Keep);
    assert_eq!(take_dirty(&mut d), 0);
}

#[test]
fn note_zero_enters_default_pitch() {
    let mut s = SequencerState::new();
    let mut d = DirtyFlags::new();
    handle_button_press(Button::Step(4), &mut s, &mut d);
    handle_button_press(Button::Note(0), &mut s, &mut d);
    let step = s.patterns[0].tracks[0].steps[4];
    assert!(step.active);
    assert_eq!(step.pitch, DEFAULT_PITCH);
}
