use curse::bits::{iter_bits_u16, iter_bits_u8};
use curse::bus::{data_pin_levels, data_value, BusError};
use curse::dirty::{
    DIRTY_BPM, DIRTY_NOTE_DATA, DIRTY_PATTERN, DIRTY_RT_CACHE, DIRTY_STEP_SELECTION,
    DIRTY_TRACK_SELECTION,
};
use curse::layout::{
    cell_view, plan_redraw, playhead_marker, track_label, CellHighlight, RedrawPlan, COLOR_CELL_BG,
    COLOR_CELL_SECONDARY_BG, COLOR_CELL_SELECTED_BG, COLOR_GRID_FG, COLOR_PLAYHEAD_FG,
    COLOR_TEXT_EMPTY, COLOR_TEXT_NOTE, COLOR_TEXT_SELECTED, COLOR_TRACK_LABEL_ACTIVE_FG,
};
use curse::store::SequencerState;
use curse::text::{FmtBuf, FmtError};

#[test]
fn bit_indices_in_ascending_order() {
    assert_eq!(iter_bits_u8(0b1010_0101), vec![0, 2, 5, 7]);
    assert_eq!(iter_bits_u8(0), Vec::<u8>::new());
    assert_eq!(iter_bits_u8(0xFF), vec![0, 1, 2, 3, 4, 5, 6, 7]);
    assert_eq!(iter_bits_u16(0x8001), vec![0, 15]);
    assert_eq!(iter_bits_u16(0x0110), vec![4, 8]);
}

#[test]
fn bus_lines_follow_bits() {
    let levels = data_pin_levels(0b1000_0011);
    assert_eq!(levels, [true, true, false, false, false, false, false, true]);
    assert_eq!(data_value(levels), 0b1000_0011);
    for v in 0..=255u8 {
        assert_eq!(data_value(data_pin_levels(v)), v);
    }
    assert_ne!(BusError::Pin, BusError::Direction);
}

#[test]
fn fmt_buf_respects_capacity() {
    let mut b = FmtBuf::new(8);
    assert_eq!(b.as_str(), "");
    assert_eq!(b.write_str("BPM:"), Ok(()));
    assert_eq!(b.write_str("120"), Ok(()));
    assert_eq!(b.as_str(), "BPM:120");
    assert_eq!(b.write_str("45"), Err(FmtError));
    assert_eq!(b.as_str(), "BPM:120");
    assert_eq!(b.write_str("4"), Ok(()));
    assert_eq!(b.as_str(), "BPM:1204");
    let mut u = FmtBuf::new(3);
    assert_eq!(u.write_str("\u{e9}\u{e9}"), Err(FmtError));
    assert_eq!(u.write_str("\u{e9}"), Ok(()));
    assert_eq!(u.as_str(), "\u{e9}");
}

#[test]
fn cell_geometry_and_colours() {
    let mut s = SequencerState::new();
    let v = cell_view(&s, 1, 4, CellHighlight::Plain);
    assert_eq!((v.x, v.y), (296, 80));
    assert_eq!((v.fill_x, v.fill_y, v.fill_w, v.fill_h), (297, 81, 57, 63));
    assert_eq!((v.text_x, v.text_y), (319, 106));
    assert_eq!(v.bg, COLOR_CELL_SECONDARY_BG);
    assert_eq!(v.fg, COLOR_TEXT_EMPTY);
    s.patterns[0].tracks[1].steps[5].active = true;
    s.patterns[0].tracks[1].steps[5].pitch = 60;
    let v = cell_view(&s, 1, 5, CellHighlight::Playing);
    assert_eq!(v.bg, COLOR_CELL_BG);
    assert_eq!(v.fg, COLOR_TEXT_NOTE);
    let v = cell_view(&s, 1, 5, CellHighlight::Selected);
    assert_eq!(v.bg, COLOR_CELL_SELECTED_BG);
    assert_eq!(v.fg, COLOR_TEXT_SELECTED);
}

#[test]
fn labels_and_playhead() {
    assert_eq!(track_label(0, false).0, "00");
    let (text, y, color) = track_label(6, true);
    assert_eq!(text, "06");
    assert_eq!(y, 16 + 6 * 64 + 24);
    assert_eq!(color, COLOR_TRACK_LABEL_ACTIVE_FG);
    assert_eq!(playhead_marker(0, true), (61, 118, 16, 528, COLOR_PLAYHEAD_FG));
    assert_eq!(playhead_marker(15, false), (946, 1003, 16, 528, COLOR_GRID_FG));
}

#[test]
fn redraw_plan_follows_dirty_bits() {
    let nothing = RedrawPlan {
        pattern: false,
        plain_column: None,
        selected_column: None,
        track_labels: false,
        bpm: false,
    };
    assert_eq!(plan_redraw(0, Some(3), Some(1)), nothing);
    assert_eq!(plan_redraw(DIRTY_RT_CACHE, Some(3), Some(1)), nothing);
    let p = plan_redraw(DIRTY_STEP_SELECTION, Some(3), Some(1));
    assert_eq!((p.plain_column, p.selected_column), (Some(1), Some(3)));
    let p = plan_redraw(DIRTY_NOTE_DATA, Some(3), Some(1));
    assert_eq!((p.plain_column, p.selected_column), (None, Some(3)));
    let p = plan_redraw(DIRTY_PATTERN | DIRTY_BPM | DIRTY_TRACK_SELECTION, None, None);
    assert!(p.pattern && p.bpm && p.track_labels);
    assert_eq!(p.selected_column, None);
}
