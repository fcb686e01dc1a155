use vstd::prelude::*;

use crate::dirty::{
    DIRTY_BPM, DIRTY_NOTE_DATA, DIRTY_PATTERN, DIRTY_STEP_SELECTION, DIRTY_TRACK_SELECTION,
};
use crate::store::{SequencerState, Step, MAX_STEPS, MAX_TRACKS};

verus! {

pub const SCREEN_W: u16 = 1024;
pub const SCREEN_H: u16 = 600;
pub const SCREEN_RIGHT: u16 = SCREEN_W - 1;
pub const SIDEBAR_W: u16 = 56;
pub const GRID_PADDING_X: u16 = 4;
pub const GRID_PADDING_Y: u16 = 16;
pub const ROW_HEIGHT: u16 = 64;
pub const GRID_LEFT: u16 = SIDEBAR_W + GRID_PADDING_X;
pub const GRID_TOP: u16 = GRID_PADDING_Y;
pub const GRID_WIDTH: u16 = (SCREEN_RIGHT - GRID_PADDING_X) - GRID_LEFT;
pub const CELL_WIDTH: u16 = GRID_WIDTH / 16;
pub const GRID_BOTTOM: u16 = GRID_TOP + ROW_HEIGHT * 8;
pub const LABEL_X: u16 = 22;

pub const COLOR_GRID_FG: u32 = 0x134213;
pub const COLOR_CELL_BG: u32 = 0x121212;
pub const COLOR_CELL_SECONDARY_BG: u32 = 0x000000;
pub const COLOR_CELL_SELECTED_BG: u32 = 0x3F9834;
pub const COLOR_PLAYHEAD_FG: u32 = 0xF07826;
pub const COLOR_TRACK_LABEL_FG: u32 = COLOR_GRID_FG;
pub const COLOR_TRACK_LABEL_ACTIVE_FG: u32 = 0xF07826;
pub const COLOR_TEXT_SELECTED: u32 = 0x000000;
pub const COLOR_TEXT_NOTE: u32 = 0x949494;
pub const COLOR_TEXT_EMPTY: u32 = 0x333333;

/// How a grid cell is emphasised when drawn.
#[derive(Clone, Copy, Debug, PartialEq, Eq, Structural)]
pub enum CellHighlight {
    Plain,
    Playing,
    Selected,
}

/// Where and how one grid cell is drawn: the cell's corner, the fill
/// rectangle, the text position, and the colours.
#[derive(Clone, Copy, Debug)]
pub struct CellView {
    pub x: u16,
    pub y: u16,
    pub fill_x: u16,
    pub fill_y: u16,
    pub fill_w: u16,
    pub fill_h: u16,
    pub text_x: u16,
    pub text_y: u16,
    pub bg: u32,
    pub fg: u32,
}

/// Background of a cell: the selection colour, else a darker shade on every
/// fourth step.
pub open spec fn cell_bg(step_index: int, highlight: CellHighlight) -> u32 {
    if highlight == CellHighlight::Selected {
        COLOR_CELL_SELECTED_BG
    } else if step_index % 4 == 0 {
        COLOR_CELL_SECONDARY_BG
    } else {
        COLOR_CELL_BG
    }
}

/// Text colour of a cell: dark on a selected cell, bright for a step that plays
/// a note, dim otherwise.
pub open spec fn cell_fg(step: Step, highlight: CellHighlight) -> u32 {
    if highlight == CellHighlight::Selected {
        COLOR_TEXT_SELECTED
    } else if step.active && step.pitch != 0 {
        COLOR_TEXT_NOTE
    } else {
        COLOR_TEXT_EMPTY
    }
}

/// The cell of track `track_index`, step `step_index` of the visible pattern.
pub fn cell_view(
    sequencer_state: &SequencerState,
    track_index: u8,
    step_index: u8,
    highlight: CellHighlight,
) -> (r: CellView)
    requires
        sequencer_state.wf(),
        track_index < MAX_TRACKS,
        step_index < MAX_STEPS,
    ensures
        r.x == GRID_LEFT + step_index * CELL_WIDTH,
        r.y == GRID_TOP + track_index * ROW_HEIGHT,
        r.fill_x == r.x + 1,
        r.fill_y == r.y + 1,
        r.fill_w == CELL_WIDTH - 2,
        r.fill_h == ROW_HEIGHT - 1,
        r.text_x == r.x + CELL_WIDTH / 2 - 6,
        r.text_y == r.y + ROW_HEIGHT / 2 - 6,
        r.bg == cell_bg(step_index as int, highlight),
        r.fg == cell_fg(
            sequencer_state.patterns[sequencer_state.visible_pattern as int].tracks[track_index as int].steps[step_index as int],
            highlight,
        ),
{
    assert(CELL_WIDTH == 59 && GRID_LEFT == 60);
    let y = GRID_TOP + (track_index as u16) * ROW_HEIGHT;
    let x = GRID_LEFT + (step_index as u16) * CELL_WIDTH;
    let bg = match highlight {
        CellHighlight::Selected => COLOR_CELL_SELECTED_BG,
        _ => if step_index % 4 == 0 {
            COLOR_CELL_SECONDARY_BG
        } else {
            COLOR_CELL_BG
        },
    };
    let step = sequencer_state.patterns[sequencer_state.visible_pattern as usize].tracks[track_index as usize].steps[step_index as usize];
    let fg = match highlight {
        CellHighlight::Selected => COLOR_TEXT_SELECTED,
        _ => if step.active && step.pitch != 0 {
            COLOR_TEXT_NOTE
        } else {
            COLOR_TEXT_EMPTY
        },
    };
    CellView {
        x,
        y,
        fill_x: x + 1,
        fill_y: y + 1,
        fill_w: CELL_WIDTH - 2,
        fill_h: ROW_HEIGHT - 1,
        text_x: x + CELL_WIDTH / 2 - 6,
        text_y: y + ROW_HEIGHT / 2 - 6,
        bg,
        fg,
    }
}

/// Label text, vertical position and colour of track `track_index`'s label.
pub fn track_label(track_index: u8, selected: bool) -> (r: (&'static str, u16, u32))
    requires
        track_index < MAX_TRACKS,
    ensures
        r.0@ == seq!['0', ('0' as u8 + track_index) as char],
        r.1 == GRID_TOP + track_index * ROW_HEIGHT + 24,
        r.2 == if selected {
            COLOR_TRACK_LABEL_ACTIVE_FG
        } else {
            COLOR_TRACK_LABEL_FG
        },
{
    proof {
        reveal_strlit("00");
        reveal_strlit("01");
        reveal_strlit("02");
        reveal_strlit("03");
        reveal_strlit("04");
        reveal_strlit("05");
        reveal_strlit("06");
        reveal_strlit("07");
    }
    let text = match track_index {
        0 => "00",
        1 => "01",
        2 => "02",
        3 => "03",
        4 => "04",
        5 => "05",
        6 => "06",
        _ => "07",
    };
    let color = if selected {
        COLOR_TRACK_LABEL_ACTIVE_FG
    } else {
        COLOR_TRACK_LABEL_FG
    };
    (text, GRID_TOP + (track_index as u16) * ROW_HEIGHT + 24, color)
}

/// The playhead marker over step `step_index`: two horizontal lines from `x1`
/// to `x2`, at the top and the bottom of the grid, in the playhead colour while
/// playing and the grid colour otherwise.
pub fn playhead_marker(step_index: u8, is_playing: bool) -> (r: (u16, u16, u16, u16, u32))
    requires
        step_index < MAX_STEPS,
    ensures
        r.0 == GRID_LEFT + step_index * CELL_WIDTH + 1,
        r.1 == r.0 + CELL_WIDTH - 2,
        r.2 == GRID_TOP,
        r.3 == GRID_BOTTOM,
        r.4 == if is_playing {
            COLOR_PLAYHEAD_FG
        } else {
            COLOR_GRID_FG
        },
{
    let color = if is_playing {
        COLOR_PLAYHEAD_FG
    } else {
        COLOR_GRID_FG
    };
    assert(CELL_WIDTH == 59 && GRID_LEFT == 60 && GRID_BOTTOM == 528);
    let x1 = GRID_LEFT + (step_index as u16) * CELL_WIDTH + 1;
    let x2 = x1 + CELL_WIDTH - 2;
    (x1, x2, GRID_TOP, GRID_BOTTOM, color)
}

/// What a consumer cycle redraws for a set of dirty bits.
#[derive(Clone, Copy, Debug, PartialEq, Eq, Structural)]
pub struct RedrawPlan {
    /// The pattern indicator and every column.
    pub pattern: bool,
    /// A column to draw without highlight: the previously selected step.
    pub plain_column: Option<u8>,
    /// A column to draw highlighted: the selected step.
    pub selected_column: Option<u8>,
    /// Every track label.
    pub track_labels: bool,
    /// The tempo readout.
    pub bpm: bool,
}

/// The minimal redraw for dirty bits `bits`: a pattern change redraws the
/// indicator and the grid; a step selection change redraws the old and the
/// new selected column; a note change (or any redraw of the grid) redraws the
/// selected column highlighted; a track selection change redraws the labels;
/// a tempo change redraws the readout.
pub fn plan_redraw(bits: u8, selected_step: Option<u8>, prev_selected_step: Option<u8>) -> (r:
    RedrawPlan)
    ensures
        r.pattern == (bits & DIRTY_PATTERN != 0),
        r.plain_column == if bits & DIRTY_STEP_SELECTION != 0 {
            prev_selected_step
        } else {
            None
        },
        r.selected_column == if bits & (DIRTY_STEP_SELECTION | DIRTY_NOTE_DATA | DIRTY_PATTERN)
            != 0 {
            selected_step
        } else {
            None
        },
        r.track_labels == (bits & DIRTY_TRACK_SELECTION != 0),
        r.bpm == (bits & DIRTY_BPM != 0),
{
    RedrawPlan {
        pattern: bits & DIRTY_PATTERN != 0,
        plain_column: if bits & DIRTY_STEP_SELECTION != 0 {
            prev_selected_step
        } else {
            None
        },
        selected_column: if bits & (DIRTY_STEP_SELECTION | DIRTY_NOTE_DATA | DIRTY_PATTERN) != 0 {
            selected_step
        } else {
            None
        },
        track_labels: bits & DIRTY_TRACK_SELECTION != 0,
        bpm: bits & DIRTY_BPM != 0,
    }
}

} // verus!
