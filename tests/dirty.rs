use curse::dirty::{
    mark_dirty, take_dirty, DirtyFlags, DIRTY_BPM, DIRTY_NOTE_DATA, DIRTY_PATTERN, DIRTY_RT_CACHE,
    DIRTY_STEP_SELECTION, DIRTY_TRACK_SELECTION,
};

#[test]
fn flags_are_distinct_bits() {
    let all = [
        DIRTY_STEP_SELECTION,
        DIRTY_TRACK_SELECTION,
        DIRTY_NOTE_DATA,
        DIRTY_BPM,
        DIRTY_PATTERN,
        DIRTY_RT_CACHE,
    ];
    let mut seen = 0u8;
    for f in all {
        assert_eq!(f.count_ones(), 1);
        assert_eq!(seen & f, 0);
        seen |= f;
    }
}

#[test]
fn marks_merge_and_drain_clears() {
    let mut d = DirtyFlags::new();
    assert_eq!(take_dirty(&mut d), 0);
    mark_dirty(&mut d, DIRTY_BPM);
    mark_dirty(&mut d, DIRTY_PATTERN | DIRTY_RT_CACHE);
    mark_dirty(&mut d, DIRTY_BPM);
    assert_eq!(take_dirty(&mut d), DIRTY_BPM | DIRTY_PATTERN | DIRTY_RT_CACHE);
    assert_eq!(take_dirty(&mut d), 0);
}

#[test]
fn each_mark_is_returned_by_exactly_one_drain() {
    // marks and drains interleaved: each drain returns what was raised since
    // the previous one, and together they return every raised bit once.
    let mut d = DirtyFlags::new();
    let mut drained = Vec::new();
    mark_dirty(&mut d, DIRTY_NOTE_DATA);
    mark_dirty(&mut d, DIRTY_STEP_SELECTION);
    drained.push(take_dirty(&mut d));
    drained.push(take_dirty(&mut d));
    mark_dirty(&mut d, DIRTY_NOTE_DATA);
    drained.push(take_dirty(&mut d));
    mark_dirty(&mut d, DIRTY_TRACK_SELECTION);
    assert_eq!(
        drained,
        vec![DIRTY_NOTE_DATA | DIRTY_STEP_SELECTION, 0, DIRTY_NOTE_DATA]
    );
    let union = drained.iter().fold(0u8, |a, b| a | b) | d.bits;
    assert_eq!(union, DIRTY_NOTE_DATA | DIRTY_STEP_SELECTION | DIRTY_TRACK_SELECTION);
}
