use vstd::prelude::*;

verus! {

/// Change categories that a consumer may need to redraw.
pub const DIRTY_STEP_SELECTION: u8 = 0x01;
pub const DIRTY_TRACK_SELECTION: u8 = 0x02;
pub const DIRTY_NOTE_DATA: u8 = 0x04;
pub const DIRTY_BPM: u8 = 0x08;
pub const DIRTY_PATTERN: u8 = 0x10;
pub const DIRTY_RT_CACHE: u8 = 0x20;

/// The dirty-flag bus: bits raised by mutators and drained by one consumer.
pub struct DirtyFlags {
    pub bits: u8,
}

impl DirtyFlags {
    pub fn new() -> (r: DirtyFlags)
        ensures
            r.bits == 0,
    {
        DirtyFlags { bits: 0 }
    }
}

/// Raises `flags` on the bus without clearing any bit already pending.
pub fn mark_dirty(dirty: &mut DirtyFlags, flags: u8)
    ensures
        final(dirty).bits == old(dirty).bits | flags,
{
    dirty.bits = dirty.bits | flags;
}

/// Returns every bit raised since the previous drain and clears the bus.
pub fn take_dirty(dirty: &mut DirtyFlags) -> (r: u8)
    ensures
        r == old(dirty).bits,
        final(dirty).bits == 0,
{
    let r = dirty.bits;
    dirty.bits = 0;
    r
}

/// One call on the bus: a `mark_dirty` with its flags, or a `take_dirty`.
pub enum DirtyEvent {
    Mark(u8),
    Take,
}

/// Whether flag bit `b` (0 to 7) is set in `x`.
pub open spec fn flag_set(x: u8, b: int) -> bool {
    0 <= b < 8 && x & (1u8 << (b as u8)) != 0
}

/// The bits pending on the bus after the calls `ops`, from an empty bus.
pub open spec fn pending_after(ops: Seq<DirtyEvent>) -> u8
    decreases ops.len(),
{
    if ops.len() == 0 {
        0
    } else {
        match ops.last() {
            DirtyEvent::Mark(f) => pending_after(ops.drop_last()) | f,
            DirtyEvent::Take => 0,
        }
    }
}

/// What the drain at position `j` of `ops` returns.
pub open spec fn drained_at(ops: Seq<DirtyEvent>, j: int) -> u8 {
    pending_after(ops.take(j))
}

/// Some call before position `k` raised bit `b`, and no drain came between it
/// and `k`.
pub open spec fn raised_since_drain(ops: Seq<DirtyEvent>, b: int, k: int) -> bool {
    exists|i: int|
        0 <= i < k && #[trigger] marks_bit(ops[i], b) && forall|m: int|
            i < m < k ==> !(#[trigger] ops[m] is Take)
}

/// The call `e` raises bit `b`.
pub open spec fn marks_bit(e: DirtyEvent, b: int) -> bool {
    match e {
        DirtyEvent::Mark(f) => flag_set(f, b),
        DirtyEvent::Take => false,
    }
}

proof fn lemma_or_flag(a: u8, f: u8, b: int)
    requires
        0 <= b < 8,
    ensures
        flag_set(a | f, b) == (flag_set(a, b) || flag_set(f, b)),
        !flag_set(0u8, b),
{
    let c = b as u8;
    assert(((a | f) & (1u8 << c) != 0) == ((a & (1u8 << c) != 0) || (f & (1u8 << c) != 0)))
        by (bit_vector)
        requires
            c < 8,
    ;
    assert(0u8 & (1u8 << c) == 0) by (bit_vector);
}

proof fn lemma_pending_bits(ops: Seq<DirtyEvent>, b: int, k: int)
    requires
        0 <= b < 8,
        0 <= k <= ops.len(),
    ensures
        flag_set(pending_after(ops.take(k)), b) == raised_since_drain(ops, b, k),
    decreases k,
{
    lemma_or_flag(0, 0, b);
    if k > 0 {
        lemma_pending_bits(ops, b, k - 1);
        let pre = ops.take(k);
        assert(pre.drop_last() =~= ops.take(k - 1));
        assert(pre.last() == ops[k - 1]);
        match ops[k - 1] {
            DirtyEvent::Take => {
                if raised_since_drain(ops, b, k) {
                    let i = choose|i: int|
                        0 <= i < k && #[trigger] marks_bit(ops[i], b) && forall|m: int|
                            i < m < k ==> !(#[trigger] ops[m] is Take);
                    if i < k - 1 {
                        assert(!(ops[k - 1] is Take));
                    }
                }
            },
            DirtyEvent::Mark(f) => {
                lemma_or_flag(pending_after(ops.take(k - 1)), f, b);
                if raised_since_drain(ops, b, k) && !flag_set(f, b) {
                    let i = choose|i: int|
                        0 <= i < k && #[trigger] marks_bit(ops[i], b) && forall|m: int|
                            i < m < k ==> !(#[trigger] ops[m] is Take);
                    assert(i < k - 1);
                    assert(raised_since_drain(ops, b, k - 1));
                }
                if raised_since_drain(ops, b, k - 1) {
                    let i = choose|i: int|
                        0 <= i < k - 1 && #[trigger] marks_bit(ops[i], b) && forall|m: int|
                            i < m < k - 1 ==> !(#[trigger] ops[m] is Take);
                    assert forall|m: int| i < m < k implies !(#[trigger] ops[m] is Take) by {
                        if m == k - 1 {
                        }
                    }
                }
                if flag_set(f, b) {
                    assert(marks_bit(ops[k - 1], b));
                }
            },
        }
    }
}

/// Some drain before position `k` returned bit `b`.
pub open spec fn drained_before(ops: Seq<DirtyEvent>, b: int, k: int) -> bool {
    exists|j: int| 0 <= j < k && ops[j] is Take && #[trigger] flag_set(drained_at(ops, j), b)
}

/// Some call before position `k` raised bit `b`.
pub open spec fn marked_before(ops: Seq<DirtyEvent>, b: int, k: int) -> bool {
    exists|i: int| 0 <= i < k && #[trigger] marks_bit(ops[i], b)
}

proof fn lemma_union(ops: Seq<DirtyEvent>, b: int, k: int)
    requires
        0 <= b < 8,
        0 <= k <= ops.len(),
    ensures
        (drained_before(ops, b, k) || flag_set(pending_after(ops.take(k)), b)) == marked_before(
            ops,
            b,
            k,
        ),
    decreases k,
{
    lemma_or_flag(0, 0, b);
    if k == 0 {
        assert(ops.take(0) =~= Seq::<DirtyEvent>::empty());
    } else {
        lemma_union(ops, b, k - 1);
        let pre = ops.take(k);
        assert(pre.drop_last() =~= ops.take(k - 1));
        assert(pre.last() == ops[k - 1]);
        let p = pending_after(ops.take(k - 1));
        if drained_before(ops, b, k) {
            let j = choose|j: int|
                0 <= j < k && ops[j] is Take && #[trigger] flag_set(drained_at(ops, j), b);
            if j < k - 1 {
                assert(drained_before(ops, b, k - 1));
            } else {
                assert(flag_set(p, b));
            }
        }
        if marked_before(ops, b, k) {
            let i = choose|i: int| 0 <= i < k && #[trigger] marks_bit(ops[i], b);
            if i < k - 1 {
                assert(marked_before(ops, b, k - 1));
            }
        }
        if drained_before(ops, b, k - 1) {
            let j = choose|j: int|
                0 <= j < k - 1 && ops[j] is Take && #[trigger] flag_set(drained_at(ops, j), b);
            assert(drained_before(ops, b, k));
        }
        if marked_before(ops, b, k - 1) {
            let i = choose|i: int| 0 <= i < k - 1 && #[trigger] marks_bit(ops[i], b);
            assert(marked_before(ops, b, k));
        }
        match ops[k - 1] {
            DirtyEvent::Take => {
                if flag_set(p, b) {
                    assert(flag_set(drained_at(ops, k - 1), b));
                    assert(drained_before(ops, b, k));
                }
            },
            DirtyEvent::Mark(f) => {
                lemma_or_flag(p, f, b);
                if flag_set(f, b) {
                    assert(marks_bit(ops[k - 1], b));
                }
            },
        }
    }
}

/// Dirty-flag losslessness: over any sequence of marks and drains, each drain
/// returns bit `b` exactly when a mark raised it since the drain before, so
/// every raised bit is returned by the first drain after it and by no later
/// one unless raised again; and the bits all drains returned, together with
/// those still pending, are exactly the bits raised.
pub proof fn lemma_dirty_lossless(ops: Seq<DirtyEvent>, b: int)
    requires
        0 <= b < 8,
    ensures
        forall|j: int|
            0 <= j < ops.len() && ops[j] is Take ==> (flag_set(#[trigger] drained_at(ops, j), b)
                <==> raised_since_drain(ops, b, j)),
        flag_set(pending_after(ops), b) <==> raised_since_drain(ops, b, ops.len() as int),
        (drained_before(ops, b, ops.len() as int) || flag_set(pending_after(ops), b))
            <==> marked_before(ops, b, ops.len() as int),
{
    assert forall|j: int| 0 <= j < ops.len() && ops[j] is Take implies (flag_set(
        #[trigger] drained_at(ops, j),
        b,
    ) <==> raised_since_drain(ops, b, j)) by {
        lemma_pending_bits(ops, b, j);
    }
    lemma_pending_bits(ops, b, ops.len() as int);
    lemma_union(ops, b, ops.len() as int);
    assert(ops.take(ops.len() as int) =~= ops);
}

} // verus!
