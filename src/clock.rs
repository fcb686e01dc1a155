use vstd::prelude::*;

use crate::bits::mask_bit;
use crate::cache::{observed, RtCache, RtCachePair};
use crate::dirty::{mark_dirty, DirtyFlags, DIRTY_BPM};
use crate::store::MAX_STEPS;

verus! {

/// Tick rate of the step timer's counter: one tick per microsecond.
pub const TIMER_HZ: u32 = 1_000_000;
/// Longest delay the 16-bit compare counter can express, in microseconds.
pub const MAX_SEGMENT_US: u32 = 0xFFFF;
/// Microseconds per minute.
pub const US_PER_MINUTE: u64 = 60_000_000;
/// Track whose cached gate mask and length drive the physical gate output.
pub const REFERENCE_TRACK: usize = 2;
/// Tempo a new clock starts with.
pub const DEFAULT_BPM: u32 = 120;
/// Clock resolution a new clock starts with.
pub const DEFAULT_PPQN: u32 = 24;

/// Time per step as `base_us + rem / denom` microseconds, with the carry
/// accumulator `acc` that spreads the fraction over successive steps.
#[derive(Clone, Copy)]
pub struct StepInterval {
    pub base_us: u32,
    pub rem: u32,
    pub denom: u32,
    pub acc: u32,
}

/// The supported clock resolutions: pulses per step for a given PPQN.
pub open spec fn spec_pulses_per_step(ppqn: u32) -> Option<u32> {
    if ppqn == 4 {
        Some(1u32)
    } else if ppqn == 24 {
        Some(6u32)
    } else {
        None
    }
}

/// Pulses per step actually used: unsupported resolutions fall back to one.
pub open spec fn effective_pulses(ppqn: u32) -> int {
    match spec_pulses_per_step(ppqn) {
        Some(p) => p as int,
        None => 1,
    }
}

/// Numerator of the exact step interval in microseconds.
pub open spec fn interval_numer(ppqn: u32) -> int {
    US_PER_MINUTE * effective_pulses(ppqn)
}

/// Denominator of the exact step interval: BPM times PPQN, saturated to the
/// 32-bit range and at least one.
pub open spec fn interval_denom(bpm: u32, ppqn: u32) -> int {
    let prod = bpm * ppqn;
    if prod > u32::MAX {
        u32::MAX as int
    } else if prod == 0 {
        1
    } else {
        prod
    }
}

/// The interval parameters for a tempo, with an empty accumulator.
pub open spec fn interval_for(bpm: u32, ppqn: u32) -> StepInterval {
    let n = interval_numer(ppqn);
    let d = interval_denom(bpm, ppqn);
    StepInterval {
        base_us: if n / d == 0 {
            1u32
        } else {
            (n / d) as u32
        },
        rem: (n % d) as u32,
        denom: d as u32,
        acc: 0,
    }
}

impl StepInterval {
    pub open spec fn wf(&self) -> bool {
        &&& 1 <= self.denom
        &&& self.rem < self.denom
        &&& self.acc < self.denom
        &&& 1 <= self.base_us < u32::MAX
    }

    /// The interval after one step is taken, and that step's length: the
    /// remainder is added to the accumulator, and when it reaches the
    /// denominator the step is one microsecond longer and the denominator is
    /// taken back out.
    pub open spec fn spec_next(self) -> (StepInterval, u32) {
        if self.acc + self.rem >= self.denom {
            (
                StepInterval { acc: (self.acc + self.rem - self.denom) as u32, ..self },
                (self.base_us + 1) as u32,
            )
        } else {
            (StepInterval { acc: (self.acc + self.rem) as u32, ..self }, self.base_us)
        }
    }

    pub fn new() -> (r: StepInterval)
        ensures
            r.wf(),
            r == (StepInterval { base_us: 1, rem: 0, denom: 1, acc: 0 }),
    {
        StepInterval { base_us: 1, rem: 0, denom: 1, acc: 0 }
    }

    /// Length in microseconds of the next step.
    pub fn next_interval_us(&mut self) -> (r: u32)
        requires
            old(self).wf(),
        ensures
            final(self).wf(),
            (*final(self), r) == old(self).spec_next(),
    {
        let sum: u64 = self.acc as u64 + self.rem as u64;
        if sum >= self.denom as u64 {
            self.acc = (sum - self.denom as u64) as u32;
            self.base_us + 1
        } else {
            self.acc = sum as u32;
            self.base_us
        }
    }
}

/// Prescaler that divides the timer clock `timclk_hz` down to `TIMER_HZ`.
pub fn timer_prescaler(timclk_hz: u32) -> (r: u16)
    ensures
        r == if timclk_hz / TIMER_HZ == 0 {
            0
        } else {
            timclk_hz / TIMER_HZ - 1
        },
{
    let ratio = timclk_hz / TIMER_HZ;
    if ratio == 0 {
        0
    } else {
        (ratio - 1) as u16
    }
}

/// Pulses per step for a supported PPQN (4 or 24), `None` for any other.
pub fn pulses_per_step_from_ppqn(ppqn: u32) -> (r: Option<u32>)
    ensures
        r == spec_pulses_per_step(ppqn),
{
    match ppqn {
        4 => Some(1),
        24 => Some(6),
        _ => None,
    }
}

/// The interval parameters for `bpm` at resolution `ppqn`.
pub fn step_interval_for(bpm: u32, ppqn: u32) -> (r: StepInterval)
    ensures
        r == interval_for(bpm, ppqn),
        r.wf(),
{
    let pulses_per_step: u32 = match pulses_per_step_from_ppqn(ppqn) {
        Some(p) => p,
        None => 1,
    };
    assert((bpm as int) * (ppqn as int) <= 0xFFFF_FFFFint * 0xFFFF_FFFFint) by (nonlinear_arith)
        requires
            bpm <= 0xFFFF_FFFFint,
            ppqn <= 0xFFFF_FFFFint,
    ;
    let prod: u64 = bpm as u64 * ppqn as u64;
    let denom: u32 = if prod > u32::MAX as u64 {
        u32::MAX
    } else if prod == 0 {
        1
    } else {
        prod as u32
    };
    let numer: u64 = US_PER_MINUTE * pulses_per_step as u64;
    let q: u64 = numer / denom as u64;
    let base_us: u32 = if q == 0 {
        1
    } else {
        q as u32
    };
    let rem: u32 = (numer % denom as u64) as u32;
    assert(numer == interval_numer(ppqn));
    assert(denom == interval_denom(bpm, ppqn));
    StepInterval { base_us, rem, denom, acc: 0 }
}

/// Sum of the lengths of the next `n` steps taken from `iv`.
pub open spec fn interval_sum(iv: StepInterval, n: nat) -> int
    decreases n,
{
    if n == 0 {
        0
    } else {
        iv.spec_next().1 + interval_sum(iv.spec_next().0, (n - 1) as nat)
    }
}

proof fn lemma_interval_sum(iv: StepInterval, n: nat)
    requires
        iv.wf(),
    ensures
        interval_sum(iv, n) == n * iv.base_us + (iv.acc + n * iv.rem) / (iv.denom as int),
    decreases n,
{
    if n == 0 {
        vstd::arithmetic::div_mod::lemma_fundamental_div_mod_converse(
            iv.acc as int,
            iv.denom as int,
            0,
            iv.acc as int,
        );
        assert(interval_sum(iv, n) == 0);
        assert((iv.acc + n * iv.rem) == iv.acc) by (nonlinear_arith)
            requires
                n == 0,
        ;
    } else {
        let (nx, len) = iv.spec_next();
        lemma_interval_sum(nx, (n - 1) as nat);
        let d = iv.denom as int;
        let m = (n - 1) as int;
        let carry: int = if iv.acc + iv.rem >= d {
            1
        } else {
            0
        };
        assert(nx.acc == iv.acc + iv.rem - carry * d);
        assert(nx.acc + m * iv.rem + carry * d == iv.acc + n * iv.rem) by (nonlinear_arith)
            requires
                nx.acc == iv.acc + iv.rem - carry * d,
                m == n - 1,
        ;
        vstd::arithmetic::div_mod::lemma_hoist_over_denominator(nx.acc + m * iv.rem, carry, d as nat);
        assert(len == iv.base_us + carry);
        assert(nx.base_us == iv.base_us && nx.rem == iv.rem && nx.denom == iv.denom);
        assert((iv.acc + n * iv.rem) / d == (nx.acc + m * iv.rem) / d + carry);
        assert(interval_sum(iv, n) == len + interval_sum(nx, (n - 1) as nat));
        assert(interval_sum(nx, (n - 1) as nat) == m * iv.base_us + (nx.acc + m * iv.rem) / d);
        assert(m * iv.base_us + iv.base_us == n * iv.base_us) by (nonlinear_arith)
            requires
                m == n - 1,
        ;
        assert(interval_sum(iv, n) == n * iv.base_us + (iv.acc + n * iv.rem) / d);
    }
}

/// Interval accuracy: from a fresh tempo setting in the range 20..=300 BPM at
/// a supported resolution, the next `n` steps together last exactly
/// `n * 60_000_000 * pulses / (bpm * ppqn)` microseconds rounded down, so they
/// never drift by a whole microsecond from the exact time.
pub proof fn lemma_interval_accuracy(bpm: u32, ppqn: u32, n: nat)
    requires
        20 <= bpm <= 300,
        ppqn == 4 || ppqn == 24,
    ensures
        interval_sum(interval_for(bpm, ppqn), n) == (n * interval_numer(ppqn)) / (bpm * ppqn),
        interval_sum(interval_for(bpm, ppqn), n) * (bpm * ppqn) <= n * interval_numer(ppqn),
        n * interval_numer(ppqn) < (interval_sum(interval_for(bpm, ppqn), n) + 1) * (bpm * ppqn),
{
    let iv = interval_for(bpm, ppqn);
    let num = interval_numer(ppqn);
    let d = bpm * ppqn;
    assert(80 <= d <= 7200) by (nonlinear_arith)
        requires
            20 <= bpm <= 300,
            ppqn == 4 || ppqn == 24,
            d == bpm * ppqn,
    ;
    assert(interval_denom(bpm, ppqn) == d);
    assert(num / d >= 1) by {
        vstd::arithmetic::div_mod::lemma_div_is_ordered(d, num, d);
        vstd::arithmetic::div_mod::lemma_div_basics(d);
    }
    lemma_interval_sum(iv, n);
    vstd::arithmetic::div_mod::lemma_fundamental_div_mod(num, d);
    let q = num / d;
    let r = num % d;
    assert(n * num == (n * q) * d + n * r) by (nonlinear_arith)
        requires
            num == d * q + r,
    ;
    vstd::arithmetic::div_mod::lemma_hoist_over_denominator(n * r, n * q, d as nat);
    let s = interval_sum(iv, n);
    assert(s == (n * num) / d);
    vstd::arithmetic::div_mod::lemma_fundamental_div_mod(n * num, d);
    vstd::arithmetic::div_mod::lemma_mod_bound(n * num, d);
    assert(s * d <= n * num) by (nonlinear_arith)
        requires
            n * num == d * s + (n * num) % d,
            0 <= (n * num) % d,
    ;
    assert(n * num < (s + 1) * d) by (nonlinear_arith)
        requires
            n * num == d * s + (n * num) % d,
            (n * num) % d < d,
    ;
}

/// Length of the next compare segment when `remaining` microseconds of the
/// step are left: all of it, at least one, and never more than the counter
/// can express.
pub open spec fn segment_len(remaining: u32) -> u32 {
    if remaining > MAX_SEGMENT_US {
        MAX_SEGMENT_US
    } else if remaining == 0 {
        1
    } else {
        remaining
    }
}

/// Segment bound: every compare delta the scheduler programs is at least one
/// microsecond and at most the counter's span, and never longer than what is
/// left of the step (or one, when nothing is).
pub proof fn lemma_segment_bound(remaining: u32)
    ensures
        1 <= segment_len(remaining) <= MAX_SEGMENT_US,
        segment_len(remaining) <= remaining || remaining == 0,
{
}

/// The later of two gate commands: a step that sets the output overrides any
/// earlier command.
pub open spec fn latest(earlier: Option<bool>, later: Option<bool>) -> Option<bool> {
    match later {
        Some(_) => later,
        None => earlier,
    }
}

/// Hardware work the caller performs after a compare-match: program the
/// compare register with `compare`, and set the physical gate output to `gate` when
/// it is `Some`.
#[derive(Clone, Copy, Debug)]
pub struct TimerAction {
    pub compare: u16,
    pub gate: Option<bool>,
}

/// The step clock's state: tempo, fractional interval, the segment being
/// timed, playback and the playhead, and overrun diagnostics.
#[derive(Clone, Copy)]
pub struct StepClock {
    pub bpm: u32,
    pub ppqn: u32,
    pub interval: StepInterval,
    /// Microseconds of the current step not yet covered by a scheduled segment.
    pub remaining_us: u32,
    /// Counter value the last segment was scheduled to end at.
    pub last_ccr1: u16,
    pub playing: bool,
    pub next_step: u8,
    pub current_step: u8,
    /// Raised at every step advance, cleared when the consumer takes it.
    pub step_flag: bool,
    pub missed_segments: u32,
    pub max_overrun_us: u32,
}

impl StepClock {
    pub open spec fn wf(&self) -> bool {
        &&& self.interval.wf()
        &&& self.interval.base_us == interval_for(self.bpm, self.ppqn).base_us
        &&& self.interval.rem == interval_for(self.bpm, self.ppqn).rem
        &&& self.interval.denom == interval_for(self.bpm, self.ppqn).denom
        &&& self.next_step < MAX_STEPS
        &&& self.current_step < MAX_STEPS
    }

    pub fn new() -> (r: StepClock)
        ensures
            r.wf(),
            !r.playing,
            r.bpm == DEFAULT_BPM,
            r.ppqn == DEFAULT_PPQN,
            r.interval == interval_for(DEFAULT_BPM, DEFAULT_PPQN),
            r.remaining_us == 0,
            r.last_ccr1 == 0,
            r.next_step == 0,
            r.current_step == 0,
            !r.step_flag,
            r.missed_segments == 0,
            r.max_overrun_us == 0,
    {
        StepClock {
            bpm: DEFAULT_BPM,
            ppqn: DEFAULT_PPQN,
            interval: step_interval_for(DEFAULT_BPM, DEFAULT_PPQN),
            remaining_us: 0,
            last_ccr1: 0,
            playing: false,
            next_step: 0,
            current_step: 0,
            step_flag: false,
            missed_segments: 0,
            max_overrun_us: 0,
        }
    }
}

/// The step boundary: while playing, publish the next step as current, raise
/// the step flag and, unless the reference track's cached length is zero,
/// advance modulo that length and gate by that step's bit. In any case the
/// next step's interval is drawn. Returns the output level to set, if any.
pub open spec fn spec_advance(s: StepClock, c: RtCache) -> (StepClock, Option<bool>) {
    let len: int = if c.lengths[REFERENCE_TRACK as int] > MAX_STEPS {
        MAX_STEPS as int
    } else {
        c.lengths[REFERENCE_TRACK as int] as int
    };
    let (moved, gate) = if !s.playing {
        (s, None)
    } else if len == 0 {
        (StepClock { current_step: s.next_step, step_flag: true, ..s }, None)
    } else {
        (
            StepClock {
                current_step: s.next_step,
                step_flag: true,
                next_step: ((s.next_step + 1) % len) as u8,
                ..s
            },
            Some(mask_bit(c.gate_masks[REFERENCE_TRACK as int], s.next_step as int)),
        )
    };
    let (iv, dur) = moved.interval.spec_next();
    (StepClock { interval: iv, remaining_us: dur, ..moved }, gate)
}

/// Retires whole segments covered by `overrun` late microseconds, crossing
/// step boundaries as they come. Returns the state, the microseconds that
/// cover no whole segment, and the last gate command.
pub open spec fn spec_catch_up(s: StepClock, c: RtCache, overrun: u32, gate: Option<bool>) -> (
    StepClock,
    u32,
    Option<bool>,
)
    decreases overrun,
{
    if overrun == 0 {
        (s, 0, gate)
    } else {
        let (s1, g1) = if s.remaining_us == 0 {
            spec_advance(s, c)
        } else {
            (s, None)
        };
        let g = latest(gate, g1);
        let seg = segment_len(s1.remaining_us);
        if overrun < seg {
            (s1, overrun, g)
        } else {
            let left = if s1.remaining_us == 0 {
                0u32
            } else {
                (s1.remaining_us - seg) as u32
            };
            let s2 = StepClock {
                missed_segments: s1.missed_segments.wrapping_add(1),
                remaining_us: left,
                ..s1
            };
            let (s3, g3) = if left == 0 {
                spec_advance(s2, c)
            } else {
                (s2, None)
            };
            spec_catch_up(s3, c, (overrun - seg) as u32, latest(g, g3))
        }
    }
}

/// Schedules the next segment to end `segment_len(remaining)` ticks after
/// `base`, on the wrapping 16-bit counter.
pub open spec fn spec_schedule(s: StepClock, base: u16) -> StepClock {
    let seg = segment_len(s.remaining_us);
    StepClock {
        remaining_us: if s.remaining_us == 0 {
            0u32
        } else {
            (s.remaining_us - seg) as u32
        },
        last_ccr1: base.wrapping_add(seg as u16),
        ..s
    }
}

impl StepClock {
    /// Runs the step boundary against the active cache `cache`.
    pub fn advance_step_boundary(&mut self, cache: &RtCache) -> (r: Option<bool>)
        requires
            old(self).wf(),
        ensures
            final(self).wf(),
            (*final(self), r) == spec_advance(*old(self), *cache),
    {
        let mut gate: Option<bool> = None;
        if self.playing {
            let step = self.next_step;
            self.current_step = step;
            self.step_flag = true;
            let cached = cache.lengths[REFERENCE_TRACK];
            let length: u8 = if cached > MAX_STEPS as u8 {
                MAX_STEPS as u8
            } else {
                cached
            };
            if length != 0 {
                self.next_step = (step + 1) % length;
                let mask = cache.gate_masks[REFERENCE_TRACK];
                gate = Some(mask & (1u16 << (step as u16)) != 0);
            }
        }
        self.remaining_us = self.interval.next_interval_us();
        gate
    }

    /// Programs the next segment from counter value `base`; returns the
    /// compare value.
    pub fn schedule_next_segment_from(&mut self, base: u16) -> (r: u16)
        ensures
            *final(self) == spec_schedule(*old(self), base),
            r == final(self).last_ccr1,
            r == base.wrapping_add(segment_len(old(self).remaining_us) as u16),
    {
        let remaining: u32 = if self.remaining_us == 0 {
            1
        } else {
            self.remaining_us
        };
        let segment: u16 = if remaining > MAX_SEGMENT_US {
            MAX_SEGMENT_US as u16
        } else {
            remaining as u16
        };
        self.remaining_us = remaining - segment as u32;
        let next = base.wrapping_add(segment);
        self.last_ccr1 = next;
        next
    }

    /// Retires the whole segments that `overrun` late microseconds cover;
    /// returns what is left of `overrun` and the last gate command.
    pub fn catch_up_overrun(&mut self, cache: &RtCache, overrun_us: u32) -> (r: (u32, Option<bool>))
        requires
            old(self).wf(),
        ensures
            final(self).wf(),
            (*final(self), r.0, r.1) == spec_catch_up(*old(self), *cache, overrun_us, None),
            r.0 <= overrun_us,
            r.0 == 0 || r.0 < segment_len(final(self).remaining_us),
    {
        proof {
            lemma_catch_up_left(*old(self), *cache, overrun_us, None);
        }
        let mut overrun = overrun_us;
        let mut gate: Option<bool> = None;
        let ghost goal = spec_catch_up(*self, *cache, overrun, None);
        while overrun != 0
            invariant
                self.wf(),
                goal == spec_catch_up(*old(self), *cache, overrun_us, None),
                goal.1 <= overrun_us,
                goal.1 == 0 || goal.1 < segment_len(goal.0.remaining_us),
                spec_catch_up(*self, *cache, overrun, gate) == goal,
            decreases overrun,
        {
            let ghost s0 = *self;
            let ghost g0 = gate;
            if self.remaining_us == 0 {
                let g = self.advance_step_boundary(cache);
                if g.is_some() {
                    gate = g;
                }
            }
            let remaining: u32 = if self.remaining_us == 0 {
                1
            } else {
                self.remaining_us
            };
            let seg: u32 = if remaining > MAX_SEGMENT_US {
                MAX_SEGMENT_US
            } else {
                remaining
            };
            if overrun < seg {
                assert(spec_catch_up(s0, *cache, overrun, g0) == (*self, overrun, gate));
                return (overrun, gate);
            }
            overrun = overrun - seg;
            self.missed_segments = self.missed_segments.wrapping_add(1);
            self.remaining_us = remaining - seg;
            if self.remaining_us == 0 {
                let g = self.advance_step_boundary(cache);
                if g.is_some() {
                    gate = g;
                }
            }
        }
        (0, gate)
    }

    /// Keeps the largest overrun seen.
    pub fn update_max_overrun(&mut self, overrun_us: u32)
        ensures
            *final(self) == (StepClock {
                max_overrun_us: if overrun_us > old(self).max_overrun_us {
                    overrun_us
                } else {
                    old(self).max_overrun_us
                },
                ..*old(self)
            }),
    {
        if overrun_us > self.max_overrun_us {
            self.max_overrun_us = overrun_us;
        }
    }
}

/// The compare-match interrupt at counter value `cnt`: note how late it came,
/// cross a step boundary if the segment ended one, retire whole segments that
/// the delay covers, then schedule the next segment from the corrected base.
pub open spec fn spec_on_compare(s: StepClock, c: RtCache, cnt: u16) -> (StepClock, TimerAction) {
    let overrun = cnt.wrapping_sub(s.last_ccr1) as u32;
    let s0 = StepClock {
        max_overrun_us: if overrun > s.max_overrun_us {
            overrun
        } else {
            s.max_overrun_us
        },
        ..s
    };
    let (s1, g1) = if s0.remaining_us == 0 {
        spec_advance(s0, c)
    } else {
        (s0, None)
    };
    let (s2, left, g2) = spec_catch_up(s1, c, overrun, None);
    let s3 = spec_schedule(s2, cnt.wrapping_sub(left as u16));
    (s3, TimerAction { compare: s3.last_ccr1, gate: latest(g1, g2) })
}

/// What catch-up leaves of an overrun is no more than the overrun, and short of
/// the next whole segment.
proof fn lemma_catch_up_left(s: StepClock, c: RtCache, overrun: u32, gate: Option<bool>)
    ensures
        spec_catch_up(s, c, overrun, gate).1 <= overrun,
        spec_catch_up(s, c, overrun, gate).1 == 0 || spec_catch_up(s, c, overrun, gate).1
            < segment_len(spec_catch_up(s, c, overrun, gate).0.remaining_us),
    decreases overrun,
{
    if overrun != 0 {
        let (s1, g1) = if s.remaining_us == 0 {
            spec_advance(s, c)
        } else {
            (s, None)
        };
        let g = latest(gate, g1);
        let seg = segment_len(s1.remaining_us);
        if overrun >= seg {
            let left = if s1.remaining_us == 0 {
                0u32
            } else {
                (s1.remaining_us - seg) as u32
            };
            let s2 = StepClock {
                missed_segments: s1.missed_segments.wrapping_add(1),
                remaining_us: left,
                ..s1
            };
            let (s3, g3) = if left == 0 {
                spec_advance(s2, c)
            } else {
                (s2, None)
            };
            lemma_catch_up_left(s3, c, (overrun - seg) as u32, latest(g, g3));
        }
    }
}

/// Segment bound at the interrupt: the compare value the handler programs lies
/// between one microsecond and the counter's span after the counter value it
/// was called at, however late it was called.
pub proof fn lemma_compare_delta_bounded(s: StepClock, c: RtCache, cnt: u16)
    ensures
        1 <= spec_on_compare(s, c, cnt).1.compare.wrapping_sub(cnt) <= MAX_SEGMENT_US,
{
    let overrun = cnt.wrapping_sub(s.last_ccr1) as u32;
    let s0 = StepClock {
        max_overrun_us: if overrun > s.max_overrun_us {
            overrun
        } else {
            s.max_overrun_us
        },
        ..s
    };
    let (s1, g1) = if s0.remaining_us == 0 {
        spec_advance(s0, c)
    } else {
        (s0, None)
    };
    let (s2, left, g2) = spec_catch_up(s1, c, overrun, None);
    lemma_catch_up_left(s1, c, overrun, None);
    lemma_segment_bound(s2.remaining_us);
    let seg = segment_len(s2.remaining_us);
    let base = cnt.wrapping_sub(left as u16);
    let compare = base.wrapping_add(seg as u16);
    assert(spec_on_compare(s, c, cnt).1.compare == compare);
    assert(compare.wrapping_sub(cnt) == seg - left);
}

/// The clock after a tempo change to `bpm` with the counter at `counter`: the
/// interval is recomputed with an empty accumulator and, while playing, a
/// fresh step is timed from `counter`.
pub open spec fn spec_set_bpm(s: StepClock, bpm: u32, counter: u16) -> StepClock {
    let s1 = StepClock { bpm, interval: interval_for(bpm, s.ppqn), ..s };
    if s.playing {
        let (iv, dur) = s1.interval.spec_next();
        spec_schedule(StepClock { interval: iv, remaining_us: dur, last_ccr1: counter, ..s1 }, counter)
    } else {
        s1
    }
}

/// The clock after playback starts with the counter reset to zero.
pub open spec fn spec_start(s: StepClock) -> StepClock {
    let (iv, dur) = (StepInterval { acc: 0, ..s.interval }).spec_next();
    spec_schedule(StepClock { playing: true, interval: iv, remaining_us: dur, last_ccr1: 0, ..s }, 0)
}

/// The clock after playback pauses.
pub open spec fn spec_pause(s: StepClock) -> StepClock {
    StepClock { playing: false, remaining_us: 0, ..s }
}

impl StepClock {
    /// Handles a compare-match at counter value `cnt`, reading gate data from
    /// the active buffer of `caches`.
    pub fn on_compare_match(&mut self, caches: &RtCachePair, cnt: u16) -> (r: TimerAction)
        requires
            old(self).wf(),
            caches.wf(),
        ensures
            final(self).wf(),
            (*final(self), r) == spec_on_compare(*old(self), observed(*caches), cnt),
            1 <= r.compare.wrapping_sub(cnt) <= MAX_SEGMENT_US,
    {
        proof {
            lemma_compare_delta_bounded(*old(self), observed(*caches), cnt);
        }
        let cache = caches.active_cache();
        let overrun = cnt.wrapping_sub(self.last_ccr1) as u32;
        self.update_max_overrun(overrun);
        let mut gate: Option<bool> = None;
        if self.remaining_us == 0 {
            gate = self.advance_step_boundary(cache);
        }
        let (left, later) = self.catch_up_overrun(cache, overrun);
        if later.is_some() {
            gate = later;
        }
        let base = cnt.wrapping_sub(left as u16);
        let compare = self.schedule_next_segment_from(base);
        TimerAction { compare, gate }
    }

    /// Takes the step-changed signal: whether a step advanced since the last
    /// call.
    pub fn take_step_changed(&mut self) -> (r: bool)
        ensures
            r == old(self).step_flag,
            *final(self) == (StepClock { step_flag: false, ..*old(self) }),
    {
        let r = self.step_flag;
        self.step_flag = false;
        r
    }
}

/// Changes the tempo with the counter at `counter`. While playing, the next
/// step is timed afresh from `counter` and the new compare value is returned.
pub fn set_bpm(clock: &mut StepClock, bpm: u32, counter: u16, dirty: &mut DirtyFlags) -> (r: Option<u16>)
    requires
        old(clock).wf(),
    ensures
        final(clock).wf(),
        *final(clock) == spec_set_bpm(*old(clock), bpm, counter),
        r == if old(clock).playing {
            Some(final(clock).last_ccr1)
        } else {
            None
        },
        final(dirty).bits == old(dirty).bits | DIRTY_BPM,
{
    clock.bpm = bpm;
    mark_dirty(dirty, DIRTY_BPM);
    clock.interval = step_interval_for(bpm, clock.ppqn);
    if clock.playing {
        clock.last_ccr1 = counter;
        clock.remaining_us = clock.interval.next_interval_us();
        Some(clock.schedule_next_segment_from(counter))
    } else {
        None
    }
}

/// Starts playback with the counter reset to zero; returns the first compare
/// value.
pub fn start_playback(clock: &mut StepClock) -> (r: u16)
    requires
        old(clock).wf(),
    ensures
        final(clock).wf(),
        *final(clock) == spec_start(*old(clock)),
        final(clock).playing,
        r == final(clock).last_ccr1,
{
    clock.playing = true;
    clock.interval.acc = 0;
    clock.last_ccr1 = 0;
    clock.remaining_us = clock.interval.next_interval_us();
    clock.schedule_next_segment_from(0)
}

/// Pauses playback; the caller disarms the timer and pulls the physical gate output low.
pub fn pause_playback(clock: &mut StepClock)
    ensures
        *final(clock) == spec_pause(*old(clock)),
        old(clock).wf() ==> final(clock).wf(),
{
    clock.playing = false;
    clock.remaining_us = 0;
}

/// Pauses when playing, starts otherwise; returns whether it now plays.
pub fn toggle_playback(clock: &mut StepClock) -> (r: bool)
    requires
        old(clock).wf(),
    ensures
        final(clock).wf(),
        r == !old(clock).playing,
        *final(clock) == if old(clock).playing {
            spec_pause(*old(clock))
        } else {
            spec_start(*old(clock))
        },
{
    if clock.playing {
        pause_playback(clock);
        false
    } else {
        start_playback(clock);
        true
    }
}

/// Returns the missed-segment count and the largest overrun seen, and resets
/// both.
pub fn take_overrun_stats(clock: &mut StepClock) -> (r: (u32, u32))
    ensures
        r == (old(clock).missed_segments, old(clock).max_overrun_us),
        *final(clock) == (StepClock { missed_segments: 0, max_overrun_us: 0, ..*old(clock) }),
{
    let missed_segments = clock.missed_segments;
    let max_overrun_us = clock.max_overrun_us;
    clock.missed_segments = 0;
    clock.max_overrun_us = 0;
    (missed_segments, max_overrun_us)
}

/// The clock after `n` step boundaries against the same cache.
pub open spec fn advanced(s: StepClock, c: RtCache, n: nat) -> StepClock
    decreases n,
{
    if n == 0 {
        s
    } else {
        spec_advance(advanced(s, c, (n - 1) as nat), c).0
    }
}

proof fn lemma_advanced_index(s: StepClock, c: RtCache, n: nat)
    requires
        s.playing,
        1 <= c.lengths[REFERENCE_TRACK as int] <= MAX_STEPS,
        s.next_step < c.lengths[REFERENCE_TRACK as int],
    ensures
        advanced(s, c, n).playing,
        advanced(s, c, n).next_step == (s.next_step + n) % (c.lengths[REFERENCE_TRACK as int] as int),
    decreases n,
{
    let len = c.lengths[REFERENCE_TRACK as int] as int;
    if n == 0 {
        vstd::arithmetic::div_mod::lemma_small_mod(s.next_step as nat, len as nat);
    } else {
        lemma_advanced_index(s, c, (n - 1) as nat);
        let prev = (s.next_step + n - 1) % len;
        vstd::arithmetic::div_mod::lemma_mod_bound(s.next_step + n - 1, len);
        vstd::arithmetic::div_mod::lemma_add_mod_noop_right(1, s.next_step + n - 1, len);
        assert(advanced(s, c, n).next_step == (prev + 1) % len);
    }
}

/// Modulo step advance: with the reference track's cached length `L` (1 to 16)
/// and playback running, the next-step index after successive step boundaries
/// never reaches `L` and repeats with period `L`.
pub proof fn lemma_step_advance_periodic(s: StepClock, c: RtCache, n: nat)
    requires
        s.playing,
        1 <= c.lengths[REFERENCE_TRACK as int] <= MAX_STEPS,
        s.next_step < c.lengths[REFERENCE_TRACK as int],
    ensures
        advanced(s, c, n).next_step < c.lengths[REFERENCE_TRACK as int],
        advanced(s, c, n + c.lengths[REFERENCE_TRACK as int] as nat).next_step == advanced(
            s,
            c,
            n,
        ).next_step,
{
    let len = c.lengths[REFERENCE_TRACK as int] as int;
    lemma_advanced_index(s, c, n);
    lemma_advanced_index(s, c, n + len as nat);
    vstd::arithmetic::div_mod::lemma_mod_bound(s.next_step + n, len);
    vstd::arithmetic::div_mod::lemma_mod_add_multiples_vanish(s.next_step + n, len);
    assert(s.next_step + (n + len) == len + (s.next_step + n));
}

} // verus!
