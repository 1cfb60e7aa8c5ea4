//! Tempo-independent musical time.

use vstd::prelude::*;

verus! {

/// Number of ticks in one quarter note.
pub const PULSES_PER_QUARTER_NOTE: u32 = 480;

/// Microseconds in one minute.
pub const MICROS_PER_MINUTE: u64 = 60_000_000;

/// Wall-clock length, in whole microseconds (rounded down), of `ticks` at
/// `bpm` quarter notes per minute.
pub open spec fn ticks_to_micros(ticks: int, bpm: int) -> int {
    ticks * MICROS_PER_MINUTE as int / (bpm * PULSES_PER_QUARTER_NOTE as int)
}

/// A point or a span in musical time, counted in ticks.
#[derive(Clone, Copy, PartialEq, Eq, Structural, Debug)]
pub struct MusicTime {
    pub ticks: u32,
}

impl MusicTime {
    /// The empty span.
    pub fn zero() -> (r: MusicTime)
        ensures
            r.ticks == 0,
    {
        MusicTime { ticks: 0 }
    }

    pub fn new(ticks: u32) -> (r: MusicTime)
        ensures
            r.ticks == ticks,
    {
        MusicTime { ticks }
    }

    /// Length of this span in microseconds at the given tempo.
    pub fn to_micros(&self, bpm: u32) -> (r: u64)
        requires
            bpm > 0,
        ensures
            r == ticks_to_micros(self.ticks as int, bpm as int),
    {
        let t = self.ticks as u64;
        let num: u64;
        assert(t * 60_000_000 <= 0xffff_ffffu64 * 60_000_000) by (nonlinear_arith)
            requires t <= 0xffff_ffffu64;
        num = t * MICROS_PER_MINUTE;
        let b = bpm as u64;
        assert(b * 480 <= 0xffff_ffffu64 * 480) by (nonlinear_arith)
            requires b <= 0xffff_ffffu64;
        let den: u64 = b * PULSES_PER_QUARTER_NOTE as u64;
        num / den
    }

    /// Sum of two spans, or `None` when it does not fit in a `u32`.
    pub fn checked_add(self, rhs: MusicTime) -> (r: Option<MusicTime>)
        ensures
            r is Some <==> self.ticks + rhs.ticks <= u32::MAX,
            r is Some ==> r->0.ticks == self.ticks + rhs.ticks,
    {
        match self.ticks.checked_add(rhs.ticks) {
            Some(t) => Some(MusicTime { ticks: t }),
            None => None,
        }
    }

    /// This span taken `factor` times, or `None` when it does not fit in a `u32`.
    pub fn checked_mul(self, factor: u32) -> (r: Option<MusicTime>)
        ensures
            r is Some <==> self.ticks * factor <= u32::MAX,
            r is Some ==> r->0.ticks == self.ticks * factor,
    {
        match self.ticks.checked_mul(factor) {
            Some(t) => Some(MusicTime { ticks: t }),
            None => None,
        }
    }

    /// This span divided by `divisor`, rounded down.
    pub fn divided(self, divisor: u32) -> (r: MusicTime)
        requires
            divisor > 0,
        ensures
            r.ticks == self.ticks / divisor,
    {
        MusicTime { ticks: self.ticks / divisor }
    }
}

/// Named note lengths.
#[derive(Clone, Copy, PartialEq, Eq, Structural, Debug)]
pub enum NoteDuration {
    Whole,
    Half,
    Quarter,
    Eighth,
    /// A triplet: a third of a whole note.
    Third,
}

/// Length in ticks of a named note length.
pub open spec fn duration_ticks(d: NoteDuration) -> int {
    match d {
        NoteDuration::Whole => 4 * PULSES_PER_QUARTER_NOTE as int,
        NoteDuration::Half => 2 * PULSES_PER_QUARTER_NOTE as int,
        NoteDuration::Quarter => PULSES_PER_QUARTER_NOTE as int,
        NoteDuration::Eighth => PULSES_PER_QUARTER_NOTE as int / 2,
        NoteDuration::Third => 4 * PULSES_PER_QUARTER_NOTE as int / 3,
    }
}

impl From<NoteDuration> for MusicTime {
    fn from(value: NoteDuration) -> (r: MusicTime) {
        match value {
            NoteDuration::Whole => MusicTime::new(4 * PULSES_PER_QUARTER_NOTE),
            NoteDuration::Half => MusicTime::new(2 * PULSES_PER_QUARTER_NOTE),
            NoteDuration::Quarter => MusicTime::new(PULSES_PER_QUARTER_NOTE),
            NoteDuration::Eighth => MusicTime::new(PULSES_PER_QUARTER_NOTE / 2),
            NoteDuration::Third => MusicTime::new(4 * PULSES_PER_QUARTER_NOTE / 3),
        }
    }
}

impl vstd::std_specs::convert::FromSpecImpl<NoteDuration> for MusicTime {
    open spec fn obeys_from_spec() -> bool {
        true
    }

    open spec fn from_spec(v: NoteDuration) -> MusicTime {
        MusicTime { ticks: duration_ticks(v) as u32 }
    }
}

/// A quarter note lasts one beat: at 60 beats per minute that is exactly one
/// second, at any tempo it is a minute divided by the tempo, and zero ticks
/// last no time at all.
pub proof fn lemma_quarter_note_is_one_beat(bpm: int)
    requires
        bpm > 0,
    ensures
        ticks_to_micros(PULSES_PER_QUARTER_NOTE as int, 60) == 1_000_000,
        ticks_to_micros(PULSES_PER_QUARTER_NOTE as int, bpm) == MICROS_PER_MINUTE as int / bpm,
        ticks_to_micros(0, bpm) == 0,
{
    let q = PULSES_PER_QUARTER_NOTE as int;
    let m = MICROS_PER_MINUTE as int;
    assert(q * m / (60 * q) == 1_000_000) by (nonlinear_arith)
        requires q == 480, m == 60_000_000;
    assert(q * m / (bpm * q) == m / bpm) by (nonlinear_arith)
        requires q == 480, m == 60_000_000, bpm > 0;
    assert(0 * m / (bpm * q) == 0) by (nonlinear_arith)
        requires q == 480, bpm > 0;
}

} // verus!
