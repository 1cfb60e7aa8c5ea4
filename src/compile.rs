//! The graph compiler: from a chain to a batch of timed play commands and an
//! effect wiring plan.

use vstd::prelude::*;
use crate::audio::{AudioEffect, Oscillator};
use crate::graph::{effects_in, first_oscillator, flatten_nodes, AudioGraph};
use crate::notes::{GenModel, Note, NoteEvent, NoteGenerator};
use crate::time::{ticks_to_micros, MusicTime, MICROS_PER_MINUTE, PULSES_PER_QUARTER_NOTE};
use vstd::arithmetic::div_mod::lemma_div_is_ordered;

verus! {

/// What the compiler needs besides the chain. Envelope and gain are handed
/// on to every play command untouched.
#[derive(Clone, Copy, PartialEq, Eq, Structural, Debug)]
pub struct AudioConfig {
    pub attack_micros: u64,
    pub release_micros: u64,
    /// How far ahead of "now" the batch must keep sound scheduled.
    pub max_schedule_ahead_micros: u64,
    /// Output gain, in thousandths.
    pub output_gain_milli: u32,
}

/// A place that sound flows from or to.
#[derive(Clone, Copy, PartialEq, Eq, Structural, Debug)]
pub enum Endpoint {
    /// The tone generator.
    Tone,
    /// The audio effect at this position of the batch's effect list.
    Effect(usize),
    /// The master output.
    Master,
}

/// Sound flows from `from` into `to`.
#[derive(Clone, Copy, PartialEq, Eq, Structural, Debug)]
pub struct Connection {
    pub from: Endpoint,
    pub to: Endpoint,
}

/// Play one tone of the given pitch at a wall-clock time.
#[derive(Clone, Copy, PartialEq, Eq, Structural, Debug)]
pub struct PlayCommand {
    pub note: Note,
    pub start_micros: u64,
    pub duration_micros: u64,
    pub attack_micros: u64,
    pub release_micros: u64,
    pub gain_milli: u32,
}

/// Everything the audio backend needs to play a chain.
#[derive(Clone, Debug, PartialEq, Eq)]
pub struct CommandBatch {
    pub tone: Oscillator,
    pub effects: Vec<AudioEffect>,
    pub wiring: Vec<Connection>,
    pub plays: Vec<PlayCommand>,
}

/// What a batch holds.
pub struct BatchModel {
    pub tone: Oscillator,
    pub effects: Seq<AudioEffect>,
    pub wiring: Seq<Connection>,
    pub plays: Seq<PlayCommand>,
}

impl View for CommandBatch {
    type V = BatchModel;

    open spec fn view(&self) -> BatchModel {
        BatchModel {
            tone: self.tone,
            effects: self.effects@,
            wiring: self.wiring@,
            plays: self.plays@,
        }
    }
}

/// Why a chain could not be compiled.
#[derive(Clone, Copy, PartialEq, Eq, Structural, Debug)]
pub enum CompileError {
    /// The tempo is zero.
    ZeroTempo,
    /// The chain has no tone generator.
    NoOscillator,
    /// A pitch or a tick count left its integer type while the chain was
    /// folded into one loop.
    OutOfRange,
    /// A start time does not fit in a `u64` of microseconds.
    TimeOverflow,
}

/// Effects wired in order: the tone generator into the first effect, each
/// effect into the next, the last into the master output; with no effects,
/// the tone generator straight into the master output.
pub open spec fn wiring_for(n: nat) -> Seq<Connection> {
    if n == 0 {
        seq![Connection { from: Endpoint::Tone, to: Endpoint::Master }]
    } else {
        seq![Connection { from: Endpoint::Tone, to: Endpoint::Effect(0) }] + Seq::new(
            (n - 1) as nat,
            |i: int| Connection { from: Endpoint::Effect(i as usize), to: Endpoint::Effect((i + 1) as usize) },
        ) + seq![Connection { from: Endpoint::Effect((n - 1) as usize), to: Endpoint::Master }]
    }
}

/// How many times a loop of `loop_micros` is repeated to cover `window`
/// microseconds: the window divided by the loop length, rounded up, and at
/// least once.
pub open spec fn repeat_count(loop_micros: int, window: int) -> int {
    if window <= 0 {
        1
    } else {
        (window - 1) / loop_micros + 1
    }
}

/// The repeats cover the window and no more than needed: together they last
/// at least the window, and all but the last of them last less than it.
pub proof fn lemma_repeat_count_covers_window(loop_micros: int, window: int)
    requires
        loop_micros > 0,
        window >= 0,
    ensures
        repeat_count(loop_micros, window) >= 1,
        repeat_count(loop_micros, window) * loop_micros >= window,
        window > 0 ==> (repeat_count(loop_micros, window) - 1) * loop_micros < window,
        (repeat_count(loop_micros, window) - 1) * loop_micros <= window,
{
    if window > 0 {
        let q = (window - 1) / loop_micros;
        assert(q * loop_micros <= window - 1 && (q + 1) * loop_micros >= window) by (nonlinear_arith)
            requires
                q == (window - 1) / loop_micros,
                loop_micros > 0,
                window > 0,
        ;
        assert(q >= 0) by (nonlinear_arith)
            requires
                q == (window - 1) / loop_micros,
                loop_micros > 0,
                window > 0,
        ;
    }
}

/// The command playing `n` moved later by `shift` ticks: the shifted tick
/// is converted to microseconds once and counted from `now`.
pub open spec fn command_for(n: NoteEvent, now: int, shift: int, bpm: int, cfg: AudioConfig) -> PlayCommand {
    PlayCommand {
        note: n.note,
        start_micros: (now + ticks_to_micros(n.start.ticks + shift, bpm)) as u64,
        duration_micros: ticks_to_micros(n.duration.ticks as int, bpm) as u64,
        attack_micros: cfg.attack_micros,
        release_micros: cfg.release_micros,
        gain_milli: cfg.output_gain_milli,
    }
}

/// The commands of one repeat of `notes`, moved later by `shift` ticks.
pub open spec fn round_commands(
    notes: Seq<NoteEvent>,
    now: int,
    shift: int,
    bpm: int,
    cfg: AudioConfig,
) -> Seq<PlayCommand> {
    notes.map_values(|n: NoteEvent| command_for(n, now, shift, bpm, cfg))
}

/// The commands of the first `r` repeats of a loop of `loop_ticks` ticks,
/// repeat `k` moved later by `k * loop_ticks` ticks.
pub open spec fn repeated_commands(
    notes: Seq<NoteEvent>,
    now: int,
    loop_ticks: int,
    bpm: int,
    cfg: AudioConfig,
    r: int,
) -> Seq<PlayCommand>
    decreases r,
{
    if r <= 0 {
        Seq::empty()
    } else {
        repeated_commands(notes, now, loop_ticks, bpm, cfg, r - 1) + round_commands(
            notes,
            now,
            (r - 1) * loop_ticks,
            bpm,
            cfg,
        )
    }
}

/// Do the start times of the repeat moved by `last_shift` ticks fit in a
/// `u64`?
pub open spec fn times_fit(notes: Seq<NoteEvent>, now: int, last_shift: int, bpm: int) -> bool {
    forall|j: int|
        0 <= j < notes.len() ==> now + ticks_to_micros(#[trigger] notes[j].start.ticks + last_shift, bpm)
            <= u64::MAX
}

/// The play commands for one flattened loop `g`; `None` when a start time
/// does not fit. A loop that lasts less than a microsecond gives no
/// commands.
pub open spec fn plays_for(g: GenModel, bpm: int, cfg: AudioConfig, now: int) -> Option<
    Seq<PlayCommand>,
> {
    let l = ticks_to_micros(g.loop_length as int, bpm);
    if l == 0 {
        Some(Seq::empty())
    } else {
        let r = repeat_count(l, cfg.max_schedule_ahead_micros as int);
        if times_fit(g.notes, now, (r - 1) * g.loop_length, bpm) {
            Some(repeated_commands(g.notes, now, g.loop_length as int, bpm, cfg, r))
        } else {
            None
        }
    }
}

/// Converting ticks to microseconds keeps their order.
proof fn lemma_micros_monotone(a: int, b: int, bpm: int)
    requires
        0 <= a <= b,
        bpm > 0,
    ensures
        0 <= ticks_to_micros(a, bpm) <= ticks_to_micros(b, bpm),
{
    let c = MICROS_PER_MINUTE as int;
    let d = bpm * PULSES_PER_QUARTER_NOTE as int;
    assert(0 <= a * c <= b * c) by (nonlinear_arith)
        requires 0 <= a <= b, c > 0;
    assert(d > 0) by (nonlinear_arith)
        requires bpm > 0, d == bpm * 480;
    lemma_div_is_ordered(a * c, b * c, d);
    assert(0 <= (a * c) / d) by (nonlinear_arith)
        requires a * c >= 0, d > 0;
}

/// `k` loops converted at once last at least `k` times one loop converted.
proof fn lemma_micros_of_repeats(k: int, loop_ticks: int, bpm: int)
    requires
        k >= 0,
        loop_ticks >= 0,
        bpm > 0,
    ensures
        ticks_to_micros(k * loop_ticks, bpm) >= k * ticks_to_micros(loop_ticks, bpm),
{
    let c = MICROS_PER_MINUTE as int;
    let d = bpm * PULSES_PER_QUARTER_NOTE as int;
    let q = loop_ticks * c / d;
    assert(d > 0) by (nonlinear_arith)
        requires bpm > 0, d == bpm * 480;
    assert(q * d <= loop_ticks * c) by (nonlinear_arith)
        requires q == loop_ticks * c / d, d > 0;
    assert((k * q) * d <= (k * loop_ticks) * c) by (nonlinear_arith)
        requires q * d <= loop_ticks * c, k >= 0;
    lemma_div_is_ordered((k * q) * d, (k * loop_ticks) * c, d);
    assert((k * q) * d / d == k * q) by (nonlinear_arith)
        requires d > 0;
}

/// What compiling the chain `nodes` gives.
pub open spec fn compile_model(nodes: Seq<crate::graph::AudioNode>, bpm: int, cfg: AudioConfig, now: int) -> Result<
    BatchModel,
    CompileError,
> {
    if bpm == 0 {
        Err(CompileError::ZeroTempo)
    } else {
        match first_oscillator(nodes) {
            None => Err(CompileError::NoOscillator),
            Some(tone) => match flatten_nodes(nodes) {
                None => Err(CompileError::OutOfRange),
                Some(g) => match plays_for(g, bpm, cfg, now) {
                    None => Err(CompileError::TimeOverflow),
                    Some(plays) => Ok(
                        BatchModel {
                            tone,
                            effects: effects_in(nodes),
                            wiring: wiring_for(effects_in(nodes).len()),
                            plays,
                        },
                    ),
                },
            },
        }
    }
}

/// The wiring plan for `n` effects (see [`wiring_for`]).
pub fn wire_effects(n: usize) -> (r: Vec<Connection>)
    ensures
        r@ == wiring_for(n as nat),
{
    let mut r: Vec<Connection> = Vec::new();
    if n == 0 {
        r.push(Connection { from: Endpoint::Tone, to: Endpoint::Master });
        assert(r@ =~= wiring_for(0));
        return r;
    }
    r.push(Connection { from: Endpoint::Tone, to: Endpoint::Effect(0) });
    let mut i: usize = 1;
    while i < n
        invariant
            1 <= i <= n,
            r@ =~= seq![Connection { from: Endpoint::Tone, to: Endpoint::Effect(0) }] + Seq::new(
                (i - 1) as nat,
                |k: int| Connection { from: Endpoint::Effect(k as usize), to: Endpoint::Effect((k + 1) as usize) },
            ),
        decreases n - i,
    {
        r.push(Connection { from: Endpoint::Effect(i - 1), to: Endpoint::Effect(i) });
        i += 1;
    }
    r.push(Connection { from: Endpoint::Effect(n - 1), to: Endpoint::Master });
    assert(r@ =~= wiring_for(n as nat));
    r
}

/// Microseconds from the epoch to `start` ticks moved by `shift` ticks.
fn shifted_micros(start: MusicTime, shift: u128, bpm: u32) -> (r: u128)
    requires
        bpm > 0,
        shift <= 0x1_0000_0000_0000_0000_0000_0000u128,
    ensures
        r == ticks_to_micros(start.ticks + shift, bpm as int),
{
    let t: u128 = start.ticks as u128 + shift;
    assert(t * 60_000_000 <= 0x2_0000_0000_0000_0000_0000_0000u128 * 60_000_000) by (nonlinear_arith)
        requires t <= 0x2_0000_0000_0000_0000_0000_0000u128;
    let num: u128 = t * MICROS_PER_MINUTE as u128;
    let b: u128 = bpm as u128;
    assert(b * 480 <= 0xffff_ffffu128 * 480) by (nonlinear_arith)
        requires b <= 0xffff_ffffu128;
    let den: u128 = b * PULSES_PER_QUARTER_NOTE as u128;
    num / den
}

/// The play commands for one flattened loop (see [`plays_for`]).
pub fn schedule_plays(g: &NoteGenerator, bpm: u32, cfg: &AudioConfig, now: u64) -> (r: Option<
    Vec<PlayCommand>,
>)
    requires
        bpm > 0,
    ensures
        match plays_for(g@, bpm as int, *cfg, now as int) {
            Some(p) => r matches Some(v) && v@ == p,
            None => r is None,
        },
{
    let l = g.loop_length.to_micros(bpm);
    if l == 0 {
        return Some(Vec::new());
    }
    let w = cfg.max_schedule_ahead_micros;
    let repeats: u64 = if w == 0 {
        1
    } else {
        (w - 1) / l + 1
    };
    proof {
        assert(repeats == repeat_count(l as int, w as int));
        lemma_repeat_count_covers_window(l as int, w as int);
    }
    let loop_ticks: u128 = g.loop_length.ticks as u128;
    assert((repeats - 1) as u128 * loop_ticks <= 0x1_0000_0000_0000_0000_0000_0000u128) by (nonlinear_arith)
        requires repeats >= 1, repeats <= u64::MAX, loop_ticks <= u32::MAX;
    let last_shift: u128 = (repeats - 1) as u128 * loop_ticks;
    let notes = &g.notes;
    let n = notes.len();
    let mut j: usize = 0;
    while j < n
        invariant
            n == notes@.len(),
            notes@ == g@.notes,
            j <= n,
            bpm > 0,
            l > 0,
            l == ticks_to_micros(g@.loop_length as int, bpm as int),
            repeats == repeat_count(l as int, cfg.max_schedule_ahead_micros as int),
            last_shift == (repeats - 1) * g@.loop_length,
            last_shift <= 0x1_0000_0000_0000_0000_0000_0000u128,
            forall|jj: int|
                0 <= jj < j ==> now + ticks_to_micros(
                    #[trigger] notes@[jj].start.ticks + last_shift,
                    bpm as int,
                ) <= u64::MAX,
        decreases n - j,
    {
        let us = shifted_micros(notes[j].start, last_shift, bpm);
        if us > (u64::MAX - now) as u128 {
            proof {
                assert(now + ticks_to_micros(notes@[j as int].start.ticks + last_shift, bpm as int) > u64::MAX);
                assert(!times_fit(g@.notes, now as int, (repeats - 1) * g@.loop_length, bpm as int));
            }
            return None;
        }
        j += 1;
    }
    assert(times_fit(g@.notes, now as int, (repeats - 1) * g@.loop_length, bpm as int));
    let mut plays: Vec<PlayCommand> = Vec::new();
    let mut k: u64 = 0;
    while k < repeats
        invariant
            n == notes@.len(),
            notes@ == g@.notes,
            bpm > 0,
            loop_ticks == g@.loop_length,
            last_shift == (repeats - 1) * g@.loop_length,
            last_shift <= 0x1_0000_0000_0000_0000_0000_0000u128,
            k <= repeats,
            times_fit(notes@, now as int, last_shift as int, bpm as int),
            plays@ == repeated_commands(notes@, now as int, loop_ticks as int, bpm as int, *cfg, k as int),
        decreases repeats - k,
    {
        assert(k as u128 * loop_ticks <= last_shift) by (nonlinear_arith)
            requires k < repeats, last_shift == (repeats - 1) * loop_ticks, loop_ticks >= 0;
        let shift: u128 = k as u128 * loop_ticks;
        let ghost before = plays@;
        let mut jn: usize = 0;
        while jn < n
            invariant
                n == notes@.len(),
                bpm > 0,
                shift <= last_shift,
                last_shift <= 0x1_0000_0000_0000_0000_0000_0000u128,
                jn <= n,
                times_fit(notes@, now as int, last_shift as int, bpm as int),
                plays@ == before + round_commands(
                    notes@.take(jn as int),
                    now as int,
                    shift as int,
                    bpm as int,
                    *cfg,
                ),
            decreases n - jn,
        {
            let e = notes[jn];
            let us = shifted_micros(e.start, shift, bpm);
            proof {
                lemma_micros_monotone(e.start.ticks + shift, e.start.ticks + last_shift, bpm as int);
                assert(now + ticks_to_micros(notes@[jn as int].start.ticks + last_shift, bpm as int) <= u64::MAX);
            }
            let d_us = e.duration.to_micros(bpm);
            plays.push(
                PlayCommand {
                    note: e.note,
                    start_micros: now + us as u64,
                    duration_micros: d_us,
                    attack_micros: cfg.attack_micros,
                    release_micros: cfg.release_micros,
                    gain_milli: cfg.output_gain_milli,
                },
            );
            proof {
                assert(notes@.take(jn + 1) =~= notes@.take(jn as int).push(e));
                assert(round_commands(notes@.take(jn + 1), now as int, shift as int, bpm as int, *cfg)
                    =~= round_commands(notes@.take(jn as int), now as int, shift as int, bpm as int, *cfg).push(
                    command_for(e, now as int, shift as int, bpm as int, *cfg),
                ));
            }
            jn += 1;
        }
        proof {
            assert(notes@.take(jn as int) =~= notes@);
        }
        k += 1;
    }
    Some(plays)
}

/// Compile a chain at tempo `bpm` for playback starting at `now` (see
/// [`compile_model`]).
pub fn compile_graph(graph: &AudioGraph, bpm: u32, cfg: &AudioConfig, now: u64) -> (r: Result<
    CommandBatch,
    CompileError,
>)
    ensures
        match compile_model(graph@, bpm as int, *cfg, now as int) {
            Ok(m) => r matches Ok(b) && b@ == m,
            Err(e) => r == Err::<CommandBatch, CompileError>(e),
        },
{
    if bpm == 0 {
        return Err(CompileError::ZeroTempo);
    }
    let tone = match graph.oscillator() {
        Some(o) => o,
        None => return Err(CompileError::NoOscillator),
    };
    let effects = graph.audio_effects();
    let wiring = wire_effects(effects.len());
    let generator = match graph.process_note_generators() {
        Some(g) => g,
        None => return Err(CompileError::OutOfRange),
    };
    match schedule_plays(&generator, bpm, cfg, now) {
        Some(plays) => Ok(CommandBatch { tone, effects, wiring, plays }),
        None => Err(CompileError::TimeOverflow),
    }
}

proof fn lemma_repeated_commands_shape(
    notes: Seq<NoteEvent>,
    now: int,
    loop_ticks: int,
    bpm: int,
    cfg: AudioConfig,
    r: int,
)
    requires
        r >= 0,
    ensures
        repeated_commands(notes, now, loop_ticks, bpm, cfg, r).len() == r * notes.len(),
        forall|k: int, j: int|
            0 <= k < r && 0 <= j < notes.len() ==> #[trigger] repeated_commands(
                notes,
                now,
                loop_ticks,
                bpm,
                cfg,
                r,
            )[k * notes.len() + j] == command_for(notes[j], now, k * loop_ticks, bpm, cfg),
    decreases r,
{
    let n = notes.len() as int;
    if r > 0 {
        lemma_repeated_commands_shape(notes, now, loop_ticks, bpm, cfg, r - 1);
        let prev = repeated_commands(notes, now, loop_ticks, bpm, cfg, r - 1);
        let all = repeated_commands(notes, now, loop_ticks, bpm, cfg, r);
        assert((r - 1) * n + n == r * n) by (nonlinear_arith);
        assert forall|k: int, j: int| 0 <= k < r && 0 <= j < n implies #[trigger] all[k * n + j]
            == command_for(notes[j], now, k * loop_ticks, bpm, cfg) by {
            if k < r - 1 {
                assert(k * n + j < (r - 1) * n) by (nonlinear_arith)
                    requires 0 <= k < r - 1, 0 <= j < n;
                assert(0 <= k * n + j) by (nonlinear_arith)
                    requires 0 <= k, 0 <= j, n >= 0;
                assert(all[k * n + j] == prev[k * n + j]);
            } else {
                assert(k * n + j - (r - 1) * n == j) by (nonlinear_arith)
                    requires k == r - 1;
            }
        }
    }
}

/// Lookahead: for a loop of `L` ticks that lasts `l > 0` microseconds, the
/// batch repeats the loop `R = ceil(W / l)` times (at least once) for a
/// window of `W`, which covers the window. It holds exactly `R` commands per
/// note; the command for note `j` in repeat `k` starts at "now" plus the
/// note's tick moved by `k * L`, converted once, so no command of repeat `k`
/// starts earlier than `k * L` ticks, nor `k * l` microseconds, after "now".
pub proof fn lemma_lookahead_schedule(g: GenModel, bpm: int, cfg: AudioConfig, now: int)
    requires
        bpm > 0,
        now >= 0,
        ticks_to_micros(g.loop_length as int, bpm) > 0,
        plays_for(g, bpm, cfg, now) is Some,
    ensures
        ({
            let l = ticks_to_micros(g.loop_length as int, bpm);
            let r = repeat_count(l, cfg.max_schedule_ahead_micros as int);
            let plays = plays_for(g, bpm, cfg, now)->0;
            &&& r >= 1
            &&& r * l >= cfg.max_schedule_ahead_micros
            &&& plays.len() == r * g.notes.len()
            &&& forall|k: int, j: int|
                0 <= k < r && 0 <= j < g.notes.len() ==> (#[trigger] plays[k * g.notes.len() + j]).start_micros
                    == now + ticks_to_micros(g.notes[j].start.ticks + k * g.loop_length, bpm)
                    && plays[k * g.notes.len() + j].start_micros >= now + ticks_to_micros(
                    k * g.loop_length,
                    bpm,
                ) && plays[k * g.notes.len() + j].start_micros >= now + k * l
                    && plays[k * g.notes.len() + j].note == g.notes[j].note
        }),
{
    let l = ticks_to_micros(g.loop_length as int, bpm);
    let w = cfg.max_schedule_ahead_micros as int;
    let r = repeat_count(l, w);
    let n = g.notes.len() as int;
    let lt = g.loop_length as int;
    lemma_repeat_count_covers_window(l, w);
    lemma_repeated_commands_shape(g.notes, now, lt, bpm, cfg, r);
    let plays = plays_for(g, bpm, cfg, now)->0;
    assert forall|k: int, j: int| 0 <= k < r && 0 <= j < n implies (#[trigger] plays[k * n + j]).start_micros
        == now + ticks_to_micros(g.notes[j].start.ticks + k * lt, bpm) && plays[k * n + j].start_micros
        >= now + ticks_to_micros(k * lt, bpm) && plays[k * n + j].start_micros >= now + k * l
        && plays[k * n + j].note == g.notes[j].note by {
        let s = g.notes[j].start.ticks as int;
        assert(k * lt <= (r - 1) * lt && 0 <= k * lt) by (nonlinear_arith)
            requires 0 <= k <= r - 1, lt >= 0;
        lemma_micros_monotone(s + k * lt, s + (r - 1) * lt, bpm);
        lemma_micros_monotone(k * lt, s + k * lt, bpm);
        lemma_micros_of_repeats(k, lt, bpm);
        assert(now + ticks_to_micros(s + (r - 1) * lt, bpm) <= u64::MAX);
    }
}

/// Compiling is deterministic: two graphs that hold the same nodes (a graph
/// and any copy of it), compiled with the same tempo, configuration and
/// "now", give identical results.
pub proof fn lemma_compile_deterministic(
    a: Seq<crate::graph::AudioNode>,
    b: Seq<crate::graph::AudioNode>,
    bpm: int,
    cfg: AudioConfig,
    now: int,
)
    requires
        crate::graph::same_nodes(a, b),
    ensures
        compile_model(a, bpm, cfg, now) == compile_model(b, bpm, cfg, now),
{
    crate::graph::lemma_same_nodes_same_parts(a, b);
}

} // verus!
