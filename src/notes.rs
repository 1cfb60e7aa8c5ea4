//! Pitches, note events and note generators.

use vstd::prelude::*;
use crate::time::{MusicTime, NoteDuration, PULSES_PER_QUARTER_NOTE};

verus! {

/// The twelve pitch classes.
#[derive(Clone, Copy, PartialEq, Eq, Structural, Debug)]
pub enum NoteName {
    C,
    CSharp,
    D,
    DSharp,
    E,
    F,
    FSharp,
    G,
    GSharp,
    A,
    ASharp,
    B,
}

/// Semitones from C up to the pitch class, in `0..12`.
pub open spec fn note_index(n: NoteName) -> int {
    match n {
        NoteName::C => 0,
        NoteName::CSharp => 1,
        NoteName::D => 2,
        NoteName::DSharp => 3,
        NoteName::E => 4,
        NoteName::F => 5,
        NoteName::FSharp => 6,
        NoteName::G => 7,
        NoteName::GSharp => 8,
        NoteName::A => 9,
        NoteName::ASharp => 10,
        NoteName::B => 11,
    }
}

/// The pitch class `i` semitones above C, for `i` in `0..12`.
pub open spec fn note_of_index(i: int) -> NoteName {
    if i == 0 {
        NoteName::C
    } else if i == 1 {
        NoteName::CSharp
    } else if i == 2 {
        NoteName::D
    } else if i == 3 {
        NoteName::DSharp
    } else if i == 4 {
        NoteName::E
    } else if i == 5 {
        NoteName::F
    } else if i == 6 {
        NoteName::FSharp
    } else if i == 7 {
        NoteName::G
    } else if i == 8 {
        NoteName::GSharp
    } else if i == 9 {
        NoteName::A
    } else if i == 10 {
        NoteName::ASharp
    } else {
        NoteName::B
    }
}

impl NoteName {
    /// The pitch class `i mod 12` semitones above C.
    pub fn from_int(i: u32) -> (r: NoteName)
        ensures
            note_index(r) == i % 12,
            r == note_of_index((i % 12) as int),
    {
        match i % 12 {
            0 => NoteName::C,
            1 => NoteName::CSharp,
            2 => NoteName::D,
            3 => NoteName::DSharp,
            4 => NoteName::E,
            5 => NoteName::F,
            6 => NoteName::FSharp,
            7 => NoteName::G,
            8 => NoteName::GSharp,
            9 => NoteName::A,
            10 => NoteName::ASharp,
            _ => NoteName::B,
        }
    }

    pub fn to_int(&self) -> (r: i32)
        ensures
            r == note_index(*self),
            0 <= r < 12,
    {
        match self {
            NoteName::C => 0,
            NoteName::CSharp => 1,
            NoteName::D => 2,
            NoteName::DSharp => 3,
            NoteName::E => 4,
            NoteName::F => 5,
            NoteName::FSharp => 6,
            NoteName::G => 7,
            NoteName::GSharp => 8,
            NoteName::A => 9,
            NoteName::ASharp => 10,
            NoteName::B => 11,
        }
    }
}

/// A pitch: an octave and a pitch class.
#[derive(Clone, Copy, PartialEq, Eq, Structural, Debug)]
pub struct Note {
    pub octave: i32,
    pub note_name: NoteName,
}

/// Does `p` fit in an `i32`?
pub open spec fn fits_i32(p: int) -> bool {
    i32::MIN <= p <= i32::MAX
}

/// The note `p` semitones above C of octave 0.
pub open spec fn note_of_pitch(p: int) -> Note {
    Note { octave: (p / 12) as i32, note_name: note_of_index(p % 12) }
}

impl Note {
    /// Semitones above C of octave 0.
    pub open spec fn pitch(self) -> int {
        self.octave * 12 + note_index(self.note_name)
    }

    pub fn new(octave: i32, note_name: NoteName) -> (r: Note)
        ensures
            r.octave == octave,
            r.note_name == note_name,
    {
        Note { octave, note_name }
    }

    /// The note `semitones` semitones above this one (below, if negative).
    pub fn shift(&self, semitones: i32) -> (r: Note)
        requires
            fits_i32(self.pitch()),
            fits_i32(self.pitch() + semitones),
        ensures
            r.pitch() == self.pitch() + semitones,
            r == note_of_pitch(self.pitch() + semitones),
    {
        let s = self.to_semitones();
        Note::from_semitones(s + semitones)
    }

    pub fn to_semitones(&self) -> (r: i32)
        requires
            fits_i32(self.pitch()),
        ensures
            r == self.pitch(),
    {
        let wide: i64 = self.octave as i64 * 12 + self.note_name.to_int() as i64;
        wide as i32
    }

    /// The note `semitones` semitones above C of octave 0.
    pub fn from_semitones(semitones: i32) -> (r: Note)
        ensures
            r.pitch() == semitones,
            r == note_of_pitch(semitones as int),
    {
        let note_i = semitones.checked_rem_euclid(12).unwrap();
        let octave_wide: i64 = (semitones as i64 - note_i as i64) / 12;
        proof {
            let s = semitones as int;
            assert(s == (s / 12) * 12 + s % 12);
            assert((s - s % 12) / 12 == s / 12) by (nonlinear_arith)
                requires s == (s / 12) * 12 + s % 12;
            assert(i32::MIN / 12 <= s / 12 <= i32::MAX / 12) by (nonlinear_arith)
                requires i32::MIN <= s <= i32::MAX;
        }
        Note { octave: octave_wide as i32, note_name: NoteName::from_int(note_i as u32) }
    }
}

/// One note played at a time in a loop.
#[derive(Clone, Copy, PartialEq, Eq, Structural, Debug)]
pub struct NoteEvent {
    pub note: Note,
    pub start: MusicTime,
    pub duration: MusicTime,
}

/// `e` moved later by `by` ticks.
pub open spec fn shifted_event(e: NoteEvent, by: int) -> NoteEvent {
    NoteEvent { start: MusicTime { ticks: (e.start.ticks + by) as u32 }, ..e }
}

/// Can every event of `s` be moved later by `by` ticks without leaving `u32`?
pub open spec fn shift_fits(s: Seq<NoteEvent>, by: int) -> bool {
    forall|j: int| 0 <= j < s.len() ==> #[trigger] s[j].start.ticks + by <= u32::MAX
}

/// Every event of `s` moved later by `by` ticks.
pub open spec fn shift_events(s: Seq<NoteEvent>, by: int) -> Seq<NoteEvent> {
    s.map_values(|e: NoteEvent| shifted_event(e, by))
}

impl NoteEvent {
    pub fn new(note: Note, start: MusicTime, duration: MusicTime) -> (r: NoteEvent)
        ensures
            r == (NoteEvent { note, start, duration }),
    {
        NoteEvent { note, start, duration }
    }

    /// This event moved later by `time`.
    pub fn shifted(&self, time: MusicTime) -> (r: NoteEvent)
        requires
            self.start.ticks + time.ticks <= u32::MAX,
        ensures
            r == shifted_event(*self, time.ticks as int),
    {
        NoteEvent { start: MusicTime { ticks: self.start.ticks + time.ticks }, ..*self }
    }
}

/// What a note generator holds: one loop of note events.
pub struct GenModel {
    pub loop_length: u32,
    pub notes: Seq<NoteEvent>,
}

/// One repeating bar of musical material.
#[derive(Clone, Debug, PartialEq, Eq)]
pub struct NoteGenerator {
    pub loop_length: MusicTime,
    pub notes: Vec<NoteEvent>,
}

impl View for NoteGenerator {
    type V = GenModel;

    open spec fn view(&self) -> GenModel {
        GenModel { loop_length: self.loop_length.ticks, notes: self.notes@ }
    }
}

/// The generators of `gs` played one after the other as one loop: loop lengths
/// add up, and the events of each generator are moved later by the loop
/// lengths of all generators before it. `None` when a tick count would not fit
/// in a `u32`.
pub open spec fn combine_models(gs: Seq<GenModel>) -> Option<GenModel>
    decreases gs.len(),
{
    if gs.len() == 0 {
        Some(GenModel { loop_length: 0, notes: Seq::empty() })
    } else {
        match combine_models(gs.drop_last()) {
            None => None,
            Some(c) => {
                let g = gs.last();
                if c.loop_length + g.loop_length <= u32::MAX && shift_fits(
                    g.notes,
                    c.loop_length as int,
                ) {
                    Some(
                        GenModel {
                            loop_length: (c.loop_length + g.loop_length) as u32,
                            notes: c.notes + shift_events(g.notes, c.loop_length as int),
                        },
                    )
                } else {
                    None
                }
            },
        }
    }
}

/// Views of a sequence of generators.
pub open spec fn gen_views(gs: Seq<NoteGenerator>) -> Seq<GenModel> {
    gs.map_values(|g: NoteGenerator| g@)
}

impl NoteGenerator {
    pub fn new(loop_length: MusicTime, notes: Vec<NoteEvent>) -> (r: NoteGenerator)
        ensures
            r.loop_length == loop_length,
            r.notes@ == notes@,
    {
        NoteGenerator { loop_length, notes }
    }

    /// A copy of this generator.
    pub fn duplicate(&self) -> (r: NoteGenerator)
        ensures
            r@ == self@,
    {
        let mut notes: Vec<NoteEvent> = Vec::new();
        let mut i: usize = 0;
        while i < self.notes.len()
            invariant
                i <= self.notes.len(),
                notes@ == self.notes@.take(i as int),
            decreases self.notes.len() - i,
        {
            notes.push(self.notes[i]);
            proof {
                assert(self.notes@.take(i + 1) =~= self.notes@.take(i as int).push(self.notes@[i as int]));
            }
            i += 1;
        }
        proof {
            assert(self.notes@.take(i as int) =~= self.notes@);
        }
        NoteGenerator { loop_length: self.loop_length, notes }
    }

    /// Whether two generators hold the same loop.
    pub fn same_as(&self, other: &NoteGenerator) -> (r: bool)
        ensures
            r == (self@ == other@),
    {
        if self.loop_length.ticks != other.loop_length.ticks || self.notes.len() != other.notes.len() {
            return false;
        }
        let mut i: usize = 0;
        while i < self.notes.len()
            invariant
                i <= self.notes.len(),
                self.notes@.len() == other.notes@.len(),
                forall|k: int| 0 <= k < i ==> self.notes@[k] == other.notes@[k],
            decreases self.notes.len() - i,
        {
            if self.notes[i] != other.notes[i] {
                return false;
            }
            i += 1;
        }
        assert(self.notes@ =~= other.notes@);
        true
    }

    /// One quarter note of the given pitch class in octave 3, repeating every
    /// quarter note.
    pub fn from_note_name(note_name: NoteName) -> (r: NoteGenerator)
        ensures
            r.loop_length.ticks == PULSES_PER_QUARTER_NOTE,
            r.notes@ == seq![
                NoteEvent {
                    note: Note { octave: 3, note_name },
                    start: MusicTime { ticks: 0 },
                    duration: MusicTime { ticks: PULSES_PER_QUARTER_NOTE },
                },
            ],
    {
        let note = Note::new(3, note_name);
        let note_event = NoteEvent::new(note, MusicTime::zero(), NoteDuration::Quarter.into());
        let r = NoteGenerator::new(NoteDuration::Quarter.into(), vec![note_event]);
        assert(r.notes@ =~= seq![note_event]);
        r
    }

    /// Combine several generators into one that plays them one after the
    /// other. `None` when a tick count of the result would not fit in a `u32`.
    pub fn combine(generators: &[NoteGenerator]) -> (r: Option<NoteGenerator>)
        ensures
            combine_models(gen_views(generators@)) is None ==> r is None,
            combine_models(gen_views(generators@)) matches Some(m) ==> r matches Some(g) && g@
                == m,
    {
        let ghost views = gen_views(generators@);
        let mut combined_notes: Vec<NoteEvent> = Vec::new();
        let mut acc = MusicTime::zero();
        let mut i: usize = 0;
        proof {
            assert(views.take(0) =~= Seq::<GenModel>::empty());
        }
        while i < generators.len()
            invariant
                i <= generators.len(),
                views == gen_views(generators@),
                combine_models(views.take(i as int)) == Some(
                    GenModel { loop_length: acc.ticks, notes: combined_notes@ },
                ),
            decreases generators.len() - i,
        {
            let generator = &generators[i];
            proof {
                assert(views.take(i + 1).drop_last() =~= views.take(i as int));
                assert(views.take(i + 1).last() == generator@);
            }
            let ghost before = combined_notes@;
            let mut j: usize = 0;
            while j < generator.notes.len()
                invariant
                    i < generators.len(),
                    generator == &generators[i as int],
                    views == gen_views(generators@),
                    views.take(i + 1).drop_last() == views.take(i as int),
                    views.take(i + 1).last() == generator@,
                    combine_models(views.take(i as int)) == Some(
                        GenModel { loop_length: acc.ticks, notes: before },
                    ),
                    j <= generator.notes.len(),
                    combined_notes@.len() == before.len() + j,
                    combined_notes@.take(before.len() as int) == before,
                    combined_notes@.skip(before.len() as int) == shift_events(
                        generator.notes@.take(j as int),
                        acc.ticks as int,
                    ),
                    shift_fits(generator.notes@.take(j as int), acc.ticks as int),
                decreases generator.notes.len() - j,
            {
                let note = generator.notes[j];
                if note.start.ticks > u32::MAX - acc.ticks {
                    proof {
                        assert(generator.notes@[j as int].start.ticks + acc.ticks > u32::MAX);
                        assert(!shift_fits(generator.notes@, acc.ticks as int));
                        assert(combine_models(views.take(i + 1)) is None);
                        lemma_combine_prefix_none(views, i as int);
                    }
                    return None;
                }
                let ghost prev = combined_notes@;
                let moved = note.shifted(acc);
                combined_notes.push(moved);
                proof {
                    assert(combined_notes@.skip(before.len() as int) =~= prev.skip(
                        before.len() as int,
                    ).push(moved));
                    assert(combined_notes@.take(before.len() as int) =~= before);
                    assert(generator.notes@.take(j + 1) =~= generator.notes@.take(j as int).push(
                        note,
                    ));
                    assert(combined_notes@.skip(before.len() as int) =~= shift_events(
                        generator.notes@.take(j + 1),
                        acc.ticks as int,
                    ));
                }
                j += 1;
            }
            proof {
                assert(generator.notes@.take(j as int) =~= generator.notes@);
            }
            match acc.checked_add(generator.loop_length) {
                Some(next) => {
                    proof {
                        assert(combined_notes@ =~= before + shift_events(
                            generator.notes@,
                            acc.ticks as int,
                        ));
                    }
                    acc = next;
                },
                None => {
                    proof {
                        lemma_combine_prefix_none(views, i as int);
                    }
                    return None;
                },
            }
            i += 1;
        }
        proof {
            assert(views.take(i as int) =~= views);
        }
        Some(NoteGenerator::new(acc, combined_notes))
    }
}

/// When the first `i + 1` generators cannot be combined, neither can all of
/// them.
proof fn lemma_combine_prefix_none(gs: Seq<GenModel>, i: int)
    requires
        0 <= i < gs.len(),
        combine_models(gs.take(i + 1)) is None,
    ensures
        combine_models(gs) is None,
    decreases gs.len() - i,
{
    if i + 1 == gs.len() {
        assert(gs.take(i + 1) =~= gs);
    } else {
        assert(gs.take(i + 2).drop_last() =~= gs.take(i + 1));
        lemma_combine_prefix_none(gs, i + 1);
    }
}

/// Combining two generators plays the first, then the second: the loop
/// lengths add up, the first generator's notes keep their places, and every
/// note of the second is moved later by the first generator's loop length.
pub proof fn lemma_combine_two(g1: GenModel, g2: GenModel)
    requires
        g1.loop_length + g2.loop_length <= u32::MAX,
        shift_fits(g2.notes, g1.loop_length as int),
    ensures
        combine_models(seq![g1, g2]) == Some(
            GenModel {
                loop_length: (g1.loop_length + g2.loop_length) as u32,
                notes: g1.notes + shift_events(g2.notes, g1.loop_length as int),
            },
        ),
        forall|j: int|
            0 <= j < g2.notes.len() ==> combine_models(seq![g1, g2])->0.notes[g1.notes.len() + j].start.ticks
                == (#[trigger] g2.notes[j]).start.ticks + g1.loop_length,
{
    let gs = seq![g1, g2];
    let one = seq![g1];
    assert(gs.drop_last() =~= one);
    assert(one.drop_last() =~= Seq::<GenModel>::empty());
    assert(shift_events(g1.notes, 0) =~= g1.notes);
    assert(Seq::<NoteEvent>::empty() + g1.notes =~= g1.notes);
    assert(shift_fits(g1.notes, 0));
    assert(combine_models(Seq::<GenModel>::empty()) == Some(
        GenModel { loop_length: 0, notes: Seq::<NoteEvent>::empty() },
    ));
    assert(combine_models(one.drop_last()) == Some(
        GenModel { loop_length: 0, notes: Seq::<NoteEvent>::empty() },
    ));
    assert(one.last() == g1);
    assert(combine_models(one) == Some(GenModel { loop_length: g1.loop_length, notes: g1.notes }));
    assert(gs.last() == g2);
    let r = GenModel {
        loop_length: (g1.loop_length + g2.loop_length) as u32,
        notes: g1.notes + shift_events(g2.notes, g1.loop_length as int),
    };
    assert(combine_models(gs) == Some(r));
    assert forall|j: int| 0 <= j < g2.notes.len() implies r.notes[g1.notes.len() + j].start.ticks
        == (#[trigger] g2.notes[j]).start.ticks + g1.loop_length by {
        assert(r.notes[g1.notes.len() + j] == shifted_event(g2.notes[j], g1.loop_length as int));
    }
}

} // verus!
