//! Note effects: pure transformations of a note generator.

use vstd::prelude::*;
use crate::notes::{
    fits_i32, note_index, note_of_index, note_of_pitch, GenModel, Note, NoteEvent, NoteGenerator,
    NoteName,
};
use crate::time::MusicTime;

verus! {

#[derive(Clone, Copy, PartialEq, Eq, Structural, Debug)]
pub enum ScaleType {
    Major,
    Minor,
}

/// Semitones above the root of the seven degrees of a scale.
pub open spec fn degrees(t: ScaleType) -> Seq<i32> {
    match t {
        ScaleType::Major => seq![0i32, 2, 4, 5, 7, 9, 11],
        ScaleType::Minor => seq![0i32, 2, 3, 5, 7, 8, 10],
    }
}

impl ScaleType {
    fn scale_degrees(&self) -> (r: Vec<i32>)
        ensures
            r@ == degrees(*self),
    {
        let r = match self {
            ScaleType::Major => vec![0, 2, 4, 5, 7, 9, 11],
            ScaleType::Minor => vec![0, 2, 3, 5, 7, 8, 10],
        };
        assert(r@ =~= degrees(*self));
        r
    }
}

/// A key: a root pitch class and a scale type.
#[derive(Clone, Copy, PartialEq, Eq, Structural, Debug)]
pub struct Scale {
    pub root: NoteName,
    pub scale_type: ScaleType,
}

/// Pitch class, in `0..12`, of degree `k` of scale `s`.
pub open spec fn degree_class(s: Scale, k: int) -> int {
    (note_index(s.root) + degrees(s.scale_type)[k]) % 12
}

/// The first degree at or after `k` of scale `s` whose pitch class is `class`.
pub open spec fn find_degree_from(s: Scale, class: int, k: int) -> Option<int>
    decreases 7 - k,
{
    if k < 0 || k >= 7 {
        None
    } else if degree_class(s, k) == class {
        Some(k)
    } else {
        find_degree_from(s, class, k + 1)
    }
}

/// The position in scale `s` of pitch class `class`, if the scale holds it.
pub open spec fn scale_position(s: Scale, class: int) -> Option<int> {
    find_degree_from(s, class, 0)
}

/// The tone `offset` degrees above position `pos` of scale `s`, placed in the
/// octave of `note`, or in the octave above when its class lies below the
/// class of `note`.
pub open spec fn tone_above(s: Scale, note: Note, pos: int, offset: int) -> Note {
    let class = degree_class(s, (pos + offset) % 7);
    Note {
        octave: (note.octave + if class < note_index(note.note_name) {
            1int
        } else {
            0int
        }) as i32,
        note_name: note_of_index(class),
    }
}

/// The triad built on `note` from scale `s`: the tones zero, two and four
/// degrees above it; just `note` when the scale does not hold it.
pub open spec fn chord_for_note(s: Scale, note: Note) -> Seq<Note> {
    match scale_position(s, note_index(note.note_name)) {
        Some(p) => seq![tone_above(s, note, p, 0), tone_above(s, note, p, 2), tone_above(s, note, p, 4)],
        None => seq![note],
    }
}

/// `note` itself, then the tones two and four degrees above it in scale `s`;
/// just `note` when the scale does not hold it.
pub open spec fn diatonic_chord(s: Scale, note: Note) -> Seq<Note> {
    match scale_position(s, note_index(note.note_name)) {
        Some(p) => seq![note, tone_above(s, note, p, 2), tone_above(s, note, p, 4)],
        None => seq![note],
    }
}

/// Distance, as the search for the nearest scale tone measures it, from
/// pitch class `class` to the scale tone of class `tone`.
pub open spec fn class_distance(tone: int, class: int) -> int {
    let up = if tone >= class {
        tone - class
    } else {
        class - tone
    };
    let down = (class + 12 - tone) % 12;
    if up <= down {
        up
    } else {
        down
    }
}

/// Smallest distance from `class` over the first `k` degrees of `s` (12 when
/// `k` is 0), and the first degree, in semitones above the root, that has it.
pub open spec fn nearest_upto(s: Scale, class: int, k: int) -> (int, int)
    decreases k,
{
    if k <= 0 {
        (12, 0)
    } else {
        let (m, c) = nearest_upto(s, class, k - 1);
        let d = class_distance(degree_class(s, k - 1), class);
        if d < m {
            (d, degrees(s.scale_type)[k - 1] as int)
        } else {
            (m, c)
        }
    }
}

/// Pitch class of the scale tone that the search finds nearest to `class`.
pub open spec fn nearest_tone(s: Scale, class: int) -> int {
    (note_index(s.root) + nearest_upto(s, class, 7).1) % 12
}

/// The tone of scale `s` nearest to `note`, moved an octave down or up when
/// the search wrapped around the octave boundary.
pub open spec fn nearest_scale_note(s: Scale, note: Note) -> Note {
    let class = note_index(note.note_name);
    let tone = nearest_tone(s, class);
    let adj: int = if tone > class && class < 6 && tone > 6 {
        -1
    } else if tone < class && class > 6 && tone < 6 {
        1
    } else {
        0
    };
    Note { octave: (note.octave + adj) as i32, note_name: note_of_index(tone) }
}

impl Scale {
    pub fn new(root: NoteName, scale_type: ScaleType) -> (r: Scale)
        ensures
            r == (Scale { root, scale_type }),
    {
        Scale { root, scale_type }
    }

    /// Position in this scale of the pitch class of `class`, searched from the
    /// first degree.
    fn position_of(&self, degs: &Vec<i32>, class: i32) -> (r: Option<usize>)
        requires
            degs@ == degrees(self.scale_type),
            0 <= class < 12,
        ensures
            r matches Some(p) ==> p < 7 && scale_position(*self, class as int) == Some(p as int),
            r is None ==> scale_position(*self, class as int) is None,
    {
        let root = self.root.to_int();
        let mut k: usize = 0;
        while k < degs.len()
            invariant
                degs@ == degrees(self.scale_type),
                0 <= class < 12,
                root == note_index(self.root),
                k <= 7,
                scale_position(*self, class as int) == find_degree_from(*self, class as int, k as int),
            decreases degs.len() - k,
        {
            if (root + degs[k]) % 12 == class {
                return Some(k);
            }
            k += 1;
        }
        None
    }

    /// The tone `offset` degrees above position `pos` (see [`tone_above`]).
    fn tone_at(&self, degs: &Vec<i32>, note: &Note, pos: usize, offset: usize) -> (r: Note)
        requires
            degs@ == degrees(self.scale_type),
            note.octave < i32::MAX,
            pos < 7,
            offset <= 4,
        ensures
            r == tone_above(*self, *note, pos as int, offset as int),
    {
        let scale_pos = (pos + offset) % degs.len();
        let semitones_from_root = (self.root.to_int() + degs[scale_pos]) % 12;
        let octave_adjustment: i32 = if semitones_from_root < note.note_name.to_int() {
            1
        } else {
            0
        };
        Note::new(note.octave + octave_adjustment, NoteName::from_int(semitones_from_root as u32))
    }

    /// The triad on `note` drawn from this scale (see [`chord_for_note`]).
    pub fn create_chord_for_note(&self, note: &Note) -> (r: Vec<Note>)
        requires
            note.octave < i32::MAX,
        ensures
            r@ == chord_for_note(*self, *note),
    {
        let scale_degrees = self.scale_type.scale_degrees();
        let note_semitones = note.note_name.to_int();
        match self.position_of(&scale_degrees, note_semitones) {
            Some(pos) => {
                let chord_positions: [usize; 3] = [0, 2, 4];
                let mut chord_notes: Vec<Note> = Vec::new();
                let mut i: usize = 0;
                while i < 3
                    invariant
                        scale_degrees@ == degrees(self.scale_type),
                        note.octave < i32::MAX,
                        pos < 7,
                        chord_positions@ == seq![0usize, 2, 4],
                        i <= 3,
                        chord_notes@.len() == i,
                        forall|k: int|
                            0 <= k < i ==> #[trigger] chord_notes@[k] == tone_above(
                                *self,
                                *note,
                                pos as int,
                                chord_positions@[k] as int,
                            ),
                    decreases 3 - i,
                {
                    let new_note = self.tone_at(&scale_degrees, note, pos, chord_positions[i]);
                    chord_notes.push(new_note);
                    i += 1;
                }
                assert(chord_notes@ =~= chord_for_note(*self, *note));
                chord_notes
            },
            None => {
                let r = vec![*note];
                assert(r@ =~= chord_for_note(*self, *note));
                r
            },
        }
    }

    /// Semitones above the root of the first degree nearest to `class` (see
    /// [`nearest_upto`]).
    fn nearest_degree(&self, class: i32) -> (r: i32)
        requires
            0 <= class < 12,
        ensures
            r == nearest_upto(*self, class as int, 7).1,
            0 <= r < 12,
    {
        let scale_degrees = self.scale_type.scale_degrees();
        let root_semitones = self.root.to_int();
        let mut min_distance: i32 = 12;
        let mut closest_degree: i32 = 0;
        let mut k: usize = 0;
        while k < scale_degrees.len()
            invariant
                scale_degrees@ == degrees(self.scale_type),
                root_semitones == note_index(self.root),
                0 <= class < 12,
                k <= 7,
                (min_distance as int, closest_degree as int) == nearest_upto(*self, class as int, k as int),
                0 <= min_distance <= 12,
                0 <= closest_degree < 12,
            decreases scale_degrees.len() - k,
        {
            let degree = scale_degrees[k];
            let scale_note_semitones = (root_semitones + degree) % 12;
            let up = if scale_note_semitones >= class {
                scale_note_semitones - class
            } else {
                class - scale_note_semitones
            };
            let down = (class + 12 - scale_note_semitones) % 12;
            let distance = if up <= down {
                up
            } else {
                down
            };
            if distance < min_distance {
                min_distance = distance;
                closest_degree = degree;
            }
            k += 1;
        }
        closest_degree
    }

    /// The tone of this scale nearest to `note` (see [`nearest_scale_note`]).
    pub fn find_nearest_scale_note(&self, note: &Note) -> (r: Note)
        requires
            i32::MIN < note.octave < i32::MAX,
        ensures
            r == nearest_scale_note(*self, *note),
    {
        let root_semitones = self.root.to_int();
        let note_semitones = note.note_name.to_int();
        let closest_degree = self.nearest_degree(note_semitones);
        let semitones_from_root = (root_semitones + closest_degree) % 12;
        let octave_adjustment: i32 = if semitones_from_root > note_semitones && note_semitones < 6
            && semitones_from_root > 6 {
            -1
        } else if semitones_from_root < note_semitones && note_semitones > 6 && semitones_from_root
            < 6 {
            1
        } else {
            0
        };
        Note::new(note.octave + octave_adjustment, NoteName::from_int(semitones_from_root as u32))
    }

    /// `note` with the tones two and four degrees above it in this scale (see
    /// [`diatonic_chord`]).
    pub fn create_diatonic_chord(&self, note: &Note) -> (r: Vec<Note>)
        requires
            note.octave < i32::MAX,
        ensures
            r@ == diatonic_chord(*self, *note),
    {
        let scale_degrees = self.scale_type.scale_degrees();
        let note_semitones = note.note_name.to_int();
        match self.position_of(&scale_degrees, note_semitones) {
            Some(pos) => {
                let mut chord_notes: Vec<Note> = Vec::new();
                chord_notes.push(*note);
                chord_notes.push(self.tone_at(&scale_degrees, note, pos, 2));
                chord_notes.push(self.tone_at(&scale_degrees, note, pos, 4));
                assert(chord_notes@ =~= diatonic_chord(*self, *note));
                chord_notes
            },
            None => {
                let r = vec![*note];
                assert(r@ =~= diatonic_chord(*self, *note));
                r
            },
        }
    }
}

#[derive(Clone, Copy, PartialEq, Eq, Structural, Debug)]
pub enum ChangeLenType {
    Double,
    Half,
}

/// A tick count stretched by a length change; `None` when a doubled count
/// does not fit in a `u32`.
pub open spec fn change_len(t: ChangeLenType, ticks: u32) -> Option<u32> {
    match t {
        ChangeLenType::Double => if ticks * 2 <= u32::MAX {
            Some((ticks * 2) as u32)
        } else {
            None
        },
        ChangeLenType::Half => Some(ticks / 2),
    }
}

impl ChangeLenType {
    fn apply(&self, time: MusicTime) -> (r: Option<MusicTime>)
        ensures
            r matches Some(t) ==> change_len(*self, time.ticks) == Some(t.ticks),
            r is None ==> change_len(*self, time.ticks) is None,
    {
        match self {
            ChangeLenType::Double => time.checked_mul(2),
            ChangeLenType::Half => Some(time.divided(2)),
        }
    }
}

#[derive(Clone, Copy, PartialEq, Eq, Structural, Debug)]
pub enum NoteEffectType {
    /// Adds the major third and the fifth above each note.
    Chord,
    /// Replaces each note by its triad in the scale.
    Scale(Scale),
    /// Snaps each note to the nearest scale tone and builds its triad.
    ScaleChord(Scale),
    /// Stretches the loop and every note in time.
    ChangeLen(ChangeLenType),
}

/// A transformation of a note generator.
#[derive(Clone, Copy, PartialEq, Eq, Structural, Debug)]
pub struct NoteEffect {
    pub effect_type: NoteEffectType,
}

/// `e` with its pitch replaced by `n`.
pub open spec fn with_note(e: NoteEvent, n: Note) -> NoteEvent {
    NoteEvent { note: n, ..e }
}

/// One event played at the pitches of `notes`, keeping its timing.
pub open spec fn at_pitches(e: NoteEvent, notes: Seq<Note>) -> Seq<NoteEvent> {
    notes.map_values(|n: Note| with_note(e, n))
}

/// What an effect turns one event into; `None` when a resulting pitch or tick
/// count falls outside its integer type.
pub open spec fn expand_event(effect: NoteEffectType, e: NoteEvent) -> Option<Seq<NoteEvent>> {
    let p = e.note.pitch();
    match effect {
        NoteEffectType::Chord => if fits_i32(p) && fits_i32(p + 7) {
            Some(seq![e, with_note(e, note_of_pitch(p + 4)), with_note(e, note_of_pitch(p + 7))])
        } else {
            None
        },
        NoteEffectType::Scale(s) => if e.note.octave < i32::MAX {
            Some(at_pitches(e, chord_for_note(s, e.note)))
        } else {
            None
        },
        NoteEffectType::ScaleChord(s) => {
            let near = nearest_scale_note(s, e.note);
            if i32::MIN < e.note.octave < i32::MAX && near.octave < i32::MAX {
                Some(at_pitches(e, diatonic_chord(s, near)))
            } else {
                None
            }
        },
        NoteEffectType::ChangeLen(t) => match (
            change_len(t, e.start.ticks),
            change_len(t, e.duration.ticks),
        ) {
            (Some(a), Some(b)) => Some(
                seq![NoteEvent { start: MusicTime { ticks: a }, duration: MusicTime { ticks: b }, ..e }],
            ),
            _ => None,
        },
    }
}

/// What an effect turns a list of events into, event by event in order.
pub open spec fn expand_events(effect: NoteEffectType, s: Seq<NoteEvent>) -> Option<Seq<NoteEvent>>
    decreases s.len(),
{
    if s.len() == 0 {
        Some(Seq::empty())
    } else {
        match (expand_events(effect, s.drop_last()), expand_event(effect, s.last())) {
            (Some(a), Some(b)) => Some(a + b),
            _ => None,
        }
    }
}

/// The generator that an effect makes of `g`.
#[verifier::opaque]
pub open spec fn apply_effect(effect: NoteEffectType, g: GenModel) -> Option<GenModel> {
    let len = match effect {
        NoteEffectType::ChangeLen(t) => change_len(t, g.loop_length),
        _ => Some(g.loop_length),
    };
    match (len, expand_events(effect, g.notes)) {
        (Some(l), Some(n)) => Some(GenModel { loop_length: l, notes: n }),
        _ => None,
    }
}

/// The event `e` played at each pitch of `notes`.
fn events_at(e: &NoteEvent, notes: Vec<Note>) -> (r: Vec<NoteEvent>)
    ensures
        r@ == at_pitches(*e, notes@),
{
    let mut r: Vec<NoteEvent> = Vec::new();
    let mut i: usize = 0;
    while i < notes.len()
        invariant
            i <= notes.len(),
            r@ =~= at_pitches(*e, notes@.take(i as int)),
        decreases notes.len() - i,
    {
        r.push(NoteEvent::new(notes[i], e.start, e.duration));
        proof {
            assert(notes@.take(i + 1) =~= notes@.take(i as int).push(notes@[i as int]));
        }
        i += 1;
    }
    proof {
        assert(notes@.take(i as int) =~= notes@);
    }
    r
}

impl NoteEffect {
    pub fn new(effect_type: NoteEffectType) -> (r: NoteEffect)
        ensures
            r.effect_type == effect_type,
    {
        NoteEffect { effect_type }
    }

    /// What this effect turns one event into (see [`expand_event`]).
    fn expand(&self, e: &NoteEvent) -> (r: Option<Vec<NoteEvent>>)
        ensures
            match expand_event(self.effect_type, *e) {
                Some(s) => r matches Some(v) && v@ == s,
                None => r is None,
            },
    {
        match &self.effect_type {
            NoteEffectType::Chord => {
                let p: i64 = e.note.octave as i64 * 12 + e.note.note_name.to_int() as i64;
                if p < i32::MIN as i64 || p + 7 > i32::MAX as i64 {
                    return None;
                }
                let third = e.note.shift(4);
                let fifth = e.note.shift(7);
                let v = vec![*e, NoteEvent::new(third, e.start, e.duration), NoteEvent::new(fifth, e.start, e.duration)];
                assert(v@ =~= expand_event(self.effect_type, *e)->0);
                Some(v)
            },
            NoteEffectType::Scale(scale) => {
                if e.note.octave == i32::MAX {
                    return None;
                }
                Some(events_at(e, scale.create_chord_for_note(&e.note)))
            },
            NoteEffectType::ScaleChord(scale) => {
                if e.note.octave == i32::MIN || e.note.octave == i32::MAX {
                    return None;
                }
                let nearest = scale.find_nearest_scale_note(&e.note);
                if nearest.octave == i32::MAX {
                    return None;
                }
                Some(events_at(e, scale.create_diatonic_chord(&nearest)))
            },
            NoteEffectType::ChangeLen(amount) => {
                match (amount.apply(e.start), amount.apply(e.duration)) {
                    (Some(start), Some(duration)) => {
                        let v = vec![NoteEvent::new(e.note, start, duration)];
                        assert(v@ =~= expand_event(self.effect_type, *e)->0);
                        Some(v)
                    },
                    _ => None,
                }
            },
        }
    }

    /// The generator this effect makes of `generator`, or `None` when a pitch
    /// or a tick count of the result falls outside its integer type.
    pub fn apply(&self, generator: NoteGenerator) -> (r: Option<NoteGenerator>)
        ensures
            match apply_effect(self.effect_type, generator@) {
                Some(m) => r matches Some(g) && g@ == m,
                None => r is None,
            },
    {
        let new_loop_length = match &self.effect_type {
            NoteEffectType::ChangeLen(amount) => amount.apply(generator.loop_length),
            _ => Some(generator.loop_length),
        };
        let notes = &generator.notes;
        let mut transformed: Vec<NoteEvent> = Vec::new();
        let mut i: usize = 0;
        while i < notes.len()
            invariant
                i <= notes.len(),
                notes@ == generator@.notes,
                expand_events(self.effect_type, notes@.take(i as int)) == Some(transformed@),
            decreases notes.len() - i,
        {
            proof {
                assert(notes@.take(i + 1).drop_last() =~= notes@.take(i as int));
            }
            match self.expand(&notes[i]) {
                Some(mut more) => {
                    transformed.append(&mut more);
                },
                None => {
                    proof {
                        assert(notes@.take(i + 1).last() == notes@[i as int]);
                        assert(expand_events(self.effect_type, notes@.take(i + 1)) is None);
                        lemma_expand_prefix_none(self.effect_type, notes@, i as int);
                        assert(expand_events(self.effect_type, generator@.notes) is None);
                        reveal(apply_effect);
                    }
                    return None;
                },
            }
            i += 1;
        }
        proof {
            assert(notes@.take(i as int) =~= notes@);
            reveal(apply_effect);
        }
        match new_loop_length {
            Some(l) => Some(NoteGenerator::new(l, transformed)),
            None => None,
        }
    }
}

/// When an effect cannot expand the first `i + 1` events, it cannot expand
/// them all.
proof fn lemma_expand_prefix_none(effect: NoteEffectType, s: Seq<NoteEvent>, i: int)
    requires
        0 <= i < s.len(),
        expand_events(effect, s.take(i + 1)) is None,
    ensures
        expand_events(effect, s) is None,
    decreases s.len() - i,
{
    if i + 1 == s.len() {
        assert(s.take(i + 1) =~= s);
    } else {
        assert(s.take(i + 2).drop_last() =~= s.take(i + 1));
        lemma_expand_prefix_none(effect, s, i + 1);
    }
}

/// Every event of `s` with its start and duration multiplied by `factor`.
pub open spec fn stretch_events(s: Seq<NoteEvent>, factor: int) -> Seq<NoteEvent> {
    s.map_values(
        |e: NoteEvent|
            NoteEvent {
                start: MusicTime { ticks: (e.start.ticks * factor) as u32 },
                duration: MusicTime { ticks: (e.duration.ticks * factor) as u32 },
                ..e
            },
    )
}

/// Do the starts and durations of `s`, multiplied by `factor`, fit in a `u32`?
pub open spec fn stretch_fits(s: Seq<NoteEvent>, factor: int) -> bool {
    forall|j: int|
        0 <= j < s.len() ==> #[trigger] s[j].start.ticks * factor <= u32::MAX && s[j].duration.ticks
            * factor <= u32::MAX
}

proof fn lemma_double_events(s: Seq<NoteEvent>)
    requires
        stretch_fits(s, 2),
    ensures
        expand_events(NoteEffectType::ChangeLen(ChangeLenType::Double), s) == Some(stretch_events(s, 2)),
    decreases s.len(),
{
    if s.len() > 0 {
        let init = s.drop_last();
        assert forall|j: int| 0 <= j < init.len() implies #[trigger] init[j].start.ticks * 2 <= u32::MAX
            && init[j].duration.ticks * 2 <= u32::MAX by {
            assert(init[j] == s[j]);
        }
        lemma_double_events(init);
        assert(s[s.len() - 1].start.ticks * 2 <= u32::MAX);
        assert(stretch_events(s, 2) =~= stretch_events(init, 2) + seq![stretch_events(s, 2).last()]);
    }
}

/// Doubling the length twice quadruples it: the loop length and every note's
/// start and duration come out four times as long, with pitches and order
/// unchanged. The effect composes by multiplication; it is not idempotent.
pub proof fn lemma_double_length_twice(g: GenModel)
    requires
        g.loop_length * 4 <= u32::MAX,
        stretch_fits(g.notes, 4),
    ensures
        ({
            let double = NoteEffectType::ChangeLen(ChangeLenType::Double);
            apply_effect(double, g) matches Some(g1) && apply_effect(double, g1) matches Some(g2)
                && g2.loop_length == g.loop_length * 4 && g2.notes.len() == g.notes.len() && forall|
                j: int,
            |
                0 <= j < g.notes.len() ==> (#[trigger] g2.notes[j]).duration.ticks == g.notes[j].duration.ticks
                    * 4 && g2.notes[j].start.ticks == g.notes[j].start.ticks * 4 && g2.notes[j].note
                    == g.notes[j].note
        }),
{
    reveal(apply_effect);
    assert(stretch_fits(g.notes, 2));
    lemma_double_events(g.notes);
    let n1 = stretch_events(g.notes, 2);
    assert(stretch_fits(n1, 2));
    lemma_double_events(n1);
    let n2 = stretch_events(n1, 2);
    assert forall|j: int| 0 <= j < g.notes.len() implies (#[trigger] n2[j]).duration.ticks
        == g.notes[j].duration.ticks * 4 && n2[j].start.ticks == g.notes[j].start.ticks * 4 by {}
}

/// Is `y` semitones above the root one of the degrees of scale type `t`?
pub open spec fn in_degrees(t: ScaleType, y: int) -> bool {
    exists|k: int| 0 <= k < 7 && #[trigger] degrees(t)[k] == y
}

/// Is pitch class `c` one of the tones of scale `s`?
pub open spec fn in_scale(s: Scale, c: int) -> bool {
    exists|k: int| 0 <= k < 7 && #[trigger] degree_class(s, k) == c
}

/// Neither scale type leaves out two neighbouring semitones: a step above
/// the root that is not a degree has degrees on both sides.
proof fn lemma_degrees_have_no_wide_gap(t: ScaleType, y: int)
    requires
        0 <= y < 12,
    ensures
        in_degrees(t, y) || (in_degrees(t, (y + 1) % 12) && in_degrees(t, (y + 11) % 12)),
{
    if t is Major {
        if y == 0 {
            assert(degrees(t)[0] == 0);
        }
        if y == 1 {
            assert(degrees(t)[1] == 2);
            assert(degrees(t)[0] == 0);
        }
        if y == 2 {
            assert(degrees(t)[1] == 2);
        }
        if y == 3 {
            assert(degrees(t)[2] == 4);
            assert(degrees(t)[1] == 2);
        }
        if y == 4 {
            assert(degrees(t)[2] == 4);
        }
        if y == 5 {
            assert(degrees(t)[3] == 5);
        }
        if y == 6 {
            assert(degrees(t)[4] == 7);
            assert(degrees(t)[3] == 5);
        }
        if y == 7 {
            assert(degrees(t)[4] == 7);
        }
        if y == 8 {
            assert(degrees(t)[5] == 9);
            assert(degrees(t)[4] == 7);
        }
        if y == 9 {
            assert(degrees(t)[5] == 9);
        }
        if y == 10 {
            assert(degrees(t)[6] == 11);
            assert(degrees(t)[5] == 9);
        }
        if y == 11 {
            assert(degrees(t)[6] == 11);
        }
    } else {
        if y == 0 {
            assert(degrees(t)[0] == 0);
        }
        if y == 1 {
            assert(degrees(t)[1] == 2);
            assert(degrees(t)[0] == 0);
        }
        if y == 2 {
            assert(degrees(t)[1] == 2);
        }
        if y == 3 {
            assert(degrees(t)[2] == 3);
        }
        if y == 4 {
            assert(degrees(t)[3] == 5);
            assert(degrees(t)[2] == 3);
        }
        if y == 5 {
            assert(degrees(t)[3] == 5);
        }
        if y == 6 {
            assert(degrees(t)[4] == 7);
            assert(degrees(t)[3] == 5);
        }
        if y == 7 {
            assert(degrees(t)[4] == 7);
        }
        if y == 8 {
            assert(degrees(t)[5] == 8);
        }
        if y == 9 {
            assert(degrees(t)[6] == 10);
            assert(degrees(t)[5] == 8);
        }
        if y == 10 {
            assert(degrees(t)[6] == 10);
        }
        if y == 11 {
            assert(degrees(t)[0] == 0);
            assert(degrees(t)[6] == 10);
        }
    }
}

/// The search keeps a smallest distance, and the degree it keeps is one of
/// the first `k` degrees at that distance.
proof fn lemma_nearest_upto_is_min(s: Scale, c: int, k: int)
    requires
        0 <= c < 12,
        1 <= k <= 7,
    ensures
        exists|i: int|
            0 <= i < k && nearest_upto(s, c, k).1 == degrees(s.scale_type)[i] as int
                && nearest_upto(s, c, k).0 == class_distance(#[trigger] degree_class(s, i), c),
        forall|i: int|
            0 <= i < k ==> nearest_upto(s, c, k).0 <= class_distance(#[trigger] degree_class(s, i), c),
    decreases k,
{
    let dk = class_distance(degree_class(s, k - 1), c);
    assert(0 <= degree_class(s, k - 1) < 12);
    assert(dk < 12);
    if k > 1 {
        lemma_nearest_upto_is_min(s, c, k - 1);
    }
    let prev = nearest_upto(s, c, k - 1);
    if dk < prev.0 {
        assert(nearest_upto(s, c, k).1 == degrees(s.scale_type)[k - 1] as int);
        assert(nearest_upto(s, c, k).0 == class_distance(degree_class(s, k - 1), c));
    } else {
        let i = choose|i: int|
            0 <= i < k - 1 && nearest_upto(s, c, k - 1).1 == degrees(s.scale_type)[i] as int
                && nearest_upto(s, c, k - 1).0 == class_distance(#[trigger] degree_class(s, i), c);
        assert(nearest_upto(s, c, k) == prev);
        assert(0 <= i < k && nearest_upto(s, c, k).1 == degrees(s.scale_type)[i] as int
            && nearest_upto(s, c, k).0 == class_distance(degree_class(s, i), c));
    }
}

/// A class distance of at most one means a neighbouring or equal class; the
/// one wrap-around case is C measured against B.
proof fn lemma_close_classes(t: int, c: int)
    requires
        0 <= t < 12,
        0 <= c < 12,
        class_distance(t, c) <= 1,
    ensures
        t == c || t == c + 1 || t == c - 1 || (c == 0 && t == 11),
        class_distance(t, c) == 0 ==> t == c,
{
}

/// Degree `k` of `s` has class `c` exactly when the degree lies
/// `(c - root) mod 12` semitones above the root.
proof fn lemma_rotate(s: Scale, k: int, c: int)
    requires
        0 <= k < 7,
        0 <= c < 12,
    ensures
        degree_class(s, k) == c <==> degrees(s.scale_type)[k] as int == (c + 12 - note_index(s.root)) % 12,
{
    let r = note_index(s.root);
    let x = degrees(s.scale_type)[k] as int;
    assert(0 <= x < 12);
    if r + x < 12 {
        assert((r + x) % 12 == r + x);
    } else {
        assert((r + x) % 12 == r + x - 12);
    }
    if c >= r {
        assert((c + 12 - r) % 12 == c - r);
    } else {
        assert((c + 12 - r) % 12 == c + 12 - r);
    }
}

/// A class missing from a scale has scale tones on both sides of it.
proof fn lemma_scale_has_no_wide_gap(s: Scale, c: int)
    requires
        0 <= c < 12,
        !in_scale(s, c),
    ensures
        in_scale(s, (c + 1) % 12),
        in_scale(s, (c + 11) % 12),
{
    let r = note_index(s.root);
    let y = (c + 12 - r) % 12;
    lemma_degrees_have_no_wide_gap(s.scale_type, y);
    if in_degrees(s.scale_type, y) {
        let k = choose|k: int| 0 <= k < 7 && #[trigger] degrees(s.scale_type)[k] == y;
        lemma_rotate(s, k, c);
    }
    let c1 = (c + 1) % 12;
    let c2 = (c + 11) % 12;
    let k1 = choose|k: int| 0 <= k < 7 && #[trigger] degrees(s.scale_type)[k] == (y + 1) % 12;
    let k2 = choose|k: int| 0 <= k < 7 && #[trigger] degrees(s.scale_type)[k] == (y + 11) % 12;
    lemma_rotate(s, k1, c1);
    lemma_rotate(s, k2, c2);
    assert((c1 + 12 - r) % 12 == (y + 1) % 12);
    assert((c2 + 12 - r) % 12 == (y + 11) % 12);
    assert(degree_class(s, k1) == c1);
    assert(degree_class(s, k2) == c2);
}

/// The tone the search finds is a scale tone at class distance at most one,
/// and the class itself when the scale holds it.
#[verifier::rlimit(100)]
proof fn lemma_nearest_tone(s: Scale, c: int)
    requires
        0 <= c < 12,
    ensures
        0 <= nearest_tone(s, c) < 12,
        in_scale(s, nearest_tone(s, c)),
        class_distance(nearest_tone(s, c), c) <= 1,
        in_scale(s, c) ==> nearest_tone(s, c) == c,
{
    let r = note_index(s.root);
    lemma_nearest_upto_is_min(s, c, 7);
    let i0 = choose|i: int|
        0 <= i < 7 && nearest_upto(s, c, 7).1 == degrees(s.scale_type)[i] as int
            && nearest_upto(s, c, 7).0 == class_distance(#[trigger] degree_class(s, i), c);
    let tone = nearest_tone(s, c);
    assert(tone == degree_class(s, i0));
    if in_scale(s, c) {
        let p = choose|k: int| 0 <= k < 7 && #[trigger] degree_class(s, k) == c;
        assert(class_distance(degree_class(s, p), c) == 0);
        lemma_close_classes(tone, c);
    } else {
        lemma_scale_has_no_wide_gap(s, c);
        if c <= 10 {
            let k = choose|k: int| 0 <= k < 7 && #[trigger] degree_class(s, k) == (c + 1) % 12;
            assert(class_distance(degree_class(s, k), c) == 1);
        } else {
            let k = choose|k: int| 0 <= k < 7 && #[trigger] degree_class(s, k) == (c + 11) % 12;
            assert(class_distance(degree_class(s, k), c) == 1);
        }
    }
}

/// What the nearest-tone search gives, said directly: a tone of the scale,
/// at most one semitone from the note, and the note itself when the scale
/// already holds it.
pub proof fn lemma_nearest_scale_note_is_near(s: Scale, note: Note)
    requires
        i32::MIN < note.octave < i32::MAX,
    ensures
        in_scale(s, note_index(nearest_scale_note(s, note).note_name)),
        in_scale(s, note_index(note.note_name)) ==> nearest_scale_note(s, note) == note,
        -1 <= nearest_scale_note(s, note).pitch() - note.pitch() <= 1,
{
    let c = note_index(note.note_name);
    lemma_nearest_tone(s, c);
    let tone = nearest_tone(s, c);
    lemma_close_classes(tone, c);
    assert(note_index(note_of_index(tone)) == tone);
    assert(note_of_index(c) == note.note_name);
}

} // verus!
