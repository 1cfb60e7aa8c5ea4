use infinite_echoes::effects::{ChangeLenType, NoteEffect, NoteEffectType, Scale, ScaleType};
use infinite_echoes::notes::{Note, NoteEvent, NoteGenerator, NoteName};
use infinite_echoes::time::{MusicTime, NoteDuration, PULSES_PER_QUARTER_NOTE};

fn ev(octave: i32, name: NoteName, start: u32, duration: u32) -> NoteEvent {
    NoteEvent::new(Note::new(octave, name), MusicTime::new(start), MusicTime::new(duration))
}

#[test]
fn quarter_note_lasts_one_second_at_sixty_bpm() {
    let q = MusicTime::new(PULSES_PER_QUARTER_NOTE);
    assert_eq!(q.to_micros(60), 1_000_000);
    assert_eq!(q.to_micros(120), 500_000);
    assert_eq!(q.to_micros(90), 666_666);
    assert_eq!(MusicTime::zero().to_micros(60), 0);
    assert_eq!(MusicTime::zero().to_micros(7), 0);
}

#[test]
fn largest_tick_count_converts_without_overflow() {
    let t = MusicTime::new(u32::MAX);
    assert_eq!(t.to_micros(1), (u32::MAX as u64) * 60_000_000 / 480);
}

#[test]
fn named_durations_in_ticks() {
    assert_eq!(MusicTime::from(NoteDuration::Whole).ticks, 1920);
    assert_eq!(MusicTime::from(NoteDuration::Half).ticks, 960);
    assert_eq!(MusicTime::from(NoteDuration::Quarter).ticks, 480);
    assert_eq!(MusicTime::from(NoteDuration::Eighth).ticks, 240);
    assert_eq!(MusicTime::from(NoteDuration::Third).ticks, 640);
}

#[test]
fn tick_arithmetic_is_checked() {
    assert_eq!(MusicTime::new(3).checked_add(MusicTime::new(4)), Some(MusicTime::new(7)));
    assert_eq!(MusicTime::new(u32::MAX).checked_add(MusicTime::new(1)), None);
    assert_eq!(MusicTime::new(5).checked_mul(3), Some(MusicTime::new(15)));
    assert_eq!(MusicTime::new(u32::MAX).checked_mul(2), None);
    assert_eq!(MusicTime::new(7).divided(2), MusicTime::new(3));
}

#[test]
fn note_names_and_semitones() {
    assert_eq!(NoteName::from_int(0), NoteName::C);
    assert_eq!(NoteName::from_int(13), NoteName::CSharp);
    assert_eq!(NoteName::B.to_int(), 11);
    assert_eq!(Note::new(3, NoteName::A).to_semitones(), 45);
    assert_eq!(Note::from_semitones(-1), Note::new(-1, NoteName::B));
    assert_eq!(Note::from_semitones(-12), Note::new(-1, NoteName::C));
    assert_eq!(Note::from_semitones(i32::MIN), Note::new(-178956971, NoteName::E));
    assert_eq!(Note::new(3, NoteName::B).shift(1), Note::new(4, NoteName::C));
    assert_eq!(Note::new(0, NoteName::C).shift(-1), Note::new(-1, NoteName::B));
}

#[test]
fn event_shift_moves_start_only() {
    let e = ev(3, NoteName::C, 10, 20);
    assert_eq!(e.shifted(MusicTime::new(5)), ev(3, NoteName::C, 15, 20));
}

#[test]
fn generator_from_note_name() {
    let g = NoteGenerator::from_note_name(NoteName::G);
    assert_eq!(g.loop_length.ticks, 480);
    assert_eq!(g.notes, vec![ev(3, NoteName::G, 0, 480)]);
}

#[test]
fn combine_two_generators_of_480_and_960() {
    let a = NoteGenerator::new(MusicTime::new(480), vec![ev(3, NoteName::C, 0, 240), ev(3, NoteName::E, 240, 240)]);
    let b = NoteGenerator::new(MusicTime::new(960), vec![ev(3, NoteName::G, 0, 480), ev(3, NoteName::A, 100, 100)]);
    let c = NoteGenerator::combine(&[a.clone(), b.clone()]).unwrap();
    assert_eq!(c.loop_length.ticks, 1440);
    assert_eq!(c.notes.len(), 4);
    assert_eq!(&c.notes[0..2], &a.notes[..]);
    for (j, n) in b.notes.iter().enumerate() {
        assert_eq!(c.notes[2 + j].start.ticks, n.start.ticks + 480);
        assert_eq!(c.notes[2 + j].duration, n.duration);
        assert_eq!(c.notes[2 + j].note, n.note);
    }
}

#[test]
fn combine_nothing_is_empty_loop() {
    let c = NoteGenerator::combine(&[]).unwrap();
    assert_eq!(c.loop_length.ticks, 0);
    assert!(c.notes.is_empty());
}

#[test]
fn combine_overflowing_loop_is_none() {
    let a = NoteGenerator::new(MusicTime::new(u32::MAX), vec![]);
    let b = NoteGenerator::new(MusicTime::new(1), vec![]);
    assert_eq!(NoteGenerator::combine(&[a, b]), None);
}

#[test]
fn double_length_twice_quadruples() {
    let g = NoteGenerator::new(MusicTime::new(480), vec![ev(3, NoteName::C, 120, 240)]);
    let double = NoteEffect::new(NoteEffectType::ChangeLen(ChangeLenType::Double));
    let g1 = double.apply(g.clone()).unwrap();
    let g2 = double.apply(g1).unwrap();
    assert_eq!(g2.loop_length.ticks, 1920);
    assert_eq!(g2.notes, vec![ev(3, NoteName::C, 480, 960)]);
    assert_ne!(g2, double.apply(g).unwrap());
}

#[test]
fn halving_rounds_down() {
    let g = NoteGenerator::new(MusicTime::new(481), vec![ev(3, NoteName::C, 3, 5)]);
    let half = NoteEffect::new(NoteEffectType::ChangeLen(ChangeLenType::Half));
    let h = half.apply(g).unwrap();
    assert_eq!(h.loop_length.ticks, 240);
    assert_eq!(h.notes, vec![ev(3, NoteName::C, 1, 2)]);
}

#[test]
fn doubling_past_u32_is_none() {
    let g = NoteGenerator::new(MusicTime::new(u32::MAX / 2 + 1), vec![]);
    let double = NoteEffect::new(NoteEffectType::ChangeLen(ChangeLenType::Double));
    assert_eq!(double.apply(g), None);
}

#[test]
fn chord_adds_third_and_fifth() {
    let g = NoteGenerator::new(MusicTime::new(480), vec![ev(3, NoteName::A, 0, 480)]);
    let r = NoteEffect::new(NoteEffectType::Chord).apply(g).unwrap();
    assert_eq!(r.loop_length.ticks, 480);
    assert_eq!(
        r.notes,
        vec![ev(3, NoteName::A, 0, 480), ev(4, NoteName::CSharp, 0, 480), ev(4, NoteName::E, 0, 480)]
    );
}

#[test]
fn chord_on_highest_pitch_is_none() {
    let g = NoteGenerator::new(MusicTime::new(480), vec![ev(i32::MAX / 12, NoteName::B, 0, 480)]);
    assert_eq!(NoteEffect::new(NoteEffectType::Chord).apply(g), None);
}

#[test]
fn scale_chord_for_note_in_scale() {
    let c_major = Scale::new(NoteName::C, ScaleType::Major);
    assert_eq!(
        c_major.create_chord_for_note(&Note::new(3, NoteName::A)),
        vec![Note::new(3, NoteName::A), Note::new(4, NoteName::C), Note::new(4, NoteName::E)]
    );
    assert_eq!(c_major.create_chord_for_note(&Note::new(3, NoteName::CSharp)), vec![Note::new(3, NoteName::CSharp)]);
}

#[test]
fn diatonic_chord_in_minor() {
    let a_minor = Scale::new(NoteName::A, ScaleType::Minor);
    assert_eq!(
        a_minor.create_diatonic_chord(&Note::new(3, NoteName::E)),
        vec![Note::new(3, NoteName::E), Note::new(3, NoteName::G), Note::new(3, NoteName::B)]
    );
    assert_eq!(a_minor.create_diatonic_chord(&Note::new(3, NoteName::FSharp)), vec![Note::new(3, NoteName::FSharp)]);
}

#[test]
fn nearest_scale_note() {
    let c_major = Scale::new(NoteName::C, ScaleType::Major);
    assert_eq!(c_major.find_nearest_scale_note(&Note::new(3, NoteName::CSharp)), Note::new(3, NoteName::C));
    assert_eq!(c_major.find_nearest_scale_note(&Note::new(3, NoteName::E)), Note::new(3, NoteName::E));
    let fs_major = Scale::new(NoteName::FSharp, ScaleType::Major);
    assert_eq!(fs_major.find_nearest_scale_note(&Note::new(3, NoteName::C)), Note::new(2, NoteName::B));
}

#[test]
fn scale_effect_expands_each_note() {
    let g = NoteGenerator::new(MusicTime::new(960), vec![ev(3, NoteName::C, 0, 480), ev(3, NoteName::CSharp, 480, 480)]);
    let e = NoteEffect::new(NoteEffectType::Scale(Scale::new(NoteName::C, ScaleType::Major)));
    let r = e.apply(g).unwrap();
    assert_eq!(
        r.notes,
        vec![
            ev(3, NoteName::C, 0, 480),
            ev(3, NoteName::E, 0, 480),
            ev(3, NoteName::G, 0, 480),
            ev(3, NoteName::CSharp, 480, 480),
        ]
    );
}

#[test]
fn scale_chord_effect_snaps_then_builds() {
    let g = NoteGenerator::new(MusicTime::new(480), vec![ev(3, NoteName::CSharp, 0, 480)]);
    let e = NoteEffect::new(NoteEffectType::ScaleChord(Scale::new(NoteName::C, ScaleType::Major)));
    let r = e.apply(g).unwrap();
    assert_eq!(r.notes, vec![ev(3, NoteName::C, 0, 480), ev(3, NoteName::E, 0, 480), ev(3, NoteName::G, 0, 480)]);
}

#[test]
fn nearest_scale_note_is_a_close_scale_tone() {
    for root in 0..12u32 {
        for scale_type in [ScaleType::Major, ScaleType::Minor] {
            let scale = Scale::new(NoteName::from_int(root), scale_type);
            let in_scale = |n: NoteName| {
                scale.create_chord_for_note(&Note::new(3, n)).len() == 3
            };
            for class in 0..12u32 {
                let note = Note::new(3, NoteName::from_int(class));
                let near = scale.find_nearest_scale_note(&note);
                assert!(in_scale(near.note_name));
                assert!((near.to_semitones() - note.to_semitones()).abs() <= 1);
                if in_scale(note.note_name) {
                    assert_eq!(near, note);
                }
            }
        }
    }
}
