use infinite_echoes::audio::{AudioEffect, DistortionCurve, FilterType, Oscillator, WaveShape};
use infinite_echoes::cards::{CardType, Shape};
use infinite_echoes::effects::{ChangeLenType, NoteEffect, NoteEffectType, Scale, ScaleType};
use infinite_echoes::grammar::{insertion_points, is_playable, AudioNodeType};
use infinite_echoes::graph::{AudioGraph, AudioNode};
use infinite_echoes::notes::{Note, NoteEvent, NoteGenerator, NoteName};
use infinite_echoes::time::MusicTime;

use AudioNodeType::{AudioEffect as Fx, NoteEffect as Ne, NoteGenerator as Gen, Oscillator as Tone};

fn ev(octave: i32, name: NoteName, start: u32, duration: u32) -> NoteEvent {
    NoteEvent::new(Note::new(octave, name), MusicTime::new(start), MusicTime::new(duration))
}

#[test]
fn grammar_examples() {
    assert!(is_playable(&vec![Gen, Tone]));
    assert!(!is_playable(&vec![Tone]));
    assert!(!is_playable(&vec![Gen, Tone, Tone]));
    assert!(is_playable(&vec![Gen, Ne, Tone, Fx]));
    assert!(!is_playable(&vec![Fx, Tone]));
}

#[test]
fn grammar_edge_cases() {
    assert!(!is_playable(&vec![]));
    assert!(!is_playable(&vec![Gen]));
    assert!(!is_playable(&vec![Ne, Tone]));
    assert!(is_playable(&vec![Ne, Gen, Tone, Fx, Fx]));
    assert!(!is_playable(&vec![Gen, Tone, Fx, Gen]));
    assert!(!is_playable(&vec![Gen, Fx, Tone]));
}

#[test]
fn strict_and_loose_placement() {
    assert!(Fx.can_put_between_strict(&Some(Tone), &None));
    assert!(!Fx.can_put_between_strict(&Some(Gen), &None));
    assert!(Fx.can_put_between_loose(&Some(Gen), &None));
    assert!(Gen.can_put_between_loose(&None, &Some(Fx)));
    assert!(!Gen.can_put_between_strict(&None, &Some(Fx)));
    assert!(Tone.can_put_between_strict(&Some(Ne), &Some(Fx)));
    assert!(!Tone.can_put_between_strict(&Some(Tone), &None));
    assert!(Tone.can_put_between_strict(&None, &None));
}

#[test]
fn card_ids_round_trip() {
    let cards = vec![
        CardType::NoteGenerator(NoteName::DSharp),
        CardType::NoteEffect(NoteName::A, ScaleType::Minor),
        CardType::ChangeLen(ChangeLenType::Half),
        CardType::Oscillator(WaveShape::Square),
        CardType::Filter(FilterType::Notch),
        CardType::Distortion,
        CardType::Reverb,
    ];
    let ids: Vec<u16> = cards.iter().map(|c| c.to_id()).collect();
    assert_eq!(ids, vec![3, 119, 201, 301, 402, 500, 600]);
    for c in cards {
        assert_eq!(CardType::from_id(c.to_id()), Some(c));
    }
    assert_eq!(CardType::from_id(12), None);
    assert_eq!(CardType::from_id(124), None);
    assert_eq!(CardType::from_id(100), Some(CardType::NoteEffect(NoteName::C, ScaleType::Major)));
}

#[test]
fn card_labels_shapes_and_types() {
    assert_eq!(CardType::NoteGenerator(NoteName::FSharp).get_label(), Some("F#".to_string()));
    assert_eq!(CardType::NoteEffect(NoteName::C, ScaleType::Major).get_label(), Some("C Maj".to_string()));
    assert_eq!(CardType::NoteEffect(NoteName::A, ScaleType::Minor).get_label(), Some("A Min".to_string()));
    assert_eq!(CardType::ChangeLen(ChangeLenType::Double).get_label(), Some("x2".to_string()));
    assert_eq!(CardType::ChangeLen(ChangeLenType::Half).get_label(), Some("/2".to_string()));
    assert_eq!(CardType::Reverb.get_label(), None);
    assert_eq!(CardType::ChangeLen(ChangeLenType::Half).as_shape(), Shape::FASTER);
    assert_eq!(CardType::Filter(FilterType::LowPass).as_shape(), Shape::LOWPASS);
    assert_eq!(CardType::ChangeLen(ChangeLenType::Half).as_type(), Ne);
    assert_eq!(CardType::Distortion.as_type(), Fx);
    assert_eq!(CardType::NoteGenerator(NoteName::B).get_note_name(), Some(NoteName::B));
    assert_eq!(CardType::Reverb.get_note_name(), None);
}

#[test]
fn nodes_from_cards() {
    match AudioNode::from_card(&CardType::NoteGenerator(NoteName::E)) {
        AudioNode::NoteGenerator(g) => assert_eq!(g, NoteGenerator::from_note_name(NoteName::E)),
        _ => panic!("expected a note generator"),
    }
    assert_eq!(
        AudioNode::from_card(&CardType::Distortion),
        AudioNode::AudioEffect(AudioEffect::new_distortion(30, DistortionCurve::SoftClip))
    );
    assert_eq!(
        AudioNode::from_card(&CardType::NoteEffect(NoteName::D, ScaleType::Major)),
        AudioNode::NoteEffect(NoteEffect::new(NoteEffectType::Scale(Scale::new(NoteName::D, ScaleType::Major))))
    );
    assert_eq!(AudioNode::from_card(&CardType::Oscillator(WaveShape::Sine)).as_type(), Tone);
}

#[test]
fn graph_from_invalid_cards_is_none() {
    assert!(AudioGraph::from_cards(vec![CardType::Oscillator(WaveShape::Sine)]).is_none());
    assert!(AudioGraph::from_cards(vec![]).is_none());
    assert!(AudioGraph::from_cards(vec![CardType::Reverb, CardType::Oscillator(WaveShape::Sine)]).is_none());
}

#[test]
fn graph_parts_in_order() {
    let g = AudioGraph::from_cards(vec![
        CardType::NoteGenerator(NoteName::C),
        CardType::ChangeLen(ChangeLenType::Double),
        CardType::Oscillator(WaveShape::Square),
        CardType::Reverb,
        CardType::Filter(FilterType::HighPass),
    ])
    .unwrap();
    assert_eq!(g.nodes().len(), 5);
    assert_eq!(g.note_generators(), vec![NoteGenerator::from_note_name(NoteName::C)]);
    assert_eq!(g.note_effects(), vec![NoteEffect::new(NoteEffectType::ChangeLen(ChangeLenType::Double))]);
    assert_eq!(g.oscillator(), Some(Oscillator::new(WaveShape::Square)));
    assert_eq!(
        g.audio_effects(),
        vec![AudioEffect::new_reverb(1000, 1000, 1000), AudioEffect::new_filter(FilterType::HighPass, 1_000_000, 1000, 0)]
    );
}

#[test]
fn graph_new_lays_out_nodes() {
    let g = AudioGraph::new(
        vec![NoteGenerator::from_note_name(NoteName::C)],
        Oscillator::new(WaveShape::Sine),
        vec![AudioEffect::default_filter()],
    );
    assert_eq!(g.nodes().len(), 3);
    assert_eq!(g.nodes()[1], AudioNode::Oscillator(Oscillator::new(WaveShape::Sine)));
    assert_eq!(g.nodes()[2], AudioNode::AudioEffect(AudioEffect::default_filter()));
}

#[test]
fn blocks_combine_then_apply_effects() {
    // [C, E] x2 [G] Tone: block one is C then E doubled, block two is G.
    let g = AudioGraph::from_cards(vec![
        CardType::NoteGenerator(NoteName::C),
        CardType::NoteGenerator(NoteName::E),
        CardType::ChangeLen(ChangeLenType::Double),
        CardType::NoteGenerator(NoteName::G),
        CardType::Oscillator(WaveShape::Sine),
    ])
    .unwrap();
    let flat = g.process_note_generators().unwrap();
    assert_eq!(flat.loop_length.ticks, 2 * 960 + 480);
    assert_eq!(
        flat.notes,
        vec![ev(3, NoteName::C, 0, 960), ev(3, NoteName::E, 960, 960), ev(3, NoteName::G, 1920, 480)]
    );
}

#[test]
fn effects_apply_in_order() {
    // Halving then doubling loses the odd tick; doubling then halving does not.
    let gen = NoteGenerator::new(MusicTime::new(481), vec![ev(3, NoteName::C, 1, 1)]);
    let half = NoteEffect::new(NoteEffectType::ChangeLen(ChangeLenType::Half));
    let double = NoteEffect::new(NoteEffectType::ChangeLen(ChangeLenType::Double));
    let tone = Oscillator::new(WaveShape::Sine);
    let a = AudioGraph::new(vec![gen.clone()], tone, vec![]);
    assert_eq!(a.process_note_generators().unwrap(), gen);
    let hd = double.apply(half.apply(gen.clone()).unwrap()).unwrap();
    let dh = half.apply(double.apply(gen.clone()).unwrap()).unwrap();
    assert_eq!(hd.loop_length.ticks, 480);
    assert_eq!(dh.loop_length.ticks, 481);
}

#[test]
fn empty_graph_flattens_to_empty_loop() {
    let g = AudioGraph::new(vec![], Oscillator::new(WaveShape::Sine), vec![]);
    let flat = g.process_note_generators().unwrap();
    assert_eq!(flat.loop_length.ticks, 0);
    assert!(flat.notes.is_empty());
}

#[test]
fn audio_effect_helpers() {
    let f = AudioEffect::default_filter();
    assert!(f.is_filter() && !f.is_reverb() && !f.is_distortion());
    assert_eq!(f.as_filter().unwrap().frequency_millihertz, 1_000_000);
    assert!(f.as_reverb().is_none());
    let d = AudioEffect::default_distortion();
    assert_eq!(d.as_distortion().unwrap().amount_milli, 500);
    let r = AudioEffect::default_reverb();
    assert_eq!(r.as_reverb().unwrap().decay_millis, 2000);
}

#[test]
fn loose_drop_places() {
    let chain = vec![Gen, Tone, Fx];
    assert_eq!(insertion_points(&chain, Fx), vec![2, 3]);
    assert_eq!(insertion_points(&chain, Gen), vec![0, 1]);
    assert_eq!(insertion_points(&vec![], Tone), vec![0]);
    assert_eq!(insertion_points(&vec![Gen], Fx), vec![1]);
}
