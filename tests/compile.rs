use infinite_echoes::audio::{AudioEffect, Oscillator, WaveShape};
use infinite_echoes::cards::CardType;
use infinite_echoes::compile::{
    compile_graph, schedule_plays, wire_effects, AudioConfig, CompileError, Connection, Endpoint,
};
use infinite_echoes::engine::AudioEngine;
use infinite_echoes::graph::{AudioGraph, AudioNode};
use infinite_echoes::notes::{Note, NoteEvent, NoteGenerator, NoteName};
use infinite_echoes::time::MusicTime;

fn ev(octave: i32, name: NoteName, start: u32, duration: u32) -> NoteEvent {
    NoteEvent::new(Note::new(octave, name), MusicTime::new(start), MusicTime::new(duration))
}

fn config(window: u64) -> AudioConfig {
    AudioConfig { attack_micros: 1000, release_micros: 2000, max_schedule_ahead_micros: window, output_gain_milli: 800 }
}

#[test]
fn lookahead_repeats_two_second_loop_three_times() {
    // 960 ticks at 60 bpm last two seconds; a five-second window needs three repeats.
    let g = NoteGenerator::new(MusicTime::new(960), vec![ev(3, NoteName::C, 0, 480), ev(3, NoteName::E, 480, 240)]);
    let now: u64 = 10_000_000;
    let plays = schedule_plays(&g, 60, &config(5_000_000), now).unwrap();
    assert_eq!(plays.len(), 3 * 2);
    for i in 0..3u64 {
        let round = &plays[(i as usize) * 2..(i as usize) * 2 + 2];
        let earliest = round.iter().map(|p| p.start_micros).min().unwrap();
        assert!(earliest >= now + i * 2_000_000);
        assert_eq!(round[0].start_micros, now + i * 2_000_000);
        assert_eq!(round[1].start_micros, now + i * 2_000_000 + 1_000_000);
        assert_eq!(round[0].duration_micros, 1_000_000);
        assert_eq!(round[1].duration_micros, 500_000);
        assert_eq!(round[1].note, Note::new(3, NoteName::E));
        assert_eq!(round[0].attack_micros, 1000);
        assert_eq!(round[0].release_micros, 2000);
        assert_eq!(round[0].gain_milli, 800);
    }
}

#[test]
fn window_that_divides_evenly_is_not_overshot() {
    let g = NoteGenerator::new(MusicTime::new(960), vec![ev(3, NoteName::C, 0, 480)]);
    assert_eq!(schedule_plays(&g, 60, &config(4_000_000), 0).unwrap().len(), 2);
    assert_eq!(schedule_plays(&g, 60, &config(4_000_001), 0).unwrap().len(), 3);
}

#[test]
fn empty_window_schedules_one_repeat() {
    let g = NoteGenerator::new(MusicTime::new(960), vec![ev(3, NoteName::C, 0, 480)]);
    assert_eq!(schedule_plays(&g, 60, &config(0), 0).unwrap().len(), 1);
}

#[test]
fn zero_length_loop_schedules_nothing() {
    let g = NoteGenerator::new(MusicTime::new(0), vec![ev(3, NoteName::C, 0, 480)]);
    assert_eq!(schedule_plays(&g, 60, &config(5_000_000), 0).unwrap().len(), 0);
}

#[test]
fn start_time_past_u64_is_none() {
    let g = NoteGenerator::new(MusicTime::new(960), vec![ev(3, NoteName::C, 10, 480)]);
    assert_eq!(schedule_plays(&g, 60, &config(0), u64::MAX), None);
}

#[test]
fn wiring_plans() {
    assert_eq!(wire_effects(0), vec![Connection { from: Endpoint::Tone, to: Endpoint::Master }]);
    assert_eq!(
        wire_effects(3),
        vec![
            Connection { from: Endpoint::Tone, to: Endpoint::Effect(0) },
            Connection { from: Endpoint::Effect(0), to: Endpoint::Effect(1) },
            Connection { from: Endpoint::Effect(1), to: Endpoint::Effect(2) },
            Connection { from: Endpoint::Effect(2), to: Endpoint::Master },
        ]
    );
}

fn sample_graph() -> AudioGraph {
    AudioGraph::from_cards(vec![
        CardType::NoteGenerator(NoteName::A),
        CardType::NoteGenerator(NoteName::C),
        CardType::Oscillator(WaveShape::Sine),
        CardType::Reverb,
    ])
    .unwrap()
}

#[test]
fn compile_whole_chain() {
    let b = compile_graph(&sample_graph(), 120, &config(2_000_000), 5).unwrap();
    assert_eq!(b.tone, Oscillator::new(WaveShape::Sine));
    assert_eq!(b.effects, vec![AudioEffect::new_reverb(1000, 1000, 1000)]);
    assert_eq!(b.wiring.len(), 2);
    // 960 ticks at 120 bpm last one second: two repeats of two notes.
    assert_eq!(b.plays.len(), 4);
    let starts: Vec<u64> = b.plays.iter().map(|p| p.start_micros).collect();
    assert_eq!(starts, vec![5, 500_005, 1_000_005, 1_500_005]);
    assert_eq!(b.plays[1].note, Note::new(3, NoteName::C));
}

#[test]
fn compiling_twice_gives_the_same_batch() {
    let g = sample_graph();
    let a = compile_graph(&g, 100, &config(3_000_000), 42).unwrap();
    let b = compile_graph(&g, 100, &config(3_000_000), 42).unwrap();
    assert_eq!(a, b);
    let copy = g.duplicate();
    assert!(copy.same_as(&g));
    assert_eq!(compile_graph(&copy, 100, &config(3_000_000), 42).unwrap(), a);
}

#[test]
fn compile_errors() {
    let g = sample_graph();
    assert_eq!(compile_graph(&g, 0, &config(1), 0), Err(CompileError::ZeroTempo));
    let no_tone = AudioGraph::from_cards(vec![CardType::NoteGenerator(NoteName::A)]);
    assert!(no_tone.is_none());
    let huge = NoteGenerator::new(MusicTime::new(u32::MAX), vec![]);
    let g2 = AudioGraph::new(vec![huge.clone(), huge], Oscillator::new(WaveShape::Sine), vec![]);
    assert_eq!(compile_graph(&g2, 60, &config(1), 0), Err(CompileError::OutOfRange));
    assert_eq!(compile_graph(&g, 60, &config(1), u64::MAX), Err(CompileError::TimeOverflow));
}

#[test]
fn compile_reports_missing_tone_generator() {
    let nodes = vec![AudioNode::NoteGenerator(NoteGenerator::from_note_name(NoteName::C))];
    let g = AudioGraph::from_nodes(nodes.clone());
    assert_eq!(compile_graph(&g, 60, &config(1), 0), Err(CompileError::NoOscillator));
    assert_eq!(g.into_nodes(), nodes);
}

#[test]
fn engine_tracks_voices() {
    let mut engine = AudioEngine::new();
    assert!(!engine.is_playing());
    let b = engine.interpret_graph(120, &sample_graph(), &config(1_000_000), 0).unwrap();
    assert!(engine.is_playing());
    assert_eq!(b.plays.len(), 2);
    let stopped = engine.stop_all();
    assert_eq!(stopped, b.plays);
    assert!(!engine.is_playing());
    assert!(engine.stop_all().is_empty());
    assert_eq!(engine.interpret_graph(0, &sample_graph(), &config(1), 0), Err(CompileError::ZeroTempo));
    assert!(!engine.is_playing());
}

#[test]
fn repeats_are_shifted_in_ticks_then_converted() {
    // At 7 bpm one tick lasts 17857.14 microseconds: repeat seven of a
    // one-tick loop starts at seven ticks, 125000 microseconds.
    let g = NoteGenerator::new(MusicTime::new(1), vec![ev(3, NoteName::C, 0, 1)]);
    let plays = schedule_plays(&g, 7, &config(1_000_000), 0).unwrap();
    assert_eq!(plays.len(), 57);
    assert_eq!(plays[1].start_micros, 17_857);
    assert_eq!(plays[7].start_micros, 125_000);
    assert_eq!(plays[56].start_micros, 1_000_000);
}
