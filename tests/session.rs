use infinite_echoes::audio::WaveShape;
use infinite_echoes::cards::CardType;
use infinite_echoes::effects::ChangeLenType;
use infinite_echoes::compile::{AudioConfig, CompileError};
use infinite_echoes::errors::GameError;
use infinite_echoes::notes::NoteName;
use infinite_echoes::session::{GameEvent, GameState, Session};
use infinite_echoes::store::{ContractInfo, DebugHudConfig};

fn config() -> AudioConfig {
    AudioConfig { attack_micros: 1000, release_micros: 2000, max_schedule_ahead_micros: 1_000_000, output_gain_milli: 800 }
}

fn cards() -> Vec<CardType> {
    vec![CardType::NoteGenerator(NoteName::C), CardType::Oscillator(WaveShape::Sine)]
}

#[test]
fn new_state_is_empty() {
    let s = GameState::new(cards());
    assert!(s.current_graph.is_none() && s.playing_graph.is_none() && s.playing_cards.is_none());
    assert_eq!(s.card_deck, cards());
    assert!(s.remixed_from_address.is_none());
}

#[test]
fn interpret_without_graph_asks_for_stop() {
    let mut s = Session::new(vec![], 120, config());
    let o = s.process_event(GameEvent::InterpretGraph, &cards(), 0).ok().unwrap();
    assert_eq!(o.follow_ups, vec![(GameEvent::StopAudioGraph, None)]);
    assert!(!o.stop_all);
    assert!(o.started.is_none());
}

#[test]
fn update_then_interpret_then_stop() {
    let mut s = Session::new(vec![], 120, config());
    assert!(s.should_interpret());
    let o = s.process_event(GameEvent::UpdateGraph, &cards(), 0).ok().unwrap();
    assert!(o.started.is_none());
    assert!(s.state.current_graph.is_some());
    let o = s.process_event(GameEvent::InterpretGraph, &cards(), 7).ok().unwrap();
    let batch = o.started.unwrap();
    // 480 ticks at 120 bpm last half a second: two repeats in one second.
    assert_eq!(batch.plays.len(), 2);
    assert_eq!(batch.plays[1].start_micros, 500_007);
    assert!(s.engine.is_playing());
    assert!(!s.should_interpret());
    assert_eq!(s.state.playing_cards, Some(cards()));
    let o = s.process_event(GameEvent::StopAudioGraph, &cards(), 9).ok().unwrap();
    assert!(o.stop_all);
    assert_eq!(o.silenced, batch.plays);
    assert!(!s.engine.is_playing());
    assert!(s.should_interpret());
}

#[test]
fn changed_arrangement_should_be_interpreted() {
    let mut s = Session::new(vec![], 120, config());
    s.process_event(GameEvent::UpdateGraph, &cards(), 0).ok().unwrap();
    s.process_event(GameEvent::InterpretGraph, &cards(), 0).ok().unwrap();
    let mut more = cards();
    more.insert(1, CardType::NoteGenerator(NoteName::E));
    s.process_event(GameEvent::UpdateGraph, &more, 0).ok().unwrap();
    assert!(s.should_interpret());
}

#[test]
fn invalid_arrangement_clears_current_graph() {
    let mut s = Session::new(vec![], 120, config());
    s.process_event(GameEvent::UpdateGraph, &cards(), 0).ok().unwrap();
    s.process_event(GameEvent::UpdateGraph, &vec![CardType::Reverb], 0).ok().unwrap();
    assert!(s.state.current_graph.is_none());
}

#[test]
fn compile_error_is_returned() {
    let mut s = Session::new(vec![], 0, config());
    s.process_event(GameEvent::UpdateGraph, &cards(), 0).ok().unwrap();
    assert_eq!(s.process_event(GameEvent::InterpretGraph, &cards(), 0).err(), Some(CompileError::ZeroTempo));
}

#[test]
fn failed_compile_leaves_playback_alone() {
    let mut s = Session::new(vec![], 120, config());
    s.process_event(GameEvent::UpdateGraph, &cards(), 0).ok().unwrap();
    s.process_event(GameEvent::InterpretGraph, &cards(), 0).ok().unwrap();
    s.scheduler.schedule(GameEvent::UpdateGraph, None, 0);
    // A chain whose doubled loop overflows the tick counter.
    let long = vec![
        CardType::NoteGenerator(NoteName::C),
        CardType::ChangeLen(ChangeLenType::Double),
        CardType::Oscillator(WaveShape::Sine),
    ];
    s.process_event(GameEvent::UpdateGraph, &long, 0).ok().unwrap();
    s.bpm = 0;
    assert_eq!(s.process_event(GameEvent::InterpretGraph, &long, 0).err(), Some(CompileError::ZeroTempo));
    assert!(s.engine.is_playing());
    assert_eq!(s.state.playing_cards, Some(cards()));
    assert_eq!(s.scheduler.len(), 1);
}

#[test]
fn update_keeps_what_plays() {
    let mut s = Session::new(vec![], 120, config());
    s.process_event(GameEvent::UpdateGraph, &cards(), 0).ok().unwrap();
    s.process_event(GameEvent::InterpretGraph, &cards(), 0).ok().unwrap();
    s.process_event(GameEvent::UpdateGraph, &vec![CardType::Reverb], 0).ok().unwrap();
    assert!(s.state.current_graph.is_none());
    assert!(s.state.playing_graph.is_some());
    assert_eq!(s.state.playing_cards, Some(cards()));
    assert!(s.engine.is_playing());
    let o = s.process_event(GameEvent::InterpretGraph, &cards(), 0).ok().unwrap();
    assert_eq!(o.follow_ups, vec![(GameEvent::StopAudioGraph, None)]);
    assert!(s.state.playing_graph.is_some());
    assert!(s.engine.is_playing());
}

#[test]
fn scheduled_events_drive_the_session() {
    let mut s = Session::new(vec![], 120, config());
    s.scheduler.schedule(GameEvent::UpdateGraph, None, 0);
    s.scheduler.schedule(GameEvent::InterpretGraph, None, 0);
    s.scheduler.begin_processing();
    let mut started = 0;
    while let Some(e) = s.scheduler.pop_due(0) {
        let o = s.process_event(e, &cards(), 0).ok().unwrap();
        if o.started.is_some() {
            started += 1;
        }
        for (ev, delay) in o.follow_ups {
            s.scheduler.schedule(ev, delay, 0);
        }
    }
    assert_eq!(started, 1);
    assert!(s.engine.is_playing());
}

#[test]
fn errors_and_stored_data() {
    let e = GameError::new("no tone", Some("details".to_string()));
    assert_eq!(e.get_message(), "no tone");
    assert_eq!(e.get_payload(), &Some("details".to_string()));
    let m = GameError::msg("plain");
    assert_eq!(m.get_message(), "plain");
    assert!(m.get_payload().is_none());
    let info = ContractInfo::default();
    assert!(info.fee_params.is_none() && info.piece_addresses.is_empty() && info.piece_data.is_empty());
    assert_eq!(DebugHudConfig { buffer_size: 100 }.buffer_size, 100);
}
