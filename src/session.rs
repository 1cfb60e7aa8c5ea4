//! The decisions of a playing session: what happens on each event.
//!
//! A frame loop outside the library reads the clock and the card
//! arrangement, runs a round of the scheduler, and hands each due event to
//! [`Session::process_event`]. The outcome says what the audio backend must
//! do (silence voices, start a batch) and which events to schedule next.

use vstd::prelude::*;
use crate::cards::{card_categories, CardType};
use crate::compile::{compile_graph, compile_model, AudioConfig, CommandBatch, CompileError, PlayCommand};
use crate::engine::{AudioEngine, AudioState, EngineModel};
use crate::grammar::playable;
use crate::graph::{nodes_of_cards, same_nodes, AudioGraph};
use crate::scheduler::{after_clear, Scheduler};

verus! {

#[derive(Clone, Copy, PartialEq, Eq, Structural, Debug)]
pub enum GameEvent {
    /// Compile the current graph and play it.
    InterpretGraph,
    /// Stop playback and drop pending events.
    StopAudioGraph,
    /// Rebuild the current graph from the card arrangement.
    UpdateGraph,
}

pub struct GameState {
    /// The graph of the current arrangement, when it is playable.
    pub current_graph: Option<AudioGraph>,
    /// The graph last started.
    pub playing_graph: Option<AudioGraph>,
    pub card_deck: Vec<CardType>,
    /// The arrangement last started.
    pub playing_cards: Option<Vec<CardType>>,
    /// Address of the stored piece the current one was loaded from.
    pub remixed_from_address: Option<String>,
}

impl GameState {
    pub fn new(initial_deck: Vec<CardType>) -> (r: GameState)
        ensures
            r.current_graph is None,
            r.playing_graph is None,
            r.card_deck@ == initial_deck@,
            r.playing_cards is None,
            r.remixed_from_address is None,
    {
        GameState {
            current_graph: None,
            playing_graph: None,
            card_deck: initial_deck,
            playing_cards: None,
            remixed_from_address: None,
        }
    }
}

/// What the outside must do after an event.
pub struct EventOutcome {
    /// Events to schedule, each with its optional delay in microseconds.
    pub follow_ups: Vec<(GameEvent, Option<u64>)>,
    /// Whether every voice must be silenced.
    pub stop_all: bool,
    /// Voices that were playing when they were silenced.
    pub silenced: Vec<PlayCommand>,
    /// A batch to hand to the audio backend.
    pub started: Option<CommandBatch>,
}

pub struct Session {
    pub state: GameState,
    pub engine: AudioEngine,
    pub scheduler: Scheduler<GameEvent>,
    pub bpm: u32,
    pub audio: AudioConfig,
}

/// Copies of `cards`.
fn copy_cards(cards: &Vec<CardType>) -> (r: Vec<CardType>)
    ensures
        r@ == cards@,
{
    let mut r: Vec<CardType> = Vec::new();
    let mut i: usize = 0;
    while i < cards.len()
        invariant
            i <= cards.len(),
            r@ == cards@.take(i as int),
        decreases cards.len() - i,
    {
        r.push(cards[i]);
        proof {
            assert(cards@.take(i + 1) =~= cards@.take(i as int).push(cards@[i as int]));
        }
        i += 1;
    }
    proof {
        assert(cards@.take(i as int) =~= cards@);
    }
    r
}

/// Everything was silenced, nothing is started and nothing follows.
pub open spec fn stop_outcome(o: EventOutcome, voices: Seq<PlayCommand>) -> bool {
    o.follow_ups@.len() == 0 && o.stop_all && o.silenced@ == voices && o.started is None
}

/// What interpreting the current graph `g` of `before` did. The graph was
/// compiled first. On success playback was stopped, pending events dropped,
/// the batch started, and the graph and `cards` became the playing ones,
/// the rest of the state kept. On failure nothing changed: what was playing
/// plays on.
pub open spec fn interpreted(
    before: Session,
    after: Session,
    r: Result<EventOutcome, CompileError>,
    cards: Seq<CardType>,
    now: u64,
) -> bool {
    let g = before.state.current_graph->0;
    match compile_model(g@, before.bpm as int, before.audio, now as int) {
        Ok(m) => {
            &&& r matches Ok(o) && stop_outcome_started(o, before.engine@.voices, m)
            &&& after.scheduler@ == after_clear(before.scheduler@)
            &&& after.engine@ == (EngineModel {
                state: AudioState::Playing,
                voices: m.plays,
                effects: m.effects,
            })
            &&& after.state.playing_graph matches Some(p) && same_nodes(p@, g@)
            &&& after.state.playing_cards matches Some(pc) && pc@ == cards
            &&& after.state.current_graph == before.state.current_graph
            &&& after.state.card_deck == before.state.card_deck
            &&& after.state.remixed_from_address == before.state.remixed_from_address
        },
        Err(e) => {
            &&& r == Err::<EventOutcome, CompileError>(e)
            &&& after.engine@ == before.engine@
            &&& after.scheduler@ == before.scheduler@
            &&& after.state == before.state
        },
    }
}

/// Everything was silenced and the batch `m` started.
pub open spec fn stop_outcome_started(
    o: EventOutcome,
    voices: Seq<PlayCommand>,
    m: crate::compile::BatchModel,
) -> bool {
    o.follow_ups@.len() == 0 && o.stop_all && o.silenced@ == voices && (o.started matches Some(b)
        && b@ == m)
}

impl Session {
    pub fn new(initial_deck: Vec<CardType>, bpm: u32, audio: AudioConfig) -> (r: Session)
        ensures
            r.state.current_graph is None,
            r.state.playing_graph is None,
            r.state.card_deck@ == initial_deck@,
            r.engine@.state == AudioState::NotPlaying,
            r.scheduler@.queue.len() == 0,
            !r.scheduler@.clear_pending,
            r.bpm == bpm,
            r.audio == audio,
    {
        Session {
            state: GameState::new(initial_deck),
            engine: AudioEngine::new(),
            scheduler: Scheduler::new(),
            bpm,
            audio,
        }
    }

    /// Stop playback: drop pending events at the next round and silence
    /// every voice, which are handed back.
    pub fn stop_audio_graph(&mut self) -> (r: Vec<PlayCommand>)
        ensures
            r@ == old(self).engine@.voices,
            final(self).scheduler@ == after_clear(old(self).scheduler@),
            final(self).engine@.state == AudioState::NotPlaying,
            final(self).engine@.voices.len() == 0,
            final(self).engine@.effects.len() == 0,
            final(self).state == old(self).state,
            final(self).bpm == old(self).bpm,
            final(self).audio == old(self).audio,
    {
        self.scheduler.clear();
        self.engine.stop_all()
    }

    /// Should pressing play start the current graph (rather than stop)?
    /// Yes when nothing plays, or when the current graph is not the one
    /// playing.
    pub fn should_interpret(&self) -> (r: bool)
        ensures
            r == (self.engine@.state != AudioState::Playing || !(match (
                self.state.current_graph,
                self.state.playing_graph,
            ) {
                (Some(c), Some(p)) => same_nodes(c@, p@),
                (None, None) => true,
                _ => false,
            })),
    {
        if !self.engine.is_playing() {
            return true;
        }
        let same = match (&self.state.current_graph, &self.state.playing_graph) {
            (Some(c), Some(p)) => c.same_as(p),
            (None, None) => true,
            _ => false,
        };
        !same
    }

    /// Carry out one event. `cards` is the arrangement on screen and `now`
    /// the audio clock.
    ///
    /// - Interpreting with a current graph compiles it; on success what plays
    ///   is stopped and the new batch started. Without a current graph it
    ///   asks for a stop and changes nothing.
    /// - Stopping silences everything and drops pending events.
    /// - Updating rebuilds the current graph from `cards` and leaves what
    ///   plays alone.
    ///
    /// A compile error is returned as is, with nothing changed.
    pub fn process_event(&mut self, event: GameEvent, cards: &Vec<CardType>, now: u64) -> (r: Result<
        EventOutcome,
        CompileError,
    >)
        ensures
            final(self).bpm == old(self).bpm,
            final(self).audio == old(self).audio,
            event is InterpretGraph && old(self).state.current_graph is Some ==> interpreted(
                *old(self),
                *final(self),
                r,
                cards@,
                now,
            ),
            event is InterpretGraph && old(self).state.current_graph is None ==> (r matches Ok(o)
                && o.follow_ups@ == seq![(GameEvent::StopAudioGraph, None::<u64>)] && !o.stop_all
                && o.silenced@.len() == 0 && o.started is None && final(self).scheduler@ == old(
                self,
            ).scheduler@ && final(self).engine@ == old(self).engine@ && final(self).state == old(
                self,
            ).state),
            event is StopAudioGraph ==> (r matches Ok(o) && stop_outcome(o, old(self).engine@.voices)
                && final(self).scheduler@ == after_clear(old(self).scheduler@)
                && final(self).engine@.state == AudioState::NotPlaying && final(self).engine@.voices.len()
                == 0 && final(self).engine@.effects.len() == 0 && final(self).state == old(self).state),
            event is UpdateGraph ==> (r matches Ok(o) && o.follow_ups@.len() == 0 && !o.stop_all
                && o.silenced@.len() == 0 && o.started is None && final(self).engine@ == old(self).engine@
                && final(self).scheduler@ == old(self).scheduler@),
            event is UpdateGraph ==> (final(self).state.current_graph is Some <==> playable(
                card_categories(cards@),
            )),
            event is UpdateGraph ==> (final(self).state.current_graph matches Some(g) ==> nodes_of_cards(
                g@,
                cards@,
            )),
            event is UpdateGraph ==> final(self).state.playing_graph == old(self).state.playing_graph
                && final(self).state.playing_cards == old(self).state.playing_cards
                && final(self).state.card_deck == old(self).state.card_deck
                && final(self).state.remixed_from_address == old(self).state.remixed_from_address,
    {
        match event {
            GameEvent::InterpretGraph => {
                match &self.state.current_graph {
                    Some(graph) => {
                        match compile_graph(graph, self.bpm, &self.audio, now) {
                            Ok(b) => {
                                self.scheduler.clear();
                                let silenced = self.engine.stop_all();
                                self.engine.play_batch(&b);
                                let playing = graph.duplicate();
                                self.state.playing_graph = Some(playing);
                                self.state.playing_cards = Some(copy_cards(cards));
                                proof {
                                    assert(self.engine@.voices =~= b@.plays);
                                    assert(self.engine@.effects =~= b@.effects);
                                }
                                Ok(
                                    EventOutcome {
                                        follow_ups: Vec::new(),
                                        stop_all: true,
                                        silenced,
                                        started: Some(b),
                                    },
                                )
                            },
                            Err(e) => Err(e),
                        }
                    },
                    None => {
                        let mut follow_ups: Vec<(GameEvent, Option<u64>)> = Vec::new();
                        follow_ups.push((GameEvent::StopAudioGraph, None));
                        Ok(EventOutcome { follow_ups, stop_all: false, silenced: Vec::new(), started: None })
                    },
                }
            },
            GameEvent::StopAudioGraph => {
                let silenced = self.stop_audio_graph();
                Ok(EventOutcome { follow_ups: Vec::new(), stop_all: true, silenced, started: None })
            },
            GameEvent::UpdateGraph => {
                self.state.current_graph = AudioGraph::from_cards(copy_cards(cards));
                Ok(
                    EventOutcome {
                        follow_ups: Vec::new(),
                        stop_all: false,
                        silenced: Vec::new(),
                        started: None,
                    },
                )
            },
        }
    }
}

} // verus!
