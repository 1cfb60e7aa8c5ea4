//! Playback state: which voices are active, and the chain they run through.
//!
//! Voices are kept as plain records in one list owned by the engine; the
//! audio backend refers to them by position.

use vstd::prelude::*;
use crate::audio::AudioEffect;
use crate::compile::{compile_graph, compile_model, AudioConfig, CommandBatch, CompileError, PlayCommand};
use crate::graph::AudioGraph;

verus! {

#[derive(Clone, Copy, PartialEq, Eq, Structural, Debug)]
pub enum AudioState {
    NotPlaying,
    Playing,
}

/// What an engine holds.
pub struct EngineModel {
    pub state: AudioState,
    pub voices: Seq<PlayCommand>,
    pub effects: Seq<AudioEffect>,
}

pub struct AudioEngine {
    state: AudioState,
    voices: Vec<PlayCommand>,
    effects: Vec<AudioEffect>,
}

impl View for AudioEngine {
    type V = EngineModel;

    closed spec fn view(&self) -> EngineModel {
        EngineModel { state: self.state, voices: self.voices@, effects: self.effects@ }
    }
}

/// `to` with copies of `from` appended.
fn append_copies<T: Copy>(to: &mut Vec<T>, from: &Vec<T>)
    ensures
        final(to)@ == old(to)@ + from@,
{
    let mut i: usize = 0;
    while i < from.len()
        invariant
            i <= from.len(),
            to@ == old(to)@ + from@.take(i as int),
        decreases from.len() - i,
    {
        to.push(from[i]);
        proof {
            assert(from@.take(i + 1) =~= from@.take(i as int).push(from@[i as int]));
        }
        i += 1;
    }
    proof {
        assert(from@.take(i as int) =~= from@);
    }
}

impl AudioEngine {
    pub fn new() -> (r: AudioEngine)
        ensures
            r@.state == AudioState::NotPlaying,
            r@.voices.len() == 0,
            r@.effects.len() == 0,
    {
        AudioEngine { state: AudioState::NotPlaying, voices: Vec::new(), effects: Vec::new() }
    }

    pub fn is_playing(&self) -> (r: bool)
        ensures
            r == (self@.state == AudioState::Playing),
    {
        match self.state {
            AudioState::Playing => true,
            AudioState::NotPlaying => false,
        }
    }

    /// Stop everything: forget every voice and effect, and hand back the
    /// voices that the backend must silence.
    pub fn stop_all(&mut self) -> (r: Vec<PlayCommand>)
        ensures
            r@ == old(self)@.voices,
            final(self)@.state == AudioState::NotPlaying,
            final(self)@.voices.len() == 0,
            final(self)@.effects.len() == 0,
    {
        self.state = AudioState::NotPlaying;
        self.effects = Vec::new();
        let mut stopped: Vec<PlayCommand> = Vec::new();
        std::mem::swap(&mut stopped, &mut self.voices);
        stopped
    }

    /// Take on the voices and effects of a compiled batch; the engine is then
    /// playing.
    pub fn play_batch(&mut self, batch: &CommandBatch)
        ensures
            final(self)@ == (EngineModel {
                state: AudioState::Playing,
                voices: old(self)@.voices + batch@.plays,
                effects: old(self)@.effects + batch@.effects,
            }),
    {
        append_copies(&mut self.voices, &batch.plays);
        append_copies(&mut self.effects, &batch.effects);
        self.state = AudioState::Playing;
    }

    /// Compile `graph` for playback from `now` and keep its voices and
    /// effects. On success the engine is playing; on failure it is left as it
    /// was.
    pub fn interpret_graph(
        &mut self,
        bpm: u32,
        audio_graph: &AudioGraph,
        audio_config: &AudioConfig,
        now: u64,
    ) -> (r: Result<CommandBatch, CompileError>)
        ensures
            match compile_model(audio_graph@, bpm as int, *audio_config, now as int) {
                Ok(m) => r matches Ok(b) && b@ == m && final(self)@ == (EngineModel {
                    state: AudioState::Playing,
                    voices: old(self)@.voices + m.plays,
                    effects: old(self)@.effects + m.effects,
                }),
                Err(e) => r == Err::<CommandBatch, CompileError>(e) && final(self)@ == old(self)@,
            },
    {
        let batch = compile_graph(audio_graph, bpm, audio_config, now);
        match batch {
            Ok(b) => {
                self.play_batch(&b);
                Ok(b)
            },
            Err(e) => Err(e),
        }
    }
}

} // verus!
