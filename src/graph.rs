//! Audio graphs: validated card chains, and their folding into one loop.

use vstd::prelude::*;
use crate::audio::{
    AudioEffect, DistortionCurve, DistortionParameters, FilterParameters, Oscillator,
    ReverbParameters,
};
use crate::cards::{card_categories, CardType};
use crate::effects::{apply_effect, NoteEffect, NoteEffectType, Scale};
use crate::grammar::{is_playable, playable, AudioNodeType};
use crate::notes::{
    combine_models, gen_views, GenModel, Note, NoteEvent, NoteGenerator,
};
use crate::time::{MusicTime, PULSES_PER_QUARTER_NOTE};

verus! {

/// One node of a chain.
#[derive(Clone, Debug, PartialEq, Eq)]
pub enum AudioNode {
    NoteGenerator(NoteGenerator),
    NoteEffect(NoteEffect),
    Oscillator(Oscillator),
    AudioEffect(AudioEffect),
}

pub open spec fn node_category(n: AudioNode) -> AudioNodeType {
    match n {
        AudioNode::NoteGenerator(_) => AudioNodeType::NoteGenerator,
        AudioNode::NoteEffect(_) => AudioNodeType::NoteEffect,
        AudioNode::Oscillator(_) => AudioNodeType::Oscillator,
        AudioNode::AudioEffect(_) => AudioNodeType::AudioEffect,
    }
}

/// The generator a note generator card stands for: one quarter note in
/// octave 3, repeating every quarter note.
pub open spec fn card_generator(n: crate::notes::NoteName) -> GenModel {
    GenModel {
        loop_length: PULSES_PER_QUARTER_NOTE,
        notes: seq![
            NoteEvent {
                note: Note { octave: 3, note_name: n },
                start: MusicTime { ticks: 0 },
                duration: MusicTime { ticks: PULSES_PER_QUARTER_NOTE },
            },
        ],
    }
}

/// Is `node` the node that card `c` stands for?
pub open spec fn node_of_card(node: AudioNode, c: CardType) -> bool {
    match c {
        CardType::NoteGenerator(n) => node matches AudioNode::NoteGenerator(g) && g@
            == card_generator(n),
        CardType::NoteEffect(root, scale_type) => node == AudioNode::NoteEffect(
            NoteEffect { effect_type: NoteEffectType::Scale(Scale { root, scale_type }) },
        ),
        CardType::ChangeLen(t) => node == AudioNode::NoteEffect(
            NoteEffect { effect_type: NoteEffectType::ChangeLen(t) },
        ),
        CardType::Oscillator(w) => node == AudioNode::Oscillator(Oscillator { wave_shape: w }),
        CardType::Filter(f) => node == AudioNode::AudioEffect(
            AudioEffect::Filter(
                FilterParameters {
                    filter_type: f,
                    frequency_millihertz: 1_000_000,
                    q_milli: 1000,
                    gain_millidecibels: 0,
                },
            ),
        ),
        CardType::Distortion => node == AudioNode::AudioEffect(
            AudioEffect::Distortion(
                DistortionParameters { amount_milli: 30, curve_type: DistortionCurve::SoftClip },
            ),
        ),
        CardType::Reverb => node == AudioNode::AudioEffect(
            AudioEffect::Reverb(
                ReverbParameters { decay_millis: 1000, wet_milli: 1000, dry_milli: 1000 },
            ),
        ),
    }
}

impl AudioNode {
    pub fn as_note_effect(&self) -> (r: Option<&NoteEffect>)
        ensures
            match *self {
                AudioNode::NoteEffect(e) => r == Some(&e),
                _ => r is None,
            },
    {
        match self {
            AudioNode::NoteEffect(effect) => Some(effect),
            _ => None,
        }
    }

    pub fn as_note_generator(&self) -> (r: Option<&NoteGenerator>)
        ensures
            match *self {
                AudioNode::NoteGenerator(g) => r == Some(&g),
                _ => r is None,
            },
    {
        match self {
            AudioNode::NoteGenerator(note_generator) => Some(note_generator),
            _ => None,
        }
    }

    /// The node a card stands for (see [`node_of_card`]).
    pub fn from_card(card: &CardType) -> (r: AudioNode)
        ensures
            node_of_card(r, *card),
    {
        match card {
            CardType::NoteGenerator(note_name) => {
                AudioNode::NoteGenerator(NoteGenerator::from_note_name(*note_name))
            },
            CardType::Oscillator(wave) => AudioNode::Oscillator(Oscillator::new(*wave)),
            CardType::Filter(filter_type) => {
                AudioNode::AudioEffect(AudioEffect::new_filter(*filter_type, 1_000_000, 1000, 0))
            },
            CardType::Distortion => {
                AudioNode::AudioEffect(AudioEffect::new_distortion(30, DistortionCurve::SoftClip))
            },
            CardType::Reverb => AudioNode::AudioEffect(AudioEffect::new_reverb(1000, 1000, 1000)),
            CardType::NoteEffect(root, scale_type) => AudioNode::NoteEffect(
                NoteEffect::new(NoteEffectType::Scale(Scale::new(*root, *scale_type))),
            ),
            CardType::ChangeLen(amount) => AudioNode::NoteEffect(
                NoteEffect::new(NoteEffectType::ChangeLen(*amount)),
            ),
        }
    }

    pub fn as_type(&self) -> (r: AudioNodeType)
        ensures
            r == node_category(*self),
    {
        match self {
            AudioNode::NoteGenerator(_) => AudioNodeType::NoteGenerator,
            AudioNode::NoteEffect(_) => AudioNodeType::NoteEffect,
            AudioNode::Oscillator(_) => AudioNodeType::Oscillator,
            AudioNode::AudioEffect(_) => AudioNodeType::AudioEffect,
        }
    }
}

/// A run of generators and the note effects that follow them.
pub type BlockModel = (Seq<GenModel>, Seq<NoteEffect>);

/// Progress of the walk that splits a chain into blocks.
pub struct BlockScan {
    /// Blocks already closed.
    pub blocks: Seq<BlockModel>,
    /// Generators of the open block.
    pub gens: Seq<GenModel>,
    /// Effects of the open block.
    pub effects: Seq<NoteEffect>,
    /// Has the open block collected an effect since its last generator?
    pub consuming: bool,
}

/// One step of the walk: a generator joins the open block, unless effects
/// were collected since, in which case it closes the block and opens the
/// next; an effect joins the open block; a tone generator or an audio effect
/// closes the open block if it holds a generator.
pub open spec fn scan_step(st: BlockScan, node: AudioNode) -> BlockScan {
    match node {
        AudioNode::NoteGenerator(g) => if !st.consuming {
            BlockScan { gens: st.gens.push(g@), ..st }
        } else {
            BlockScan {
                blocks: st.blocks.push((st.gens, st.effects)),
                gens: seq![g@],
                effects: Seq::empty(),
                consuming: false,
            }
        },
        AudioNode::NoteEffect(e) => BlockScan { effects: st.effects.push(e), consuming: true, ..st },
        _ => if st.gens.len() > 0 {
            BlockScan {
                blocks: st.blocks.push((st.gens, st.effects)),
                gens: Seq::empty(),
                effects: Seq::empty(),
                consuming: false,
            }
        } else {
            BlockScan { consuming: false, ..st }
        },
    }
}

/// The walk over all of `nodes`.
pub open spec fn scan_nodes(nodes: Seq<AudioNode>) -> BlockScan
    decreases nodes.len(),
{
    if nodes.len() == 0 {
        BlockScan { blocks: Seq::empty(), gens: Seq::empty(), effects: Seq::empty(), consuming: false }
    } else {
        scan_step(scan_nodes(nodes.drop_last()), nodes.last())
    }
}

/// The blocks of a chain, in order.
pub open spec fn blocks_of(nodes: Seq<AudioNode>) -> Seq<BlockModel> {
    let st = scan_nodes(nodes);
    if st.gens.len() > 0 {
        st.blocks.push((st.gens, st.effects))
    } else {
        st.blocks
    }
}

/// `effects` applied to `g` one after the other, in order.
pub open spec fn apply_effects(effects: Seq<NoteEffect>, g: GenModel) -> Option<GenModel>
    decreases effects.len(),
{
    if effects.len() == 0 {
        Some(g)
    } else {
        match apply_effects(effects.drop_last(), g) {
            Some(h) => apply_effect(effects.last().effect_type, h),
            None => None,
        }
    }
}

/// What each block that holds a generator turns into: its generators
/// combined, then its effects applied. Blocks without a generator are left out.
pub open spec fn block_results(blocks: Seq<BlockModel>) -> Option<Seq<GenModel>>
    decreases blocks.len(),
{
    if blocks.len() == 0 {
        Some(Seq::empty())
    } else {
        let b = blocks.last();
        match block_results(blocks.drop_last()) {
            None => None,
            Some(rs) => if b.0.len() == 0 {
                Some(rs)
            } else {
                match combine_models(b.0) {
                    None => None,
                    Some(c) => match apply_effects(b.1, c) {
                        None => None,
                        Some(r) => Some(rs.push(r)),
                    },
                }
            },
        }
    }
}

/// One loop of the whole chain: the results of its blocks played one after
/// the other. `None` when a pitch or a tick count falls outside its integer
/// type on the way.
pub open spec fn flatten_nodes(nodes: Seq<AudioNode>) -> Option<GenModel> {
    match block_results(blocks_of(nodes)) {
        None => None,
        Some(rs) => combine_models(rs),
    }
}

/// Views of blocks held as vectors.
pub open spec fn block_views(bs: Seq<(Vec<NoteGenerator>, Vec<NoteEffect>)>) -> Seq<BlockModel> {
    bs.map_values(|b: (Vec<NoteGenerator>, Vec<NoteEffect>)| (gen_views(b.0@), b.1@))
}

/// The audio effects of a chain, in order.
pub open spec fn effects_in(nodes: Seq<AudioNode>) -> Seq<AudioEffect>
    decreases nodes.len(),
{
    if nodes.len() == 0 {
        Seq::empty()
    } else {
        match nodes.last() {
            AudioNode::AudioEffect(e) => effects_in(nodes.drop_last()).push(e),
            _ => effects_in(nodes.drop_last()),
        }
    }
}

/// The note effects of a chain, in order.
pub open spec fn note_effects_in(nodes: Seq<AudioNode>) -> Seq<NoteEffect>
    decreases nodes.len(),
{
    if nodes.len() == 0 {
        Seq::empty()
    } else {
        match nodes.last() {
            AudioNode::NoteEffect(e) => note_effects_in(nodes.drop_last()).push(e),
            _ => note_effects_in(nodes.drop_last()),
        }
    }
}

/// The note generators of a chain, in order.
pub open spec fn generators_in(nodes: Seq<AudioNode>) -> Seq<GenModel>
    decreases nodes.len(),
{
    if nodes.len() == 0 {
        Seq::empty()
    } else {
        match nodes.last() {
            AudioNode::NoteGenerator(g) => generators_in(nodes.drop_last()).push(g@),
            _ => generators_in(nodes.drop_last()),
        }
    }
}

/// The first tone generator of a chain.
pub open spec fn first_oscillator(nodes: Seq<AudioNode>) -> Option<Oscillator>
    decreases nodes.len(),
{
    if nodes.len() == 0 {
        None
    } else {
        match first_oscillator(nodes.drop_last()) {
            Some(o) => Some(o),
            None => match nodes.last() {
                AudioNode::Oscillator(o) => Some(o),
                _ => None,
            },
        }
    }
}

/// An arrangement of nodes, exactly as the user laid out the cards.
#[derive(Clone, Debug, PartialEq, Eq)]
pub struct AudioGraph {
    nodes: Vec<AudioNode>,
}

impl View for AudioGraph {
    type V = Seq<AudioNode>;

    closed spec fn view(&self) -> Seq<AudioNode> {
        self.nodes@
    }
}

/// Is `n` a note generator node holding `g`?
pub open spec fn holds_generator(n: AudioNode, g: GenModel) -> bool {
    n matches AudioNode::NoteGenerator(x) && x@ == g
}

/// Do two nodes hold the same thing: equal generators by content, other
/// nodes equal outright?
pub open spec fn same_node(a: AudioNode, b: AudioNode) -> bool {
    match (a, b) {
        (AudioNode::NoteGenerator(x), AudioNode::NoteGenerator(y)) => x@ == y@,
        (AudioNode::NoteGenerator(_), _) => false,
        (_, AudioNode::NoteGenerator(_)) => false,
        _ => a == b,
    }
}

/// Do two chains hold the same nodes, in the same order?
pub open spec fn same_nodes(a: Seq<AudioNode>, b: Seq<AudioNode>) -> bool {
    a.len() == b.len() && forall|i: int| 0 <= i < a.len() ==> #[trigger] same_node(a[i], b[i])
}

/// Is `nodes` the chain that `cards` stand for, card by card?
pub open spec fn nodes_of_cards(nodes: Seq<AudioNode>, cards: Seq<CardType>) -> bool {
    nodes.len() == cards.len() && forall|i: int|
        0 <= i < cards.len() ==> #[trigger] node_of_card(nodes[i], cards[i])
}

impl AudioGraph {
    /// A chain of the given generators, then the tone generator, then the
    /// given audio effects.
    pub fn new(
        note_generators: Vec<NoteGenerator>,
        oscillator: Oscillator,
        audio_effects: Vec<AudioEffect>,
    ) -> (r: AudioGraph)
        ensures
            r@.len() == note_generators.len() + 1 + audio_effects.len(),
            forall|i: int|
                0 <= i < note_generators.len() ==> holds_generator(#[trigger] r@[i], note_generators@[i]@),
            r@[note_generators.len() as int] == AudioNode::Oscillator(oscillator),
            forall|j: int|
                0 <= j < audio_effects.len() ==> r@[note_generators.len() + 1 + j]
                    == AudioNode::AudioEffect(#[trigger] audio_effects@[j]),
    {
        let mut nodes: Vec<AudioNode> = Vec::new();
        let mut i: usize = 0;
        while i < note_generators.len()
            invariant
                i <= note_generators.len(),
                nodes@.len() == i,
                forall|k: int|
                    0 <= k < i ==> holds_generator(#[trigger] nodes@[k], note_generators@[k]@),
            decreases note_generators.len() - i,
        {
            nodes.push(AudioNode::NoteGenerator(note_generators[i].duplicate()));
            i += 1;
        }
        nodes.push(AudioNode::Oscillator(oscillator));
        let mut j: usize = 0;
        while j < audio_effects.len()
            invariant
                j <= audio_effects.len(),
                nodes@.len() == note_generators.len() + 1 + j,
                forall|k: int|
                    0 <= k < note_generators.len() ==> holds_generator(#[trigger] nodes@[k], note_generators@[k]@),
                nodes@[note_generators.len() as int] == AudioNode::Oscillator(oscillator),
                forall|k: int|
                    0 <= k < j ==> nodes@[note_generators.len() + 1 + k] == AudioNode::AudioEffect(
                        #[trigger] audio_effects@[k],
                    ),
            decreases audio_effects.len() - j,
        {
            nodes.push(AudioNode::AudioEffect(audio_effects[j]));
            j += 1;
        }
        AudioGraph { nodes }
    }

    /// The graph of a card chain, or `None` when the chain is not playable.
    pub fn from_cards(cards: Vec<CardType>) -> (r: Option<AudioGraph>)
        ensures
            r is Some <==> playable(card_categories(cards@)),
            r matches Some(g) ==> nodes_of_cards(g@, cards@),
    {
        if Self::is_valid(&cards) {
            let mut nodes: Vec<AudioNode> = Vec::new();
            let mut i: usize = 0;
            while i < cards.len()
                invariant
                    i <= cards.len(),
                    nodes_of_cards(nodes@, cards@.take(i as int)),
                decreases cards.len() - i,
            {
                nodes.push(AudioNode::from_card(&cards[i]));
                i += 1;
            }
            proof {
                assert(cards@.take(i as int) =~= cards@);
            }
            Some(AudioGraph { nodes })
        } else {
            None
        }
    }

    /// Whether a card chain is playable.
    fn is_valid(cards: &Vec<CardType>) -> (r: bool)
        ensures
            r == playable(card_categories(cards@)),
    {
        let mut types: Vec<AudioNodeType> = Vec::new();
        let mut i: usize = 0;
        while i < cards.len()
            invariant
                i <= cards.len(),
                types@ == card_categories(cards@.take(i as int)),
            decreases cards.len() - i,
        {
            types.push(cards[i].as_type());
            proof {
                assert(card_categories(cards@.take(i + 1)) =~= card_categories(cards@.take(i as int)).push(
                    crate::cards::card_category(cards@[i as int]),
                ));
            }
            i += 1;
        }
        proof {
            assert(cards@.take(i as int) =~= cards@);
        }
        is_playable(&types)
    }

    /// A graph of exactly these nodes, as a stored arrangement is read back.
    /// Nothing is checked: use [`AudioGraph::from_cards`] to gate playback.
    pub fn from_nodes(nodes: Vec<AudioNode>) -> (r: AudioGraph)
        ensures
            r@ == nodes@,
    {
        AudioGraph { nodes }
    }

    /// The nodes of this graph, in order.
    pub fn into_nodes(self) -> (r: Vec<AudioNode>)
        ensures
            r@ == self@,
    {
        self.nodes
    }

    /// A copy of this graph.
    pub fn duplicate(&self) -> (r: AudioGraph)
        ensures
            same_nodes(r@, self@),
    {
        let mut nodes: Vec<AudioNode> = Vec::new();
        let mut i: usize = 0;
        while i < self.nodes.len()
            invariant
                i <= self.nodes.len(),
                nodes@.len() == i,
                forall|k: int| 0 <= k < i ==> #[trigger] same_node(nodes@[k], self.nodes@[k]),
            decreases self.nodes.len() - i,
        {
            let node = match &self.nodes[i] {
                AudioNode::NoteGenerator(g) => AudioNode::NoteGenerator(g.duplicate()),
                AudioNode::NoteEffect(e) => AudioNode::NoteEffect(*e),
                AudioNode::Oscillator(o) => AudioNode::Oscillator(*o),
                AudioNode::AudioEffect(e) => AudioNode::AudioEffect(*e),
            };
            nodes.push(node);
            i += 1;
        }
        AudioGraph { nodes }
    }

    /// Whether two graphs hold the same nodes in the same order.
    pub fn same_as(&self, other: &AudioGraph) -> (r: bool)
        ensures
            r == same_nodes(self@, other@),
    {
        if self.nodes.len() != other.nodes.len() {
            return false;
        }
        let mut i: usize = 0;
        while i < self.nodes.len()
            invariant
                i <= self.nodes.len(),
                self.nodes@.len() == other.nodes@.len(),
                forall|k: int| 0 <= k < i ==> #[trigger] same_node(self.nodes@[k], other.nodes@[k]),
            decreases self.nodes.len() - i,
        {
            let same = match (&self.nodes[i], &other.nodes[i]) {
                (AudioNode::NoteGenerator(x), AudioNode::NoteGenerator(y)) => x.same_as(y),
                (AudioNode::NoteEffect(x), AudioNode::NoteEffect(y)) => *x == *y,
                (AudioNode::Oscillator(x), AudioNode::Oscillator(y)) => *x == *y,
                (AudioNode::AudioEffect(x), AudioNode::AudioEffect(y)) => *x == *y,
                _ => false,
            };
            if !same {
                proof {
                    assert(!same_node(self.nodes@[i as int], other.nodes@[i as int]));
                    assert(self@ == self.nodes@ && other@ == other.nodes@);
                }
                return false;
            }
            i += 1;
        }
        true
    }

    pub fn nodes(&self) -> (r: &Vec<AudioNode>)
        ensures
            r@ == self@,
    {
        &self.nodes
    }

    /// The note generators of the chain, in order.
    pub fn note_generators(&self) -> (r: Vec<NoteGenerator>)
        ensures
            gen_views(r@) == generators_in(self@),
    {
        let mut r: Vec<NoteGenerator> = Vec::new();
        let mut i: usize = 0;
        while i < self.nodes.len()
            invariant
                i <= self.nodes.len(),
                self@ == self.nodes@,
                gen_views(r@) == generators_in(self@.take(i as int)),
            decreases self.nodes.len() - i,
        {
            proof {
                assert(self@.take(i + 1).drop_last() =~= self@.take(i as int));
            }
            let ghost before = r@;
            if let AudioNode::NoteGenerator(g) = &self.nodes[i] {
                r.push(g.duplicate());
                proof {
                    assert(gen_views(r@) =~= gen_views(before).push(g@));
                }
            }
            i += 1;
        }
        proof {
            assert(self@.take(i as int) =~= self@);
        }
        r
    }

    /// The note effects of the chain, in order.
    pub fn note_effects(&self) -> (r: Vec<NoteEffect>)
        ensures
            r@ == note_effects_in(self@),
    {
        let mut r: Vec<NoteEffect> = Vec::new();
        let mut i: usize = 0;
        while i < self.nodes.len()
            invariant
                i <= self.nodes.len(),
                self@ == self.nodes@,
                r@ == note_effects_in(self@.take(i as int)),
            decreases self.nodes.len() - i,
        {
            proof {
                assert(self@.take(i + 1).drop_last() =~= self@.take(i as int));
            }
            if let AudioNode::NoteEffect(e) = &self.nodes[i] {
                r.push(*e);
            }
            i += 1;
        }
        proof {
            assert(self@.take(i as int) =~= self@);
        }
        r
    }

    /// The first tone generator of the chain.
    pub fn oscillator(&self) -> (r: Option<Oscillator>)
        ensures
            r == first_oscillator(self@),
    {
        let mut i: usize = 0;
        while i < self.nodes.len()
            invariant
                i <= self.nodes.len(),
                self@ == self.nodes@,
                first_oscillator(self@.take(i as int)) is None,
            decreases self.nodes.len() - i,
        {
            proof {
                assert(self@.take(i + 1).drop_last() =~= self@.take(i as int));
            }
            if let AudioNode::Oscillator(o) = &self.nodes[i] {
                proof {
                    lemma_first_oscillator_prefix(self@, i + 1);
                }
                return Some(*o);
            }
            i += 1;
        }
        proof {
            assert(self@.take(i as int) =~= self@);
        }
        None
    }

    /// The audio effects of the chain, in order.
    pub fn audio_effects(&self) -> (r: Vec<AudioEffect>)
        ensures
            r@ == effects_in(self@),
    {
        let mut r: Vec<AudioEffect> = Vec::new();
        let mut i: usize = 0;
        while i < self.nodes.len()
            invariant
                i <= self.nodes.len(),
                self@ == self.nodes@,
                r@ == effects_in(self@.take(i as int)),
            decreases self.nodes.len() - i,
        {
            proof {
                assert(self@.take(i + 1).drop_last() =~= self@.take(i as int));
            }
            if let AudioNode::AudioEffect(e) = &self.nodes[i] {
                r.push(*e);
            }
            i += 1;
        }
        proof {
            assert(self@.take(i as int) =~= self@);
        }
        r
    }

    /// The whole chain folded into one loop (see [`flatten_nodes`]).
    pub fn process_note_generators(&self) -> (r: Option<NoteGenerator>)
        ensures
            match flatten_nodes(self@) {
                Some(m) => r matches Some(g) && g@ == m,
                None => r is None,
            },
    {
        let blocks = self.split_blocks();
        let mut results: Vec<NoteGenerator> = Vec::new();
        let mut b: usize = 0;
        while b < blocks.len()
            invariant
                b <= blocks.len(),
                block_views(blocks@) == blocks_of(self@),
                block_results(block_views(blocks@).take(b as int)) == Some(gen_views(results@)),
            decreases blocks.len() - b,
        {
            let ghost bv = block_views(blocks@);
            proof {
                assert(bv.take(b + 1).drop_last() =~= bv.take(b as int));
                assert(bv.take(b + 1).last() == bv[b as int]);
            }
            let generators = &blocks[b].0;
            let effects = &blocks[b].1;
            if generators.len() > 0 {
                match Self::process_block(generators, effects) {
                    Some(g) => {
                        let ghost before = results@;
                        results.push(g);
                        proof {
                            assert(gen_views(results@) =~= gen_views(before).push(g@));
                        }
                    },
                    None => {
                        proof {
                            lemma_block_results_prefix_none(bv, b as int);
                        }
                        return None;
                    },
                }
            }
            b += 1;
        }
        proof {
            assert(block_views(blocks@).take(b as int) =~= block_views(blocks@));
        }
        NoteGenerator::combine(results.as_slice())
    }

    /// One block: its generators combined, then its effects applied in order.
    fn process_block(generators: &Vec<NoteGenerator>, effects: &Vec<NoteEffect>) -> (r: Option<
        NoteGenerator,
    >)
        ensures
            match combine_models(gen_views(generators@)) {
                None => r is None,
                Some(c) => match apply_effects(effects@, c) {
                    Some(m) => r matches Some(g) && g@ == m,
                    None => r is None,
                },
            },
    {
        let mut g = match NoteGenerator::combine(generators.as_slice()) {
            Some(c) => c,
            None => return None,
        };
        let ghost c = g@;
        let mut k: usize = 0;
        while k < effects.len()
            invariant
                k <= effects.len(),
                combine_models(gen_views(generators@)) == Some(c),
                apply_effects(effects@.take(k as int), c) == Some(g@),
            decreases effects.len() - k,
        {
            proof {
                assert(effects@.take(k + 1).drop_last() =~= effects@.take(k as int));
            }
            match effects[k].apply(g) {
                Some(h) => {
                    g = h;
                },
                None => {
                    proof {
                        lemma_apply_effects_prefix_none(effects@, c, k as int);
                    }
                    return None;
                },
            }
            k += 1;
        }
        proof {
            assert(effects@.take(k as int) =~= effects@);
        }
        Some(g)
    }

    /// Split the chain into blocks (see [`blocks_of`]).
    fn split_blocks(&self) -> (r: Vec<(Vec<NoteGenerator>, Vec<NoteEffect>)>)
        ensures
            block_views(r@) == blocks_of(self@),
    {
        let mut blocks: Vec<(Vec<NoteGenerator>, Vec<NoteEffect>)> = Vec::new();
        let mut current_generators: Vec<NoteGenerator> = Vec::new();
        let mut current_effects: Vec<NoteEffect> = Vec::new();
        let mut consuming_effects = false;
        let mut i: usize = 0;
        proof {
            assert(self@.take(0) =~= Seq::<AudioNode>::empty());
            assert(gen_views(current_generators@) =~= Seq::<GenModel>::empty());
            assert(block_views(blocks@) =~= Seq::<BlockModel>::empty());
        }
        while i < self.nodes.len()
            invariant
                i <= self.nodes.len(),
                self@ == self.nodes@,
                scan_nodes(self@.take(i as int)) == (BlockScan {
                    blocks: block_views(blocks@),
                    gens: gen_views(current_generators@),
                    effects: current_effects@,
                    consuming: consuming_effects,
                }),
            decreases self.nodes.len() - i,
        {
            proof {
                assert(self@.take(i + 1).drop_last() =~= self@.take(i as int));
                assert(self@.take(i + 1).last() == self@[i as int]);
            }
            let ghost old_blocks = blocks@;
            let ghost old_gens = current_generators@;
            match &self.nodes[i] {
                AudioNode::NoteGenerator(ng) => {
                    if !consuming_effects {
                        current_generators.push(ng.duplicate());
                        proof {
                            assert(gen_views(current_generators@) =~= gen_views(old_gens).push(ng@));
                        }
                    } else {
                        consuming_effects = false;
                        let ghost old_effects = current_effects@;
                        blocks.push((current_generators, current_effects));
                        current_generators = Vec::new();
                        current_generators.push(ng.duplicate());
                        current_effects = Vec::new();
                        proof {
                            assert(gen_views(current_generators@) =~= seq![ng@]);
                            assert(block_views(blocks@) =~= block_views(old_blocks).push(
                                (gen_views(old_gens), old_effects),
                            ));
                        }
                    }
                },
                AudioNode::NoteEffect(effect) => {
                    consuming_effects = true;
                    current_effects.push(*effect);
                },
                AudioNode::Oscillator(_) | AudioNode::AudioEffect(_) => {
                    if current_generators.len() > 0 {
                        let ghost old_effects = current_effects@;
                        blocks.push((current_generators, current_effects));
                        current_generators = Vec::new();
                        current_effects = Vec::new();
                        proof {
                            assert(gen_views(current_generators@) =~= Seq::<GenModel>::empty());
                            assert(block_views(blocks@) =~= block_views(old_blocks).push(
                                (gen_views(old_gens), old_effects),
                            ));
                        }
                    }
                    consuming_effects = false;
                },
            }
            i += 1;
        }
        proof {
            assert(self@.take(i as int) =~= self@);
        }
        if current_generators.len() > 0 {
            let ghost old_blocks = blocks@;
            let ghost gens = current_generators@;
            let ghost effects = current_effects@;
            blocks.push((current_generators, current_effects));
            proof {
                assert(block_views(blocks@) =~= block_views(old_blocks).push(
                    (gen_views(gens), effects),
                ));
            }
        }
        blocks
    }
}

/// Once a prefix holds a tone generator, the whole chain's first tone
/// generator is that prefix's.
proof fn lemma_first_oscillator_prefix(nodes: Seq<AudioNode>, i: int)
    requires
        0 <= i <= nodes.len(),
        first_oscillator(nodes.take(i)) is Some,
    ensures
        first_oscillator(nodes) == first_oscillator(nodes.take(i)),
    decreases nodes.len() - i,
{
    if i == nodes.len() {
        assert(nodes.take(i) =~= nodes);
    } else {
        assert(nodes.take(i + 1).drop_last() =~= nodes.take(i));
        lemma_first_oscillator_prefix(nodes, i + 1);
    }
}

proof fn lemma_same_nodes_drop_last(a: Seq<AudioNode>, b: Seq<AudioNode>)
    requires
        same_nodes(a, b),
        a.len() > 0,
    ensures
        same_nodes(a.drop_last(), b.drop_last()),
        same_node(a.last(), b.last()),
{
    assert(same_node(a[a.len() - 1], b[b.len() - 1]));
    assert forall|i: int| 0 <= i < a.drop_last().len() implies #[trigger] same_node(
        a.drop_last()[i],
        b.drop_last()[i],
    ) by {
        assert(same_node(a[i], b[i]));
    }
}

/// Chains that hold the same nodes split into the same blocks and have the
/// same audio effects and tone generator.
pub proof fn lemma_same_nodes_same_parts(a: Seq<AudioNode>, b: Seq<AudioNode>)
    requires
        same_nodes(a, b),
    ensures
        scan_nodes(a) == scan_nodes(b),
        blocks_of(a) == blocks_of(b),
        flatten_nodes(a) == flatten_nodes(b),
        effects_in(a) == effects_in(b),
        first_oscillator(a) == first_oscillator(b),
    decreases a.len(),
{
    if a.len() > 0 {
        lemma_same_nodes_drop_last(a, b);
        lemma_same_nodes_same_parts(a.drop_last(), b.drop_last());
        let st = scan_nodes(a.drop_last());
        assert(scan_step(st, a.last()) == scan_step(st, b.last()));
    }
}

proof fn lemma_block_results_prefix_none(bs: Seq<BlockModel>, i: int)
    requires
        0 <= i < bs.len(),
        block_results(bs.take(i + 1)) is None,
    ensures
        block_results(bs) is None,
    decreases bs.len() - i,
{
    if i + 1 == bs.len() {
        assert(bs.take(i + 1) =~= bs);
    } else {
        assert(bs.take(i + 2).drop_last() =~= bs.take(i + 1));
        lemma_block_results_prefix_none(bs, i + 1);
    }
}

proof fn lemma_apply_effects_prefix_none(es: Seq<NoteEffect>, g: GenModel, i: int)
    requires
        0 <= i < es.len(),
        apply_effects(es.take(i + 1), g) is None,
    ensures
        apply_effects(es, g) is None,
    decreases es.len() - i,
{
    if i + 1 == es.len() {
        assert(es.take(i + 1) =~= es);
    } else {
        assert(es.take(i + 2).drop_last() =~= es.take(i + 1));
        lemma_apply_effects_prefix_none(es, g, i + 1);
    }
}

} // verus!
