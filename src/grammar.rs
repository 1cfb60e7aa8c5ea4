//! Node categories and the rules on which may stand next to which.

use vstd::prelude::*;

verus! {

/// The four categories of node in a chain.
#[derive(Clone, Copy, PartialEq, Eq, Structural, Debug)]
pub enum AudioNodeType {
    NoteGenerator,
    NoteEffect,
    /// The tone generator.
    Oscillator,
    AudioEffect,
}

/// May a node of category `cur` stand right after one of category `prev`?
pub open spec fn may_follow(cur: AudioNodeType, prev: AudioNodeType) -> bool {
    match cur {
        AudioNodeType::AudioEffect => prev is Oscillator || prev is AudioEffect,
        _ => prev is NoteGenerator || prev is NoteEffect,
    }
}

/// As [`may_follow`], but an audio effect may follow anything: used to offer
/// drop places while a chain is being built.
pub open spec fn may_follow_loose(cur: AudioNodeType, prev: AudioNodeType) -> bool {
    match cur {
        AudioNodeType::AudioEffect => true,
        _ => prev is NoteGenerator || prev is NoteEffect,
    }
}

/// May a node of category `next` stand right after one of category `cur`?
pub open spec fn may_precede(cur: AudioNodeType, next: AudioNodeType) -> bool {
    match cur {
        AudioNodeType::NoteGenerator | AudioNodeType::NoteEffect => !(next is AudioEffect),
        _ => next is AudioEffect,
    }
}

/// As [`may_precede`], but note generators and note effects may be followed by
/// anything.
pub open spec fn may_precede_loose(cur: AudioNodeType, next: AudioNodeType) -> bool {
    match cur {
        AudioNodeType::NoteGenerator | AudioNodeType::NoteEffect => true,
        _ => next is AudioEffect,
    }
}

/// May `cur` stand between `before` and `after` (`None`: no neighbour)?
pub open spec fn fits_between(
    cur: AudioNodeType,
    before: Option<AudioNodeType>,
    after: Option<AudioNodeType>,
) -> bool {
    (before matches Some(b) ==> may_follow(cur, b)) && (after matches Some(a) ==> may_precede(
        cur,
        a,
    ))
}

/// As [`fits_between`], with the loose rules.
pub open spec fn fits_between_loose(
    cur: AudioNodeType,
    before: Option<AudioNodeType>,
    after: Option<AudioNodeType>,
) -> bool {
    (before matches Some(b) ==> may_follow_loose(cur, b)) && (after matches Some(a)
        ==> may_precede_loose(cur, a))
}

impl AudioNodeType {
    /// Used to validate a chain.
    pub fn can_put_between_strict(
        &self,
        before: &Option<AudioNodeType>,
        after: &Option<AudioNodeType>,
    ) -> (r: bool)
        ensures
            r == fits_between(*self, *before, *after),
    {
        match (before, after) {
            (None, None) => true,
            (None, Some(after)) => self.allowed_after(after),
            (Some(before), None) => self.allowed_before(before),
            (Some(before), Some(after)) => self.allowed_before(before) && self.allowed_after(after),
        }
    }

    /// Used while a chain is being built; may accept chains that do not play.
    pub fn can_put_between_loose(
        &self,
        before: &Option<AudioNodeType>,
        after: &Option<AudioNodeType>,
    ) -> (r: bool)
        ensures
            r == fits_between_loose(*self, *before, *after),
    {
        match (before, after) {
            (None, None) => true,
            (None, Some(after)) => self.allowed_after_loose(after),
            (Some(before), None) => self.allowed_before_loose(before),
            (Some(before), Some(after)) => {
                self.allowed_before_loose(before) && self.allowed_after_loose(after)
            },
        }
    }

    fn allowed_before(&self, t: &AudioNodeType) -> (r: bool)
        ensures
            r == may_follow(*self, *t),
    {
        match self {
            AudioNodeType::AudioEffect => {
                matches!(t, AudioNodeType::Oscillator | AudioNodeType::AudioEffect)
            },
            _ => matches!(t, AudioNodeType::NoteGenerator | AudioNodeType::NoteEffect),
        }
    }

    fn allowed_before_loose(&self, t: &AudioNodeType) -> (r: bool)
        ensures
            r == may_follow_loose(*self, *t),
    {
        match self {
            AudioNodeType::AudioEffect => true,
            _ => matches!(t, AudioNodeType::NoteGenerator | AudioNodeType::NoteEffect),
        }
    }

    fn allowed_after(&self, t: &AudioNodeType) -> (r: bool)
        ensures
            r == may_precede(*self, *t),
    {
        match self {
            AudioNodeType::NoteGenerator | AudioNodeType::NoteEffect => {
                !matches!(t, AudioNodeType::AudioEffect)
            },
            _ => matches!(t, AudioNodeType::AudioEffect),
        }
    }

    fn allowed_after_loose(&self, t: &AudioNodeType) -> (r: bool)
        ensures
            r == may_precede_loose(*self, *t),
    {
        match self {
            AudioNodeType::NoteGenerator | AudioNodeType::NoteEffect => true,
            _ => matches!(t, AudioNodeType::AudioEffect),
        }
    }
}

/// Neighbour of position `i` in `ts`, if there is one.
pub open spec fn neighbour(ts: Seq<AudioNodeType>, i: int) -> Option<AudioNodeType> {
    if 0 <= i < ts.len() {
        Some(ts[i])
    } else {
        None
    }
}

/// Positions among the first `k` gaps of `ts` (gap `i` lies before node `i`;
/// gap `ts.len()` is the end) where a node of category `t` fits under the
/// loose rules, in increasing order.
pub open spec fn insertion_points_upto(ts: Seq<AudioNodeType>, t: AudioNodeType, k: int) -> Seq<
    usize,
>
    decreases k,
{
    if k <= 0 {
        Seq::empty()
    } else {
        let i = k - 1;
        let rest = insertion_points_upto(ts, t, i);
        if fits_between_loose(t, neighbour(ts, i - 1), neighbour(ts, i)) {
            rest.push(i as usize)
        } else {
            rest
        }
    }
}

/// Every node fits between its neighbours under the strict rules.
pub open spec fn strict_valid(ts: Seq<AudioNodeType>) -> bool {
    forall|i: int|
        0 <= i < ts.len() ==> #[trigger] fits_between(ts[i], neighbour(ts, i - 1), neighbour(ts, i + 1))
}

/// Does `ts` hold a node of category `t`?
pub open spec fn has_type(ts: Seq<AudioNodeType>, t: AudioNodeType) -> bool {
    exists|i: int| 0 <= i < ts.len() && ts[i] == t
}

/// A chain that can be compiled and played: strictly valid, with at least one
/// note generator and a tone generator.
pub open spec fn playable(ts: Seq<AudioNodeType>) -> bool {
    strict_valid(ts) && has_type(ts, AudioNodeType::NoteGenerator) && has_type(
        ts,
        AudioNodeType::Oscillator,
    )
}

/// The tone generator stands at position `t` of `ts`: before it only note
/// generators and note effects, at least one note generator among them, and
/// after it only audio effects.
pub open spec fn tone_at(ts: Seq<AudioNodeType>, t: int) -> bool {
    &&& 0 < t < ts.len()
    &&& ts[t] == AudioNodeType::Oscillator
    &&& forall|i: int| 0 <= i < t ==> (ts[i] is NoteGenerator || ts[i] is NoteEffect)
    &&& forall|i: int| t < i < ts.len() ==> ts[i] is AudioEffect
    &&& exists|g: int| 0 <= g < t && ts[g] == AudioNodeType::NoteGenerator
}

/// The shape `(NoteGenerator | NoteEffect)+ Oscillator AudioEffect*`, with a
/// note generator among the nodes before the tone generator.
pub open spec fn chain_shape(ts: Seq<AudioNodeType>) -> bool {
    exists|t: int| #[trigger] tone_at(ts, t)
}

/// Where a node of category `t` may be dropped into the chain `ts` while it
/// is being built: the gaps, in increasing order, where it fits between its
/// would-be neighbours under the loose rules.
pub fn insertion_points(ts: &Vec<AudioNodeType>, t: AudioNodeType) -> (r: Vec<usize>)
    ensures
        r@ == insertion_points_upto(ts@, t, ts@.len() as int + 1),
{
    let n = ts.len();
    let mut r: Vec<usize> = Vec::new();
    let mut i: usize = 0;
    while i < n
        invariant
            n == ts@.len(),
            i <= n,
            r@ == insertion_points_upto(ts@, t, i as int),
        decreases n - i,
    {
        let before = if i == 0 {
            None
        } else {
            Some(ts[i - 1])
        };
        proof {
            assert(before == neighbour(ts@, i - 1));
            assert(Some(ts@[i as int]) == neighbour(ts@, i as int));
        }
        if t.can_put_between_loose(&before, &Some(ts[i])) {
            r.push(i);
        }
        i += 1;
    }
    let last = if n == 0 {
        None
    } else {
        Some(ts[n - 1])
    };
    proof {
        assert(last == neighbour(ts@, n - 1));
        assert(neighbour(ts@, n as int) is None);
    }
    if t.can_put_between_loose(&last, &None) {
        r.push(n);
    }
    r
}

/// Whether the categories `ts` form a playable chain.
pub fn is_playable(ts: &Vec<AudioNodeType>) -> (r: bool)
    ensures
        r == playable(ts@),
{
    let n = ts.len();
    let mut valid = true;
    let mut has_note_generator = false;
    let mut has_oscillator = false;
    let mut i: usize = 0;
    while i < n
        invariant
            n == ts@.len(),
            i <= n,
            valid == forall|k: int|
                0 <= k < i ==> #[trigger] fits_between(
                    ts@[k],
                    neighbour(ts@, k - 1),
                    neighbour(ts@, k + 1),
                ),
            has_note_generator == exists|k: int|
                0 <= k < i && ts@[k] == AudioNodeType::NoteGenerator,
            has_oscillator == exists|k: int| 0 <= k < i && ts@[k] == AudioNodeType::Oscillator,
        decreases n - i,
    {
        let cur = ts[i];
        match cur {
            AudioNodeType::NoteGenerator => {
                has_note_generator = true;
            },
            AudioNodeType::Oscillator => {
                has_oscillator = true;
            },
            _ => {},
        }
        let before = if i == 0 {
            None
        } else {
            Some(ts[i - 1])
        };
        let after = if i + 1 == n {
            None
        } else {
            Some(ts[i + 1])
        };
        let fits = cur.can_put_between_strict(&before, &after);
        proof {
            assert(before == neighbour(ts@, i - 1));
            assert(after == neighbour(ts@, i + 1));
            assert(fits == fits_between(ts@[i as int], neighbour(ts@, i - 1), neighbour(ts@, i + 1)));
        }
        valid = valid && fits;
        i += 1;
    }
    valid && has_oscillator && has_note_generator
}

/// Under the strict rules nothing but audio effects follows a tone generator
/// or an audio effect.
proof fn lemma_only_effects_after(ts: Seq<AudioNodeType>, i: int, j: int)
    requires
        strict_valid(ts),
        0 <= i < j < ts.len(),
        ts[i] is Oscillator || ts[i] is AudioEffect,
    ensures
        ts[j] is AudioEffect,
    decreases j - i,
{
    if j == i + 1 {
        assert(fits_between(ts[i], neighbour(ts, i - 1), neighbour(ts, i + 1)));
    } else {
        lemma_only_effects_after(ts, i, j - 1);
        lemma_only_effects_after(ts, j - 1, j);
    }
}

proof fn lemma_playable_has_shape(ts: Seq<AudioNodeType>)
    requires
        playable(ts),
    ensures
        chain_shape(ts),
{
    let t = choose|t: int| 0 <= t < ts.len() && ts[t] == AudioNodeType::Oscillator;
    let g = choose|g: int| 0 <= g < ts.len() && ts[g] == AudioNodeType::NoteGenerator;
    assert forall|i: int| 0 <= i < t implies (ts[i] is NoteGenerator || ts[i] is NoteEffect) by {
        if !(ts[i] is NoteGenerator || ts[i] is NoteEffect) {
            lemma_only_effects_after(ts, i, t);
        }
    }
    assert forall|i: int| t < i < ts.len() implies ts[i] is AudioEffect by {
        lemma_only_effects_after(ts, t, i);
    }
    if g > t {
        lemma_only_effects_after(ts, t, g);
    }
    assert(0 <= g < t);
    assert(tone_at(ts, t));
}

proof fn lemma_shape_is_playable(ts: Seq<AudioNodeType>, t: int)
    requires
        tone_at(ts, t),
    ensures
        playable(ts),
{
    assert forall|i: int| 0 <= i < ts.len() implies #[trigger] fits_between(
        ts[i],
        neighbour(ts, i - 1),
        neighbour(ts, i + 1),
    ) by {
        if i < t {
            assert(i + 1 <= t);
            assert(!(ts[i + 1] is AudioEffect));
        } else if i > t {
            assert(ts[i - 1] is Oscillator || ts[i - 1] is AudioEffect);
            if i + 1 < ts.len() {
                assert(ts[i + 1] is AudioEffect);
            }
        } else {
            assert(ts[i - 1] is NoteGenerator || ts[i - 1] is NoteEffect);
            if i + 1 < ts.len() {
                assert(ts[i + 1] is AudioEffect);
            }
        }
    }
    assert(has_type(ts, AudioNodeType::Oscillator));
}

/// A chain is playable exactly when its categories read
/// `(NoteGenerator | NoteEffect)+ Oscillator AudioEffect*` with at least one
/// note generator before the tone generator.
pub proof fn lemma_playable_is_chain_shape(ts: Seq<AudioNodeType>)
    ensures
        playable(ts) <==> chain_shape(ts),
{
    if playable(ts) {
        lemma_playable_has_shape(ts);
    }
    if chain_shape(ts) {
        let t = choose|t: int| #[trigger] tone_at(ts, t);
        lemma_shape_is_playable(ts, t);
    }
}

} // verus!
