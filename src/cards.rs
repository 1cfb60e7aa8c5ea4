//! The cards a user arranges into a chain.

use vstd::prelude::*;
use crate::audio::{FilterType, WaveShape};
use crate::effects::{ChangeLenType, ScaleType};
use crate::grammar::AudioNodeType;
use crate::notes::{note_index, note_of_index, NoteName};

verus! {

/// The pictures drawn on cards.
#[allow(non_camel_case_types)]
#[derive(Clone, Copy, PartialEq, Eq, Structural, Debug)]
pub enum Shape {
    BLANK,
    DISTORTION,
    FASTER,
    HIGHPASS,
    LOGO,
    LOWPASS,
    NOTCH,
    PIANO,
    SINE,
    SLOWER,
    SQUARE,
    NOTE,
    REVERB,
    CHORD,
}

#[derive(Clone, Copy, PartialEq, Eq, Structural, Debug)]
pub enum CardType {
    NoteGenerator(NoteName),
    NoteEffect(NoteName, ScaleType),
    ChangeLen(ChangeLenType),
    Oscillator(WaveShape),
    Filter(FilterType),
    Distortion,
    Reverb,
}

/// Category of the node a card stands for.
pub open spec fn card_category(c: CardType) -> AudioNodeType {
    match c {
        CardType::NoteGenerator(_) => AudioNodeType::NoteGenerator,
        CardType::NoteEffect(_, _) => AudioNodeType::NoteEffect,
        CardType::ChangeLen(_) => AudioNodeType::NoteEffect,
        CardType::Oscillator(_) => AudioNodeType::Oscillator,
        CardType::Filter(_) => AudioNodeType::AudioEffect,
        CardType::Distortion => AudioNodeType::AudioEffect,
        CardType::Reverb => AudioNodeType::AudioEffect,
    }
}

/// Categories of a sequence of cards.
pub open spec fn card_categories(cs: Seq<CardType>) -> Seq<AudioNodeType> {
    cs.map_values(|c: CardType| card_category(c))
}

/// Identifier of a card: 0 to 11 for note generators, 100 to 123 for scale
/// effects (two per root), 200 and 201 for length changes, 300 and 301 for
/// tone generators, 400 to 402 for filters, 500 for distortion, 600 for
/// reverb.
pub open spec fn card_id(c: CardType) -> int {
    match c {
        CardType::NoteGenerator(n) => note_index(n),
        CardType::NoteEffect(n, s) => 100 + note_index(n) * 2 + if s is Major {
            0int
        } else {
            1int
        },
        CardType::ChangeLen(t) => 200 + if t is Double {
            0int
        } else {
            1int
        },
        CardType::Oscillator(w) => 300 + if w is Sine {
            0int
        } else {
            1int
        },
        CardType::Filter(f) => 400 + match f {
            FilterType::LowPass => 0int,
            FilterType::HighPass => 1int,
            FilterType::Notch => 2int,
        },
        CardType::Distortion => 500,
        CardType::Reverb => 600,
    }
}

/// The card with identifier `id`, if there is one.
pub open spec fn card_of_id(id: int) -> Option<CardType> {
    if 0 <= id <= 11 {
        Some(CardType::NoteGenerator(note_of_index(id)))
    } else if 100 <= id <= 123 {
        Some(
            CardType::NoteEffect(
                note_of_index((id - 100) / 2),
                if (id - 100) % 2 == 0 {
                    ScaleType::Major
                } else {
                    ScaleType::Minor
                },
            ),
        )
    } else if id == 200 {
        Some(CardType::ChangeLen(ChangeLenType::Double))
    } else if id == 201 {
        Some(CardType::ChangeLen(ChangeLenType::Half))
    } else if id == 300 {
        Some(CardType::Oscillator(WaveShape::Sine))
    } else if id == 301 {
        Some(CardType::Oscillator(WaveShape::Square))
    } else if id == 400 {
        Some(CardType::Filter(FilterType::LowPass))
    } else if id == 401 {
        Some(CardType::Filter(FilterType::HighPass))
    } else if id == 402 {
        Some(CardType::Filter(FilterType::Notch))
    } else if id == 500 {
        Some(CardType::Distortion)
    } else if id == 600 {
        Some(CardType::Reverb)
    } else {
        None
    }
}

/// The picture drawn on a card.
pub open spec fn card_shape(c: CardType) -> Shape {
    match c {
        CardType::NoteGenerator(_) => Shape::NOTE,
        CardType::NoteEffect(_, _) => Shape::CHORD,
        CardType::ChangeLen(ChangeLenType::Half) => Shape::FASTER,
        CardType::ChangeLen(ChangeLenType::Double) => Shape::SLOWER,
        CardType::Oscillator(WaveShape::Sine) => Shape::SINE,
        CardType::Oscillator(WaveShape::Square) => Shape::SQUARE,
        CardType::Filter(FilterType::Notch) => Shape::NOTCH,
        CardType::Filter(FilterType::LowPass) => Shape::LOWPASS,
        CardType::Filter(FilterType::HighPass) => Shape::HIGHPASS,
        CardType::Distortion => Shape::DISTORTION,
        CardType::Reverb => Shape::REVERB,
    }
}

/// Text naming a pitch class ("C", "C#", ...).
pub fn note_name_text(n: NoteName) -> (r: &'static str)
    ensures
        r@ == note_name_spec_text(n),
{
    match n {
        NoteName::C => "C",
        NoteName::CSharp => "C#",
        NoteName::D => "D",
        NoteName::DSharp => "D#",
        NoteName::E => "E",
        NoteName::F => "F",
        NoteName::FSharp => "F#",
        NoteName::G => "G",
        NoteName::GSharp => "G#",
        NoteName::A => "A",
        NoteName::ASharp => "A#",
        NoteName::B => "B",
    }
}

/// Text naming a pitch class.
pub open spec fn note_name_spec_text(n: NoteName) -> Seq<char> {
    match n {
        NoteName::C => "C"@,
        NoteName::CSharp => "C#"@,
        NoteName::D => "D"@,
        NoteName::DSharp => "D#"@,
        NoteName::E => "E"@,
        NoteName::F => "F"@,
        NoteName::FSharp => "F#"@,
        NoteName::G => "G"@,
        NoteName::GSharp => "G#"@,
        NoteName::A => "A"@,
        NoteName::ASharp => "A#"@,
        NoteName::B => "B"@,
    }
}

/// The label printed on a card, if it has one.
pub open spec fn card_label(c: CardType) -> Option<Seq<char>> {
    match c {
        CardType::NoteGenerator(n) => Some(note_name_spec_text(n)),
        CardType::NoteEffect(n, s) => Some(
            note_name_spec_text(n) + " "@ + if s is Major {
                "Maj"@
            } else {
                "Min"@
            },
        ),
        CardType::ChangeLen(ChangeLenType::Double) => Some("x2"@),
        CardType::ChangeLen(ChangeLenType::Half) => Some("/2"@),
        _ => None,
    }
}

impl CardType {
    /// Unique identifier of this card (see [`card_id`]).
    pub fn to_id(&self) -> (r: u16)
        ensures
            r == card_id(*self),
    {
        match self {
            CardType::NoteGenerator(note) => note.to_int() as u16,
            CardType::NoteEffect(note, scale) => {
                100 + note.to_int() as u16 * 2 + match scale {
                    ScaleType::Major => 0,
                    ScaleType::Minor => 1,
                }
            },
            CardType::ChangeLen(change_type) => {
                200 + match change_type {
                    ChangeLenType::Double => 0,
                    ChangeLenType::Half => 1,
                }
            },
            CardType::Oscillator(wave) => {
                300 + match wave {
                    WaveShape::Sine => 0,
                    WaveShape::Square => 1,
                }
            },
            CardType::Filter(filter) => {
                400 + match filter {
                    FilterType::LowPass => 0,
                    FilterType::HighPass => 1,
                    FilterType::Notch => 2,
                }
            },
            CardType::Distortion => 500,
            CardType::Reverb => 600,
        }
    }

    /// The card with identifier `id`, if there is one (see [`card_of_id`]).
    pub fn from_id(id: u16) -> (r: Option<CardType>)
        ensures
            r == card_of_id(id as int),
    {
        if id <= 11 {
            Some(CardType::NoteGenerator(NoteName::from_int(id as u32)))
        } else if 100 <= id && id <= 123 {
            let note_id = (id - 100) / 2;
            let scale_id = (id - 100) % 2;
            let note = NoteName::from_int(note_id as u32);
            let scale = if scale_id == 0 {
                ScaleType::Major
            } else {
                ScaleType::Minor
            };
            Some(CardType::NoteEffect(note, scale))
        } else if id == 200 {
            Some(CardType::ChangeLen(ChangeLenType::Double))
        } else if id == 201 {
            Some(CardType::ChangeLen(ChangeLenType::Half))
        } else if id == 300 {
            Some(CardType::Oscillator(WaveShape::Sine))
        } else if id == 301 {
            Some(CardType::Oscillator(WaveShape::Square))
        } else if id == 400 {
            Some(CardType::Filter(FilterType::LowPass))
        } else if id == 401 {
            Some(CardType::Filter(FilterType::HighPass))
        } else if id == 402 {
            Some(CardType::Filter(FilterType::Notch))
        } else if id == 500 {
            Some(CardType::Distortion)
        } else if id == 600 {
            Some(CardType::Reverb)
        } else {
            None
        }
    }

    pub fn as_shape(&self) -> (r: Shape)
        ensures
            r == card_shape(*self),
    {
        match self {
            CardType::NoteGenerator(_) => Shape::NOTE,
            CardType::NoteEffect(_, _) => Shape::CHORD,
            CardType::ChangeLen(ChangeLenType::Half) => Shape::FASTER,
            CardType::ChangeLen(ChangeLenType::Double) => Shape::SLOWER,
            CardType::Oscillator(WaveShape::Sine) => Shape::SINE,
            CardType::Oscillator(WaveShape::Square) => Shape::SQUARE,
            CardType::Filter(FilterType::Notch) => Shape::NOTCH,
            CardType::Filter(FilterType::LowPass) => Shape::LOWPASS,
            CardType::Filter(FilterType::HighPass) => Shape::HIGHPASS,
            CardType::Distortion => Shape::DISTORTION,
            CardType::Reverb => Shape::REVERB,
        }
    }

    pub fn as_type(&self) -> (r: AudioNodeType)
        ensures
            r == card_category(*self),
    {
        match self {
            CardType::NoteGenerator(_) => AudioNodeType::NoteGenerator,
            CardType::NoteEffect(_, _) => AudioNodeType::NoteEffect,
            CardType::ChangeLen(_) => AudioNodeType::NoteEffect,
            CardType::Oscillator(_) => AudioNodeType::Oscillator,
            CardType::Filter(_) => AudioNodeType::AudioEffect,
            CardType::Distortion => AudioNodeType::AudioEffect,
            CardType::Reverb => AudioNodeType::AudioEffect,
        }
    }

    /// The label printed on this card (see [`card_label`]).
    pub fn get_label(&self) -> (r: Option<String>)
        ensures
            match card_label(*self) {
                Some(l) => r matches Some(s) && s@ == l,
                None => r is None,
            },
    {
        match self {
            CardType::NoteGenerator(note_name) => Some(note_name_text(*note_name).to_owned()),
            CardType::NoteEffect(note_name, scale_type) => {
                let scale_str = match scale_type {
                    ScaleType::Major => "Maj",
                    ScaleType::Minor => "Min",
                };
                let mut label = note_name_text(*note_name).to_owned();
                label.append(" ");
                label.append(scale_str);
                Some(label)
            },
            CardType::ChangeLen(change_type) => match change_type {
                ChangeLenType::Double => Some("x2".to_owned()),
                ChangeLenType::Half => Some("/2".to_owned()),
            },
            _ => None,
        }
    }

    pub fn get_note_name(&self) -> (r: Option<NoteName>)
        ensures
            match *self {
                CardType::NoteGenerator(n) => r == Some(n),
                _ => r is None,
            },
    {
        match self {
            CardType::NoteGenerator(note_name) => Some(*note_name),
            _ => None,
        }
    }
}

/// Identifiers name cards one to one: every card comes back from its
/// identifier, and every identifier that names a card is that card's.
pub proof fn lemma_card_id_round_trip(c: CardType, id: int)
    ensures
        card_of_id(card_id(c)) == Some(c),
        card_of_id(id) matches Some(d) ==> card_id(d) == id,
{
    match c {
        CardType::NoteEffect(n, s) => {
            let i = note_index(n);
            assert(0 <= i < 12);
            let x = i * 2 + if s is Major {
                0int
            } else {
                1int
            };
            assert(x / 2 == i && x % 2 == if s is Major {
                0int
            } else {
                1int
            }) by (nonlinear_arith)
                requires
                    x == i * 2 + if s is Major {
                        0int
                    } else {
                        1int
                    },
            ;
        },
        _ => {},
    }
    if 100 <= id <= 123 {
        let k = id - 100;
        assert(k == (k / 2) * 2 + k % 2);
    }
}

} // verus!
