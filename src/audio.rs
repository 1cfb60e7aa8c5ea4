//! Tone generators and audio effect descriptors.
//!
//! These are declarative parameter bags; nothing here produces sound.
//! Continuous parameters are held in fixed point: frequencies in millihertz,
//! times in milliseconds, and ratios and amounts in thousandths.

use vstd::prelude::*;

verus! {

#[derive(Clone, Copy, PartialEq, Eq, Structural, Debug)]
pub enum WaveShape {
    Sine,
    Square,
}

/// The tone generator of a chain.
#[derive(Clone, Copy, PartialEq, Eq, Structural, Debug)]
pub struct Oscillator {
    pub wave_shape: WaveShape,
}

impl Oscillator {
    pub fn new(wave_shape: WaveShape) -> (r: Oscillator)
        ensures
            r.wave_shape == wave_shape,
    {
        Oscillator { wave_shape }
    }
}

#[derive(Clone, Copy, PartialEq, Eq, Structural, Debug)]
pub enum FilterType {
    LowPass,
    HighPass,
    Notch,
}

#[derive(Clone, Copy, PartialEq, Eq, Structural, Debug)]
pub enum DistortionCurve {
    SoftClip,
    HardClip,
}

#[derive(Clone, Copy, PartialEq, Eq, Structural, Debug)]
pub struct FilterParameters {
    pub filter_type: FilterType,
    /// Cutoff frequency, in millihertz.
    pub frequency_millihertz: u32,
    /// Quality factor, in thousandths.
    pub q_milli: u32,
    /// Gain of peaking and shelving filters, in thousandths of a decibel.
    pub gain_millidecibels: i32,
}

#[derive(Clone, Copy, PartialEq, Eq, Structural, Debug)]
pub struct DistortionParameters {
    /// Drive, in thousandths.
    pub amount_milli: u32,
    pub curve_type: DistortionCurve,
}

#[derive(Clone, Copy, PartialEq, Eq, Structural, Debug)]
pub struct ReverbParameters {
    /// Length of the reverb tail, in milliseconds.
    pub decay_millis: u32,
    /// Level of the processed signal, in thousandths.
    pub wet_milli: u32,
    /// Level of the unprocessed signal, in thousandths.
    pub dry_milli: u32,
}

/// One audio effect of a chain.
#[derive(Clone, Copy, PartialEq, Eq, Structural, Debug)]
pub enum AudioEffect {
    Filter(FilterParameters),
    Distortion(DistortionParameters),
    Reverb(ReverbParameters),
}

impl AudioEffect {
    pub fn new_filter(
        filter_type: FilterType,
        frequency_millihertz: u32,
        q_milli: u32,
        gain_millidecibels: i32,
    ) -> (r: AudioEffect)
        ensures
            r == AudioEffect::Filter(
                FilterParameters { filter_type, frequency_millihertz, q_milli, gain_millidecibels },
            ),
    {
        AudioEffect::Filter(
            FilterParameters { filter_type, frequency_millihertz, q_milli, gain_millidecibels },
        )
    }

    pub fn new_distortion(amount_milli: u32, curve_type: DistortionCurve) -> (r: AudioEffect)
        ensures
            r == AudioEffect::Distortion(DistortionParameters { amount_milli, curve_type }),
    {
        AudioEffect::Distortion(DistortionParameters { amount_milli, curve_type })
    }

    pub fn new_reverb(decay_millis: u32, wet_milli: u32, dry_milli: u32) -> (r: AudioEffect)
        ensures
            r == AudioEffect::Reverb(ReverbParameters { decay_millis, wet_milli, dry_milli }),
    {
        AudioEffect::Reverb(ReverbParameters { decay_millis, wet_milli, dry_milli })
    }

    /// A low-pass filter at 1 kHz with a quality factor of 1.
    pub fn default_filter() -> (r: AudioEffect)
        ensures
            r == AudioEffect::Filter(
                FilterParameters {
                    filter_type: FilterType::LowPass,
                    frequency_millihertz: 1_000_000,
                    q_milli: 1000,
                    gain_millidecibels: 0,
                },
            ),
    {
        Self::new_filter(FilterType::LowPass, 1_000_000, 1000, 0)
    }

    /// A soft clip at half drive.
    pub fn default_distortion() -> (r: AudioEffect)
        ensures
            r == AudioEffect::Distortion(
                DistortionParameters { amount_milli: 500, curve_type: DistortionCurve::SoftClip },
            ),
    {
        Self::new_distortion(500, DistortionCurve::SoftClip)
    }

    /// A two-second tail, half wet and half dry.
    pub fn default_reverb() -> (r: AudioEffect)
        ensures
            r == AudioEffect::Reverb(
                ReverbParameters { decay_millis: 2000, wet_milli: 500, dry_milli: 500 },
            ),
    {
        Self::new_reverb(2000, 500, 500)
    }

    pub fn is_filter(&self) -> (r: bool)
        ensures
            r == self is Filter,
    {
        matches!(self, AudioEffect::Filter(_))
    }

    pub fn is_distortion(&self) -> (r: bool)
        ensures
            r == self is Distortion,
    {
        matches!(self, AudioEffect::Distortion(_))
    }

    pub fn is_reverb(&self) -> (r: bool)
        ensures
            r == self is Reverb,
    {
        matches!(self, AudioEffect::Reverb(_))
    }

    pub fn as_filter(&self) -> (r: Option<&FilterParameters>)
        ensures
            match *self {
                AudioEffect::Filter(p) => r == Some(&p),
                _ => r is None,
            },
    {
        match self {
            AudioEffect::Filter(params) => Some(params),
            _ => None,
        }
    }

    pub fn as_distortion(&self) -> (r: Option<&DistortionParameters>)
        ensures
            match *self {
                AudioEffect::Distortion(p) => r == Some(&p),
                _ => r is None,
            },
    {
        match self {
            AudioEffect::Distortion(params) => Some(params),
            _ => None,
        }
    }

    pub fn as_reverb(&self) -> (r: Option<&ReverbParameters>)
        ensures
            match *self {
                AudioEffect::Reverb(p) => r == Some(&p),
                _ => r is None,
            },
    {
        match self {
            AudioEffect::Reverb(params) => Some(params),
            _ => None,
        }
    }
}

} // verus!
