//! Notes: a pitch or a rest, held for a duration.

use vstd::prelude::*;
use crate::pitch::Pitch;

verus! {

/// The family of note lengths, from a whole note down to a sixty-fourth.
#[derive(Clone, Copy, Debug, PartialEq, Eq, Structural)]
pub enum DurationName {
    Whole,
    Half,
    Quarter,
    Eigth,
    Sixteenth,
    ThirtySecond,
    SixtyFourth,
}

/// How many of this note length fill a whole note.
pub open spec fn duration_denominator(d: DurationName) -> int {
    match d {
        DurationName::Whole => 1,
        DurationName::Half => 2,
        DurationName::Quarter => 4,
        DurationName::Eigth => 8,
        DurationName::Sixteenth => 16,
        DurationName::ThirtySecond => 32,
        DurationName::SixtyFourth => 64,
    }
}

impl DurationName {
    /// How many of this note length fill a whole note.
    pub fn denominator(&self) -> (v: u8)
        ensures
            v == duration_denominator(*self),
    {
        match self {
            DurationName::Whole => 1,
            DurationName::Half => 2,
            DurationName::Quarter => 4,
            DurationName::Eigth => 8,
            DurationName::Sixteenth => 16,
            DurationName::ThirtySecond => 32,
            DurationName::SixtyFourth => 64,
        }
    }
}

/// A note length, possibly dotted.
#[derive(Clone, Copy, Debug, PartialEq, Eq, Structural)]
pub struct Duration {
    pub name: DurationName,
    /// 0 means no dots, 1 one dot, 2 two dots, and so on.
    pub dots: u8,
}

/// A sounding pitch or a rest, held for a duration.
#[derive(Clone, Copy, Debug, PartialEq, Eq, Structural)]
pub enum Note {
    Tone(Pitch, Duration),
    Rest(Duration),
}

} // verus!
