//! Staves, measures and time signatures.

use vstd::prelude::*;
use crate::note::Note;

verus! {

/// How many beats a measure holds, and which note length carries a beat.
#[derive(Clone, Copy, Debug, PartialEq, Eq, Structural)]
pub struct TimeSignature {
    /// Number of beats per measure.
    pub numerator: u8,
    pub denominator: u8,
}

/// One measure: its time signature and the notes it holds.
#[derive(Debug)]
pub struct Measure {
    pub time_signature: TimeSignature,
    pub notes: Vec<Note>,
}

/// A staff: an ordered list of measures.
#[derive(Debug)]
pub struct Staff {
    pub measures: Vec<Measure>,
}

} // verus!
