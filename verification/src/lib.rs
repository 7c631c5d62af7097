//! A model of Western tonal pitch spelling: pitch classes, accidentals,
//! pitches, intervals, scale-degree formulas and correctly spelled scales.

pub mod beat;
pub mod harmonic_minor;
pub mod interval;
pub mod modes;
pub mod note;
pub mod pitch;
pub mod scale;
pub mod text;
