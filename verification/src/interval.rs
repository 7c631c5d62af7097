//! The twelve chromatic half-step distances from unison to octave.

use vstd::prelude::*;

verus! {

/// A chromatic distance in half steps, from unison (0) to octave (12).
#[derive(Clone, Copy, Debug, PartialEq, Eq, Structural)]
pub enum Interval {
    Unison,
    Minor2nd,
    Major2nd,
    Minor3rd,
    Major3rd,
    Perfect4th,
    Tritone,
    Perfect5th,
    Minor6th,
    Major6th,
    Minor7th,
    Major7th,
    Octave,
}

/// Number of half steps an interval spans.
pub open spec fn interval_value(i: Interval) -> int {
    match i {
        Interval::Unison => 0,
        Interval::Minor2nd => 1,
        Interval::Major2nd => 2,
        Interval::Minor3rd => 3,
        Interval::Major3rd => 4,
        Interval::Perfect4th => 5,
        Interval::Tritone => 6,
        Interval::Perfect5th => 7,
        Interval::Minor6th => 8,
        Interval::Major6th => 9,
        Interval::Minor7th => 10,
        Interval::Major7th => 11,
        Interval::Octave => 12,
    }
}

impl Interval {
    /// The interval spanning `value` half steps; rejects values above 12.
    pub fn from_number(value: u8) -> (r: Option<Self>)
        ensures
            value <= 12 ==> (r matches Some(i) && interval_value(i) == value),
            value > 12 ==> r is None,
    {
        match value {
            0 => Some(Interval::Unison),
            1 => Some(Interval::Minor2nd),
            2 => Some(Interval::Major2nd),
            3 => Some(Interval::Minor3rd),
            4 => Some(Interval::Major3rd),
            5 => Some(Interval::Perfect4th),
            6 => Some(Interval::Tritone),
            7 => Some(Interval::Perfect5th),
            8 => Some(Interval::Minor6th),
            9 => Some(Interval::Major6th),
            10 => Some(Interval::Minor7th),
            11 => Some(Interval::Major7th),
            12 => Some(Interval::Octave),
            _ => None,
        }
    }

    /// Number of half steps the interval spans.
    pub fn value(&self) -> (v: u8)
        ensures
            v == interval_value(*self),
    {
        match self {
            Interval::Unison => 0,
            Interval::Minor2nd => 1,
            Interval::Major2nd => 2,
            Interval::Minor3rd => 3,
            Interval::Major3rd => 4,
            Interval::Perfect4th => 5,
            Interval::Tritone => 6,
            Interval::Perfect5th => 7,
            Interval::Minor6th => 8,
            Interval::Major6th => 9,
            Interval::Minor7th => 10,
            Interval::Major7th => 11,
            Interval::Octave => 12,
        }
    }
}

} // verus!
