//! Pitch classes, accidentals and the pitch-raising (respelling) engine.
//!
//! A pitch is a letter class, an accidental and an octave.  Raising a pitch
//! by a number of half steps always advances the letter to the next one in
//! cyclic order and chooses the accidental that realizes the requested
//! chromatic distance; a distance that no accidental in the range
//! double-flat..double-sharp can realize is reported as an error.

use vstd::prelude::*;

verus! {

/// One of the seven letter names, each with a fixed chromatic value
/// relative to C (C=0, D=2, E=4, F=5, G=7, A=9, B=11).
#[derive(Clone, Copy, Debug, PartialEq, Eq, Structural)]
pub enum PitchClass {
    C,
    D,
    E,
    F,
    G,
    A,
    B,
}

/// A signed semitone modifier in the range double-flat(-2)..double-sharp(+2).
#[derive(Clone, Copy, Debug, PartialEq, Eq, Structural)]
pub enum Accidental {
    DoubleFlat,
    Flat,
    Natural,
    Sharp,
    DoubleSharp,
}

/// One absolute pitch: letter class, accidental and octave.
#[derive(Clone, Copy, Debug, PartialEq, Eq, Structural)]
pub struct Pitch {
    pub class: PitchClass,
    pub accidental: Accidental,
    pub octave: u8,
}

/// Fixed chromatic semitone value of a letter, relative to C.
pub open spec fn class_value(c: PitchClass) -> int {
    match c {
        PitchClass::C => 0,
        PitchClass::D => 2,
        PitchClass::E => 4,
        PitchClass::F => 5,
        PitchClass::G => 7,
        PitchClass::A => 9,
        PitchClass::B => 11,
    }
}

/// Signed semitone value of an accidental.
pub open spec fn accidental_value(a: Accidental) -> int {
    match a {
        Accidental::DoubleFlat => -2,
        Accidental::Flat => -1,
        Accidental::Natural => 0,
        Accidental::Sharp => 1,
        Accidental::DoubleSharp => 2,
    }
}

/// The next letter in the fixed cyclic order C, D, E, F, G, A, B, C, ...
pub open spec fn next_class(c: PitchClass) -> PitchClass {
    match c {
        PitchClass::C => PitchClass::D,
        PitchClass::D => PitchClass::E,
        PitchClass::E => PitchClass::F,
        PitchClass::F => PitchClass::G,
        PitchClass::G => PitchClass::A,
        PitchClass::A => PitchClass::B,
        PitchClass::B => PitchClass::C,
    }
}

/// Position of a letter in the cyclic order, counted from C.
pub open spec fn letter_pos(c: PitchClass) -> int {
    match c {
        PitchClass::C => 0,
        PitchClass::D => 1,
        PitchClass::E => 2,
        PitchClass::F => 3,
        PitchClass::G => 4,
        PitchClass::A => 5,
        PitchClass::B => 6,
    }
}

/// The letter `n` steps after `c` in cyclic order.
pub open spec fn nth_next_class(c: PitchClass, n: int) -> PitchClass
    decreases n,
{
    if n <= 0 {
        c
    } else {
        next_class(nth_next_class(c, n - 1))
    }
}

/// Advancing a letter `n` times moves its cyclic position by `n`, modulo 7.
pub proof fn lemma_nth_next_class_pos(c: PitchClass, n: int)
    requires
        0 <= n,
    ensures
        letter_pos(nth_next_class(c, n)) == (letter_pos(c) + n) % 7,
    decreases n,
{
    if n > 0 {
        lemma_nth_next_class_pos(c, n - 1);
    }
}

/// Fewer than seven advances from one letter never meet a different
/// number of advances: the seven letters of a cycle are distinct.
pub proof fn lemma_nth_next_class_distinct(c: PitchClass, i: int, j: int)
    requires
        0 <= i < j < 7,
    ensures
        nth_next_class(c, i) != nth_next_class(c, j),
{
    lemma_nth_next_class_pos(c, i);
    lemma_nth_next_class_pos(c, j);
    assert((letter_pos(c) + i) % 7 != (letter_pos(c) + j) % 7);
}

/// Raw chromatic degree of a pitch: letter value plus accidental value,
/// without any modulo.  Always lies in -2..=13.
pub open spec fn chromatic(p: Pitch) -> int {
    class_value(p.class) + accidental_value(p.accidental)
}

/// The accidental whose value is `v`, for `v` in -2..=2.
pub open spec fn accidental_of_value(v: int) -> Accidental {
    if v == -2 {
        Accidental::DoubleFlat
    } else if v == -1 {
        Accidental::Flat
    } else if v == 0 {
        Accidental::Natural
    } else if v == 1 {
        Accidental::Sharp
    } else {
        Accidental::DoubleSharp
    }
}

/// Raised raw chromatic degree, before the octave adjustment.
pub open spec fn raised_raw(p: Pitch, half_steps: int) -> int {
    chromatic(p) + half_steps
}

/// Raising rolls into the next octave exactly when the raised raw degree
/// exceeds 11 (a B-to-C boundary is crossed).
pub open spec fn rolls_over(p: Pitch, half_steps: int) -> bool {
    raised_raw(p, half_steps) > 11
}

/// Raised chromatic degree after the octave adjustment.
pub open spec fn raised_degree(p: Pitch, half_steps: int) -> int {
    if rolls_over(p, half_steps) {
        raised_raw(p, half_steps) % 12
    } else {
        raised_raw(p, half_steps)
    }
}

/// Signed difference between the raised degree and the target letter's
/// fixed value: the accidental the raised pitch must carry.
pub open spec fn spelling_diff(p: Pitch, half_steps: int) -> int {
    raised_degree(p, half_steps) - class_value(next_class(p.class))
}

/// Raising succeeds exactly when the required accidental lies in the
/// representable range double-flat..double-sharp.
pub open spec fn raise_ok(p: Pitch, half_steps: int) -> bool {
    -2 <= spelling_diff(p, half_steps) <= 2
}

/// The correctly respelled pitch one letter up; meaningful when
/// `raise_ok(p, half_steps)` holds.
pub open spec fn raise_spec(p: Pitch, half_steps: int) -> Pitch {
    Pitch {
        class: next_class(p.class),
        accidental: accidental_of_value(spelling_diff(p, half_steps)),
        octave: if rolls_over(p, half_steps) {
            (p.octave + 1) as u8
        } else {
            p.octave
        },
    }
}

/// Two pitches denote the same sounding pitch class exactly when their
/// chromatic degrees agree modulo 12.
pub open spec fn same_tone_spec(p: Pitch, q: Pitch) -> bool {
    chromatic(p) % 12 == chromatic(q) % 12
}

/// A raise step asked for an accidental outside double-flat..double-sharp:
/// the formula is not diatonically realizable from this spelling.
/// Carries the source pitch, the target letter and the computed difference.
#[derive(Clone, Copy, Debug, PartialEq, Eq, Structural)]
pub struct InvalidSpelling {
    pub source: Pitch,
    pub target: PitchClass,
    pub difference: i16,
}

impl PitchClass {
    /// The next letter in cyclic order.
    pub fn next(&self) -> (r: Self)
        ensures
            r == next_class(*self),
    {
        match self {
            PitchClass::C => PitchClass::D,
            PitchClass::D => PitchClass::E,
            PitchClass::E => PitchClass::F,
            PitchClass::F => PitchClass::G,
            PitchClass::G => PitchClass::A,
            PitchClass::A => PitchClass::B,
            PitchClass::B => PitchClass::C,
        }
    }

    /// Fixed chromatic value of the letter.
    pub fn value(&self) -> (v: u8)
        ensures
            v == class_value(*self),
    {
        match self {
            PitchClass::C => 0,
            PitchClass::D => 2,
            PitchClass::E => 4,
            PitchClass::F => 5,
            PitchClass::G => 7,
            PitchClass::A => 9,
            PitchClass::B => 11,
        }
    }
}

impl Accidental {
    /// Signed semitone value of the accidental.
    pub fn value(&self) -> (v: i8)
        ensures
            v == accidental_value(*self),
    {
        match self {
            Accidental::DoubleFlat => -2,
            Accidental::Flat => -1,
            Accidental::Natural => 0,
            Accidental::Sharp => 1,
            Accidental::DoubleSharp => 2,
        }
    }
}

impl Pitch {
    /// The natural pitch of a letter, in the first octave.
    pub fn new(class: PitchClass) -> (p: Self)
        ensures
            p == (Pitch { class, accidental: Accidental::Natural, octave: 1 }),
    {
        Pitch { class, accidental: Accidental::Natural, octave: 1 }
    }

    /// Whether some pitch in the list carries the given letter class.
    pub fn has_pitch_class(pitches: &[Pitch], class: PitchClass) -> (r: bool)
        ensures
            r == exists|i: int| 0 <= i < pitches@.len() && pitches@[i].class == class,
    {
        let n = pitches.len();
        let mut i: usize = 0;
        while i < n
            invariant
                n == pitches@.len(),
                0 <= i <= n,
                forall|j: int| 0 <= j < i ==> pitches@[j].class != class,
            decreases n - i,
        {
            if pitches[i].class == class {
                return true;
            }
            i = i + 1;
        }
        false
    }

    /// Raw chromatic degree: letter value plus accidental value, no modulo.
    pub fn to_numeric_scale_degree(&self) -> (d: i8)
        ensures
            d == chromatic(*self),
    {
        let num: i8 = self.class.value() as i8;
        let acc: i8 = self.accidental.value();
        num + acc
    }

    /// Raise the pitch by `half_notes` half steps onto the next letter in
    /// cyclic order, computing the accidental that realizes the distance
    /// and rolling the octave over when the raw degree passes 11.
    /// Fails with `InvalidSpelling` exactly when the required accidental
    /// lies outside double-flat..double-sharp.
    pub fn build_next(&self, half_notes: i8) -> (r: Result<Self, InvalidSpelling>)
        requires
            rolls_over(*self, half_notes as int) ==> self.octave < 255,
        ensures
            raise_ok(*self, half_notes as int) ==> r == Ok::<Pitch, InvalidSpelling>(
                raise_spec(*self, half_notes as int),
            ),
            !raise_ok(*self, half_notes as int) ==> r == Err::<Pitch, InvalidSpelling>(
                InvalidSpelling {
                    source: *self,
                    target: next_class(self.class),
                    difference: spelling_diff(*self, half_notes as int) as i16,
                },
            ),
    {
        let next_pitch_class = self.class.next();
        let numeric_degree: i16 = self.to_numeric_scale_degree() as i16;

        let mut raised: i16 = numeric_degree + half_notes as i16;

        let raised_octave = if raised > 11 {
            raised = raised % 12;
            self.octave + 1
        } else {
            self.octave
        };

        let diff: i16 = raised - next_pitch_class.value() as i16;

        if -2 <= diff && diff <= 2 {
            let accidental = if diff == -2 {
                Accidental::DoubleFlat
            } else if diff == -1 {
                Accidental::Flat
            } else if diff == 0 {
                Accidental::Natural
            } else if diff == 1 {
                Accidental::Sharp
            } else {
                Accidental::DoubleSharp
            };
            Ok(Pitch { class: next_pitch_class, accidental, octave: raised_octave })
        } else {
            Err(InvalidSpelling { source: *self, target: next_pitch_class, difference: diff })
        }
    }

    /// Enharmonic equivalence: same sounding pitch class, octave ignored.
    pub fn same_tone(&self, other: &Self) -> (r: bool)
        ensures
            r == same_tone_spec(*self, *other),
    {
        let mut t1: i8 = self.to_numeric_scale_degree();
        let mut t2: i8 = other.to_numeric_scale_degree();
        if t1 < 0 {
            t1 = t1 + 12;
        } else if t1 > 11 {
            t1 = t1 - 12;
        }
        if t2 < 0 {
            t2 = t2 + 12;
        } else if t2 > 11 {
            t2 = t2 - 12;
        }
        t1 == t2
    }

    /// Same sounding pitch: enharmonically equivalent and in the same octave.
    pub fn same_pitch(&self, other: &Self) -> (r: bool)
        ensures
            r == (same_tone_spec(*self, *other) && self.octave == other.octave),
    {
        self.same_tone(other) && self.octave == other.octave
    }
}

/// The letter of a raised pitch is exactly the next letter in cyclic order,
/// and its chromatic degree agrees with the source degree plus the distance,
/// modulo 12.
pub proof fn lemma_raise_next_letter(p: Pitch, half_steps: int)
    requires
        -2 <= half_steps <= 2,
        raise_ok(p, half_steps),
    ensures
        raise_spec(p, half_steps).class == next_class(p.class),
        chromatic(raise_spec(p, half_steps)) % 12 == (chromatic(p) + half_steps) % 12,
{
    let r = raise_spec(p, half_steps);
    assert(accidental_value(accidental_of_value(spelling_diff(p, half_steps)))
        == spelling_diff(p, half_steps));
    assert(chromatic(r) == raised_degree(p, half_steps));
}

/// The octave rolls over by exactly 1 when the raised raw chromatic degree
/// exceeds 11, and is unchanged otherwise.
pub proof fn lemma_octave_rollover(p: Pitch, half_steps: int)
    requires
        rolls_over(p, half_steps) ==> p.octave < 255,
    ensures
        rolls_over(p, half_steps) ==> raise_spec(p, half_steps).octave == p.octave + 1,
        !rolls_over(p, half_steps) ==> raise_spec(p, half_steps).octave == p.octave,
{
}

} // verus!
