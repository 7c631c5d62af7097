//! The seven mode formulas of the harmonic minor scale.

use vstd::prelude::*;
use crate::pitch::Accidental;
use crate::pitch::Accidental::{DoubleFlat, Flat, Natural, Sharp};
use crate::scale::{ScaleDegree, wf_formula};
use crate::modes::{formula_of, seven_degrees};

verus! {

/// Modifiers of the Aeolian-harmonic mode: degrees 3 and 6 flatted.
pub open spec fn aeolian_harmonic_modifiers() -> Seq<Accidental> {
    seq![Natural, Natural, Flat, Natural, Natural, Flat, Natural]
}

/// Modifiers of the Locrian-natural-6 mode.
pub open spec fn locrian_natural_6_modifiers() -> Seq<Accidental> {
    seq![Natural, Flat, Flat, Natural, Flat, Natural, Flat]
}

/// Modifiers of the Ionian-sharp-5 mode.
pub open spec fn ionian_sharp_5_modifiers() -> Seq<Accidental> {
    seq![Natural, Natural, Natural, Natural, Sharp, Natural, Natural]
}

/// Modifiers of the Dorian-sharp-4 mode.
pub open spec fn dorian_sharp_4_modifiers() -> Seq<Accidental> {
    seq![Natural, Natural, Flat, Sharp, Natural, Natural, Flat]
}

/// Modifiers of the Phrygian-dominant mode.
pub open spec fn phrygian_dominant_modifiers() -> Seq<Accidental> {
    seq![Natural, Flat, Natural, Natural, Natural, Flat, Flat]
}

/// Modifiers of the Lydian-sharp-2 mode.
pub open spec fn lydian_sharp_2_modifiers() -> Seq<Accidental> {
    seq![Natural, Sharp, Natural, Sharp, Natural, Natural, Natural]
}

/// Modifiers of the super-Locrian (altered) mode: every degree lowered,
/// the seventh twice.
pub open spec fn super_locrian_modifiers() -> Seq<Accidental> {
    seq![Natural, Flat, Flat, Flat, Flat, Flat, DoubleFlat]
}

/// The Aeolian-harmonic formula.
pub fn aeolian_harmonic() -> (r: Vec<ScaleDegree>)
    ensures
        r@ == formula_of(aeolian_harmonic_modifiers()),
        wf_formula(r@),
{
    let r = seven_degrees(Natural, Natural, Flat, Natural, Natural, Flat, Natural);
    proof {
        assert(r@ =~= formula_of(aeolian_harmonic_modifiers()));
    }
    r
}

/// The Locrian-natural-6 formula.
pub fn locrian_natural_6() -> (r: Vec<ScaleDegree>)
    ensures
        r@ == formula_of(locrian_natural_6_modifiers()),
        wf_formula(r@),
{
    let r = seven_degrees(Natural, Flat, Flat, Natural, Flat, Natural, Flat);
    proof {
        assert(r@ =~= formula_of(locrian_natural_6_modifiers()));
    }
    r
}

/// The Ionian-sharp-5 formula.
pub fn ionian_sharp_5() -> (r: Vec<ScaleDegree>)
    ensures
        r@ == formula_of(ionian_sharp_5_modifiers()),
        wf_formula(r@),
{
    let r = seven_degrees(Natural, Natural, Natural, Natural, Sharp, Natural, Natural);
    proof {
        assert(r@ =~= formula_of(ionian_sharp_5_modifiers()));
    }
    r
}

/// The Dorian-sharp-4 formula.
pub fn dorian_sharp_4() -> (r: Vec<ScaleDegree>)
    ensures
        r@ == formula_of(dorian_sharp_4_modifiers()),
        wf_formula(r@),
{
    let r = seven_degrees(Natural, Natural, Flat, Sharp, Natural, Natural, Flat);
    proof {
        assert(r@ =~= formula_of(dorian_sharp_4_modifiers()));
    }
    r
}

/// The Phrygian-dominant formula.
pub fn phrygian_dominant() -> (r: Vec<ScaleDegree>)
    ensures
        r@ == formula_of(phrygian_dominant_modifiers()),
        wf_formula(r@),
{
    let r = seven_degrees(Natural, Flat, Natural, Natural, Natural, Flat, Flat);
    proof {
        assert(r@ =~= formula_of(phrygian_dominant_modifiers()));
    }
    r
}

/// The Lydian-sharp-2 formula.
pub fn lydian_sharp_2() -> (r: Vec<ScaleDegree>)
    ensures
        r@ == formula_of(lydian_sharp_2_modifiers()),
        wf_formula(r@),
{
    let r = seven_degrees(Natural, Sharp, Natural, Sharp, Natural, Natural, Natural);
    proof {
        assert(r@ =~= formula_of(lydian_sharp_2_modifiers()));
    }
    r
}

/// The super-Locrian (altered) formula.
pub fn super_locrian() -> (r: Vec<ScaleDegree>)
    ensures
        r@ == formula_of(super_locrian_modifiers()),
        wf_formula(r@),
{
    let r = seven_degrees(Natural, Flat, Flat, Flat, Flat, Flat, DoubleFlat);
    proof {
        assert(r@ =~= formula_of(super_locrian_modifiers()));
    }
    r
}

} // verus!
