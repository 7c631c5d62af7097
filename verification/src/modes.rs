//! The seven diatonic mode formulas, and a registry of named formulas.

use vstd::prelude::*;
use crate::pitch::Accidental;
use crate::pitch::Accidental::{Flat, Natural, Sharp};
use crate::scale::{ScaleDegree, ScaleType, wf_formula};
use crate::text::str_eq;

verus! {

/// The formula whose seven degrees carry the given modifiers, in order.
pub open spec fn formula_of(mods: Seq<Accidental>) -> Seq<ScaleDegree> {
    Seq::new(mods.len(), |i: int| ScaleDegree { degree: (i + 1) as u8, modifier: mods[i] })
}

/// Modifiers of the Ionian (major) mode: all degrees natural.
pub open spec fn ionian_modifiers() -> Seq<Accidental> {
    seq![Natural, Natural, Natural, Natural, Natural, Natural, Natural]
}

/// Modifiers of the Dorian mode: degrees 3 and 7 flatted.
pub open spec fn dorian_modifiers() -> Seq<Accidental> {
    seq![Natural, Natural, Flat, Natural, Natural, Natural, Flat]
}

/// Modifiers of the Phrygian mode: degrees 2, 3, 6 and 7 flatted.
pub open spec fn phrygian_modifiers() -> Seq<Accidental> {
    seq![Natural, Flat, Flat, Natural, Natural, Flat, Flat]
}

/// Modifiers of the Lydian mode: degree 4 sharped.
pub open spec fn lydian_modifiers() -> Seq<Accidental> {
    seq![Natural, Natural, Natural, Sharp, Natural, Natural, Natural]
}

/// Modifiers of the Mixolydian mode: degree 7 flatted.
pub open spec fn mixolydian_modifiers() -> Seq<Accidental> {
    seq![Natural, Natural, Natural, Natural, Natural, Natural, Flat]
}

/// Modifiers of the Aeolian (natural minor) mode: degrees 3, 6 and 7 flatted.
pub open spec fn aeolian_modifiers() -> Seq<Accidental> {
    seq![Natural, Natural, Flat, Natural, Natural, Flat, Flat]
}

/// Modifiers of the Locrian mode: degrees 2, 3, 5, 6 and 7 flatted.
pub open spec fn locrian_modifiers() -> Seq<Accidental> {
    seq![Natural, Flat, Flat, Natural, Flat, Flat, Flat]
}

/// A seven-degree formula from its seven modifiers, in order.
pub fn seven_degrees(
    m1: Accidental,
    m2: Accidental,
    m3: Accidental,
    m4: Accidental,
    m5: Accidental,
    m6: Accidental,
    m7: Accidental,
) -> (r: Vec<ScaleDegree>)
    ensures
        r@ == formula_of(seq![m1, m2, m3, m4, m5, m6, m7]),
        wf_formula(r@),
{
    let mut v: Vec<ScaleDegree> = Vec::new();
    v.push(ScaleDegree { degree: 1, modifier: m1 });
    v.push(ScaleDegree { degree: 2, modifier: m2 });
    v.push(ScaleDegree { degree: 3, modifier: m3 });
    v.push(ScaleDegree { degree: 4, modifier: m4 });
    v.push(ScaleDegree { degree: 5, modifier: m5 });
    v.push(ScaleDegree { degree: 6, modifier: m6 });
    v.push(ScaleDegree { degree: 7, modifier: m7 });
    proof {
        assert(v@ =~= formula_of(seq![m1, m2, m3, m4, m5, m6, m7]));
    }
    v
}

/// The Ionian formula.
pub fn ionian() -> (r: Vec<ScaleDegree>)
    ensures
        r@ == formula_of(ionian_modifiers()),
        wf_formula(r@),
{
    let r = seven_degrees(Natural, Natural, Natural, Natural, Natural, Natural, Natural);
    proof {
        assert(r@ =~= formula_of(ionian_modifiers()));
    }
    r
}

/// The Dorian formula.
pub fn dorian() -> (r: Vec<ScaleDegree>)
    ensures
        r@ == formula_of(dorian_modifiers()),
        wf_formula(r@),
{
    let r = seven_degrees(Natural, Natural, Flat, Natural, Natural, Natural, Flat);
    proof {
        assert(r@ =~= formula_of(dorian_modifiers()));
    }
    r
}

/// The Phrygian formula.
pub fn phrygian() -> (r: Vec<ScaleDegree>)
    ensures
        r@ == formula_of(phrygian_modifiers()),
        wf_formula(r@),
{
    let r = seven_degrees(Natural, Flat, Flat, Natural, Natural, Flat, Flat);
    proof {
        assert(r@ =~= formula_of(phrygian_modifiers()));
    }
    r
}

/// The Lydian formula.
pub fn lydian() -> (r: Vec<ScaleDegree>)
    ensures
        r@ == formula_of(lydian_modifiers()),
        wf_formula(r@),
{
    let r = seven_degrees(Natural, Natural, Natural, Sharp, Natural, Natural, Natural);
    proof {
        assert(r@ =~= formula_of(lydian_modifiers()));
    }
    r
}

/// The Mixolydian formula.
pub fn mixolydian() -> (r: Vec<ScaleDegree>)
    ensures
        r@ == formula_of(mixolydian_modifiers()),
        wf_formula(r@),
{
    let r = seven_degrees(Natural, Natural, Natural, Natural, Natural, Natural, Flat);
    proof {
        assert(r@ =~= formula_of(mixolydian_modifiers()));
    }
    r
}

/// The Aeolian formula.
pub fn aeolian() -> (r: Vec<ScaleDegree>)
    ensures
        r@ == formula_of(aeolian_modifiers()),
        wf_formula(r@),
{
    let r = seven_degrees(Natural, Natural, Flat, Natural, Natural, Flat, Flat);
    proof {
        assert(r@ =~= formula_of(aeolian_modifiers()));
    }
    r
}

/// The Locrian formula.
pub fn locrian() -> (r: Vec<ScaleDegree>)
    ensures
        r@ == formula_of(locrian_modifiers()),
        wf_formula(r@),
{
    let r = seven_degrees(Natural, Flat, Flat, Natural, Flat, Flat, Flat);
    proof {
        assert(r@ =~= formula_of(locrian_modifiers()));
    }
    r
}

/// The first formula in the list carrying the given name.
pub open spec fn find_mode(entries: Seq<ScaleType>, name: Seq<char>) -> Option<ScaleType>
    decreases entries.len(),
{
    if entries.len() == 0 {
        None
    } else if entries[0].name@ == name {
        Some(entries[0])
    } else {
        find_mode(entries.skip(1), name)
    }
}

/// A list of named formulas, looked up by name.
#[derive(Debug)]
pub struct ModeRegistry {
    pub entries: Vec<ScaleType>,
}

impl ModeRegistry {
    /// An empty registry.
    pub fn new() -> (r: Self)
        ensures
            r.entries@.len() == 0,
    {
        ModeRegistry { entries: Vec::new() }
    }

    /// Add a named formula at the end of the registry.
    pub fn insert(&mut self, scale_type: ScaleType)
        ensures
            final(self).entries@ == old(self).entries@.push(scale_type),
    {
        self.entries.push(scale_type);
    }

    /// Look a formula up by name: the first entry whose name reads the same.
    pub fn get(&self, name: &str) -> (r: Option<&ScaleType>)
        ensures
            find_mode(self.entries@, name@) is None ==> r is None,
            find_mode(self.entries@, name@) matches Some(st) ==> (r matches Some(f) && *f == st),
    {
        let n = self.entries.len();
        let mut i: usize = 0;
        proof {
            assert(self.entries@.skip(0) =~= self.entries@);
        }
        #[verifier::loop_isolation(false)]
        while i < n
            invariant
                0 <= i <= n,
                n == self.entries@.len(),
                find_mode(self.entries@, name@) == find_mode(self.entries@.skip(i as int), name@),
            decreases n - i,
        {
            let entry = &self.entries[i];
            proof {
                assert(self.entries@.skip(i as int)[0] == self.entries@[i as int]);
            }
            if str_eq(name, entry.name.as_str()) {
                return Some(entry);
            }
            proof {
                assert(self.entries@.skip(i as int).skip(1) =~= self.entries@.skip(i + 1));
            }
            i = i + 1;
        }
        proof {
            assert(self.entries@.skip(n as int) =~= Seq::<ScaleType>::empty());
        }
        None
    }
}

/// Fill a registry with the seven diatonic modes, by their lowercase
/// names, in the traditional order starting from Ionian.
pub fn init_modes(scales: &mut ModeRegistry)
    ensures
        final(scales).entries@.len() == old(scales).entries@.len() + 7,
        forall|i: int|
            0 <= i < old(scales).entries@.len() ==> #[trigger] final(scales).entries@[i] == old(
                scales,
            ).entries@[i],
        final(scales).entries@[old(scales).entries@.len() as int + 0].name@ == "ionian"@,
        final(scales).entries@[old(scales).entries@.len() as int + 0].scale_degrees@ == formula_of(
            ionian_modifiers(),
        ),
        final(scales).entries@[old(scales).entries@.len() as int + 1].name@ == "dorian"@,
        final(scales).entries@[old(scales).entries@.len() as int + 1].scale_degrees@ == formula_of(
            dorian_modifiers(),
        ),
        final(scales).entries@[old(scales).entries@.len() as int + 2].name@ == "phrygian"@,
        final(scales).entries@[old(scales).entries@.len() as int + 2].scale_degrees@ == formula_of(
            phrygian_modifiers(),
        ),
        final(scales).entries@[old(scales).entries@.len() as int + 3].name@ == "lydian"@,
        final(scales).entries@[old(scales).entries@.len() as int + 3].scale_degrees@ == formula_of(
            lydian_modifiers(),
        ),
        final(scales).entries@[old(scales).entries@.len() as int + 4].name@ == "mixolydian"@,
        final(scales).entries@[old(scales).entries@.len() as int + 4].scale_degrees@ == formula_of(
            mixolydian_modifiers(),
        ),
        final(scales).entries@[old(scales).entries@.len() as int + 5].name@ == "aeolian"@,
        final(scales).entries@[old(scales).entries@.len() as int + 5].scale_degrees@ == formula_of(
            aeolian_modifiers(),
        ),
        final(scales).entries@[old(scales).entries@.len() as int + 6].name@ == "locrian"@,
        final(scales).entries@[old(scales).entries@.len() as int + 6].scale_degrees@ == formula_of(
            locrian_modifiers(),
        ),
{
    scales.insert(ScaleType { name: String::from_str("ionian"), scale_degrees: ionian() });
    scales.insert(ScaleType { name: String::from_str("dorian"), scale_degrees: dorian() });
    scales.insert(ScaleType { name: String::from_str("phrygian"), scale_degrees: phrygian() });
    scales.insert(ScaleType { name: String::from_str("lydian"), scale_degrees: lydian() });
    scales.insert(ScaleType { name: String::from_str("mixolydian"), scale_degrees: mixolydian() });
    scales.insert(ScaleType { name: String::from_str("aeolian"), scale_degrees: aeolian() });
    scales.insert(ScaleType { name: String::from_str("locrian"), scale_degrees: locrian() });
}

} // verus!
