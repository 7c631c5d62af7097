//! Scale-degree formulas and the scale builder.
//!
//! A formula lists the seven diatonic degrees, each with a modifying
//! accidental.  Building a scale walks the degrees in order, feeding the
//! distance between consecutive absolute chromatic offsets into the
//! pitch-raising engine, so every scale tone is spelled with the next
//! letter name.

use vstd::prelude::*;
use vstd::string::*;
use crate::text::{
    accidental_chars, dec_rep, format_pitch, is_space, lemma_token_len_run, number_text,
    parse_pitch, parse_scale_text, token_len,
};
use crate::pitch::{
    Accidental, InvalidSpelling, Pitch, PitchClass, accidental_of_value, accidental_value,
    chromatic, lemma_nth_next_class_distinct, next_class, nth_next_class, raise_ok, raise_spec,
    raised_degree, rolls_over, spelling_diff,
};

verus! {

/// One diatonic degree (1..=7) together with its chromatic modifier.
#[derive(Clone, Copy, Debug, PartialEq, Eq, Structural)]
pub struct ScaleDegree {
    pub degree: u8,
    pub modifier: Accidental,
}

/// A named seven-degree formula (a mode).
#[derive(Debug)]
pub struct ScaleType {
    pub name: String,
    pub scale_degrees: Vec<ScaleDegree>,
}

/// A scale: its root, its formula, and the seven pitches built from them.
#[derive(Debug)]
pub struct Scale {
    pub root_note: Pitch,
    pub scale_type: ScaleType,
    pub pitches: Vec<Pitch>,
}

/// Unmodified semitone offset of diatonic degree `i + 1` from the tonic,
/// for `i` in 0..7: the fixed table 0, 2, 4, 5, 7, 9, 11.
pub open spec fn natural_offset(i: int) -> int {
    if i == 1 {
        2
    } else if i == 2 {
        4
    } else if i == 3 {
        5
    } else if i == 4 {
        7
    } else if i == 5 {
        9
    } else if i == 6 {
        11
    } else {
        0
    }
}

/// A well-formed formula has exactly seven entries, declaring degrees
/// 1 through 7 in order.
pub open spec fn wf_formula(ds: Seq<ScaleDegree>) -> bool {
    &&& ds.len() == 7
    &&& forall|i: int| 0 <= i < 7 ==> #[trigger] ds[i].degree == i + 1
}

/// Absolute chromatic offset of the degree at position `i` from the tonic:
/// the natural offset plus the declared modifier.  Position 0 is the tonic
/// and always sits at offset 0.
pub open spec fn degree_offset(ds: Seq<ScaleDegree>, i: int) -> int {
    if i == 0 {
        0
    } else {
        natural_offset(i) + accidental_value(ds[i].modifier)
    }
}

/// Half-step distance fed into the raising engine to reach position `i`
/// from position `i - 1`.
pub open spec fn step_delta(ds: Seq<ScaleDegree>, i: int) -> int {
    degree_offset(ds, i) - degree_offset(ds, i - 1)
}

/// The pitch at position `i` of the scale: the root for position 0, and
/// each later one spelled by raising its predecessor by the step distance.
/// Every tone carries the root's octave, one higher once its absolute
/// offset from the tonic passes an octave: the tones of one scale are
/// numbered with their tonic, not re-counted at the letter C.
pub open spec fn scale_pitch(root: Pitch, ds: Seq<ScaleDegree>, i: int) -> Pitch
    decreases i,
{
    if i <= 0 {
        root
    } else {
        Pitch {
            class: raise_spec(scale_pitch(root, ds, i - 1), step_delta(ds, i)).class,
            accidental: raise_spec(scale_pitch(root, ds, i - 1), step_delta(ds, i)).accidental,
            octave: if degree_offset(ds, i) > 11 {
                (root.octave + 1) as u8
            } else {
                root.octave
            },
        }
    }
}

/// All raising steps up to and including position `i` succeed.
pub open spec fn scale_ok_upto(root: Pitch, ds: Seq<ScaleDegree>, i: int) -> bool
    decreases i,
{
    if i <= 0 {
        true
    } else {
        scale_ok_upto(root, ds, i - 1) && raise_ok(scale_pitch(root, ds, i - 1), step_delta(ds, i))
    }
}

/// The letter of the scale pitch at position `i` is the root's letter
/// advanced `i` steps in cyclic order.
pub proof fn lemma_scale_pitch_letter(root: Pitch, ds: Seq<ScaleDegree>, i: int)
    requires
        0 <= i,
    ensures
        scale_pitch(root, ds, i).class == nth_next_class(root.class, i),
    decreases i,
{
    if i > 0 {
        lemma_scale_pitch_letter(root, ds, i - 1);
    }
}

/// The seven pitches of a scale use the seven letter names exactly once
/// each, in cyclic order starting from the root's letter, whatever the
/// formula and whether or not every raising step succeeds.
pub proof fn lemma_scale_letters(root: Pitch, ds: Seq<ScaleDegree>)
    ensures
        forall|i: int|
            0 <= i < 7 ==> #[trigger] scale_pitch(root, ds, i).class == nth_next_class(
                root.class,
                i,
            ),
        forall|i: int, j: int|
            0 <= i < j < 7 ==> scale_pitch(root, ds, i).class != scale_pitch(root, ds, j).class,
{
    assert forall|i: int| 0 <= i < 7 implies #[trigger] scale_pitch(root, ds, i).class
        == nth_next_class(root.class, i) by {
        lemma_scale_pitch_letter(root, ds, i);
    }
    assert forall|i: int, j: int| 0 <= i < j < 7 implies scale_pitch(root, ds, i).class
        != scale_pitch(root, ds, j).class by {
        lemma_nth_next_class_distinct(root.class, i, j);
    }
}

/// Two numbers with the same residue keep the same residue when shifted
/// by the same distance.
proof fn lemma_mod12_shift(x: int, y: int, d: int)
    requires
        x % 12 == y % 12,
    ensures
        (x + d) % 12 == (y + d) % 12,
{
    vstd::arithmetic::div_mod::lemma_add_mod_noop(x, d, 12);
    vstd::arithmetic::div_mod::lemma_add_mod_noop(y, d, 12);
}

/// As long as every raising step succeeds, the scale tone at position `i`
/// sounds at the root's chromatic degree plus the degree's absolute offset
/// from the tonic, modulo 12: the builder realizes the formula's pitches,
/// not merely its letters.
pub proof fn lemma_scale_pitch_chromatic(root: Pitch, ds: Seq<ScaleDegree>, i: int)
    requires
        0 <= i,
        scale_ok_upto(root, ds, i),
    ensures
        chromatic(scale_pitch(root, ds, i)) % 12 == (chromatic(root) + degree_offset(ds, i)) % 12,
    decreases i,
{
    if i == 0 {
        assert(degree_offset(ds, 0) == 0);
    } else {
        lemma_scale_pitch_chromatic(root, ds, i - 1);
        let prev = scale_pitch(root, ds, i - 1);
        let d = step_delta(ds, i);
        let tone = scale_pitch(root, ds, i);
        assert(raise_ok(prev, d));
        assert(accidental_value(accidental_of_value(spelling_diff(prev, d))) == spelling_diff(
            prev,
            d,
        ));
        assert(chromatic(tone) == raised_degree(prev, d));
        if rolls_over(prev, d) {
            vstd::arithmetic::div_mod::lemma_mod_twice(chromatic(prev) + d, 12);
        }
        assert(chromatic(tone) % 12 == (chromatic(prev) + d) % 12);
        lemma_mod12_shift(chromatic(prev), chromatic(root) + degree_offset(ds, i - 1), d);
        assert(chromatic(root) + degree_offset(ds, i - 1) + d == chromatic(root) + degree_offset(
            ds,
            i,
        ));
    }
}

/// Success of the first `j` raising steps includes success of the first `i`.
pub proof fn lemma_scale_ok_upto_monotone(root: Pitch, ds: Seq<ScaleDegree>, i: int, j: int)
    requires
        i <= j,
        scale_ok_upto(root, ds, j),
    ensures
        scale_ok_upto(root, ds, i),
    decreases j - i,
{
    if i < j {
        lemma_scale_ok_upto_monotone(root, ds, i, j - 1);
    }
}

/// A spelling failure while building a scale: the position of the offending
/// degree (0-based) and the failing raise step's details.
#[derive(Clone, Copy, Debug, PartialEq, Eq, Structural)]
pub struct ScaleError {
    pub degree_index: usize,
    pub spelling: InvalidSpelling,
}

/// Whether a degree list is a well-formed seven-degree formula.
pub fn is_wf_formula(degrees: &[ScaleDegree]) -> (r: bool)
    ensures
        r == wf_formula(degrees@),
{
    if degrees.len() != 7 {
        return false;
    }
    let mut i: usize = 0;
    #[verifier::loop_isolation(false)]
    while i < 7
        invariant
            0 <= i <= 7,
            degrees@.len() == 7,
            forall|j: int| 0 <= j < i ==> #[trigger] degrees@[j].degree == j + 1,
        decreases 7 - i,
    {
        if degrees[i].degree != (i as u8) + 1 {
            return false;
        }
        i = i + 1;
    }
    true
}

/// Unmodified semitone offset of the degree at position `i`.
pub fn natural_degree_offset(i: usize) -> (v: u8)
    requires
        i < 7,
    ensures
        v == natural_offset(i as int),
{
    if i == 1 {
        2
    } else if i == 2 {
        4
    } else if i == 3 {
        5
    } else if i == 4 {
        7
    } else if i == 5 {
        9
    } else if i == 6 {
        11
    } else {
        0
    }
}

impl Scale {
    /// Absolute chromatic offsets of the formula's positions: 0 for the
    /// tonic, then natural offset plus modifier for each later position.
    pub fn to_numeric_degrees(degrees: &[ScaleDegree]) -> (r: Vec<i8>)
        requires
            degrees@.len() <= 7,
        ensures
            r@.len() == (if degrees@.len() == 0 { 1int } else { degrees@.len() as int }),
            forall|i: int| 0 <= i < r@.len() ==> #[trigger] r@[i] == degree_offset(degrees@, i),
    {
        let mut result: Vec<i8> = Vec::new();
        result.push(0);

        let mut i: usize = 1;
        while i < degrees.len()
            invariant
                degrees@.len() <= 7,
                1 <= i,
                i <= degrees@.len() || i == 1,
                result@.len() == i,
                forall|j: int| 0 <= j < i ==> #[trigger] result@[j] == degree_offset(degrees@, j),
            decreases degrees@.len() - i,
        {
            let nd: i8 = natural_degree_offset(i) as i8 + degrees[i].modifier.value();
            result.push(nd);
            i = i + 1;
        }

        result
    }

    /// Build the seven pitches of a scale from a root and a formula.
    ///
    /// Position 0 is the root unchanged; each later position is spelled by
    /// raising its predecessor by the difference of consecutive absolute
    /// offsets, and carries the root's octave, one higher once its offset
    /// from the tonic passes an octave.  The first failing raise step
    /// aborts the build and is reported with its position.  The root
    /// octave bound leaves room for that one step up.
    pub fn build_scale(root_note: &Pitch, degrees: &[ScaleDegree]) -> (r: Result<
        Vec<Pitch>,
        ScaleError,
    >)
        requires
            wf_formula(degrees@),
            root_note.octave <= 253,
        ensures
            scale_ok_upto(*root_note, degrees@, 6) ==> (r matches Ok(ps) && ps@.len() == 7
                && forall|i: int|
                0 <= i < 7 ==> #[trigger] ps@[i] == scale_pitch(*root_note, degrees@, i)),
            !scale_ok_upto(*root_note, degrees@, 6) ==> (r matches Err(e)
                && 1 <= e.degree_index < 7
                && scale_ok_upto(*root_note, degrees@, e.degree_index - 1)
                && !raise_ok(
                    scale_pitch(*root_note, degrees@, e.degree_index - 1),
                    step_delta(degrees@, e.degree_index as int),
                )
                && e.spelling == (InvalidSpelling {
                    source: scale_pitch(*root_note, degrees@, e.degree_index - 1),
                    target: next_class(scale_pitch(*root_note, degrees@, e.degree_index - 1).class),
                    difference: spelling_diff(
                        scale_pitch(*root_note, degrees@, e.degree_index - 1),
                        step_delta(degrees@, e.degree_index as int),
                    ) as i16,
                })),
    {
        let ghost ds = degrees@;
        let ghost root = *root_note;

        let numeric_degrees = Scale::to_numeric_degrees(degrees);

        let mut result: Vec<Pitch> = Vec::new();
        result.push(*root_note);

        let mut last_pitch: Pitch = *root_note;
        let mut last_degree: i8 = 0;
        let mut i: usize = 1;

        while i < 7
            invariant
                wf_formula(ds),
                degrees@ == ds,
                *root_note == root,
                root.octave <= 253,
                1 <= i <= 7,
                numeric_degrees@.len() == 7,
                forall|j: int|
                    0 <= j < 7 ==> #[trigger] numeric_degrees@[j] == degree_offset(ds, j),
                result@.len() == i,
                forall|j: int| 0 <= j < i ==> #[trigger] result@[j] == scale_pitch(root, ds, j),
                scale_ok_upto(root, ds, i - 1),
                last_pitch == scale_pitch(root, ds, i - 1),
                last_degree == degree_offset(ds, i - 1),
                last_pitch.octave <= root.octave + 1,
            decreases 7 - i,
        {
            let next_num_degree: i8 = numeric_degrees[i];
            let half_notes: i8 = next_num_degree - last_degree;

            proof {
                assert(next_num_degree == degree_offset(ds, i as int));
                assert(-2 <= accidental_value(ds[i as int].modifier) <= 2);
                assert(-2 <= degree_offset(ds, i as int) <= 13);
            }

            let step = last_pitch.build_next(half_notes);

            match step {
                Ok(stepped) => {
                    let octave = if next_num_degree > 11 {
                        root_note.octave + 1
                    } else {
                        root_note.octave
                    };
                    let next_pitch = Pitch {
                        class: stepped.class,
                        accidental: stepped.accidental,
                        octave,
                    };
                    proof {
                        assert(raise_ok(last_pitch, half_notes as int));
                        assert(stepped == raise_spec(last_pitch, half_notes as int));
                        assert(next_pitch == scale_pitch(root, ds, i as int));
                    }
                    result.push(next_pitch);
                    last_pitch = next_pitch;
                    last_degree = next_num_degree;
                },
                Err(spelling) => {
                    proof {
                        if scale_ok_upto(root, ds, 6) {
                            lemma_scale_ok_upto_monotone(root, ds, i as int, 6);
                        }
                    }
                    return Err(ScaleError { degree_index: i, spelling });
                },
            }

            i = i + 1;
        }

        Ok(result)
    }
}

/// The textual form of a degree: its number, then its modifier's mark.
pub open spec fn format_scale_degree(sd: ScaleDegree) -> Seq<char> {
    dec_rep(sd.degree as int) + accidental_chars(sd.modifier)
}

/// The pitches of a scale as text, each followed by a blank.
pub open spec fn format_pitches(ps: Seq<Pitch>) -> Seq<char>
    decreases ps.len(),
{
    if ps.len() == 0 {
        Seq::<char>::empty()
    } else {
        format_pitches(ps.drop_last()) + format_pitch(ps.last()) + seq![' ']
    }
}

/// The degrees of a formula as text, each followed by a blank.
pub open spec fn format_degrees(ds: Seq<ScaleDegree>) -> Seq<char>
    decreases ds.len(),
{
    if ds.len() == 0 {
        Seq::<char>::empty()
    } else {
        format_degrees(ds.drop_last()) + format_scale_degree(ds.last()) + seq![' ']
    }
}

/// The textual form of a scale: root and mode name, the pitch sequence,
/// then the degree formula.
pub open spec fn format_scale(sc: Scale) -> Seq<char> {
    format_pitch(sc.root_note) + seq![' '] + sc.scale_type.name@ + seq![' ', '-', ' ']
        + format_pitches(sc.pitches@) + seq![' ', '-', ' '] + format_degrees(
        sc.scale_type.scale_degrees@,
    )
}

impl ScaleDegree {
    /// Write the degree in its textual form.
    pub fn to_text(&self) -> (r: String)
        ensures
            r@ == format_scale_degree(*self),
    {
        let mut r = number_text(self.degree);
        r.append(self.modifier.glyph_text());
        r
    }
}

impl Scale {
    /// Write the scale in its textual form.
    pub fn to_text(&self) -> (r: String)
        ensures
            r@ == format_scale(*self),
    {
        proof {
            reveal_strlit(" ");
            reveal_strlit(" - ");
        }
        let mut r = self.root_note.to_text();
        r.append(" ");
        r.append(self.scale_type.name.as_str());
        r.append(" - ");
        proof {
            assert(" "@ =~= seq![' ']);
            assert(" - "@ =~= seq![' ', '-', ' ']);
        }

        let ghost ps = self.pitches@;
        let mut i: usize = 0;
        #[verifier::loop_isolation(false)]
        while i < self.pitches.len()
            invariant
                0 <= i <= ps.len(),
                r@ == format_pitch(self.root_note) + seq![' '] + self.scale_type.name@
                    + seq![' ', '-', ' '] + format_pitches(ps.take(i as int)),
            decreases ps.len() - i,
        {
            let text = self.pitches[i].to_text();
            r.append(text.as_str());
            r.append(" ");
            proof {
                assert(ps.take(i + 1).drop_last() =~= ps.take(i as int));
                assert(ps.take(i + 1).last() == ps[i as int]);
                assert(r@ =~= format_pitch(self.root_note) + seq![' '] + self.scale_type.name@
                    + seq![' ', '-', ' '] + format_pitches(ps.take(i + 1)));
            }
            i = i + 1;
        }
        proof {
            assert(ps.take(ps.len() as int) =~= ps);
        }

        r.append(" - ");

        let ghost ds = self.scale_type.scale_degrees@;
        let mut j: usize = 0;
        #[verifier::loop_isolation(false)]
        while j < self.scale_type.scale_degrees.len()
            invariant
                0 <= j <= ds.len(),
                r@ == format_pitch(self.root_note) + seq![' '] + self.scale_type.name@
                    + seq![' ', '-', ' '] + format_pitches(ps) + seq![' ', '-', ' ']
                    + format_degrees(ds.take(j as int)),
            decreases ds.len() - j,
        {
            let text = self.scale_type.scale_degrees[j].to_text();
            r.append(text.as_str());
            r.append(" ");
            proof {
                assert(ds.take(j + 1).drop_last() =~= ds.take(j as int));
                assert(ds.take(j + 1).last() == ds[j as int]);
                assert(r@ =~= format_pitch(self.root_note) + seq![' '] + self.scale_type.name@
                    + seq![' ', '-', ' '] + format_pitches(ps) + seq![' ', '-', ' ']
                    + format_degrees(ds.take(j + 1)));
            }
            j = j + 1;
        }
        proof {
            assert(ds.take(ds.len() as int) =~= ds);
            assert(r@ =~= format_scale(*self));
        }

        r
    }
}

/// A copy of a degree vector, element for element.
fn copy_degrees(v: &Vec<ScaleDegree>) -> (r: Vec<ScaleDegree>)
    ensures
        r@ == v@,
{
    let mut r: Vec<ScaleDegree> = Vec::new();
    let mut i: usize = 0;
    #[verifier::loop_isolation(false)]
    while i < v.len()
        invariant
            0 <= i <= v@.len(),
            r@ == v@.take(i as int),
        decreases v@.len() - i,
    {
        r.push(v[i]);
        proof {
            assert(v@.take(i + 1) =~= v@.take(i as int).push(v@[i as int]));
        }
        i = i + 1;
    }
    proof {
        assert(v@.take(v@.len() as int) =~= v@);
    }
    r
}

impl Clone for ScaleType {
    /// A copy whose name and degrees read the same.
    fn clone(&self) -> (r: Self)
        ensures
            r.name@ == self.name@,
            r.scale_degrees@ == self.scale_degrees@,
    {
        ScaleType { name: self.name.clone(), scale_degrees: copy_degrees(&self.scale_degrees) }
    }
}

impl Scale {
    /// Build the scale of a root and a formula, carrying the formula along.
    pub fn new(root_note: &Pitch, scale_type: &ScaleType) -> (r: Result<Self, ScaleError>)
        requires
            wf_formula(scale_type.scale_degrees@),
            root_note.octave <= 253,
        ensures
            scale_ok_upto(*root_note, scale_type.scale_degrees@, 6) ==> (r matches Ok(sc)
                && sc.root_note == *root_note
                && sc.scale_type.name@ == scale_type.name@
                && sc.scale_type.scale_degrees@ == scale_type.scale_degrees@
                && sc.pitches@.len() == 7
                && forall|i: int|
                0 <= i < 7 ==> #[trigger] sc.pitches@[i] == scale_pitch(
                    *root_note,
                    scale_type.scale_degrees@,
                    i,
                )),
            !scale_ok_upto(*root_note, scale_type.scale_degrees@, 6) ==> (r matches Err(e)
                && 1 <= e.degree_index < 7
                && scale_ok_upto(*root_note, scale_type.scale_degrees@, e.degree_index - 1)
                && !raise_ok(
                    scale_pitch(*root_note, scale_type.scale_degrees@, e.degree_index - 1),
                    step_delta(scale_type.scale_degrees@, e.degree_index as int),
                )
                && e.spelling == (InvalidSpelling {
                    source: scale_pitch(*root_note, scale_type.scale_degrees@, e.degree_index - 1),
                    target: next_class(
                        scale_pitch(
                            *root_note,
                            scale_type.scale_degrees@,
                            e.degree_index - 1,
                        ).class,
                    ),
                    difference: spelling_diff(
                        scale_pitch(*root_note, scale_type.scale_degrees@, e.degree_index - 1),
                        step_delta(scale_type.scale_degrees@, e.degree_index as int),
                    ) as i16,
                })),
    {
        match Scale::build_scale(root_note, scale_type.scale_degrees.as_slice()) {
            Ok(pitches) => Ok(
                Scale { root_note: *root_note, scale_type: scale_type.clone(), pitches },
            ),
            Err(e) => Err(e),
        }
    }

    /// Read the root from its textual form and build the scale.  Returns
    /// `None` when the root text is malformed, when its octave is too
    /// high to build from, or when a raising step fails.
    pub fn from_pitch_string(root: &str, scale_type: &ScaleType) -> (r: Option<Self>)
        requires
            wf_formula(scale_type.scale_degrees@),
        ensures
            parse_pitch(root@) is None ==> r is None,
            parse_pitch(root@) matches Some(p) ==> ((p.octave > 253 || !scale_ok_upto(
                p,
                scale_type.scale_degrees@,
                6,
            )) ==> r is None),
            parse_pitch(root@) matches Some(p) ==> ((p.octave <= 253 && scale_ok_upto(
                p,
                scale_type.scale_degrees@,
                6,
            )) ==> (r matches Some(sc) && sc.root_note == p
                && sc.scale_type.name@ == scale_type.name@
                && sc.scale_type.scale_degrees@ == scale_type.scale_degrees@
                && sc.pitches@.len() == 7
                && forall|i: int|
                0 <= i < 7 ==> #[trigger] sc.pitches@[i] == scale_pitch(
                    p,
                    scale_type.scale_degrees@,
                    i,
                ))),
    {
        match Pitch::parse(root) {
            None => None,
            Some(p) => {
                if p.octave > 253 {
                    return None;
                }
                match Scale::new(&p, scale_type) {
                    Ok(sc) => Some(sc),
                    Err(_) => None,
                }
            },
        }
    }
}

/// Whether a character separates pitch words.
fn char_is_space(c: char) -> (r: bool)
    ensures
        r == is_space(c),
{
    c == ' ' || c == '\t' || c == '\n' || c == '\r'
}

/// End of the non-blank word starting at `start`.
fn word_end(s: &str, n: usize, start: usize) -> (j: usize)
    requires
        n == s@.len(),
        start < n,
        !is_space(s@[start as int]),
    ensures
        start < j <= n,
        forall|k: int| start <= k < j ==> !is_space(#[trigger] s@[k]),
        j == n || is_space(s@[j as int]),
    decreases n,
{
    let mut j: usize = start + 1;
    loop
        invariant
            n == s@.len(),
            start < j <= n,
            forall|k: int| start <= k < j ==> !is_space(#[trigger] s@[k]),
        ensures
            start < j <= n,
            forall|k: int| start <= k < j ==> !is_space(#[trigger] s@[k]),
            j == n || is_space(s@[j as int]),
        decreases n - j,
    {
        if j == n {
            break;
        }
        let c = s.get_char(j);
        if char_is_space(c) {
            break;
        }
        j = j + 1;
    }
    j
}

/// Read a blank-separated sequence of pitch words.  Every word must be a
/// valid pitch text; one failing word fails the whole reading.
pub fn scale_from_string(scale: &str) -> (r: Option<Vec<Pitch>>)
    ensures
        parse_scale_text(scale@) is None ==> r is None,
        parse_scale_text(scale@) matches Some(ps) ==> (r matches Some(v) && v@ == ps),
{
    let n = scale.unicode_len();
    let mut result: Vec<Pitch> = Vec::new();
    let mut i: usize = 0;

    proof {
        assert(scale@.skip(0) =~= scale@);
        let whole = parse_scale_text(scale@);
        if whole is Some {
            assert(result@ + whole.unwrap() =~= whole.unwrap());
        }
    }

    #[verifier::loop_isolation(false)]
    while i < n
        invariant
            0 <= i <= n,
            parse_scale_text(scale@) is None ==> parse_scale_text(scale@.skip(i as int)) is None,
            parse_scale_text(scale@.skip(i as int)) matches Some(ps) ==> parse_scale_text(scale@)
                == Some(result@ + ps),
            parse_scale_text(scale@.skip(i as int)) is None ==> parse_scale_text(scale@) is None,
        decreases n - i,
    {
        let c = scale.get_char(i);
        if char_is_space(c) {
            proof {
                assert(scale@.skip(i as int).skip(1) =~= scale@.skip(i + 1));
            }
            i = i + 1;
        } else {
            let start = i;
            let j = word_end(scale, n, start);
            let ghost t = scale@.skip(start as int);
            proof {
                assert forall|k: int| 0 <= k < j - start implies !is_space(#[trigger] t[k]) by {
                    assert(t[k] == scale@[start + k]);
                }
                if j < n {
                    assert(t[j - start] == scale@[j as int]);
                }
                lemma_token_len_run(t, j - start);
                assert(token_len(t) == j - start);
            }
            let word = scale.substring_char(start, j);
            proof {
                assert(word@ =~= t.take(token_len(t) as int));
            }
            match Pitch::parse(word) {
                Some(p) => {
                    proof {
                        assert(parse_pitch(t.take(token_len(t) as int)) == Some(p));
                        assert(t.skip(token_len(t) as int) =~= scale@.skip(j as int));
                        let rest_opt = parse_scale_text(scale@.skip(j as int));
                        if rest_opt is Some {
                            let ps = rest_opt.unwrap();
                            assert(parse_scale_text(t) == Some(seq![p] + ps));
                            assert(result@ + (seq![p] + ps) =~= result@.push(p) + ps);
                        }
                    }
                    result.push(p);
                    i = j;
                },
                None => {
                    proof {
                        assert(parse_scale_text(t) is None);
                    }
                    return None;
                },
            }
        }
    }

    proof {
        assert(scale@.skip(n as int) =~= Seq::<char>::empty());
        assert(parse_scale_text(scale@.skip(n as int)) == Some(Seq::<Pitch>::empty()));
        assert(result@ + Seq::<Pitch>::empty() =~= result@);
    }
    Some(result)
}

} // verus!
