//! The compact textual form of a pitch: `<letter><accidental><octave>`.
//!
//! A letter is one of `A`..`G`; the accidental is empty for natural, `b`,
//! `#`, the double-flat or double-sharp glyph, or (accepted when reading
//! only) `x` for double-sharp and `n` for an explicit natural; the octave
//! is a non-empty run of decimal digits.  Reading fails on an unknown
//! letter, a missing or malformed octave, or an octave above 255.

use vstd::prelude::*;
use vstd::string::*;
use crate::pitch::{Accidental, Pitch, PitchClass};

verus! {

/// The letter a pitch text may start with.
pub open spec fn letter_of_char(c: char) -> Option<PitchClass> {
    if c == 'C' {
        Some(PitchClass::C)
    } else if c == 'D' {
        Some(PitchClass::D)
    } else if c == 'E' {
        Some(PitchClass::E)
    } else if c == 'F' {
        Some(PitchClass::F)
    } else if c == 'G' {
        Some(PitchClass::G)
    } else if c == 'A' {
        Some(PitchClass::A)
    } else if c == 'B' {
        Some(PitchClass::B)
    } else {
        None
    }
}

/// The letter a pitch class is written as.
pub open spec fn letter_char(c: PitchClass) -> char {
    match c {
        PitchClass::C => 'C',
        PitchClass::D => 'D',
        PitchClass::E => 'E',
        PitchClass::F => 'F',
        PitchClass::G => 'G',
        PitchClass::A => 'A',
        PitchClass::B => 'B',
    }
}

/// Characters accepted as an accidental mark when reading.
pub open spec fn is_accidental_char(c: char) -> bool {
    c == '\u{1D12B}' || c == 'b' || c == '#' || c == 'x' || c == 'n' || c == '\u{1D12A}'
}

/// The accidental an accepted mark denotes.
pub open spec fn accidental_of_char(c: char) -> Accidental {
    if c == '\u{1D12B}' {
        Accidental::DoubleFlat
    } else if c == 'b' {
        Accidental::Flat
    } else if c == '#' {
        Accidental::Sharp
    } else if c == 'x' || c == '\u{1D12A}' {
        Accidental::DoubleSharp
    } else {
        Accidental::Natural
    }
}

/// The characters an accidental is written as: empty for natural, one
/// mark otherwise, with distinct glyphs for double flat and double sharp.
pub open spec fn accidental_chars(a: Accidental) -> Seq<char> {
    match a {
        Accidental::DoubleFlat => seq!['\u{1D12B}'],
        Accidental::Flat => seq!['b'],
        Accidental::Natural => Seq::<char>::empty(),
        Accidental::Sharp => seq!['#'],
        Accidental::DoubleSharp => seq!['\u{1D12A}'],
    }
}

/// A decimal digit.
pub open spec fn is_digit(c: char) -> bool {
    48 <= c as u32 <= 57
}

/// The value of a decimal digit character.
pub open spec fn digit_val(c: char) -> int {
    c as u32 - 48
}

/// The character of a decimal digit value in 0..=9.
pub open spec fn digit_char(d: int) -> char {
    if d == 0 {
        '0'
    } else if d == 1 {
        '1'
    } else if d == 2 {
        '2'
    } else if d == 3 {
        '3'
    } else if d == 4 {
        '4'
    } else if d == 5 {
        '5'
    } else if d == 6 {
        '6'
    } else if d == 7 {
        '7'
    } else if d == 8 {
        '8'
    } else {
        '9'
    }
}

/// Every character of the sequence is a decimal digit.
pub open spec fn all_digits(s: Seq<char>) -> bool {
    forall|i: int| 0 <= i < s.len() ==> is_digit(#[trigger] s[i])
}

/// The number a run of decimal digits denotes, most significant first.
pub open spec fn digits_val(s: Seq<char>) -> int
    decreases s.len(),
{
    if s.len() == 0 {
        0
    } else {
        digits_val(s.drop_last()) * 10 + digit_val(s.last())
    }
}

/// The shortest decimal writing of a non-negative number.
pub open spec fn dec_rep(n: int) -> Seq<char>
    decreases n,
{
    if n < 10 {
        seq![digit_char(n)]
    } else {
        dec_rep(n / 10) + seq![digit_char(n % 10)]
    }
}

/// The textual form of a pitch: letter, accidental mark, octave digits.
pub open spec fn format_pitch(p: Pitch) -> Seq<char> {
    seq![letter_char(p.class)] + accidental_chars(p.accidental) + dec_rep(p.octave as int)
}

/// The pitch a character sequence denotes, if any: a letter, then an
/// optional accidental mark, then a non-empty run of digits whose value
/// fits in an octave number.
pub open spec fn parse_pitch(s: Seq<char>) -> Option<Pitch> {
    if s.len() == 0 {
        None
    } else {
        match letter_of_char(s[0]) {
            None => None,
            Some(class) => {
                let marked = s.len() >= 2 && is_accidental_char(s[1]);
                let accidental = if marked {
                    accidental_of_char(s[1])
                } else {
                    Accidental::Natural
                };
                let rest = if marked {
                    s.skip(2)
                } else {
                    s.skip(1)
                };
                if rest.len() > 0 && all_digits(rest) && digits_val(rest) <= 255 {
                    Some(Pitch { class, accidental, octave: digits_val(rest) as u8 })
                } else {
                    None
                }
            },
        }
    }
}

/// The decimal writing of a number in 0..=255 is a non-empty digit run
/// denoting that number again.
pub proof fn lemma_dec_rep(n: int)
    requires
        0 <= n,
    ensures
        dec_rep(n).len() >= 1,
        all_digits(dec_rep(n)),
        digits_val(dec_rep(n)) == n,
    decreases n,
{
    if n < 10 {
        let d = dec_rep(n);
        assert(d =~= seq![digit_char(n)]);
        assert(is_digit(digit_char(n)));
        assert(d.drop_last() =~= Seq::<char>::empty());
        assert(d.last() == digit_char(n));
        assert(digits_val(d) == digits_val(d.drop_last()) * 10 + digit_val(d.last()));
        assert(digits_val(d.drop_last()) == 0);
        assert(digit_val(digit_char(n)) == n);
    } else {
        lemma_dec_rep(n / 10);
        let d = dec_rep(n);
        assert(d == dec_rep(n / 10) + seq![digit_char(n % 10)]);
        assert(d.drop_last() =~= dec_rep(n / 10));
        assert(d.last() == digit_char(n % 10));
        assert(is_digit(digit_char(n % 10)));
        assert(digit_val(digit_char(n % 10)) == n % 10);
        assert(all_digits(d));
        assert(digits_val(d) == (n / 10) * 10 + n % 10);
        assert((n / 10) * 10 + n % 10 == n) by {
            vstd::arithmetic::div_mod::lemma_fundamental_div_mod(n, 10);
        }
    }
}

/// Whether two texts read the same, character for character.
pub fn str_eq(a: &str, b: &str) -> (r: bool)
    ensures
        r == (a@ == b@),
{
    let na = a.unicode_len();
    let nb = b.unicode_len();
    if na != nb {
        return false;
    }
    let mut i: usize = 0;
    #[verifier::loop_isolation(false)]
    while i < na
        invariant
            0 <= i <= na,
            forall|k: int| 0 <= k < i ==> a@[k] == b@[k],
        decreases na - i,
    {
        if a.get_char(i) != b.get_char(i) {
            return false;
        }
        i = i + 1;
    }
    proof {
        assert(a@ =~= b@);
    }
    true
}

/// A blank character separating pitch words in a scale text.
pub open spec fn is_space(c: char) -> bool {
    c == ' ' || c == '\t' || c == '\n' || c == '\r'
}

/// Length of the leading run of non-blank characters.
pub open spec fn token_len(s: Seq<char>) -> nat
    decreases s.len(),
{
    if s.len() == 0 || is_space(s[0]) {
        0
    } else {
        (1 + token_len(s.skip(1))) as nat
    }
}

/// The leading token never runs past the end of the sequence.
pub proof fn lemma_token_len_le(s: Seq<char>)
    ensures
        token_len(s) <= s.len(),
    decreases s.len(),
{
    if s.len() > 0 && !is_space(s[0]) {
        lemma_token_len_le(s.skip(1));
    }
}

/// A run of `m` non-blank characters ending at a blank or at the end of
/// the sequence is exactly the leading token.
pub proof fn lemma_token_len_run(s: Seq<char>, m: int)
    requires
        0 <= m <= s.len(),
        forall|k: int| 0 <= k < m ==> !is_space(#[trigger] s[k]),
        m == s.len() || is_space(s[m]),
    ensures
        token_len(s) == m,
    decreases m,
{
    if m == 0 {
    } else {
        assert(!is_space(s[0]));
        let t = s.skip(1);
        assert forall|k: int| 0 <= k < m - 1 implies !is_space(#[trigger] t[k]) by {
            assert(t[k] == s[k + 1]);
        }
        if m < s.len() {
            assert(t[m - 1] == s[m]);
        }
        lemma_token_len_run(t, m - 1);
    }
}

/// The pitches a blank-separated scale text denotes: each maximal run of
/// non-blank characters must denote a pitch; one failing word fails the
/// whole reading.
pub open spec fn parse_scale_text(s: Seq<char>) -> Option<Seq<Pitch>>
    decreases s.len(),
    via parse_scale_text_decreases
{
    if s.len() == 0 {
        Some(Seq::<Pitch>::empty())
    } else if is_space(s[0]) {
        parse_scale_text(s.skip(1))
    } else {
        match parse_pitch(s.take(token_len(s) as int)) {
            Some(p) => match parse_scale_text(s.skip(token_len(s) as int)) {
                Some(ps) => Some(seq![p] + ps),
                None => None,
            },
            None => None,
        }
    }
}

#[via_fn]
proof fn parse_scale_text_decreases(s: Seq<char>) {
    if s.len() > 0 && !is_space(s[0]) {
        lemma_token_len_le(s);
    }
}

/// A digit character is never an accidental mark.
proof fn lemma_digit_not_accidental(c: char)
    requires
        is_digit(c),
    ensures
        !is_accidental_char(c),
{
}

/// Writing a pitch and reading the text back yields the same pitch, for
/// every letter, every accidental kind and every octave.
pub proof fn lemma_format_parse_round_trip(p: Pitch)
    ensures
        parse_pitch(format_pitch(p)) == Some(p),
{
    let f = format_pitch(p);
    let oct = dec_rep(p.octave as int);
    lemma_dec_rep(p.octave as int);
    assert(f[0] == letter_char(p.class));
    assert(letter_of_char(letter_char(p.class)) == Some(p.class));
    if p.accidental == Accidental::Natural {
        assert(f =~= seq![letter_char(p.class)] + oct);
        assert(f.len() >= 2);
        assert(f[1] == oct[0]);
        assert(is_digit(oct[0]));
        lemma_digit_not_accidental(oct[0]);
        assert(!is_accidental_char(f[1]));
        assert(f.skip(1) =~= oct);
        assert(digits_val(oct) == p.octave);
        assert(parse_pitch(f) == Some(p));
    } else {
        assert(accidental_chars(p.accidental).len() == 1);
        let g = accidental_chars(p.accidental)[0];
        assert(f =~= seq![letter_char(p.class)] + seq![g] + oct);
        assert(f.len() >= 3);
        assert(f[1] == g);
        assert(is_accidental_char(g));
        assert(accidental_of_char(g) == p.accidental);
        assert(f.skip(2) =~= oct);
        assert(digits_val(oct) == p.octave);
        assert(parse_pitch(f) == Some(p));
    }
}

impl PitchClass {
    /// The letter as text.
    pub fn letter_text(&self) -> (r: &'static str)
        ensures
            r@ == seq![letter_char(*self)],
    {
        proof {
            reveal_strlit("C");
            reveal_strlit("D");
            reveal_strlit("E");
            reveal_strlit("F");
            reveal_strlit("G");
            reveal_strlit("A");
            reveal_strlit("B");
        }
        let r = match self {
            PitchClass::C => "C",
            PitchClass::D => "D",
            PitchClass::E => "E",
            PitchClass::F => "F",
            PitchClass::G => "G",
            PitchClass::A => "A",
            PitchClass::B => "B",
        };
        proof {
            assert(r@ =~= seq![letter_char(*self)]);
        }
        r
    }
}

impl Accidental {
    /// The accidental's mark as text: empty for natural, distinct glyphs
    /// for double flat and double sharp.
    pub fn glyph_text(&self) -> (r: &'static str)
        ensures
            r@ == accidental_chars(*self),
    {
        proof {
            reveal_strlit("\u{1D12B}");
            reveal_strlit("b");
            reveal_strlit("");
            reveal_strlit("#");
            reveal_strlit("\u{1D12A}");
        }
        let r = match self {
            Accidental::DoubleFlat => "\u{1D12B}",
            Accidental::Flat => "b",
            Accidental::Natural => "",
            Accidental::Sharp => "#",
            Accidental::DoubleSharp => "\u{1D12A}",
        };
        proof {
            assert(r@ =~= accidental_chars(*self));
        }
        r
    }
}

/// The digit character of a value in 0..=9, as text.
fn digit_text(d: u8) -> (r: &'static str)
    requires
        d < 10,
    ensures
        r@ == seq![digit_char(d as int)],
{
    proof {
        reveal_strlit("0");
        reveal_strlit("1");
        reveal_strlit("2");
        reveal_strlit("3");
        reveal_strlit("4");
        reveal_strlit("5");
        reveal_strlit("6");
        reveal_strlit("7");
        reveal_strlit("8");
        reveal_strlit("9");
    }
    let r = if d == 0 {
        "0"
    } else if d == 1 {
        "1"
    } else if d == 2 {
        "2"
    } else if d == 3 {
        "3"
    } else if d == 4 {
        "4"
    } else if d == 5 {
        "5"
    } else if d == 6 {
        "6"
    } else if d == 7 {
        "7"
    } else if d == 8 {
        "8"
    } else {
        "9"
    };
    proof {
        assert(r@ =~= seq![digit_char(d as int)]);
    }
    r
}

/// The shortest decimal writing of a small number.
pub fn number_text(n: u8) -> (r: String)
    ensures
        r@ == dec_rep(n as int),
{
    if n < 10 {
        let r = String::from_str(digit_text(n));
        assert(r@ =~= dec_rep(n as int));
        r
    } else if n < 100 {
        let mut r = String::from_str(digit_text(n / 10));
        r.append(digit_text(n % 10));
        proof {
            assert(dec_rep((n as int) / 10) =~= seq![digit_char((n as int) / 10)]);
            assert(r@ =~= dec_rep(n as int));
        }
        r
    } else {
        let mut r = String::from_str(digit_text(n / 100));
        r.append(digit_text((n / 10) % 10));
        r.append(digit_text(n % 10));
        proof {
            let m = n as int;
            assert(m / 10 / 10 == m / 100) by {
                vstd::arithmetic::div_mod::lemma_div_denominator(m, 10, 10);
            }
            assert(dec_rep(m / 10) =~= dec_rep(m / 100) + seq![digit_char(m / 10 % 10)]);
            assert(dec_rep(m / 100) =~= seq![digit_char(m / 100)]);
            assert(r@ =~= dec_rep(m));
        }
        r
    }
}

impl Pitch {
    /// Write the pitch in its compact textual form:
    /// letter, accidental mark, octave digits.
    pub fn to_text(&self) -> (r: String)
        ensures
            r@ == format_pitch(*self),
    {
        let mut r = String::from_str(self.class.letter_text());
        r.append(self.accidental.glyph_text());
        let octave = number_text(self.octave);
        r.append(octave.as_str());
        proof {
            assert(r@ =~= format_pitch(*self));
        }
        r
    }

    /// Read a pitch from its compact textual form.  Returns `None` on an
    /// unknown letter, a missing or malformed octave run, or an octave
    /// value above 255.
    pub fn parse(s: &str) -> (r: Option<Self>)
        ensures
            r == parse_pitch(s@),
    {
        let n = s.unicode_len();
        if n == 0 {
            return None;
        }

        let c0 = s.get_char(0);
        let class = if c0 == 'C' {
            PitchClass::C
        } else if c0 == 'D' {
            PitchClass::D
        } else if c0 == 'E' {
            PitchClass::E
        } else if c0 == 'F' {
            PitchClass::F
        } else if c0 == 'G' {
            PitchClass::G
        } else if c0 == 'A' {
            PitchClass::A
        } else if c0 == 'B' {
            PitchClass::B
        } else {
            return None;
        };
        assert(letter_of_char(s@[0]) == Some(class));

        let mut accidental = Accidental::Natural;
        let mut idx: usize = 1;
        if n >= 2 {
            let c1 = s.get_char(1);
            if c1 == '\u{1D12B}' {
                accidental = Accidental::DoubleFlat;
                idx = 2;
            } else if c1 == 'b' {
                accidental = Accidental::Flat;
                idx = 2;
            } else if c1 == '#' {
                accidental = Accidental::Sharp;
                idx = 2;
            } else if c1 == 'x' || c1 == '\u{1D12A}' {
                accidental = Accidental::DoubleSharp;
                idx = 2;
            } else if c1 == 'n' {
                accidental = Accidental::Natural;
                idx = 2;
            }
        }
        let ghost marked = s@.len() >= 2 && is_accidental_char(s@[1]);
        proof {
            assert(idx == 2 <==> marked);
            if marked {
                assert(accidental == accidental_of_char(s@[1]));
            } else {
                assert(accidental == Accidental::Natural);
            }
        }
        let ghost rest = if marked {
            s@.skip(2)
        } else {
            s@.skip(1)
        };
        assert(rest == s@.skip(idx as int));
        assert(rest.len() == n - idx);

        if idx >= n {
            return None;
        }

        let mut value: u32 = 0;
        let mut i: usize = idx;
        #[verifier::loop_isolation(false)]
        while i < n
            invariant
                idx <= i <= n,
                n == s@.len(),
                1 <= idx <= 2,
                rest == s@.skip(idx as int),
                forall|j: int| idx <= j < i ==> is_digit(#[trigger] s@[j]),
                value <= 2559,
                (digits_val(rest.take(i - idx)) <= 255 && value == digits_val(
                    rest.take(i - idx),
                )) || (digits_val(rest.take(i - idx)) > 255 && value > 255),
            decreases n - i,
        {
            let c = s.get_char(i);
            let cu = c as u32;
            if cu < 48 || cu > 57 {
                assert(!is_digit(s@[i as int]));
                assert(rest[i - idx] == s@[i as int]);
                assert(!all_digits(rest));
                return None;
            }
            let d: u32 = cu - 48;

            proof {
                let k = i - idx;
                let t0 = rest.take(k);
                let t1 = rest.take(k + 1);
                assert(t1.drop_last() =~= t0);
                assert(t1.last() == rest[k]);
                assert(rest[k] == s@[i as int]);
                assert(digits_val(t1) == digits_val(t0) * 10 + digit_val(rest[k]));
                assert(digit_val(rest[k]) == d);
            }

            if value <= 255 {
                value = value * 10 + d;
            }

            i = i + 1;
        }

        assert(rest.take(n - idx) =~= rest);
        assert(all_digits(rest));

        if value > 255 {
            return None;
        }
        assert(digits_val(rest) == value);

        Some(Pitch { class, accidental, octave: value as u8 })
    }
}

} // verus!
