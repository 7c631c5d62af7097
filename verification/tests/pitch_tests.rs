use music_theory::pitch::{Accidental, Pitch, PitchClass};

#[test]
fn test_pitch_from_str() {
    assert_eq!(
        Pitch::parse("C4"),
        Some(Pitch {
            class: PitchClass::C,
            accidental: Accidental::Natural,
            octave: 4
        })
    );
    assert_eq!(
        Pitch::parse("D#5"),
        Some(Pitch {
            class: PitchClass::D,
            accidental: Accidental::Sharp,
            octave: 5
        })
    );
    assert_eq!(
        Pitch::parse("E𝄫3"),
        Some(Pitch {
            class: PitchClass::E,
            accidental: Accidental::DoubleFlat,
            octave: 3
        })
    );
    assert_eq!(
        Pitch::parse("Bb3"),
        Some(Pitch {
            class: PitchClass::B,
            accidental: Accidental::Flat,
            octave: 3
        })
    );
    assert_eq!(
        Pitch::parse("F#2"),
        Some(Pitch {
            class: PitchClass::F,
            accidental: Accidental::Sharp,
            octave: 2
        })
    );
    assert_eq!(
        Pitch::parse("Gx6"),
        Some(Pitch {
            class: PitchClass::G,
            accidental: Accidental::DoubleSharp,
            octave: 6
        })
    );
    assert_eq!(
        Pitch::parse("A7"),
        Some(Pitch {
            class: PitchClass::A,
            accidental: Accidental::Natural,
            octave: 7
        })
    );
    assert_eq!(Pitch::parse("D#"), None);
}

#[test]
fn test_raise_by_half_note() {
    let pairs = vec![
        ("C3", "Db3", 1),
        ("C#3", "D3", 1),
        ("Db3", "E𝄫3", 1),
        ("D3", "Eb3", 1),
        ("D#3", "E3", 1),
        ("Eb3", "Fb3", 1),
        ("E3", "F3", 1),
        ("Fb3", "G𝄫3", 1),
        ("F3", "Gb3", 1),
        ("F#3", "G3", 1),
    ];

    for (base, raised, halves) in pairs {
        assert_eq!(
            Pitch::parse(raised).unwrap(),
            Pitch::parse(base).unwrap().build_next(halves).unwrap(),
            "{base:?} raised by half to get {raised:?}"
        );
    }
}

#[test]
fn test_parse_edge_cases() {
    assert_eq!(Pitch::parse(""), None);
    assert_eq!(Pitch::parse("C"), None);
    assert_eq!(Pitch::parse("H4"), None);
    assert_eq!(Pitch::parse("c4"), None);
    assert_eq!(Pitch::parse("C#"), None);
    assert_eq!(Pitch::parse("Cb"), None);
    assert_eq!(Pitch::parse("C+4"), None);
    assert_eq!(Pitch::parse("C4 "), None);
    assert_eq!(
        Pitch::parse("Cn4"),
        Some(Pitch {
            class: PitchClass::C,
            accidental: Accidental::Natural,
            octave: 4
        })
    );
    assert_eq!(
        Pitch::parse("C0004"),
        Some(Pitch {
            class: PitchClass::C,
            accidental: Accidental::Natural,
            octave: 4
        })
    );
    assert_eq!(
        Pitch::parse("C255"),
        Some(Pitch {
            class: PitchClass::C,
            accidental: Accidental::Natural,
            octave: 255
        })
    );
    assert_eq!(Pitch::parse("C256"), None);
    assert_eq!(Pitch::parse("C99999999999999999999"), None);
    assert_eq!(
        Pitch::parse("E𝄪3"),
        Some(Pitch {
            class: PitchClass::E,
            accidental: Accidental::DoubleSharp,
            octave: 3
        })
    );
}

#[test]
fn test_octave_rollover() {
    let b1 = Pitch {
        class: PitchClass::B,
        accidental: Accidental::Natural,
        octave: 1,
    };
    assert_eq!(
        b1.build_next(1).unwrap(),
        Pitch {
            class: PitchClass::C,
            accidental: Accidental::Natural,
            octave: 2
        }
    );

    let a1 = Pitch {
        class: PitchClass::A,
        accidental: Accidental::Natural,
        octave: 1,
    };
    assert_eq!(
        a1.build_next(2).unwrap(),
        Pitch {
            class: PitchClass::B,
            accidental: Accidental::Natural,
            octave: 1
        }
    );
}

#[test]
fn test_invalid_spelling_error() {
    let c3 = Pitch {
        class: PitchClass::C,
        accidental: Accidental::Natural,
        octave: 3,
    };
    let err = c3.build_next(-2).unwrap_err();
    assert_eq!(err.source, c3);
    assert_eq!(err.target, PitchClass::D);
    assert_eq!(err.difference, -4);
}

#[test]
fn test_to_numeric_scale_degree() {
    let ds5 = Pitch::parse("D#5").unwrap();
    assert_eq!(ds5.to_numeric_scale_degree(), 3);
    let cbb = Pitch::parse("C𝄫1").unwrap();
    assert_eq!(cbb.to_numeric_scale_degree(), -2);
    let bx = Pitch::parse("Bx2").unwrap();
    assert_eq!(bx.to_numeric_scale_degree(), 13);
}

#[test]
fn test_same_tone_and_same_pitch() {
    let cs4 = Pitch::parse("C#4").unwrap();
    let db4 = Pitch::parse("Db4").unwrap();
    assert!(cs4.same_tone(&db4));
    assert!(cs4.same_pitch(&db4));

    let db5 = Pitch::parse("Db5").unwrap();
    assert!(cs4.same_tone(&db5));
    assert!(!cs4.same_pitch(&db5));

    let bs1 = Pitch::parse("B#1").unwrap();
    let c1 = Pitch::parse("C1").unwrap();
    assert!(bs1.same_tone(&c1));

    let d4 = Pitch::parse("D4").unwrap();
    assert!(!cs4.same_tone(&d4));
}

#[test]
fn test_next_pitch_class() {
    assert_eq!(PitchClass::C.next(), PitchClass::D);
    assert_eq!(PitchClass::E.next(), PitchClass::F);
    assert_eq!(PitchClass::B.next(), PitchClass::C);
}

#[test]
fn test_has_pitch_class() {
    let pitches = vec![
        Pitch::parse("C1").unwrap(),
        Pitch::parse("Eb1").unwrap(),
        Pitch::parse("G1").unwrap(),
    ];
    assert!(Pitch::has_pitch_class(&pitches, PitchClass::E));
    assert!(!Pitch::has_pitch_class(&pitches, PitchClass::B));
    assert!(!Pitch::has_pitch_class(&[], PitchClass::C));
}

#[test]
fn test_format_round_trip() {
    let p = Pitch {
        class: PitchClass::G,
        accidental: Accidental::DoubleSharp,
        octave: 6,
    };
    let text = p.to_text();
    assert_eq!(text, "G𝄪6");
    assert_eq!(Pitch::parse(&text), Some(p));

    let gx6 = Pitch::parse("Gx6").unwrap();
    assert_eq!(gx6.to_text(), "G𝄪6");

    let all = vec![
        Accidental::DoubleFlat,
        Accidental::Flat,
        Accidental::Natural,
        Accidental::Sharp,
        Accidental::DoubleSharp,
    ];
    for accidental in all {
        let q = Pitch {
            class: PitchClass::D,
            accidental,
            octave: 12,
        };
        assert_eq!(Pitch::parse(&q.to_text()), Some(q));
    }
}

#[test]
fn test_format_texts() {
    assert_eq!(Pitch::parse("C𝄫0").unwrap().to_text(), "C𝄫0");
    assert_eq!(Pitch::parse("Bb3").unwrap().to_text(), "Bb3");
    assert_eq!(Pitch::parse("A7").unwrap().to_text(), "A7");
    assert_eq!(Pitch::parse("F#255").unwrap().to_text(), "F#255");
    assert_eq!(Pitch::parse("Cn4").unwrap().to_text(), "C4");
}

#[test]
fn test_format_is_pure() {
    let p = Pitch::parse("Eb2").unwrap();
    let first = p.to_text();
    let second = p.to_text();
    assert_eq!(first, second);
    assert_eq!(p, Pitch::parse("Eb2").unwrap());
}
