use music_theory::harmonic_minor;
use music_theory::modes;
use music_theory::pitch::Accidental::{Natural, Sharp};
use music_theory::pitch::{Accidental, Pitch, PitchClass};
use music_theory::scale::{Scale, ScaleDegree, ScaleType, scale_from_string};

#[test]
fn compute_scale_test() {
    let a = Pitch::new(PitchClass::A);
    let ionian = ScaleType {
        name: "ionian".to_string(),
        scale_degrees: modes::ionian(),
    };
    let a_ionian = Scale::new(&a, &ionian).unwrap();

    assert_eq!(
        scale_from_string("A1 B1 C#1 D1 E1 F#1 G#1").unwrap(),
        a_ionian.pitches
    );
}

#[test]
fn test_build_scale_ionian() {
    let a1 = Pitch::new(PitchClass::A);
    let pitches = Scale::build_scale(&a1, &modes::ionian()).unwrap();
    let expected = scale_from_string("A1 B1 C#1 D1 E1 F#1 G#1").unwrap();
    assert_eq!(pitches, expected);
    assert_eq!(pitches.len(), 7);
    assert_eq!(pitches[0], a1);
}

#[test]
fn test_build_scale_locrian_letters() {
    let c1 = Pitch::new(PitchClass::C);
    let pitches = Scale::build_scale(&c1, &modes::locrian()).unwrap();
    let expected = scale_from_string("C1 Db1 Eb1 F1 Gb1 Ab1 Bb1").unwrap();
    assert_eq!(pitches, expected);

    let letters: Vec<PitchClass> = pitches.iter().map(|p| p.class).collect();
    assert_eq!(
        letters,
        vec![
            PitchClass::C,
            PitchClass::D,
            PitchClass::E,
            PitchClass::F,
            PitchClass::G,
            PitchClass::A,
            PitchClass::B
        ]
    );
    for i in 0..7 {
        for j in 0..7 {
            if i != j {
                assert_ne!(pitches[i].class, pitches[j].class);
            }
        }
    }
}

#[test]
fn test_build_scale_error_index() {
    let bx1 = Pitch::parse("Bx1").unwrap();
    let err = Scale::build_scale(&bx1, &modes::ionian()).unwrap_err();
    assert_eq!(err.degree_index, 1);
    assert_eq!(err.spelling.source, bx1);
    assert_eq!(err.spelling.target, PitchClass::C);
    assert_eq!(err.spelling.difference, 3);
}

#[test]
fn test_to_numeric_degrees() {
    let degrees = modes::dorian();
    let nd = Scale::to_numeric_degrees(&degrees);
    assert_eq!(nd, vec![0, 2, 3, 5, 7, 9, 10]);
    let empty: Vec<ScaleDegree> = vec![];
    assert_eq!(Scale::to_numeric_degrees(&empty), vec![0]);
}

#[test]
fn test_from_pitch_string() {
    let ionian = ScaleType {
        name: "ionian".to_string(),
        scale_degrees: modes::ionian(),
    };
    let scale = Scale::from_pitch_string("E2", &ionian).unwrap();
    assert_eq!(scale.root_note, Pitch::parse("E2").unwrap());
    assert_eq!(
        scale.pitches,
        scale_from_string("E2 F#2 G#2 A2 B2 C#2 D#2").unwrap()
    );
    assert!(Scale::from_pitch_string("X2", &ionian).is_none());
    assert!(Scale::from_pitch_string("E255", &ionian).is_none());
}

#[test]
fn test_scale_from_string_failures() {
    assert!(scale_from_string("A1 B").is_none());
    assert!(scale_from_string("A1 H1").is_none());
    assert_eq!(scale_from_string("").unwrap(), vec![]);
    assert_eq!(
        scale_from_string("  A1   B1  ").unwrap(),
        vec![Pitch::parse("A1").unwrap(), Pitch::parse("B1").unwrap()]
    );
}

#[test]
fn test_mode_registry() {
    let mut registry = modes::ModeRegistry::new();
    modes::init_modes(&mut registry);
    let dorian = registry.get("dorian").unwrap();
    assert_eq!(dorian.name, "dorian");
    assert_eq!(dorian.scale_degrees, modes::dorian());
    assert!(registry.get("unknown").is_none());
    assert!(registry.get("ionian").is_some());
    assert!(registry.get("locrian").is_some());
}

#[test]
fn test_all_modes_of_e2() {
    let mut registry = modes::ModeRegistry::new();
    modes::init_modes(&mut registry);
    let names = vec![
        "ionian",
        "dorian",
        "phrygian",
        "lydian",
        "mixolydian",
        "aeolian",
        "locrian",
    ];
    for name in names {
        let scale_type = registry.get(name).unwrap();
        let scale = Scale::from_pitch_string("E2", scale_type).unwrap();
        assert_eq!(scale.pitches.len(), 7);
        assert_eq!(scale.pitches[0], Pitch::parse("E2").unwrap());
    }
}

#[test]
fn test_octave_step_above_tonic() {
    let sharp_seven =
        modes::seven_degrees(Natural, Natural, Natural, Natural, Natural, Natural, Sharp);
    let b1 = Pitch::new(PitchClass::B);
    let pitches = Scale::build_scale(&b1, &sharp_seven).unwrap();
    let expected = scale_from_string("B1 C#1 D#1 E1 F#1 G#1 A𝄪2").unwrap();
    assert_eq!(pitches, expected);
}

#[test]
fn test_scale_degree_text() {
    let d = ScaleDegree {
        degree: 3,
        modifier: Accidental::Flat,
    };
    assert_eq!(d.to_text(), "3b");
    let n = ScaleDegree {
        degree: 7,
        modifier: Accidental::Natural,
    };
    assert_eq!(n.to_text(), "7");
}

#[test]
fn test_scale_text() {
    let a = Pitch::new(PitchClass::A);
    let ionian = ScaleType {
        name: "ionian".to_string(),
        scale_degrees: modes::ionian(),
    };
    let a_ionian = Scale::new(&a, &ionian).unwrap();
    assert_eq!(
        a_ionian.to_text(),
        "A1 ionian - A1 B1 C#1 D1 E1 F#1 G#1  - 1 2 3 4 5 6 7 "
    );
}

#[test]
fn test_harmonic_minor_modes() {
    let a1 = Pitch::new(PitchClass::A);
    let pitches = Scale::build_scale(&a1, &harmonic_minor::aeolian_harmonic()).unwrap();
    let expected = scale_from_string("A1 B1 C1 D1 E1 F1 G#1").unwrap();
    assert_eq!(pitches, expected);

    let c1 = Pitch::new(PitchClass::C);
    let phrygian_dominant = Scale::build_scale(&c1, &harmonic_minor::phrygian_dominant()).unwrap();
    let expected_pd = scale_from_string("C1 Db1 E1 F1 G1 Ab1 Bb1").unwrap();
    assert_eq!(phrygian_dominant, expected_pd);
}
