use music_theory::interval::Interval;
use music_theory::note::DurationName;

#[test]
fn test_interval_from_number() {
    assert_eq!(Interval::from_number(0), Some(Interval::Unison));
    assert_eq!(Interval::from_number(6), Some(Interval::Tritone));
    assert_eq!(Interval::from_number(12), Some(Interval::Octave));
    assert_eq!(Interval::from_number(13), None);
    assert_eq!(Interval::from_number(255), None);
}

#[test]
fn test_interval_value() {
    assert_eq!(Interval::Unison.value(), 0);
    assert_eq!(Interval::Minor3rd.value(), 3);
    assert_eq!(Interval::Perfect5th.value(), 7);
    assert_eq!(Interval::Octave.value(), 12);
    for v in 0..=12 {
        assert_eq!(Interval::from_number(v).unwrap().value(), v);
    }
}

#[test]
fn test_duration_denominator() {
    assert_eq!(DurationName::Whole.denominator(), 1);
    assert_eq!(DurationName::Quarter.denominator(), 4);
    assert_eq!(DurationName::SixtyFourth.denominator(), 64);
}
