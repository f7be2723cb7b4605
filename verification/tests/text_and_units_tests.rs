use bibber::text::{lines_of, str_eq, words_of};
use bibber::units::{
    length_unit_of, temperature_unit_of, time_unit_of, LengthUnit, TemperatureUnit, TimeUnit,
};

#[test]
fn str_eq_compares_contents() {
    assert!(str_eq("abc", "abc"));
    assert!(!str_eq("abc", "abd"));
    assert!(!str_eq("abc", "ab"));
    assert!(str_eq("", ""));
}

#[test]
fn lines_split_and_strip_carriage_returns() {
    assert_eq!(lines_of(""), Vec::<String>::new());
    assert_eq!(lines_of("a"), vec!["a"]);
    assert_eq!(lines_of("a\nb"), vec!["a", "b"]);
    assert_eq!(lines_of("a\nb\n"), vec!["a", "b"]);
    assert_eq!(lines_of("a\r\nb\r\n"), vec!["a", "b"]);
    assert_eq!(lines_of("a\n\nb"), vec!["a", "", "b"]);
    // A carriage return not before a line feed stays.
    assert_eq!(lines_of("a\rb"), vec!["a\rb"]);
}

#[test]
fn words_split_on_ascii_whitespace() {
    assert_eq!(words_of(""), Vec::<String>::new());
    assert_eq!(words_of("   "), Vec::<String>::new());
    assert_eq!(words_of("a"), vec!["a"]);
    assert_eq!(words_of("  a  bb\tc "), vec!["a", "bb", "c"]);
}

#[test]
fn time_units_are_recognised() {
    assert_eq!(time_unit_of("s"), Some(TimeUnit::Seconds));
    assert_eq!(time_unit_of("ms"), Some(TimeUnit::Milliseconds));
    assert_eq!(time_unit_of("us"), Some(TimeUnit::Microseconds));
    assert_eq!(time_unit_of("ns"), Some(TimeUnit::Nanoseconds));
    assert_eq!(time_unit_of("ps"), Some(TimeUnit::Picoseconds));
    assert_eq!(time_unit_of("fs"), Some(TimeUnit::Femtoseconds));
    assert_eq!(time_unit_of("m"), None);
    assert_eq!(time_unit_of("S"), None);
}

#[test]
fn length_units_are_recognised() {
    assert_eq!(length_unit_of("km"), Some(LengthUnit::Kilometres));
    assert_eq!(length_unit_of("m"), Some(LengthUnit::Metres));
    assert_eq!(length_unit_of("dm"), Some(LengthUnit::Decimetres));
    assert_eq!(length_unit_of("cm"), Some(LengthUnit::Centimetres));
    assert_eq!(length_unit_of("mm"), Some(LengthUnit::Millimetres));
    assert_eq!(length_unit_of("um"), Some(LengthUnit::Micrometres));
    assert_eq!(length_unit_of("nm"), Some(LengthUnit::Nanometres));
    assert_eq!(length_unit_of("pm"), Some(LengthUnit::Picometres));
    assert_eq!(length_unit_of("fm"), Some(LengthUnit::Femtometres));
    assert_eq!(length_unit_of("s"), None);
}

#[test]
fn temperature_units_are_recognised() {
    assert_eq!(temperature_unit_of("K"), Some(TemperatureUnit::Kelvin));
    assert_eq!(temperature_unit_of("C"), Some(TemperatureUnit::Celsius));
    assert_eq!(temperature_unit_of("k"), None);
}

#[test]
fn unit_scale_exponents() {
    assert_eq!(TimeUnit::Seconds.exponent(), 0);
    assert_eq!(TimeUnit::Milliseconds.exponent(), -3);
    assert_eq!(TimeUnit::Microseconds.exponent(), -6);
    assert_eq!(TimeUnit::Nanoseconds.exponent(), -9);
    assert_eq!(TimeUnit::Picoseconds.exponent(), -12);
    assert_eq!(TimeUnit::Femtoseconds.exponent(), -15);
    assert_eq!(LengthUnit::Kilometres.exponent(), 3);
    assert_eq!(LengthUnit::Metres.exponent(), 0);
    assert_eq!(LengthUnit::Nanometres.exponent(), -9);
    assert_eq!(LengthUnit::Femtometres.exponent(), -15);
    // The offset is added to reach Kelvin: zero Celsius is 273.15 Kelvin.
    assert_eq!(TemperatureUnit::Kelvin.offset_centikelvin(), 0);
    assert_eq!(TemperatureUnit::Celsius.offset_centikelvin(), 27315);
}

#[test]
fn unit_tokens_round_trip_through_recognition() {
    // The executable face of the round-trip law proved in the units module.
    for (token, unit) in [
        ("s", TimeUnit::Seconds),
        ("ms", TimeUnit::Milliseconds),
        ("us", TimeUnit::Microseconds),
        ("ns", TimeUnit::Nanoseconds),
        ("ps", TimeUnit::Picoseconds),
        ("fs", TimeUnit::Femtoseconds),
    ] {
        assert_eq!(time_unit_of(token), Some(unit));
    }
}
