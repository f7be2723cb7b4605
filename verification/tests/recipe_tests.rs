use bibber::recipe::{
    check_arguments_count, parse_arguments, parse_boundary, parse_length, parse_particles,
    parse_single_time, parse_temperature, parse_temperature_value, parse_time, BibberParseError,
    Recipe,
};
use bibber::units::{LengthUnit, TemperatureUnit, TimeUnit};

#[test]
fn full_recipe_parses() {
    let src = "title my cool sim\n\
               start 0:s\n\
               end 1:ns\n\
               timestep 1:fs\n\
               snapshot 10:fs\n\
               temperature 300:K\n\
               particles 2\n\
               boundary cubic 100:nm 100:nm 100:nm\n";
    let r = Recipe::from_string(src.to_string()).unwrap();
    // Collecting the title words into a string concatenates them.
    assert_eq!(r.title, "mycoolsim");
    assert_eq!(r.start.number, "0");
    assert_eq!(r.start.unit, TimeUnit::Seconds);
    assert_eq!(r.end.number, "1");
    assert_eq!(r.end.unit, TimeUnit::Nanoseconds);
    assert_eq!(r.timestep.number, "1");
    assert_eq!(r.timestep.unit, TimeUnit::Femtoseconds);
    assert_eq!(r.snapshot.number, "10");
    assert_eq!(r.snapshot.unit, TimeUnit::Femtoseconds);
    assert_eq!(r.temperature.number, "300");
    assert_eq!(r.temperature.unit, TemperatureUnit::Kelvin);
    assert_eq!(r.particles, 2);
    assert_eq!(r.boundary.x.number, "100");
    assert_eq!(r.boundary.x.unit, LengthUnit::Nanometres);
    assert_eq!(r.boundary.y.number, "100");
    assert_eq!(r.boundary.z.number, "100");
}

#[test]
fn later_lines_overwrite_earlier_ones() {
    let src = "title a\nstart 0:s\nend 1:ns\ntimestep 1:fs\nsnapshot 1:fs\n\
               temperature 300:K\nparticles 2\nboundary cubic 1:m 1:m 1:m\n\
               particles 7\n";
    let r = Recipe::from_string(src.to_string()).unwrap();
    assert_eq!(r.particles, 7);
}

#[test]
fn blank_lines_are_skipped() {
    let src = "\ntitle a\n\nstart 0:s\nend 1:ns\ntimestep 1:fs\nsnapshot 1:fs\n\
               temperature 300:K\n\nparticles 2\nboundary cubic 1:m 1:m 1:m\n\n";
    assert!(Recipe::from_string(src.to_string()).is_ok());
}

#[test]
fn crlf_line_endings_parse() {
    let src = "title a\r\nstart 0:s\r\nend 1:ns\r\ntimestep 1:fs\r\nsnapshot 1:fs\r\n\
               temperature 300:K\r\nparticles 2\r\nboundary cubic 1:m 1:m 1:m\r\n";
    assert!(Recipe::from_string(src.to_string()).is_ok());
}

#[test]
fn unknown_key_is_reported() {
    let r = Recipe::from_string("wibble 3\n".to_string());
    assert_eq!(r.unwrap_err(), BibberParseError::UnknownKey);
}

#[test]
fn missing_key_is_reported() {
    let r = Recipe::from_string("title only\n".to_string());
    assert_eq!(r.unwrap_err(), BibberParseError::MissingKey);
}

#[test]
fn empty_recipe_is_missing_keys() {
    let r = Recipe::from_string(String::new());
    assert_eq!(r.unwrap_err(), BibberParseError::MissingKey);
}

#[test]
fn first_bad_line_decides_the_error() {
    let r = Recipe::from_string("start 5:xx\nwibble\n".to_string());
    assert_eq!(r.unwrap_err(), BibberParseError::UnknownUnit);
}

#[test]
fn check_arguments_count_exact() {
    assert!(check_arguments_count(&["a", "b"], 2).is_ok());
    assert_eq!(
        check_arguments_count(&["a"], 2).unwrap_err(),
        BibberParseError::TooFewArguments
    );
    assert_eq!(
        check_arguments_count(&["a", "b", "c"], 2).unwrap_err(),
        BibberParseError::TooManyArguments
    );
}

#[test]
fn parse_arguments_keeps_words() {
    let v = parse_arguments(vec!["a", "bb"], 2).unwrap();
    assert_eq!(v, vec!["a".to_string(), "bb".to_string()]);
    assert_eq!(
        parse_arguments(vec!["a"], 2).unwrap_err(),
        BibberParseError::TooFewArguments
    );
}

#[test]
fn parse_time_units() {
    let q = parse_time("2.5:ps").unwrap();
    assert_eq!(q.number, "2.5");
    assert_eq!(q.unit, TimeUnit::Picoseconds);
    assert_eq!(parse_time("5").unwrap_err(), BibberParseError::NoUnit);
    assert_eq!(parse_time("5:").unwrap_err(), BibberParseError::NoUnit);
    assert_eq!(parse_time("5:xx").unwrap_err(), BibberParseError::UnknownUnit);
    assert_eq!(parse_time("5:m").unwrap_err(), BibberParseError::InvalidUnit);
    assert_eq!(parse_time("5:K").unwrap_err(), BibberParseError::InvalidUnit);
    assert_eq!(
        parse_time("abc:s").unwrap_err(),
        BibberParseError::ParseFloatError
    );
}

#[test]
fn number_error_takes_precedence_over_unit_errors() {
    // The number is examined before the unit, as long as a unit suffix exists.
    assert_eq!(
        parse_time("abc:zz").unwrap_err(),
        BibberParseError::ParseFloatError
    );
    assert_eq!(parse_time(":m").unwrap_err(), BibberParseError::ParseFloatError);
}

#[test]
fn parse_length_units() {
    let q = parse_length("5e-10:m").unwrap();
    assert_eq!(q.number, "5e-10");
    assert_eq!(q.unit, LengthUnit::Metres);
    assert_eq!(parse_length("5:s").unwrap_err(), BibberParseError::InvalidUnit);
    assert_eq!(parse_length("5:C").unwrap_err(), BibberParseError::InvalidUnit);
    assert_eq!(parse_length("5:zz").unwrap_err(), BibberParseError::UnknownUnit);
    assert_eq!(parse_length("5").unwrap_err(), BibberParseError::NoUnit);
}

#[test]
fn parse_temperature_units() {
    let q = parse_temperature_value("21.5:C").unwrap();
    assert_eq!(q.number, "21.5");
    assert_eq!(q.unit, TemperatureUnit::Celsius);
    assert_eq!(
        parse_temperature_value("5:fs").unwrap_err(),
        BibberParseError::InvalidUnit
    );
    assert_eq!(
        parse_temperature_value("5:nm").unwrap_err(),
        BibberParseError::InvalidUnit
    );
}

#[test]
fn parse_single_time_argument_counts() {
    assert!(parse_single_time(vec!["1:s"]).is_ok());
    assert_eq!(
        parse_single_time(vec![]).unwrap_err(),
        BibberParseError::TooFewArguments
    );
    assert_eq!(
        parse_single_time(vec!["1:s", "2:s"]).unwrap_err(),
        BibberParseError::TooManyArguments
    );
}

#[test]
fn parse_temperature_argument_counts() {
    assert!(parse_temperature(vec!["300:K"]).is_ok());
    assert_eq!(
        parse_temperature(vec![]).unwrap_err(),
        BibberParseError::TooFewArguments
    );
}

#[test]
fn parse_boundary_shape_and_lengths() {
    let b = parse_boundary(vec!["cubic", "100:nm", "2:m", "3:km"]).unwrap();
    assert_eq!(b.x.number, "100");
    assert_eq!(b.x.unit, LengthUnit::Nanometres);
    assert_eq!(b.y.unit, LengthUnit::Metres);
    assert_eq!(b.z.unit, LengthUnit::Kilometres);
    assert_eq!(
        parse_boundary(vec!["cubic", "1:m", "1:m"]).unwrap_err(),
        BibberParseError::TooFewArguments
    );
    assert_eq!(
        parse_boundary(vec!["cubic", "1:m", "1:m", "1:m", "1:m"]).unwrap_err(),
        BibberParseError::TooManyArguments
    );
    assert_eq!(
        parse_boundary(vec!["cubic", "1:s", "1:m", "1:m"]).unwrap_err(),
        BibberParseError::InvalidUnit
    );
}

#[test]
fn parse_particles_counts() {
    assert_eq!(parse_particles(vec!["100"]).unwrap(), 100);
    assert_eq!(parse_particles(vec!["2.7"]).unwrap(), 2);
    assert_eq!(parse_particles(vec!["1e3"]).unwrap(), 1000);
    assert_eq!(parse_particles(vec!["-5"]).unwrap(), 0);
    assert_eq!(parse_particles(vec!["0"]).unwrap(), 0);
    assert_eq!(parse_particles(vec![".5"]).unwrap(), 0);
    assert_eq!(parse_particles(vec!["inf"]).unwrap(), usize::MAX);
    assert_eq!(parse_particles(vec!["nan"]).unwrap(), 0);
    assert_eq!(parse_particles(vec!["1e25"]).unwrap(), usize::MAX);
    assert_eq!(parse_particles(vec!["123.456e1"]).unwrap(), 1234);
    assert_eq!(
        parse_particles(vec!["abc"]).unwrap_err(),
        BibberParseError::ParseFloatError
    );
    assert_eq!(
        parse_particles(vec![]).unwrap_err(),
        BibberParseError::TooFewArguments
    );
}
