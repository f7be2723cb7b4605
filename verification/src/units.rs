//! The units a recipe may attach to a quantity: second-multiples for times,
//! metre-multiples for lengths, and Kelvin or Celsius for temperatures.
//!
//! Every conversion is an exact linear rescaling: each unit carries a power of
//! ten relative to the canonical unit (seconds, metres), and a temperature
//! unit carries an offset in hundredths of a Kelvin.

use vstd::prelude::*;
use crate::text::str_eq;

verus! {

/// A unit of time; the canonical unit is the second.
#[derive(Clone, Copy, Debug, PartialEq, Eq, Structural)]
pub enum TimeUnit {
    Seconds,
    Milliseconds,
    Microseconds,
    Nanoseconds,
    Picoseconds,
    Femtoseconds,
}

/// A unit of length; the canonical unit is the metre.
#[derive(Clone, Copy, Debug, PartialEq, Eq, Structural)]
pub enum LengthUnit {
    Kilometres,
    Metres,
    Decimetres,
    Centimetres,
    Millimetres,
    Micrometres,
    Nanometres,
    Picometres,
    Femtometres,
}

/// A unit of temperature; the canonical unit is the Kelvin.
#[derive(Clone, Copy, Debug, PartialEq, Eq, Structural)]
pub enum TemperatureUnit {
    Kelvin,
    Celsius,
}

/// The time unit a token names, if any.
pub open spec fn spec_time_unit(s: Seq<char>) -> Option<TimeUnit> {
    if s == "s"@ {
        Some(TimeUnit::Seconds)
    } else if s == "ms"@ {
        Some(TimeUnit::Milliseconds)
    } else if s == "us"@ {
        Some(TimeUnit::Microseconds)
    } else if s == "ns"@ {
        Some(TimeUnit::Nanoseconds)
    } else if s == "ps"@ {
        Some(TimeUnit::Picoseconds)
    } else if s == "fs"@ {
        Some(TimeUnit::Femtoseconds)
    } else {
        None
    }
}

/// The length unit a token names, if any.
pub open spec fn spec_length_unit(s: Seq<char>) -> Option<LengthUnit> {
    if s == "km"@ {
        Some(LengthUnit::Kilometres)
    } else if s == "m"@ {
        Some(LengthUnit::Metres)
    } else if s == "dm"@ {
        Some(LengthUnit::Decimetres)
    } else if s == "cm"@ {
        Some(LengthUnit::Centimetres)
    } else if s == "mm"@ {
        Some(LengthUnit::Millimetres)
    } else if s == "um"@ {
        Some(LengthUnit::Micrometres)
    } else if s == "nm"@ {
        Some(LengthUnit::Nanometres)
    } else if s == "pm"@ {
        Some(LengthUnit::Picometres)
    } else if s == "fm"@ {
        Some(LengthUnit::Femtometres)
    } else {
        None
    }
}

/// The temperature unit a token names, if any.
pub open spec fn spec_temperature_unit(s: Seq<char>) -> Option<TemperatureUnit> {
    if s == "K"@ {
        Some(TemperatureUnit::Kelvin)
    } else if s == "C"@ {
        Some(TemperatureUnit::Celsius)
    } else {
        None
    }
}

/// Recognise a time unit token.
pub fn time_unit_of(s: &str) -> (r: Option<TimeUnit>)
    ensures
        r == spec_time_unit(s@),
{
    if str_eq(s, "s") {
        Some(TimeUnit::Seconds)
    } else if str_eq(s, "ms") {
        Some(TimeUnit::Milliseconds)
    } else if str_eq(s, "us") {
        Some(TimeUnit::Microseconds)
    } else if str_eq(s, "ns") {
        Some(TimeUnit::Nanoseconds)
    } else if str_eq(s, "ps") {
        Some(TimeUnit::Picoseconds)
    } else if str_eq(s, "fs") {
        Some(TimeUnit::Femtoseconds)
    } else {
        None
    }
}

/// Recognise a length unit token.
pub fn length_unit_of(s: &str) -> (r: Option<LengthUnit>)
    ensures
        r == spec_length_unit(s@),
{
    if str_eq(s, "km") {
        Some(LengthUnit::Kilometres)
    } else if str_eq(s, "m") {
        Some(LengthUnit::Metres)
    } else if str_eq(s, "dm") {
        Some(LengthUnit::Decimetres)
    } else if str_eq(s, "cm") {
        Some(LengthUnit::Centimetres)
    } else if str_eq(s, "mm") {
        Some(LengthUnit::Millimetres)
    } else if str_eq(s, "um") {
        Some(LengthUnit::Micrometres)
    } else if str_eq(s, "nm") {
        Some(LengthUnit::Nanometres)
    } else if str_eq(s, "pm") {
        Some(LengthUnit::Picometres)
    } else if str_eq(s, "fm") {
        Some(LengthUnit::Femtometres)
    } else {
        None
    }
}

/// Recognise a temperature unit token.
pub fn temperature_unit_of(s: &str) -> (r: Option<TemperatureUnit>)
    ensures
        r == spec_temperature_unit(s@),
{
    if str_eq(s, "K") {
        Some(TemperatureUnit::Kelvin)
    } else if str_eq(s, "C") {
        Some(TemperatureUnit::Celsius)
    } else {
        None
    }
}

/// The power of ten that takes a value in this time unit to seconds.
pub open spec fn spec_time_exponent(u: TimeUnit) -> int {
    match u {
        TimeUnit::Seconds => 0,
        TimeUnit::Milliseconds => -3,
        TimeUnit::Microseconds => -6,
        TimeUnit::Nanoseconds => -9,
        TimeUnit::Picoseconds => -12,
        TimeUnit::Femtoseconds => -15,
    }
}

/// The power of ten that takes a value in this length unit to metres.
pub open spec fn spec_length_exponent(u: LengthUnit) -> int {
    match u {
        LengthUnit::Kilometres => 3,
        LengthUnit::Metres => 0,
        LengthUnit::Decimetres => -1,
        LengthUnit::Centimetres => -2,
        LengthUnit::Millimetres => -3,
        LengthUnit::Micrometres => -6,
        LengthUnit::Nanometres => -9,
        LengthUnit::Picometres => -12,
        LengthUnit::Femtometres => -15,
    }
}

/// The offset, in hundredths of a Kelvin, that is added to a value in this
/// unit to reach Kelvin: zero Celsius is 273.15 Kelvin.
pub open spec fn spec_temperature_offset_centikelvin(u: TemperatureUnit) -> int {
    match u {
        TemperatureUnit::Kelvin => 0,
        TemperatureUnit::Celsius => 27315,
    }
}

impl TimeUnit {
    /// The power of ten that takes a value in this unit to seconds.
    pub fn exponent(self) -> (r: i32)
        ensures
            r as int == spec_time_exponent(self),
    {
        match self {
            TimeUnit::Seconds => 0,
            TimeUnit::Milliseconds => -3,
            TimeUnit::Microseconds => -6,
            TimeUnit::Nanoseconds => -9,
            TimeUnit::Picoseconds => -12,
            TimeUnit::Femtoseconds => -15,
        }
    }

    /// The canonical token of this unit.
    pub open spec fn spec_token(self) -> Seq<char> {
        match self {
            TimeUnit::Seconds => "s"@,
            TimeUnit::Milliseconds => "ms"@,
            TimeUnit::Microseconds => "us"@,
            TimeUnit::Nanoseconds => "ns"@,
            TimeUnit::Picoseconds => "ps"@,
            TimeUnit::Femtoseconds => "fs"@,
        }
    }
}

impl LengthUnit {
    /// The power of ten that takes a value in this unit to metres.
    pub fn exponent(self) -> (r: i32)
        ensures
            r as int == spec_length_exponent(self),
    {
        match self {
            LengthUnit::Kilometres => 3,
            LengthUnit::Metres => 0,
            LengthUnit::Decimetres => -1,
            LengthUnit::Centimetres => -2,
            LengthUnit::Millimetres => -3,
            LengthUnit::Micrometres => -6,
            LengthUnit::Nanometres => -9,
            LengthUnit::Picometres => -12,
            LengthUnit::Femtometres => -15,
        }
    }

    /// The canonical token of this unit.
    pub open spec fn spec_token(self) -> Seq<char> {
        match self {
            LengthUnit::Kilometres => "km"@,
            LengthUnit::Metres => "m"@,
            LengthUnit::Decimetres => "dm"@,
            LengthUnit::Centimetres => "cm"@,
            LengthUnit::Millimetres => "mm"@,
            LengthUnit::Micrometres => "um"@,
            LengthUnit::Nanometres => "nm"@,
            LengthUnit::Picometres => "pm"@,
            LengthUnit::Femtometres => "fm"@,
        }
    }
}

impl TemperatureUnit {
    /// The offset, in hundredths of a Kelvin, added to a value in this unit
    /// to reach Kelvin.
    pub fn offset_centikelvin(self) -> (r: i32)
        ensures
            r as int == spec_temperature_offset_centikelvin(self),
    {
        match self {
            TemperatureUnit::Kelvin => 0,
            TemperatureUnit::Celsius => 27315,
        }
    }

    /// The canonical token of this unit.
    pub open spec fn spec_token(self) -> Seq<char> {
        match self {
            TemperatureUnit::Kelvin => "K"@,
            TemperatureUnit::Celsius => "C"@,
        }
    }
}

/// No token names units of two different kinds: the time, length and
/// temperature unit tables are pairwise disjoint.  This is what makes the
/// `InvalidUnit` error well-defined — a unit of the wrong kind can never
/// also be one of the right kind.
pub proof fn lemma_unit_kinds_disjoint(s: Seq<char>)
    ensures
        spec_time_unit(s) is Some ==> spec_length_unit(s) is None && spec_temperature_unit(s)
            is None,
        spec_length_unit(s) is Some ==> spec_temperature_unit(s) is None,
{
    broadcast use vstd::string::group_string_axioms;

    reveal_strlit("s");
    reveal_strlit("ms");
    reveal_strlit("us");
    reveal_strlit("ns");
    reveal_strlit("ps");
    reveal_strlit("fs");
    reveal_strlit("km");
    reveal_strlit("m");
    reveal_strlit("dm");
    reveal_strlit("cm");
    reveal_strlit("mm");
    reveal_strlit("um");
    reveal_strlit("nm");
    reveal_strlit("pm");
    reveal_strlit("fm");
    reveal_strlit("K");
    reveal_strlit("C");
    assert("s"@.len() == 1 && "s"@[0] == 's');
    assert("m"@.len() == 1 && "m"@[0] == 'm');
    assert("K"@.len() == 1 && "K"@[0] == 'K');
    assert("C"@.len() == 1 && "C"@[0] == 'C');
    assert("ms"@.len() == 2 && "ms"@[0] == 'm' && "ms"@[1] == 's');
    assert("us"@.len() == 2 && "us"@[0] == 'u' && "us"@[1] == 's');
    assert("ns"@.len() == 2 && "ns"@[0] == 'n' && "ns"@[1] == 's');
    assert("ps"@.len() == 2 && "ps"@[0] == 'p' && "ps"@[1] == 's');
    assert("fs"@.len() == 2 && "fs"@[0] == 'f' && "fs"@[1] == 's');
    assert("km"@.len() == 2 && "km"@[0] == 'k' && "km"@[1] == 'm');
    assert("dm"@.len() == 2 && "dm"@[0] == 'd' && "dm"@[1] == 'm');
    assert("cm"@.len() == 2 && "cm"@[0] == 'c' && "cm"@[1] == 'm');
    assert("mm"@.len() == 2 && "mm"@[0] == 'm' && "mm"@[1] == 'm');
    assert("um"@.len() == 2 && "um"@[0] == 'u' && "um"@[1] == 'm');
    assert("nm"@.len() == 2 && "nm"@[0] == 'n' && "nm"@[1] == 'm');
    assert("pm"@.len() == 2 && "pm"@[0] == 'p' && "pm"@[1] == 'm');
    assert("fm"@.len() == 2 && "fm"@[0] == 'f' && "fm"@[1] == 'm');
}

/// Unit recognition round-trips: classifying the canonical token of any unit
/// yields that unit again, for all three kinds of unit.  Together with the
/// exponent tables above this pins the whole unit table down: a value tagged
/// with a recognised unit token rescales by exactly the power of ten of the
/// unit the token names.
pub proof fn lemma_unit_tokens_round_trip()
    ensures
        forall|u: TimeUnit| #[trigger] spec_time_unit(u.spec_token()) == Some(u),
        forall|u: LengthUnit| #[trigger] spec_length_unit(u.spec_token()) == Some(u),
        forall|u: TemperatureUnit| #[trigger] spec_temperature_unit(u.spec_token()) == Some(u),
{
    broadcast use vstd::string::group_string_axioms;

    reveal_strlit("s");
    reveal_strlit("ms");
    reveal_strlit("us");
    reveal_strlit("ns");
    reveal_strlit("ps");
    reveal_strlit("fs");
    reveal_strlit("km");
    reveal_strlit("m");
    reveal_strlit("dm");
    reveal_strlit("cm");
    reveal_strlit("mm");
    reveal_strlit("um");
    reveal_strlit("nm");
    reveal_strlit("pm");
    reveal_strlit("fm");
    reveal_strlit("K");
    reveal_strlit("C");
    assert("s"@.len() == 1);
    assert("m"@.len() == 1);
    assert("K"@.len() == 1 && "K"@[0] == 'K');
    assert("C"@.len() == 1 && "C"@[0] == 'C');
    assert("ms"@.len() == 2 && "ms"@[0] == 'm');
    assert("us"@.len() == 2 && "us"@[0] == 'u');
    assert("ns"@.len() == 2 && "ns"@[0] == 'n');
    assert("ps"@.len() == 2 && "ps"@[0] == 'p');
    assert("fs"@.len() == 2 && "fs"@[0] == 'f');
    assert("km"@.len() == 2 && "km"@[0] == 'k');
    assert("dm"@.len() == 2 && "dm"@[0] == 'd');
    assert("cm"@.len() == 2 && "cm"@[0] == 'c');
    assert("mm"@.len() == 2 && "mm"@[0] == 'm');
    assert("um"@.len() == 2 && "um"@[0] == 'u');
    assert("nm"@.len() == 2 && "nm"@[0] == 'n');
    assert("pm"@.len() == 2 && "pm"@[0] == 'p');
    assert("fm"@.len() == 2 && "fm"@[0] == 'f');
    assert forall|u: TimeUnit| #[trigger] spec_time_unit(u.spec_token()) == Some(u) by {
        match u {
            TimeUnit::Seconds => {},
            TimeUnit::Milliseconds => {},
            TimeUnit::Microseconds => {},
            TimeUnit::Nanoseconds => {},
            TimeUnit::Picoseconds => {},
            TimeUnit::Femtoseconds => {},
        }
    }
    assert forall|u: LengthUnit| #[trigger] spec_length_unit(u.spec_token()) == Some(u) by {
        match u {
            LengthUnit::Kilometres => {},
            LengthUnit::Metres => {},
            LengthUnit::Decimetres => {},
            LengthUnit::Centimetres => {},
            LengthUnit::Millimetres => {},
            LengthUnit::Micrometres => {},
            LengthUnit::Nanometres => {},
            LengthUnit::Picometres => {},
            LengthUnit::Femtometres => {},
        }
    }
    assert forall|u: TemperatureUnit|
        #[trigger] spec_temperature_unit(u.spec_token()) == Some(u) by {
        match u {
            TemperatureUnit::Kelvin => {},
            TemperatureUnit::Celsius => {},
        }
    }
}

} // verus!
