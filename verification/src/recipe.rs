//! The recipe format: a line-oriented key-value text that configures a
//! simulation run.
//!
//! Each recognised line starts with a keyword (`title`, `start`, `end`,
//! `snapshot`, `timestep`, `temperature`, `particles`, `boundary`) followed by
//! its arguments.  A quantity is written `<number>:<unit>`; the parser keeps
//! the number token and the recognised unit, and reports exactly one error
//! for each way a line can be malformed.

use vstd::prelude::*;
use crate::text::{
    eq_pred, scan_if, scan_char, str_eq, lemma_scan_if_bounds, spec_lines, spec_words, spec_concat,
    lines_of, words_of, concat_from,
};
use crate::units::{
    TimeUnit, LengthUnit, TemperatureUnit, spec_time_unit, spec_length_unit,
    spec_temperature_unit, time_unit_of, length_unit_of, temperature_unit_of,
};
use crate::number::{is_float_token, check_number, spec_count, parse_count};

verus! {

/// Everything that can go wrong while reading a recipe.
///
/// The argument errors come from a line with the wrong number of words; the
/// unit errors from a quantity without a `:<unit>` suffix, with a unit of the
/// wrong kind, or with no known unit; `ParseFloatError` from a number token
/// outside the number grammar.  A line whose keyword is not recognised gives
/// `UnknownKey`, and a recipe that never sets one of the required keys gives
/// `MissingKey`.
#[derive(Clone, Copy, Debug, PartialEq, Eq, Structural)]
pub enum BibberParseError {
    TooFewArguments,
    TooManyArguments,
    NoUnit,
    UnknownUnit,
    InvalidUnit,
    ParseFloatError,
    UnknownKey,
    MissingKey,
}

/// A time written in the recipe: its number token and its recognised unit.
#[derive(Clone, Debug)]
pub struct TimeQuantity {
    pub number: String,
    pub unit: TimeUnit,
}

/// What a `TimeQuantity` holds, mathematically.
pub ghost struct TimeQuantityModel {
    pub number: Seq<char>,
    pub unit: TimeUnit,
}

impl View for TimeQuantity {
    type V = TimeQuantityModel;

    open spec fn view(&self) -> TimeQuantityModel {
        TimeQuantityModel { number: self.number@, unit: self.unit }
    }
}

impl DeepView for TimeQuantity {
    type V = TimeQuantityModel;

    open spec fn deep_view(&self) -> TimeQuantityModel {
        self.view()
    }
}

/// A length written in the recipe: its number token and its recognised unit.
#[derive(Clone, Debug)]
pub struct LengthQuantity {
    pub number: String,
    pub unit: LengthUnit,
}

/// What a `LengthQuantity` holds, mathematically.
pub ghost struct LengthQuantityModel {
    pub number: Seq<char>,
    pub unit: LengthUnit,
}

impl View for LengthQuantity {
    type V = LengthQuantityModel;

    open spec fn view(&self) -> LengthQuantityModel {
        LengthQuantityModel { number: self.number@, unit: self.unit }
    }
}

impl DeepView for LengthQuantity {
    type V = LengthQuantityModel;

    open spec fn deep_view(&self) -> LengthQuantityModel {
        self.view()
    }
}

/// A temperature written in the recipe: its number token and its recognised
/// unit.
#[derive(Clone, Debug)]
pub struct TemperatureQuantity {
    pub number: String,
    pub unit: TemperatureUnit,
}

/// What a `TemperatureQuantity` holds, mathematically.
pub ghost struct TemperatureQuantityModel {
    pub number: Seq<char>,
    pub unit: TemperatureUnit,
}

impl View for TemperatureQuantity {
    type V = TemperatureQuantityModel;

    open spec fn view(&self) -> TemperatureQuantityModel {
        TemperatureQuantityModel { number: self.number@, unit: self.unit }
    }
}

impl DeepView for TemperatureQuantity {
    type V = TemperatureQuantityModel;

    open spec fn deep_view(&self) -> TemperatureQuantityModel {
        self.view()
    }
}

/// The periodic boundary extents, one length per axis.
#[derive(Clone, Debug)]
pub struct Boundary {
    pub x: LengthQuantity,
    pub y: LengthQuantity,
    pub z: LengthQuantity,
}

/// What a `Boundary` holds, mathematically.
pub ghost struct BoundaryModel {
    pub x: LengthQuantityModel,
    pub y: LengthQuantityModel,
    pub z: LengthQuantityModel,
}

impl View for Boundary {
    type V = BoundaryModel;

    open spec fn view(&self) -> BoundaryModel {
        BoundaryModel { x: self.x@, y: self.y@, z: self.z@ }
    }
}

impl DeepView for Boundary {
    type V = BoundaryModel;

    open spec fn deep_view(&self) -> BoundaryModel {
        self.view()
    }
}

/// Parsing one quantity token `<number>:<unit>`: `NoUnit` without a colon or
/// with nothing after it, `ParseFloatError` for a bad number, then the unit
/// is classified.  This spec carries the classification of the two wrong
/// kinds so all three quantity parsers share one shape.
pub open spec fn spec_split_quantity(s: Seq<char>) -> Option<(Seq<char>, Seq<char>)> {
    let i = scan_if(s, eq_pred(':'));
    if i >= s.len() || i + 1 >= s.len() {
        None
    } else {
        Some((s.take(i), s.skip(i + 1)))
    }
}

/// What parsing a time quantity yields.
pub open spec fn spec_parse_time(s: Seq<char>) -> Result<TimeQuantityModel, BibberParseError> {
    match spec_split_quantity(s) {
        None => Err(BibberParseError::NoUnit),
        Some((number, unit)) => {
            if !is_float_token(number) {
                Err(BibberParseError::ParseFloatError)
            } else {
                match spec_time_unit(unit) {
                    Some(u) => Ok(TimeQuantityModel { number, unit: u }),
                    None => {
                        if spec_length_unit(unit) is Some || spec_temperature_unit(unit) is Some {
                            Err(BibberParseError::InvalidUnit)
                        } else {
                            Err(BibberParseError::UnknownUnit)
                        }
                    },
                }
            }
        },
    }
}

/// What parsing a length quantity yields.
pub open spec fn spec_parse_length(s: Seq<char>) -> Result<LengthQuantityModel, BibberParseError> {
    match spec_split_quantity(s) {
        None => Err(BibberParseError::NoUnit),
        Some((number, unit)) => {
            if !is_float_token(number) {
                Err(BibberParseError::ParseFloatError)
            } else {
                match spec_length_unit(unit) {
                    Some(u) => Ok(LengthQuantityModel { number, unit: u }),
                    None => {
                        if spec_time_unit(unit) is Some || spec_temperature_unit(unit) is Some {
                            Err(BibberParseError::InvalidUnit)
                        } else {
                            Err(BibberParseError::UnknownUnit)
                        }
                    },
                }
            }
        },
    }
}

/// What parsing a temperature quantity yields.
pub open spec fn spec_parse_temperature(s: Seq<char>) -> Result<
    TemperatureQuantityModel,
    BibberParseError,
> {
    match spec_split_quantity(s) {
        None => Err(BibberParseError::NoUnit),
        Some((number, unit)) => {
            if !is_float_token(number) {
                Err(BibberParseError::ParseFloatError)
            } else {
                match spec_temperature_unit(unit) {
                    Some(u) => Ok(TemperatureQuantityModel { number, unit: u }),
                    None => {
                        if spec_length_unit(unit) is Some || spec_time_unit(unit) is Some {
                            Err(BibberParseError::InvalidUnit)
                        } else {
                            Err(BibberParseError::UnknownUnit)
                        }
                    },
                }
            }
        },
    }
}

/// Split one quantity token at its first colon; `None` means there is no
/// unit suffix.
fn split_quantity(s: &str) -> (r: Option<(String, String)>)
    ensures
        match r {
            Some(p) => spec_split_quantity(s@) == Some((p.0@, p.1@)),
            None => spec_split_quantity(s@) is None,
        },
{
    let n = s.unicode_len();
    proof {
        lemma_scan_if_bounds(s@, eq_pred(':'));
    }
    let i = scan_char(s, ':');
    if i == n || i + 1 == n {
        None
    } else {
        let number = s.substring_char(0, i);
        let unit = s.substring_char(i + 1, n);
        Some((number.to_owned(), unit.to_owned()))
    }
}

/// Parse a time quantity `<number>:<unit>` with a time unit.
pub fn parse_time(s: &str) -> (r: Result<TimeQuantity, BibberParseError>)
    ensures
        match r {
            Ok(q) => spec_parse_time(s@) == Ok::<TimeQuantityModel, BibberParseError>(q@),
            Err(e) => spec_parse_time(s@) == Err::<TimeQuantityModel, BibberParseError>(e),
        },
{
    match split_quantity(s) {
        None => Err(BibberParseError::NoUnit),
        Some(p) => {
            let (number, unit) = p;
            if !check_number(number.as_str()) {
                return Err(BibberParseError::ParseFloatError);
            }
            match time_unit_of(unit.as_str()) {
                Some(u) => Ok(TimeQuantity { number, unit: u }),
                None => {
                    if length_unit_of(unit.as_str()).is_some() || temperature_unit_of(
                        unit.as_str(),
                    ).is_some() {
                        Err(BibberParseError::InvalidUnit)
                    } else {
                        Err(BibberParseError::UnknownUnit)
                    }
                },
            }
        },
    }
}

/// Parse a length quantity `<number>:<unit>` with a length unit.
pub fn parse_length(s: &str) -> (r: Result<LengthQuantity, BibberParseError>)
    ensures
        match r {
            Ok(q) => spec_parse_length(s@) == Ok::<LengthQuantityModel, BibberParseError>(q@),
            Err(e) => spec_parse_length(s@) == Err::<LengthQuantityModel, BibberParseError>(e),
        },
{
    match split_quantity(s) {
        None => Err(BibberParseError::NoUnit),
        Some(p) => {
            let (number, unit) = p;
            if !check_number(number.as_str()) {
                return Err(BibberParseError::ParseFloatError);
            }
            match length_unit_of(unit.as_str()) {
                Some(u) => Ok(LengthQuantity { number, unit: u }),
                None => {
                    if time_unit_of(unit.as_str()).is_some() || temperature_unit_of(
                        unit.as_str(),
                    ).is_some() {
                        Err(BibberParseError::InvalidUnit)
                    } else {
                        Err(BibberParseError::UnknownUnit)
                    }
                },
            }
        },
    }
}

/// Parse a temperature quantity `<number>:<unit>` with a temperature unit.
pub fn parse_temperature_value(s: &str) -> (r: Result<TemperatureQuantity, BibberParseError>)
    ensures
        match r {
            Ok(q) => spec_parse_temperature(s@) == Ok::<TemperatureQuantityModel, BibberParseError>(
                q@,
            ),
            Err(e) => spec_parse_temperature(s@) == Err::<
                TemperatureQuantityModel,
                BibberParseError,
            >(e),
        },
{
    match split_quantity(s) {
        None => Err(BibberParseError::NoUnit),
        Some(p) => {
            let (number, unit) = p;
            if !check_number(number.as_str()) {
                return Err(BibberParseError::ParseFloatError);
            }
            match temperature_unit_of(unit.as_str()) {
                Some(u) => Ok(TemperatureQuantity { number, unit: u }),
                None => {
                    if length_unit_of(unit.as_str()).is_some() || time_unit_of(
                        unit.as_str(),
                    ).is_some() {
                        Err(BibberParseError::InvalidUnit)
                    } else {
                        Err(BibberParseError::UnknownUnit)
                    }
                },
            }
        },
    }
}

/// An argument list is acceptable only at exactly the expected length.
pub fn check_arguments_count(arguments: &[&str], expected: usize) -> (r: Result<
    (),
    BibberParseError,
>)
    ensures
        arguments@.len() < expected ==> r == Err::<(), BibberParseError>(
            BibberParseError::TooFewArguments,
        ),
        arguments@.len() > expected ==> r == Err::<(), BibberParseError>(
            BibberParseError::TooManyArguments,
        ),
        arguments@.len() == expected ==> r == Ok::<(), BibberParseError>(()),
{
    if arguments.len() < expected {
        Err(BibberParseError::TooFewArguments)
    } else if arguments.len() > expected {
        Err(BibberParseError::TooManyArguments)
    } else {
        Ok(())
    }
}

/// Check the argument count and take ownership of each argument.
pub fn parse_arguments(arguments: Vec<&str>, expected: usize) -> (r: Result<
    Vec<String>,
    BibberParseError,
>)
    ensures
        match r {
            Ok(v) => arguments@.len() == expected && v.deep_view() == arguments.deep_view(),
            Err(e) => arguments@.len() != expected && e == (if arguments@.len() < expected {
                BibberParseError::TooFewArguments
            } else {
                BibberParseError::TooManyArguments
            }),
        },
{
    check_arguments_count(arguments.as_slice(), expected)?;
    let mut v: Vec<String> = Vec::new();
    let mut i: usize = 0;
    while i < expected
        invariant
            i <= expected,
            expected == arguments@.len(),
            v@.len() == i,
            forall|j: int| 0 <= j < i ==> v@[j]@ == #[trigger] arguments@[j]@,
        decreases expected - i,
    {
        v.push(arguments[i].to_owned());
        i += 1;
    }
    proof {
        assert(v.deep_view() =~= arguments.deep_view());
    }
    Ok(v)
}

/// What parsing a one-word time argument list yields.
pub open spec fn spec_parse_single_time(args: Seq<Seq<char>>) -> Result<
    TimeQuantityModel,
    BibberParseError,
> {
    if args.len() < 1 {
        Err(BibberParseError::TooFewArguments)
    } else if args.len() > 1 {
        Err(BibberParseError::TooManyArguments)
    } else {
        spec_parse_time(args[0])
    }
}

/// What parsing a one-word temperature argument list yields.
pub open spec fn spec_parse_temperature_args(args: Seq<Seq<char>>) -> Result<
    TemperatureQuantityModel,
    BibberParseError,
> {
    if args.len() < 1 {
        Err(BibberParseError::TooFewArguments)
    } else if args.len() > 1 {
        Err(BibberParseError::TooManyArguments)
    } else {
        spec_parse_temperature(args[0])
    }
}

/// What parsing a one-word particle count yields.
pub open spec fn spec_parse_particles(args: Seq<Seq<char>>) -> Result<int, BibberParseError> {
    if args.len() < 1 {
        Err(BibberParseError::TooFewArguments)
    } else if args.len() > 1 {
        Err(BibberParseError::TooManyArguments)
    } else {
        match spec_count(args[0]) {
            None => Err(BibberParseError::ParseFloatError),
            Some(c) => Ok(c),
        }
    }
}

/// What parsing a boundary argument list (shape word plus three lengths)
/// yields.  The shape word is accepted unexamined.
pub open spec fn spec_parse_boundary(args: Seq<Seq<char>>) -> Result<
    BoundaryModel,
    BibberParseError,
> {
    if args.len() < 4 {
        Err(BibberParseError::TooFewArguments)
    } else if args.len() > 4 {
        Err(BibberParseError::TooManyArguments)
    } else {
        match spec_parse_length(args[1]) {
            Err(e) => Err(e),
            Ok(x) => match spec_parse_length(args[2]) {
                Err(e) => Err(e),
                Ok(y) => match spec_parse_length(args[3]) {
                    Err(e) => Err(e),
                    Ok(z) => Ok(BoundaryModel { x, y, z }),
                },
            },
        }
    }
}

/// Parse one time value from an argument list.
pub fn parse_single_time(arguments: Vec<&str>) -> (r: Result<TimeQuantity, BibberParseError>)
    ensures
        match r {
            Ok(q) => spec_parse_single_time(arguments.deep_view()) == Ok::<
                TimeQuantityModel,
                BibberParseError,
            >(q@),
            Err(e) => spec_parse_single_time(arguments.deep_view()) == Err::<
                TimeQuantityModel,
                BibberParseError,
            >(e),
        },
{
    let args = match parse_arguments(arguments, 1) {
        Ok(a) => a,
        Err(e) => {
            return Err(e);
        },
    };
    parse_time(args[0].as_str())
}

/// Parse one temperature from an argument list.
pub fn parse_temperature(arguments: Vec<&str>) -> (r: Result<
    TemperatureQuantity,
    BibberParseError,
>)
    ensures
        match r {
            Ok(q) => spec_parse_temperature_args(arguments.deep_view()) == Ok::<
                TemperatureQuantityModel,
                BibberParseError,
            >(q@),
            Err(e) => spec_parse_temperature_args(arguments.deep_view()) == Err::<
                TemperatureQuantityModel,
                BibberParseError,
            >(e),
        },
{
    let args = match parse_arguments(arguments, 1) {
        Ok(a) => a,
        Err(e) => {
            return Err(e);
        },
    };
    parse_temperature_value(args[0].as_str())
}

/// Parse the number of particles from an argument list.
pub fn parse_particles(arguments: Vec<&str>) -> (r: Result<usize, BibberParseError>)
    ensures
        match r {
            Ok(c) => spec_parse_particles(arguments.deep_view()) == Ok::<int, BibberParseError>(
                c as int,
            ),
            Err(e) => spec_parse_particles(arguments.deep_view()) == Err::<int, BibberParseError>(
                e,
            ),
        },
{
    let args = match parse_arguments(arguments, 1) {
        Ok(a) => a,
        Err(e) => {
            return Err(e);
        },
    };
    match parse_count(args[0].as_str()) {
        Some(c) => Ok(c),
        None => Err(BibberParseError::ParseFloatError),
    }
}

/// Parse the periodic boundary extents from an argument list: a shape word
/// followed by three lengths.
pub fn parse_boundary(arguments: Vec<&str>) -> (r: Result<Boundary, BibberParseError>)
    ensures
        match r {
            Ok(b) => spec_parse_boundary(arguments.deep_view()) == Ok::<
                BoundaryModel,
                BibberParseError,
            >(b@),
            Err(e) => spec_parse_boundary(arguments.deep_view()) == Err::<
                BoundaryModel,
                BibberParseError,
            >(e),
        },
{
    let args = match parse_arguments(arguments, 4) {
        Ok(a) => a,
        Err(e) => {
            return Err(e);
        },
    };
    let x = match parse_length(args[1].as_str()) {
        Ok(x) => x,
        Err(e) => {
            return Err(e);
        },
    };
    let y = match parse_length(args[2].as_str()) {
        Ok(y) => y,
        Err(e) => {
            return Err(e);
        },
    };
    let z = match parse_length(args[3].as_str()) {
        Ok(z) => z,
        Err(e) => {
            return Err(e);
        },
    };
    Ok(Boundary { x, y, z })
}

/// The typed parameters of a simulation run, as read from a recipe.
#[derive(Clone, Debug)]
pub struct Recipe {
    pub title: String,
    pub start: TimeQuantity,
    pub end: TimeQuantity,
    pub timestep: TimeQuantity,
    pub snapshot: TimeQuantity,
    pub temperature: TemperatureQuantity,
    pub particles: usize,
    pub boundary: Boundary,
}

/// What a `Recipe` holds, mathematically.
pub ghost struct RecipeModel {
    pub title: Seq<char>,
    pub start: TimeQuantityModel,
    pub end: TimeQuantityModel,
    pub timestep: TimeQuantityModel,
    pub snapshot: TimeQuantityModel,
    pub temperature: TemperatureQuantityModel,
    pub particles: int,
    pub boundary: BoundaryModel,
}

impl View for Recipe {
    type V = RecipeModel;

    open spec fn view(&self) -> RecipeModel {
        RecipeModel {
            title: self.title@,
            start: self.start@,
            end: self.end@,
            timestep: self.timestep@,
            snapshot: self.snapshot@,
            temperature: self.temperature@,
            particles: self.particles as int,
            boundary: self.boundary@,
        }
    }
}

/// The keys a recipe has set so far while its lines are read.
pub ghost struct Draft {
    pub title: Option<Seq<char>>,
    pub start: Option<TimeQuantityModel>,
    pub end: Option<TimeQuantityModel>,
    pub timestep: Option<TimeQuantityModel>,
    pub snapshot: Option<TimeQuantityModel>,
    pub temperature: Option<TemperatureQuantityModel>,
    pub particles: Option<int>,
    pub boundary: Option<BoundaryModel>,
}

/// The draft before any line has been read.
pub open spec fn empty_draft() -> Draft {
    Draft {
        title: None,
        start: None,
        end: None,
        timestep: None,
        snapshot: None,
        temperature: None,
        particles: None,
        boundary: None,
    }
}

/// How one recipe line updates the draft: a blank line changes nothing, a
/// recognised keyword sets its key from the remaining words (a later line
/// overwrites an earlier one), and anything else is an unknown key.
pub open spec fn spec_process_line(l: Seq<char>, d: Draft) -> Result<Draft, BibberParseError> {
    let ws = spec_words(l);
    if ws.len() == 0 {
        Ok(d)
    } else {
        let rest = ws.drop_first();
        if ws[0] == "title"@ {
            Ok(Draft { title: Some(spec_concat(rest)), ..d })
        } else if ws[0] == "start"@ {
            match spec_parse_single_time(rest) {
                Ok(q) => Ok(Draft { start: Some(q), ..d }),
                Err(e) => Err(e),
            }
        } else if ws[0] == "end"@ {
            match spec_parse_single_time(rest) {
                Ok(q) => Ok(Draft { end: Some(q), ..d }),
                Err(e) => Err(e),
            }
        } else if ws[0] == "snapshot"@ {
            match spec_parse_single_time(rest) {
                Ok(q) => Ok(Draft { snapshot: Some(q), ..d }),
                Err(e) => Err(e),
            }
        } else if ws[0] == "timestep"@ {
            match spec_parse_single_time(rest) {
                Ok(q) => Ok(Draft { timestep: Some(q), ..d }),
                Err(e) => Err(e),
            }
        } else if ws[0] == "temperature"@ {
            match spec_parse_temperature_args(rest) {
                Ok(q) => Ok(Draft { temperature: Some(q), ..d }),
                Err(e) => Err(e),
            }
        } else if ws[0] == "particles"@ {
            match spec_parse_particles(rest) {
                Ok(c) => Ok(Draft { particles: Some(c), ..d }),
                Err(e) => Err(e),
            }
        } else if ws[0] == "boundary"@ {
            match spec_parse_boundary(rest) {
                Ok(b) => Ok(Draft { boundary: Some(b), ..d }),
                Err(e) => Err(e),
            }
        } else {
            Err(BibberParseError::UnknownKey)
        }
    }
}

/// Reading the lines in order, stopping at the first error.
pub open spec fn spec_fold_lines(ls: Seq<Seq<char>>, d: Draft) -> Result<Draft, BibberParseError>
    decreases ls.len(),
{
    if ls.len() == 0 {
        Ok(d)
    } else {
        match spec_process_line(ls[0], d) {
            Err(e) => Err(e),
            Ok(d2) => spec_fold_lines(ls.drop_first(), d2),
        }
    }
}

/// A finished draft must have every key set.
pub open spec fn spec_finalize(d: Draft) -> Result<RecipeModel, BibberParseError> {
    if d.title is Some && d.start is Some && d.end is Some && d.timestep is Some && d.snapshot
        is Some && d.temperature is Some && d.particles is Some && d.boundary is Some {
        Ok(
            RecipeModel {
                title: d.title->Some_0,
                start: d.start->Some_0,
                end: d.end->Some_0,
                timestep: d.timestep->Some_0,
                snapshot: d.snapshot->Some_0,
                temperature: d.temperature->Some_0,
                particles: d.particles->Some_0,
                boundary: d.boundary->Some_0,
            },
        )
    } else {
        Err(BibberParseError::MissingKey)
    }
}

/// What parsing a whole recipe text yields.
pub open spec fn spec_from_string(s: Seq<char>) -> Result<RecipeModel, BibberParseError> {
    match spec_fold_lines(spec_lines(s), empty_draft()) {
        Err(e) => Err(e),
        Ok(d) => spec_finalize(d),
    }
}

/// The keys a recipe has set so far, while its lines are read.
struct DraftExec {
    title: Option<String>,
    start: Option<TimeQuantity>,
    end: Option<TimeQuantity>,
    timestep: Option<TimeQuantity>,
    snapshot: Option<TimeQuantity>,
    temperature: Option<TemperatureQuantity>,
    particles: Option<usize>,
    boundary: Option<Boundary>,
}

/// The model of an optional value.
pub open spec fn opt_model<T: View>(o: Option<T>) -> Option<T::V> {
    match o {
        Some(v) => Some(v@),
        None => None,
    }
}

/// The model of an optional machine integer.
pub open spec fn opt_int(o: Option<usize>) -> Option<int> {
    match o {
        Some(v) => Some(v as int),
        None => None,
    }
}

impl View for DraftExec {
    type V = Draft;

    closed spec fn view(&self) -> Draft {
        Draft {
            title: opt_model(self.title),
            start: opt_model(self.start),
            end: opt_model(self.end),
            timestep: opt_model(self.timestep),
            snapshot: opt_model(self.snapshot),
            temperature: opt_model(self.temperature),
            particles: opt_int(self.particles),
            boundary: opt_model(self.boundary),
        }
    }
}

/// Apply one recipe line to the draft.
fn apply_line(line: &str, d: DraftExec) -> (r: Result<DraftExec, BibberParseError>)
    ensures
        match r {
            Ok(d2) => spec_process_line(line@, d@) == Ok::<Draft, BibberParseError>(d2@),
            Err(e) => spec_process_line(line@, d@) == Err::<Draft, BibberParseError>(e),
        },
{
    let words = words_of(line);
    let ghost ws = spec_words(line@);
    if words.len() == 0 {
        return Ok(d);
    }
    let mut rest: Vec<&str> = Vec::new();
    let mut j: usize = 1;
    while j < words.len()
        invariant
            1 <= j <= words@.len(),
            rest@.len() == j - 1,
            forall|k: int| 0 <= k < j - 1 ==> rest@[k]@ == #[trigger] words@[k + 1]@,
        decreases words@.len() - j,
    {
        rest.push(words[j].as_str());
        j += 1;
    }
    proof {
        assert(words.deep_view() == ws);
        assert forall|k: int| 0 <= k < rest.deep_view().len() implies rest.deep_view()[k]
            == ws.drop_first()[k] by {
            assert(rest@[k]@ == words@[k + 1]@);
        }
        assert(rest.deep_view() =~= ws.drop_first());
    }
    let key = words[0].as_str();
    proof {
        assert(key@ == ws[0]);
    }
    if str_eq(key, "title") {
        let t = concat_from(&words, 1);
        proof {
            assert(words.deep_view().skip(1) =~= ws.drop_first());
        }
        Ok(DraftExec { title: Some(t), ..d })
    } else if str_eq(key, "start") {
        match parse_single_time(rest) {
            Ok(q) => Ok(DraftExec { start: Some(q), ..d }),
            Err(e) => Err(e),
        }
    } else if str_eq(key, "end") {
        match parse_single_time(rest) {
            Ok(q) => Ok(DraftExec { end: Some(q), ..d }),
            Err(e) => Err(e),
        }
    } else if str_eq(key, "snapshot") {
        match parse_single_time(rest) {
            Ok(q) => Ok(DraftExec { snapshot: Some(q), ..d }),
            Err(e) => Err(e),
        }
    } else if str_eq(key, "timestep") {
        match parse_single_time(rest) {
            Ok(q) => Ok(DraftExec { timestep: Some(q), ..d }),
            Err(e) => Err(e),
        }
    } else if str_eq(key, "temperature") {
        match parse_temperature(rest) {
            Ok(q) => Ok(DraftExec { temperature: Some(q), ..d }),
            Err(e) => Err(e),
        }
    } else if str_eq(key, "particles") {
        match parse_particles(rest) {
            Ok(c) => Ok(DraftExec { particles: Some(c), ..d }),
            Err(e) => Err(e),
        }
    } else if str_eq(key, "boundary") {
        match parse_boundary(rest) {
            Ok(b) => Ok(DraftExec { boundary: Some(b), ..d }),
            Err(e) => Err(e),
        }
    } else {
        Err(BibberParseError::UnknownKey)
    }
}

impl Recipe {
    /// Read a whole recipe text.  Every key must be set on some line; later
    /// lines overwrite earlier ones; the first malformed line decides the
    /// error.
    pub fn from_string(src: String) -> (r: Result<Recipe, BibberParseError>)
        ensures
            match r {
                Ok(rec) => spec_from_string(src@) == Ok::<RecipeModel, BibberParseError>(rec@),
                Err(e) => spec_from_string(src@) == Err::<RecipeModel, BibberParseError>(e),
            },
    {
        let lines = lines_of(src.as_str());
        let ghost lv = spec_lines(src@);
        let mut d = DraftExec {
            title: None,
            start: None,
            end: None,
            timestep: None,
            snapshot: None,
            temperature: None,
            particles: None,
            boundary: None,
        };
        let mut idx: usize = 0;
        proof {
            assert(lv.skip(0) =~= lv);
            assert(d@ == empty_draft());
        }
        while idx < lines.len()
            invariant
                idx <= lines@.len(),
                lines.deep_view() == lv,
                lv == spec_lines(src@),
                spec_fold_lines(lv.skip(idx as int), d@) == spec_fold_lines(lv, empty_draft()),
            decreases lines@.len() - idx,
        {
            let ghost d_before = d@;
            proof {
                assert(lv.skip(idx as int)[0] == lines.deep_view()[idx as int]);
                assert(lines.deep_view()[idx as int] == lines@[idx as int]@);
                assert(lv.skip(idx as int).drop_first() =~= lv.skip(idx as int + 1));
            }
            d = match apply_line(lines[idx].as_str(), d) {
                Ok(d2) => {
                    proof {
                        assert(spec_fold_lines(lv.skip(idx as int), d_before) == spec_fold_lines(
                            lv.skip(idx as int + 1),
                            d2@,
                        ));
                    }
                    d2
                },
                Err(e) => {
                    proof {
                        assert(spec_fold_lines(lv.skip(idx as int), d_before) == Err::<
                            Draft,
                            BibberParseError,
                        >(e));
                        assert(spec_fold_lines(lv, empty_draft()) == Err::<
                            Draft,
                            BibberParseError,
                        >(e));
                        assert(spec_from_string(src@) == Err::<RecipeModel, BibberParseError>(e));
                    }
                    return Err(e);
                },
            };
            idx += 1;
        }
        proof {
            assert(lv.skip(idx as int) =~= Seq::<Seq<char>>::empty());
            assert(spec_fold_lines(lv, empty_draft()) == Ok::<Draft, BibberParseError>(d@));
        }
        let DraftExec { title, start, end, timestep, snapshot, temperature, particles, boundary } =
            d;
        match (title, start, end, timestep, snapshot, temperature, particles, boundary) {
            (
                Some(title),
                Some(start),
                Some(end),
                Some(timestep),
                Some(snapshot),
                Some(temperature),
                Some(particles),
                Some(boundary),
            ) => Ok(
                Recipe { title, start, end, timestep, snapshot, temperature, particles, boundary },
            ),
            _ => Err(BibberParseError::MissingKey),
        }
    }
}

} // verus!
