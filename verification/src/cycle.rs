use vstd::prelude::*;
use vstd::utf8::encode_utf8;

use crate::chart_index::{
    ChartsHashMaps, charts_maps_from_metafile, faa_index_of, icao_index_of, metafile_charts,
};
use crate::faa_metafile::{DigitalTpp, Edition};

verus! {

#[verifier::external_type_specification]
#[verifier::external_body]
pub struct ExChronoParseError(chrono::format::ParseError);

/// An instant in UTC: whole seconds since the Unix epoch and the nanoseconds
/// past them.
#[derive(Debug, Clone, Copy, PartialEq, Eq, Structural)]
pub struct Timestamp {
    pub secs: i64,
    pub nanos: u32,
}

/// `a` is a later instant than `b`.
pub open spec fn is_later(a: Timestamp, b: Timestamp) -> bool {
    a.secs > b.secs || (a.secs == b.secs && a.nanos > b.nanos)
}

/// The instant that `NaiveDateTime::parse_from_str` reads from `s` under the
/// format `fmt`, taken as UTC; `None` when the text does not parse.
pub uninterp spec fn spec_parse_datetime_utc(s: Seq<char>, fmt: Seq<char>) -> Option<Timestamp>;

/// The year of the date that `NaiveDate::parse_from_str` reads from `s` under
/// the format `fmt`; `None` when the text does not parse.
pub uninterp spec fn spec_parse_date_year(s: Seq<char>, fmt: Seq<char>) -> Option<i32>;

/// Calls `NaiveDateTime::parse_from_str`, then `and_utc`, `timestamp` and
/// `timestamp_subsec_nanos` on the result. The contract claims only that the
/// call succeeds exactly when the named parse gives an instant, and then gives
/// that instant; the chrono format language is not stated.
#[verifier::external_body]
fn parse_datetime_utc(s: &str, fmt: &str) -> (r: Result<Timestamp, chrono::format::ParseError>)
    ensures
        r is Ok <==> spec_parse_datetime_utc(s@, fmt@) is Some,
        r matches Ok(t) ==> spec_parse_datetime_utc(s@, fmt@) == Some(t),
{
    match chrono::NaiveDateTime::parse_from_str(s, fmt) {
        Ok(d) => Ok(Timestamp { secs: d.and_utc().timestamp(), nanos: d.and_utc().timestamp_subsec_nanos() }),
        Err(e) => Err(e),
    }
}

/// Calls `NaiveDate::parse_from_str`, then `Datelike::year` on the result.
/// The contract claims only that the call succeeds exactly when the named
/// parse gives a year, and then gives that year.
#[verifier::external_body]
fn parse_date_year(s: &str, fmt: &str) -> (r: Result<i32, chrono::format::ParseError>)
    ensures
        r is Ok <==> spec_parse_date_year(s@, fmt@) is Some,
        r matches Ok(y) ==> spec_parse_date_year(s@, fmt@) == Some(y),
{
    match chrono::NaiveDate::parse_from_str(s, fmt) {
        Ok(d) => Ok(chrono::Datelike::year(&d)),
        Err(e) => Err(e),
    }
}

/// Reads the clock with `SystemTime::now` and converts it with chrono's
/// `From<SystemTime> for DateTime<Utc>`, then `timestamp` and
/// `timestamp_subsec_nanos`. The contract claims only what the source shows
/// of every outcome: the nanoseconds are below one second (clocks before the
/// epoch included). Which instant comes back is not stated; the conversion
/// fails only for clocks about 262,000 years away from the epoch, outside
/// chrono's range.
#[verifier::external_body]
fn utc_now() -> (r: Timestamp)
    ensures
        r.nanos < 1_000_000_000,
{
    let now = chrono::DateTime::<chrono::Utc>::from(std::time::SystemTime::now());
    Timestamp { secs: now.timestamp(), nanos: now.timestamp_subsec_nanos() }
}

/// The format of the metafile's effective dates, such as `0901Z 08/07/25`.
pub open spec fn effective_date_format() -> Seq<char> {
    "%H%MZ %m/%d/%y"@
}

/// The format of an edition date, such as `08/07/2025`.
pub open spec fn edition_date_format() -> Seq<char> {
    "%m/%d/%Y"@
}

/// Why a metafile was not indexed.
#[derive(Debug, Clone, Copy, PartialEq, Eq, Structural)]
pub enum LoadError {
    /// The effective start date does not parse.
    InvalidEffectiveDate,
    /// The publication only takes effect after the given instant.
    NotYetEffective { effective: Timestamp, now: Timestamp },
}

/// Accepts a publication whose effective start is not later than `now`.
pub fn check_effective(effective: Timestamp, now: Timestamp) -> (r: Result<(), LoadError>)
    ensures
        r == (if is_later(effective, now) {
            Err(LoadError::NotYetEffective { effective, now })
        } else {
            Ok(())
        }),
{
    if effective.secs > now.secs || (effective.secs == now.secs && effective.nanos > now.nanos) {
        Err(LoadError::NotYetEffective { effective, now })
    } else {
        Ok(())
    }
}

/// What indexing a metafile at the instant `now` gives: an error when its
/// effective start does not parse or is later than `now`, else the indexes of
/// its charts.
pub open spec fn load_outcome_ok(
    r: Result<ChartsHashMaps, LoadError>,
    dtpp: DigitalTpp,
    cycle: Seq<char>,
    now: Timestamp,
) -> bool {
    match spec_parse_datetime_utc(dtpp.from_effective_date@, effective_date_format()) {
        None => r == Err::<ChartsHashMaps, LoadError>(LoadError::InvalidEffectiveDate),
        Some(t) => if is_later(t, now) {
            r == Err::<ChartsHashMaps, LoadError>(LoadError::NotYetEffective { effective: t, now })
        } else {
            r matches Ok(maps) && maps.faa_view() == faa_index_of(metafile_charts(dtpp, cycle))
                && maps.icao_view() == icao_index_of(metafile_charts(dtpp, cycle))
        },
    }
}

/// Indexes the charts of a metafile at the instant `now`, refusing a
/// publication that is not yet effective.
pub fn load_charts_at(dtpp: &DigitalTpp, current_cycle: &str, now: Timestamp) -> (r: Result<
    ChartsHashMaps,
    LoadError,
>)
    ensures
        load_outcome_ok(r, *dtpp, current_cycle@, now),
{
    let effective = match parse_datetime_utc(dtpp.from_effective_date.as_str(), "%H%MZ %m/%d/%y") {
        Ok(t) => t,
        Err(_) => {
            return Err(LoadError::InvalidEffectiveDate);
        },
    };
    match check_effective(effective, now) {
        Ok(()) => Ok(charts_maps_from_metafile(dtpp, current_cycle)),
        Err(e) => Err(e),
    }
}

/// Indexes the charts of a metafile at the current instant, refusing a
/// publication that is not yet effective. The instant is read from the clock,
/// so the contract holds for some instant.
pub fn load_charts(dtpp: &DigitalTpp, current_cycle: &str) -> (r: Result<
    ChartsHashMaps,
    LoadError,
>)
    ensures
        exists|now: Timestamp| now.nanos < 1_000_000_000 && load_outcome_ok(
            r,
            *dtpp,
            current_cycle@,
            now,
        ),
{
    let now = utc_now();
    let r = load_charts_at(dtpp, current_cycle, now);
    assert(now.nanos < 1_000_000_000 && load_outcome_ok(r, *dtpp, current_cycle@, now));
    r
}

/// The decimal digit `d` as a character.
pub open spec fn digit_char(d: int) -> char {
    "0123456789"@[d]
}

/// The year modulo 100 as two digits, zero-padded, as chrono's `%y` writes it.
pub open spec fn spec_two_digit_year(year: i32) -> Seq<char> {
    let y = (year as int) % 100;
    seq![digit_char(y / 10), digit_char(y % 10)]
}

/// The name of a publication cycle: the two-digit year of the edition, then
/// the edition number, with a `0` put before it unless it is two bytes long.
pub open spec fn spec_cycle_string(year: i32, number: Seq<char>) -> Seq<char> {
    if encode_utf8(number).len() as usize == 2 {
        spec_two_digit_year(year) + number
    } else {
        spec_two_digit_year(year) + "0"@ + number
    }
}

/// The year modulo 100, never negative.
fn year_mod_100(year: i32) -> (r: u32)
    ensures
        r as int == (year as int) % 100,
        r < 100,
{
    if year >= 0 {
        (year as u32) % 100
    } else {
        let p: u32 = ((-(year as i64)) as u64 % 100) as u32;
        let r: u32 = if p == 0 {
            0
        } else {
            100 - p
        };
        assert((year as int) % 100 == r as int) by (nonlinear_arith)
            requires
                year < 0,
                p as int == (-(year as int)) % 100,
                r as int == (if p == 0 {
                    0
                } else {
                    100 - p
                }),
        {
            let q = (-(year as int)) / 100;
            assert(-(year as int) == 100 * q + p);
            assert(year as int == 100 * (-q - 1) + (100 - p) || p == 0);
        }
        r
    }
}

/// The decimal digit `d` as a one-character string.
fn digit_str(d: u32) -> (r: &'static str)
    requires
        d < 10,
    ensures
        r@ == seq![digit_char(d as int)],
{
    let digits = "0123456789";
    proof {
        reveal_strlit("0123456789");
    }
    let r = digits.substring_char(d as usize, (d + 1) as usize);
    assert(r@ =~= seq![digit_char(d as int)]);
    r
}

/// The year modulo 100 as two zero-padded digits, as chrono's `%y` writes it.
pub fn two_digit_year(year: i32) -> (r: String)
    ensures
        r@ == spec_two_digit_year(year),
{
    let y = year_mod_100(year);
    let r = digit_str(y / 10).to_owned().concat(digit_str(y % 10));
    assert(r@ =~= spec_two_digit_year(year));
    r
}

/// The name of a publication cycle from the edition's year and number.
pub fn cycle_string(year: i32, number: &str) -> (r: String)
    ensures
        r@ == spec_cycle_string(year, number@),
{
    let yy = two_digit_year(year);
    if number.len() == 2 {
        yy.concat(number)
    } else {
        yy.concat("0").concat(number)
    }
}

/// Why the current cycle could not be read from an edition.
#[derive(Debug, Clone, Copy, PartialEq, Eq, Structural)]
pub enum CycleError {
    /// The edition date does not parse.
    InvalidEditionDate,
}

/// The name of the publication cycle of an edition, such as `2508`.
pub fn cycle_from_edition(edition: &Edition) -> (r: Result<String, CycleError>)
    ensures
        match spec_parse_date_year(edition.date@, edition_date_format()) {
            None => r == Err::<String, CycleError>(CycleError::InvalidEditionDate),
            Some(y) => r matches Ok(s) && s@ == spec_cycle_string(y, edition.number@),
        },
{
    match parse_date_year(edition.date.as_str(), "%m/%d/%Y") {
        Ok(year) => Ok(cycle_string(year, edition.number.as_str())),
        Err(_) => Err(CycleError::InvalidEditionDate),
    }
}

/// An ASCII edition number of one or two characters gives a four-character
/// cycle name: the two-digit year, then the number padded to two characters.
pub proof fn lemma_cycle_string_four_chars(year: i32, number: Seq<char>)
    requires
        1 <= number.len() <= 2,
        vstd::utf8::is_ascii_chars(number),
    ensures
        spec_cycle_string(year, number).len() == 4,
        spec_cycle_string(year, number).take(2) == spec_two_digit_year(year),
        number.len() == 1 ==> spec_cycle_string(year, number)[2] == '0',
{
    vstd::utf8::is_ascii_chars_encode_utf8(number);
    let yy = spec_two_digit_year(year);
    if number.len() == 2 {
        assert((yy + number).take(2) =~= yy);
    } else {
        assert((yy + "0"@ + number).take(2) =~= yy) by {
            reveal_strlit("0");
        }
        reveal_strlit("0");
    }
}


/// A metafile is indexed exactly when its effective start parses and is not
/// later than the instant of loading; one not yet effective is refused with
/// its start and that instant, and one whose start does not parse is refused
/// as such.
pub proof fn lemma_load_refuses_only_unparsable_or_future(
    r: Result<ChartsHashMaps, LoadError>,
    dtpp: DigitalTpp,
    cycle: Seq<char>,
    now: Timestamp,
)
    requires
        load_outcome_ok(r, dtpp, cycle, now),
    ensures
        r is Ok <==> (spec_parse_datetime_utc(dtpp.from_effective_date@, effective_date_format()) matches Some(t)
            && (t.secs < now.secs || (t.secs == now.secs && t.nanos <= now.nanos))),
        r == Err::<ChartsHashMaps, LoadError>(LoadError::InvalidEffectiveDate) <==> spec_parse_datetime_utc(
            dtpp.from_effective_date@,
            effective_date_format(),
        ) is None,
        r matches Err(LoadError::NotYetEffective { effective, now: n }) ==> n == now && Some(effective)
            == spec_parse_datetime_utc(dtpp.from_effective_date@, effective_date_format())
            && (effective.secs > now.secs || (effective.secs == now.secs && effective.nanos > now.nanos)),
{
}

} // verus!
