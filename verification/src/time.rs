//! Time arguments: `now`, a relative time `-<number><unit>` (`s`, `m`,
//! `h`, `d`, `w`), or an RFC 3339 timestamp; and the formatting of instants.

use vstd::prelude::*;
use crate::text::{
    to_chars, from_chars, owned, concat, chars_eq, parse_i64, parse_i64_spec, is_alphabetic,
    unicode_alphabetic,
};
use vstd::string::StringExecFns;

verus! {

/// An instant as UNIX time: whole seconds since 1970-01-01T00:00:00Z and
/// the nanoseconds past that second.
pub struct Timestamp {
    pub secs: i64,
    pub nanos: u32,
}

/// The UNIX seconds chrono's dates can reach: from -262143-01-01T00:00:00
/// to 262142-12-31T23:59:59 (`NaiveDate::MIN` and `NaiveDate::MAX`).
pub open spec fn instant_in_range(secs: int) -> bool {
    -8_334_601_228_800 <= secs <= 8_210_266_876_799
}

/// An instant chrono can hold: its seconds in range, and its nanoseconds
/// below a second, or below two for a leap second (one whose second of the
/// minute is 59).
pub open spec fn valid_instant(secs: int, nanos: int) -> bool {
    &&& instant_in_range(secs)
    &&& 0 <= nanos
    &&& (nanos < 1_000_000_000 || (nanos < 2_000_000_000 && secs % 60 == 59))
}

/// `chrono::Utc::now`: the current instant. What it returns depends on the
/// clock; what is stated is that it is an instant chrono holds, with no
/// leap second (`Utc::now` builds it from the system time's whole seconds
/// and sub-second nanoseconds, and panics when the clock is before 1970).
#[verifier::external_body]
pub(crate) fn now() -> (r: Timestamp)
    ensures
        r.nanos < 1_000_000_000,
        instant_in_range(r.secs as int),
{
    let t = chrono::Utc::now();
    Timestamp { secs: t.timestamp(), nanos: t.timestamp_subsec_nanos() }
}

/// The largest number of whole seconds a `chrono::TimeDelta` can hold.
pub open spec fn max_delta_secs() -> int {
    9_223_372_036_854_775
}

/// `chrono::DateTime::<Utc>::checked_sub_signed` with a whole number of
/// seconds: the instant `secs` seconds before `t`, which exists exactly
/// when both `t` and that instant lie within chrono's dates.
#[verifier::external_body]
fn seconds_before(t: &Timestamp, secs: i64) -> (r: Option<Timestamp>)
    requires
        -max_delta_secs() <= secs <= max_delta_secs(),
        t.nanos < 1_000_000_000,
    ensures
        match r {
            Some(x) => x.secs == t.secs - secs && x.nanos == t.nanos && instant_in_range(t.secs as int)
                && instant_in_range(t.secs - secs),
            None => !(instant_in_range(t.secs as int) && instant_in_range(t.secs - secs)),
        },
{
    let start = chrono::DateTime::from_timestamp(t.secs, t.nanos)?;
    let end = start.checked_sub_signed(chrono::TimeDelta::seconds(secs))?;
    Some(Timestamp { secs: end.timestamp(), nanos: end.timestamp_subsec_nanos() })
}

/// What `str::parse::<chrono::DateTime<Utc>>` makes of a string (a relaxed
/// RFC 3339): the instant as (seconds, nanoseconds), or the parse error's
/// text.
pub uninterp spec fn chrono_parse_utc(s: Seq<char>) -> Result<(int, int), Seq<char>>;

/// `str::parse::<chrono::DateTime<Utc>>`: the instant a timestamp string
/// names, or the text of the parse error. Named, not spelled out.
#[verifier::external_body]
fn parse_utc(s: &str) -> (r: Result<Timestamp, String>)
    ensures
        match r {
            Ok(t) => chrono_parse_utc(s@) == Ok::<(int, int), Seq<char>>((t.secs as int, t.nanos as int)),
            Err(e) => chrono_parse_utc(s@) == Err::<(int, int), Seq<char>>(e@),
        },
        r matches Ok(t) ==> valid_instant(t.secs as int, t.nanos as int),
{
    match s.parse::<chrono::DateTime<chrono::Utc>>() {
        Ok(t) => Ok(Timestamp { secs: t.timestamp(), nanos: t.timestamp_subsec_nanos() }),
        Err(e) => Err(e.to_string()),
    }
}

/// The layout of the times sent when creating a search job.
pub open spec fn request_layout() -> Seq<char> {
    "%Y-%m-%dT%H:%M:%S"@
}

/// The layout of message times in text tables.
pub open spec fn display_layout() -> Seq<char> {
    "%Y-%m-%d %H:%M:%S UTC"@
}

/// What chrono writes for an instant given as (seconds, nanoseconds) in a
/// strftime layout, or nothing when `DateTime::from_timestamp` rejects it.
pub uninterp spec fn chrono_format(secs: int, nanos: int, layout: Seq<char>) -> Option<Seq<char>>;

/// `chrono::DateTime::from_timestamp` followed by `format(layout)`: the
/// instant's UTC text in one of the two layouts used here, or nothing when
/// the instant is not one chrono holds (`from_timestamp` accepts exactly
/// those). Named, not spelled out.
#[verifier::external_body]
fn format_utc(secs: i64, nanos: u32, layout: &str) -> (r: Option<String>)
    requires
        layout@ == request_layout() || layout@ == display_layout(),
    ensures
        match (r, chrono_format(secs as int, nanos as int, layout@)) {
            (Some(a), Some(b)) => a@ == b,
            (None, None) => true,
            _ => false,
        },
        r is Some <==> valid_instant(secs as int, nanos as int),
{
    chrono::DateTime::from_timestamp(secs, nanos).map(|t| t.format(layout).to_string())
}

/// An instant in the layout of search job requests, `YYYY-MM-DDTHH:MM:SS`.
pub fn request_time_text(t: &Timestamp) -> (r: Option<String>)
    ensures
        match (r, chrono_format(t.secs as int, t.nanos as int, request_layout())) {
            (Some(a), Some(b)) => a@ == b,
            (None, None) => true,
            _ => false,
        },
        r is Some <==> valid_instant(t.secs as int, t.nanos as int),
{
    proof {
        reveal_strlit("%Y-%m-%dT%H:%M:%S");
    }
    format_utc(t.secs, t.nanos, "%Y-%m-%dT%H:%M:%S")
}

/// The seconds and nanoseconds chrono is given for a time in milliseconds:
/// Rust's truncating `ms / 1000`, and `(ms % 1000) * 1_000_000` cast to
/// `u32` (which wraps a negative remainder around).
pub open spec fn millis_parts(ms: int) -> (int, int) {
    let q = if ms >= 0 { ms / 1000 } else { -((-ms) / 1000) };
    let rem = if ms >= 0 { ms % 1000 } else { -((-ms) % 1000) };
    let n = rem * 1_000_000;
    (q, if n >= 0 { n } else { n + 4_294_967_296 })
}

/// How a text table shows a message time: milliseconds since the epoch as
/// `YYYY-MM-DD HH:MM:SS UTC`, and anything else as it is.
pub open spec fn epoch_ms_text(s: Seq<char>) -> Seq<char> {
    match parse_i64_spec(s) {
        Some(ms) => match chrono_format(millis_parts(ms as int).0, millis_parts(ms as int).1, display_layout()) {
            Some(t) => t,
            None => s,
        },
        None => s,
    }
}

/// Formats a message time given in epoch milliseconds.
pub fn format_epoch_ms(s: &str) -> (r: String)
    ensures
        r@ == epoch_ms_text(s@),
{
    let chars = to_chars(s);
    match parse_i64(chars.as_slice()) {
        Some(ms) => {
            let m: i128 = ms as i128;
            let (q, rem): (i128, i128) = if m >= 0 { (m / 1000, m % 1000) } else { (0 - ((0 - m) / 1000), 0 - ((0 - m) % 1000)) };
            let n: i128 = rem * 1_000_000;
            let nanos: u32 = if n >= 0 { n as u32 } else { (n + 4_294_967_296) as u32 };
            let secs: i64 = q as i64;
            assert(millis_parts(ms as int) == (secs as int, nanos as int));
            proof {
                reveal_strlit("%Y-%m-%d %H:%M:%S UTC");
            }
            match format_utc(secs, nanos, "%Y-%m-%d %H:%M:%S UTC") {
                Some(t) => t,
                None => owned(s),
            }
        }
        None => owned(s),
    }
}


/// Where a relative time's unit starts: its first alphabetic character.
pub open spec fn first_alphabetic(s: Seq<char>) -> Option<int> {
    if exists|i: int| 0 <= i < s.len() && unicode_alphabetic(s[i]) {
        Some(choose|i: int| 0 <= i < s.len() && unicode_alphabetic(s[i])
            && forall|j: int| 0 <= j < i ==> !unicode_alphabetic(s[j]))
    } else {
        None
    }
}

/// A relative time (after its `-`) split into number and unit at the
/// first alphabetic character; nothing when there is none or the number
/// part is empty.
pub open spec fn split_relative_spec(s: Seq<char>) -> Option<(Seq<char>, Seq<char>)> {
    match first_alphabetic(s) {
        Some(i) => if i == 0 {
            None
        } else {
            Some((s.take(i), s.skip(i)))
        },
        None => None,
    }
}

fn find_alphabetic(s: &[char]) -> (r: Option<usize>)
    ensures
        r matches Some(p) ==> p < s@.len() && first_alphabetic(s@) == Some(p as int),
        match first_alphabetic(s@) {
            Some(i) => r == Some(i as usize),
            None => r is None,
        },
{
    let mut i: usize = 0;
    while i < s.len()
        invariant
            i <= s@.len(),
            forall|j: int| 0 <= j < i ==> !unicode_alphabetic(s@[j]),
        decreases s@.len() - i,
    {
        if is_alphabetic(s[i]) {
            proof {
                let w = choose|k: int| 0 <= k < s@.len() && unicode_alphabetic(s@[k])
                    && forall|j: int| 0 <= j < k ==> !unicode_alphabetic(s@[j]);
                assert(0 <= i < s@.len() && unicode_alphabetic(s@[i as int])
                    && forall|j: int| 0 <= j < i ==> !unicode_alphabetic(s@[j]));
                if w < i {
                } else if w > i {
                    assert(!unicode_alphabetic(s@[i as int]));
                }
            }
            return Some(i);
        }
        i += 1;
    }
    None
}

/// Splits a relative time (after its `-`) into number and unit.
pub fn split_relative(s: &[char]) -> (r: Option<(Vec<char>, Vec<char>)>)
    ensures
        match split_relative_spec(s@) {
            Some((num, unit)) => r matches Some((a, b)) && a@ == num && b@ == unit,
            None => r is None,
        },
{
    let pos = match find_alphabetic(s) {
        Some(p) => p,
        None => return None,
    };
    if pos == 0 {
        return None;
    }
    let mut num: Vec<char> = Vec::new();
    let mut unit: Vec<char> = Vec::new();
    let mut i: usize = 0;
    while i < s.len()
        invariant
            0 < pos < s@.len(),
            i <= s@.len(),
            i <= pos ==> num@ == s@.take(i as int) && unit@.len() == 0,
            i > pos ==> num@ == s@.take(pos as int) && unit@ == s@.subrange(pos as int, i as int),
        decreases s@.len() - i,
    {
        if i < pos {
            num.push(s[i]);
            assert(s@.take(i + 1) =~= s@.take(i as int).push(s@[i as int]));
        } else {
            unit.push(s[i]);
            assert(s@.subrange(pos as int, i + 1) =~= s@.subrange(pos as int, i as int).push(s@[i as int]));
        }
        i += 1;
    }
    assert(unit@ =~= s@.skip(pos as int));
    Some((num, unit))
}

/// The seconds in one unit: `s`, `m`, `h`, `d` or `w`.
pub open spec fn unit_seconds_spec(unit: Seq<char>) -> Option<int> {
    if unit == seq!['s'] {
        Some(1)
    } else if unit == seq!['m'] {
        Some(60)
    } else if unit == seq!['h'] {
        Some(3600)
    } else if unit == seq!['d'] {
        Some(86400)
    } else if unit == seq!['w'] {
        Some(604800)
    } else {
        None
    }
}

fn unit_seconds(unit: &[char]) -> (r: Option<i64>)
    ensures
        match unit_seconds_spec(unit@) {
            Some(u) => r == Some(u as i64),
            None => r is None,
        },
{
    if unit.len() != 1 {
        assert(unit@ != seq!['s'] && unit@ != seq!['m'] && unit@ != seq!['h'] && unit@ != seq!['d'] && unit@ != seq!['w']);
        return None;
    }
    let c = unit[0];
    assert(unit@ =~= seq![c]);
    if c == 's' {
        Some(1)
    } else if c == 'm' {
        Some(60)
    } else if c == 'h' {
        Some(3600)
    } else if c == 'd' {
        Some(86400)
    } else if c == 'w' {
        Some(604800)
    } else {
        None
    }
}

/// What a time argument asks for.
pub enum TimeSpec {
    /// The current instant.
    Now,
    /// So many seconds before the current instant.
    SecondsAgo(i128),
    /// An absolute timestamp, to be parsed.
    Absolute,
}

/// The message for a relative time whose number does not parse.
pub open spec fn invalid_relative_message(s: Seq<char>) -> Seq<char> {
    "Invalid relative time: "@ + s
}

/// The message for a relative time with an unknown unit.
pub open spec fn unknown_unit_message(unit: Seq<char>, s: Seq<char>) -> Seq<char> {
    "Unknown time unit '"@ + unit + "' in '"@ + s + "'. Use s, m, h, d, or w."@
}

/// What a time argument asks for, or why it is invalid.
pub open spec fn time_spec(s: Seq<char>) -> Result<TimeSpec, Seq<char>> {
    if s == "now"@ {
        Ok(TimeSpec::Now)
    } else if s.len() > 0 && s[0] == '-' && split_relative_spec(s.skip(1)) is Some {
        let (num, unit) = split_relative_spec(s.skip(1)).unwrap();
        match parse_i64_spec(num) {
            None => Err(invalid_relative_message(s)),
            Some(n) => match unit_seconds_spec(unit) {
                None => Err(unknown_unit_message(unit, s)),
                Some(u) => Ok(TimeSpec::SecondsAgo((n * u) as i128)),
            },
        }
    } else {
        Ok(TimeSpec::Absolute)
    }
}

fn skip_first(chars: &Vec<char>) -> (rest: Vec<char>)
    requires
        chars@.len() > 0,
    ensures
        rest@ == chars@.skip(1),
{
    let mut rest: Vec<char> = Vec::new();
    let mut i: usize = 1;
    while i < chars.len()
        invariant
            1 <= i <= chars@.len(),
            rest@ == chars@.subrange(1, i as int),
        decreases chars@.len() - i,
    {
        rest.push(chars[i]);
        assert(chars@.subrange(1, i + 1) =~= chars@.subrange(1, i as int).push(chars@[i as int]));
        i += 1;
    }
    assert(rest@ =~= chars@.skip(1));
    rest
}

fn classify_relative(input: &str, num: &Vec<char>, unit: &Vec<char>) -> (r: Result<TimeSpec, String>)
    ensures
        match (r, parse_i64_spec(num@)) {
            (Err(e), None) => e@ == invalid_relative_message(input@),
            (Err(e), Some(n)) => unit_seconds_spec(unit@) is None && e@ == unknown_unit_message(unit@, input@),
            (Ok(TimeSpec::SecondsAgo(a)), Some(n)) => unit_seconds_spec(unit@) matches Some(u) && a == n * u,
            _ => false,
        },
{
    let n = match parse_i64(num.as_slice()) {
        Some(n) => n,
        None => {
            let e = concat("Invalid relative time: ", input);
            proof {
                reveal_strlit("Invalid relative time: ");
            }
            return Err(e);
        }
    };
    match unit_seconds(unit.as_slice()) {
        Some(u) => {
            assert(-0x8000_0000_0000_0000 * 604800 <= (n as i128) * (u as i128) <= 0x8000_0000_0000_0000 * 604800) by (nonlinear_arith)
                requires
                    1 <= u <= 604800,
                    -0x8000_0000_0000_0000 <= n <= 0x7fff_ffff_ffff_ffff,
            ;
            Ok(TimeSpec::SecondsAgo((n as i128) * (u as i128)))
        }
        None => {
            let unit_text = from_chars(unit.as_slice());
            let mut e = concat("Unknown time unit '", unit_text.as_str());
            e.append("' in '");
            e.append(input);
            e.append("'. Use s, m, h, d, or w.");
            proof {
                reveal_strlit("Unknown time unit '");
                reveal_strlit("' in '");
                reveal_strlit("'. Use s, m, h, d, or w.");
            }
            Err(e)
        }
    }
}

/// Reads a time argument.
pub fn classify_time(input: &str) -> (r: Result<TimeSpec, String>)
    ensures
        match (r, time_spec(input@)) {
            (Ok(a), Ok(b)) => a == b,
            (Err(e), Err(m)) => e@ == m,
            _ => false,
        },
{
    let chars = to_chars(input);
    let now_chars = to_chars("now");
    proof {
        reveal_strlit("now");
    }
    if chars_eq(chars.as_slice(), now_chars.as_slice()) {
        return Ok(TimeSpec::Now);
    }
    if chars.len() == 0 || chars[0] != '-' {
        return Ok(TimeSpec::Absolute);
    }
    let rest = skip_first(&chars);
    let (num, unit) = match split_relative(rest.as_slice()) {
        Some(parts) => parts,
        None => return Ok(TimeSpec::Absolute),
    };
    classify_relative(input, &num, &unit)
}

/// The message for a time that reaches beyond chrono's dates.
pub open spec fn out_of_range_message() -> Seq<char> {
    "`DateTime - TimeDelta` overflowed"@
}

/// The message for an absolute time chrono cannot read.
pub open spec fn unparsable_message(s: Seq<char>, detail: Seq<char>) -> Seq<char> {
    "Cannot parse time '"@ + s + "': "@ + detail
}

/// The instant a time argument names, relative ones counted back from the
/// clock reading `now`: an error when that falls outside chrono's dates.
pub open spec fn time_at(s: Seq<char>, now: Timestamp) -> Result<(int, int), Seq<char>> {
    match time_spec(s) {
        Err(m) => Err(m),
        Ok(TimeSpec::Now) => Ok((now.secs as int, now.nanos as int)),
        Ok(TimeSpec::SecondsAgo(a)) => if instant_in_range(now.secs - a) {
            Ok((now.secs - a, now.nanos as int))
        } else {
            Err(out_of_range_message())
        },
        Ok(TimeSpec::Absolute) => match chrono_parse_utc(s) {
            Ok(t) => Ok(t),
            Err(d) => Err(unparsable_message(s, d)),
        },
    }
}

/// The view of a parsed time.
pub open spec fn instant_view(r: Result<Timestamp, String>) -> Result<(int, int), Seq<char>> {
    match r {
        Ok(t) => Ok((t.secs as int, t.nanos as int)),
        Err(e) => Err(e@),
    }
}

/// A clock reading as `now()` gives one.
pub open spec fn clock_reading(now: Timestamp) -> bool {
    now.nanos < 1_000_000_000 && instant_in_range(now.secs as int)
}

/// The instant a time argument names, relative times counted back from
/// the clock reading `now`.
pub fn parse_time_at(input: &str, now: &Timestamp) -> (r: Result<Timestamp, String>)
    requires
        clock_reading(*now),
    ensures
        instant_view(r) == time_at(input@, *now),
        r matches Ok(t) ==> valid_instant(t.secs as int, t.nanos as int),
{
    proof {
        reveal_strlit("`DateTime - TimeDelta` overflowed");
    }
    match classify_time(input)? {
        TimeSpec::Now => Ok(Timestamp { secs: now.secs, nanos: now.nanos }),
        TimeSpec::SecondsAgo(a) => {
            if -9_223_372_036_854_775i128 <= a && a <= 9_223_372_036_854_775i128 {
                match seconds_before(now, a as i64) {
                    Some(t) => Ok(t),
                    None => Err(owned("`DateTime - TimeDelta` overflowed")),
                }
            } else {
                Err(owned("`DateTime - TimeDelta` overflowed"))
            }
        }
        TimeSpec::Absolute => match parse_utc(input) {
            Ok(t) => Ok(t),
            Err(d) => {
                let mut e = concat("Cannot parse time '", input);
                e.append("': ");
                e.append(d.as_str());
                proof {
                    reveal_strlit("Cannot parse time '");
                    reveal_strlit("': ");
                }
                Err(e)
            }
        },
    }
}

/// The instant a time argument names, relative times counted back from
/// the clock's current instant: `parse_time_at` with the reading the call
/// takes.
pub fn parse_time(input: &str) -> (r: Result<Timestamp, String>)
    ensures
        exists|now: Timestamp| clock_reading(now) && instant_view(r) == time_at(input@, now),
        r matches Ok(t) ==> valid_instant(t.secs as int, t.nanos as int),
{
    let current = now();
    let r = parse_time_at(input, &current);
    assert(clock_reading(current) && instant_view(r) == time_at(input@, current));
    r
}

} // verus!
