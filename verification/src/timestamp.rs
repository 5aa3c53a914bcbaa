//! Timestamps given on the command line: `now`, `now` minus a duration such
//! as `now-7d` or `now - 1h30m`, or an RFC 3339 date-time. They are resolved
//! either to an RFC 3339 UTC string with nanoseconds (what the infrastructure
//! API takes) or to Unix epoch seconds (what the service catalog takes).

use vstd::prelude::*;
use chrono::{DateTime, SecondsFormat, TimeDelta, Utc};
use crate::text::{slice_range, starts_with, trim, trim_chars, trim_start, trim_start_chars};

verus! {

/// The largest duration, in seconds, that can be subtracted from the clock
/// (the range of `chrono::TimeDelta`).
pub const MAX_OFFSET_SECONDS: u64 = 9_223_372_036_854_775;

// ── Grammar of relative timestamps ───────────────────────────────────────────

pub open spec fn is_digit(c: char) -> bool {
    '0' <= c && c <= '9'
}

pub open spec fn digit_value(c: char) -> nat {
    ((c as u32) - ('0' as u32)) as nat
}

/// Number of leading ASCII digits of `s`.
pub open spec fn leading_digits(s: Seq<char>) -> nat
    decreases s.len(),
{
    if s.len() > 0 && is_digit(s[0]) {
        1 + leading_digits(s.drop_first())
    } else {
        0
    }
}

/// The decimal value of a run of digits.
pub open spec fn digits_value(s: Seq<char>) -> nat
    decreases s.len(),
{
    if s.len() == 0 {
        0
    } else {
        digits_value(s.drop_last()) * 10 + digit_value(s.last())
    }
}

/// Seconds in one duration unit; 0 for a character that is no unit.
pub open spec fn unit_seconds(c: char) -> nat {
    if c == 's' {
        1
    } else if c == 'm' {
        60
    } else if c == 'h' {
        3600
    } else if c == 'd' {
        86400
    } else if c == 'w' {
        604800
    } else {
        0
    }
}

/// A duration written as groups of digits each followed by a unit
/// (`s`, `m`, `h`, `d`, `w`), e.g. `1h30m`; its length in seconds.
pub open spec fn duration_seconds(s: Seq<char>) -> Option<nat>
    decreases s.len(),
{
    if s.len() == 0 {
        Some(0)
    } else {
        let k = leading_digits(s);
        if k == 0 || k >= s.len() || unit_seconds(s[k as int]) == 0 {
            None
        } else {
            match duration_seconds(s.skip((k + 1) as int)) {
                Some(rest) => Some(digits_value(s.take(k as int)) * unit_seconds(s[k as int])
                    + rest),
                None => None,
            }
        }
    }
}

/// The offset from now that a relative timestamp names: `now` is 0, and
/// `now` followed by `-` and a non-empty duration (spaces allowed around the
/// `-`) is that duration. `None` for anything else. `t` is already trimmed.
pub open spec fn relative_offset(t: Seq<char>) -> Option<nat> {
    if t == "now"@ {
        Some(0)
    } else if starts_with(t, "now"@) {
        let r = trim_start(t.skip(3));
        if r.len() > 0 && r[0] == '-' {
            let d = trim(r.skip(1));
            if d.len() == 0 {
                None
            } else {
                duration_seconds(d)
            }
        } else {
            None
        }
    } else {
        None
    }
}

/// Whether a trimmed input is written relative to `now`.
pub open spec fn is_relative(t: Seq<char>) -> bool {
    starts_with(t, "now"@)
}

/// What `chrono` makes of an RFC 3339 date-time: the same instant in UTC,
/// written with nanoseconds and a `Z`; `None` when it does not parse.
pub uninterp spec fn spec_rfc3339_utc_nanos(s: Seq<char>) -> Option<Seq<char>>;

/// What `chrono` makes of an RFC 3339 date-time: its Unix epoch seconds;
/// `None` when it does not parse.
pub uninterp spec fn spec_rfc3339_epoch_seconds(s: Seq<char>) -> Option<i64>;

/// What `chrono` writes for a Unix epoch second: RFC 3339 in UTC, whole
/// seconds, with a `Z`; `None` outside the range chrono represents.
pub uninterp spec fn spec_epoch_to_rfc3339(secs: i64) -> Option<Seq<char>>;

// ── Trusted chrono calls ─────────────────────────────────────────────────────

/// `DateTime::parse_from_rfc3339`, then `to_rfc3339_opts(Nanos, true)` in
/// UTC. The result is a function of the input alone, named
/// `spec_rfc3339_utc_nanos`.
#[verifier::external_body]
fn rfc3339_to_utc_nanos(s: &str) -> (r: Option<String>)
    ensures
        match r {
            Some(x) => spec_rfc3339_utc_nanos(s@) == Some(x@),
            None => spec_rfc3339_utc_nanos(s@) is None,
        },
{
    DateTime::parse_from_rfc3339(s).ok().map(
        |d| d.with_timezone(&Utc).to_rfc3339_opts(SecondsFormat::Nanos, true),
    )
}

/// `DateTime::parse_from_rfc3339`, then `timestamp()`. The result is a
/// function of the input alone, named `spec_rfc3339_epoch_seconds`.
#[verifier::external_body]
fn rfc3339_epoch_seconds(s: &str) -> (r: Option<i64>)
    ensures
        r == spec_rfc3339_epoch_seconds(s@),
{
    DateTime::parse_from_rfc3339(s).ok().map(|d| d.timestamp())
}

/// `DateTime::from_timestamp(secs, 0)`, then `to_rfc3339_opts(Secs, true)`.
/// The result is a function of `secs` alone, named `spec_epoch_to_rfc3339`.
#[verifier::external_body]
pub fn epoch_to_rfc3339(secs: i64) -> (r: Option<String>)
    ensures
        match r {
            Some(x) => spec_epoch_to_rfc3339(secs) == Some(x@),
            None => spec_epoch_to_rfc3339(secs) is None,
        },
{
    DateTime::from_timestamp(secs, 0).map(|d| d.to_rfc3339_opts(SecondsFormat::Secs, true))
}

/// One reading of `Utc::now()`, and that instant minus `secs` seconds
/// (`TimeDelta::try_seconds`, `checked_sub_signed`), both written with
/// `to_rfc3339_opts(Nanos, true)`. The instant depends on the clock, so only
/// this is stated: subtracting nothing gives the reading itself, which
/// chrono always represents; and, where chrono reads both texts back, the
/// reading's epoch second is `secs` more than the result's (whole seconds
/// are taken off, the fraction kept). `None` when the result falls outside
/// chrono's range.
#[verifier::external_body]
fn utc_now_minus_nanos(secs: u64) -> (r: Option<(String, String)>)
    requires
        secs <= MAX_OFFSET_SECONDS,
    ensures
        secs == 0 ==> r is Some && (r->0).0@ == (r->0).1@,
        r is Some ==> clock_distance((r->0).0@, (r->0).1@, secs as nat),
{
    let delta = TimeDelta::try_seconds(secs as i64)?;
    let now = Utc::now();
    now.checked_sub_signed(delta).map(
        |d| {
            (
                now.to_rfc3339_opts(SecondsFormat::Nanos, true),
                d.to_rfc3339_opts(SecondsFormat::Nanos, true),
            )
        },
    )
}

/// Where chrono reads both RFC 3339 texts back, the first is `n` seconds
/// after the second, to the epoch second.
pub open spec fn clock_distance(clock: Seq<char>, x: Seq<char>, n: nat) -> bool {
    spec_rfc3339_epoch_seconds(clock) is Some && spec_rfc3339_epoch_seconds(x) is Some ==> spec_rfc3339_epoch_seconds(
        clock,
    )->0 - spec_rfc3339_epoch_seconds(x)->0 == n
}

/// `Utc::now().timestamp()`: the current Unix epoch second. It depends on
/// the clock, so nothing is stated of it.
#[verifier::external_body]
fn utc_now_epoch_seconds() -> (r: i64) {
    Utc::now().timestamp()
}

// ── Errors ───────────────────────────────────────────────────────────────────

/// Why a timestamp was refused.
#[derive(Debug, Clone, PartialEq, Eq)]
pub enum TimestampError {
    /// Neither a relative form nor an RFC 3339 date-time.
    Unrecognised { input: String },
    /// A relative form whose duration is longer than the clock can go back.
    OutOfRange { input: String },
}

impl TimestampError {
    pub open spec fn spec_message(&self) -> Seq<char> {
        match self {
            TimestampError::Unrecognised { input } => "invalid timestamp '"@ + input@
                + "': expected now, now-<duration> (e.g. now-7d, now-1h30m) or an RFC 3339 date-time"@,
            TimestampError::OutOfRange { input } => "timestamp '"@ + input@
                + "' reaches further back than can be represented"@,
        }
    }

    /// The error as the user reads it.
    pub fn message(&self) -> (r: String)
        ensures
            r@ == self.spec_message(),
    {
        let mut r = String::new();
        match self {
            TimestampError::Unrecognised { input } => {
                r.append("invalid timestamp '");
                r.append(input.as_str());
                r.append(
                    "': expected now, now-<duration> (e.g. now-7d, now-1h30m) or an RFC 3339 date-time",
                );
            },
            TimestampError::OutOfRange { input } => {
                r.append("timestamp '");
                r.append(input.as_str());
                r.append("' reaches further back than can be represented");
            },
        }
        r
    }
}

// ── Parsing the relative form ────────────────────────────────────────────────

/// Outcome of reading a duration.
pub enum DurationRead {
    Invalid,
    TooLong,
    Seconds(u64),
}

proof fn lemma_leading_digits(s: Seq<char>, k: int)
    requires
        0 <= k <= s.len(),
        forall|j: int| 0 <= j < k ==> is_digit(#[trigger] s[j]),
        k == s.len() || !is_digit(s[k]),
    ensures
        leading_digits(s) == k,
    decreases k,
{
    if k > 0 {
        assert forall|j: int| 0 <= j < k - 1 implies is_digit(#[trigger] s.drop_first()[j]) by {
            assert(s.drop_first()[j] == s[j + 1]);
        }
        if k < s.len() {
            assert(s.drop_first()[k - 1] == s[k]);
        }
        lemma_leading_digits(s.drop_first(), k - 1);
    }
}

proof fn lemma_digits_push(s: Seq<char>, lo: int, i: int)
    requires
        0 <= lo <= i < s.len(),
    ensures
        digits_value(s.subrange(lo, i + 1)) == digits_value(s.subrange(lo, i)) * 10
            + digit_value(s[i]),
{
    assert(s.subrange(lo, i + 1).drop_last() =~= s.subrange(lo, i));
}

/// Reads `v[pos..]` as a duration (see `duration_seconds`).
fn read_duration(v: &[char], pos: usize) -> (r: DurationRead)
    requires
        pos <= v@.len(),
    ensures
        match r {
            DurationRead::Invalid => duration_seconds(v@.skip(pos as int)) is None,
            DurationRead::TooLong => exists|n: nat|
                duration_seconds(v@.skip(pos as int)) == Some(n) && n > MAX_OFFSET_SECONDS,
            DurationRead::Seconds(x) => duration_seconds(v@.skip(pos as int)) == Some(x as nat)
                && x <= MAX_OFFSET_SECONDS,
        },
    decreases v@.len() - pos,
{
    let n = v.len();
    let ghost s = v@.skip(pos as int);
    if pos == n {
        return DurationRead::Seconds(0);
    }
    let mut i = pos;
    let mut val: u64 = 0;
    let mut big = false;
    while i < n && '0' <= v[i] && v[i] <= '9'
        invariant
            pos <= i <= n == v@.len(),
            s == v@.skip(pos as int),
            forall|j: int| pos <= j < i ==> is_digit(#[trigger] v@[j]),
            !big ==> val == digits_value(v@.subrange(pos as int, i as int)) && val
                <= MAX_OFFSET_SECONDS,
            big ==> digits_value(v@.subrange(pos as int, i as int)) > MAX_OFFSET_SECONDS,
        decreases n - i,
    {
        proof {
            lemma_digits_push(v@, pos as int, i as int);
        }
        let d = (v[i] as u32 - '0' as u32) as u64;
        if !big {
            let nv = val * 10 + d;
            if nv > MAX_OFFSET_SECONDS {
                big = true;
            } else {
                val = nv;
            }
        }
        i = i + 1;
    }
    let k = i - pos;
    proof {
        assert forall|j: int| 0 <= j < k implies is_digit(#[trigger] s[j]) by {
            assert(s[j] == v@[pos + j]);
        }
        if i < n {
            assert(s[k as int] == v@[i as int]);
        }
        lemma_leading_digits(s, k as int);
        assert(s.take(k as int) =~= v@.subrange(pos as int, i as int));
    }
    if k == 0 || i >= n {
        return DurationRead::Invalid;
    }
    let c = v[i];
    assert(s[k as int] == c);
    let unit: u64 = if c == 's' {
        1
    } else if c == 'm' {
        60
    } else if c == 'h' {
        3600
    } else if c == 'd' {
        86400
    } else if c == 'w' {
        604800
    } else {
        0
    };
    if unit == 0 {
        return DurationRead::Invalid;
    }
    assert(v@.skip((i + 1) as int) =~= s.skip(k + 1));
    let rest = read_duration(v, i + 1);
    match rest {
        DurationRead::Invalid => DurationRead::Invalid,
        DurationRead::TooLong => {
            proof {
                let dv = digits_value(s.take(k as int));
                assert(dv * unit >= 0) by (nonlinear_arith)
                    requires
                        unit >= 1,
                ;
            }
            DurationRead::TooLong
        },
        DurationRead::Seconds(r) => {
            if big {
                proof {
                    let dv = digits_value(s.take(k as int));
                    assert(dv * unit >= dv) by (nonlinear_arith)
                        requires
                            unit >= 1,
                    ;
                }
                return DurationRead::TooLong;
            }
            let g: u128 = (val as u128) * (unit as u128);
            assert(g == val * unit);
            let total: u128 = g + r as u128;
            if total > MAX_OFFSET_SECONDS as u128 {
                DurationRead::TooLong
            } else {
                DurationRead::Seconds(total as u64)
            }
        },
    }
}

/// Reads the trimmed input `t` as a relative timestamp.
fn read_relative(t: &[char]) -> (r: DurationRead)
    requires
        is_relative(t@),
    ensures
        match r {
            DurationRead::Invalid => relative_offset(t@) is None,
            DurationRead::TooLong => exists|n: nat|
                relative_offset(t@) == Some(n) && n > MAX_OFFSET_SECONDS,
            DurationRead::Seconds(x) => relative_offset(t@) == Some(x as nat) && x
                <= MAX_OFFSET_SECONDS,
        },
{
    proof {
        reveal_strlit("now");
    }
    if t.len() == 3 {
        assert(t@ =~= "now"@);
        return DurationRead::Seconds(0);
    }
    assert(t@ != "now"@);
    let after = slice_range(t, 3, t.len());
    assert(after@ =~= t@.skip(3));
    let r = trim_start_chars(&after);
    if r.len() == 0 || r[0] != '-' {
        return DurationRead::Invalid;
    }
    let rest = slice_range(&r, 1, r.len());
    assert(rest@ =~= r@.skip(1));
    let d = trim_chars(&rest);
    if d.len() == 0 {
        return DurationRead::Invalid;
    }
    assert(d@.skip(0) =~= d@);
    read_duration(&d, 0)
}

// ── Resolving a timestamp ────────────────────────────────────────────────────

/// `r` refuses `input` as unrecognised.
pub open spec fn refused_unrecognised<T>(r: Result<T, TimestampError>, input: Seq<char>) -> bool {
    match r {
        Err(TimestampError::Unrecognised { input: i }) => i@ == input,
        _ => false,
    }
}

/// `r` refuses `input` as reaching outside the representable range.
pub open spec fn refused_out_of_range<T>(r: Result<T, TimestampError>, input: Seq<char>) -> bool {
    match r {
        Err(TimestampError::OutOfRange { input: i }) => i@ == input,
        _ => false,
    }
}

/// What resolving `input` to an RFC 3339 string may give: for a relative
/// form, a refusal when its duration does not parse or is longer than the
/// clock can go back, an instant when it is zero (`now` itself), and
/// otherwise some instant or a refusal as out of range (it depends on the
/// clock); for any other input, chrono's reading
/// of it, or a refusal when chrono cannot read it.
pub open spec fn nanos_outcome(input: Seq<char>, r: Result<String, TimestampError>) -> bool {
    let t = trim(input);
    if is_relative(t) {
        match relative_offset(t) {
            None => refused_unrecognised(r, input),
            Some(n) => if n > MAX_OFFSET_SECONDS {
                refused_out_of_range(r, input)
            } else if n == 0 {
                r is Ok
            } else {
                r is Ok || refused_out_of_range(r, input)
            },
        }
    } else {
        match spec_rfc3339_utc_nanos(t) {
            Some(x) => r matches Ok(y) && y@ == x,
            None => refused_unrecognised(r, input),
        }
    }
}

/// What resolving `input` gives, with `clock` the clock reading it used
/// (when it read the clock): the outcome `nanos_outcome` allows, and for an
/// accepted relative form `now - d`, an instant `d` seconds before the
/// reading (`now` itself is the reading).
pub open spec fn nanos_answer_at(input: Seq<char>, clock: Option<Seq<char>>, r: Result<String, TimestampError>) -> bool {
    &&& nanos_outcome(input, r)
    &&& is_relative(trim(input)) ==> (relative_offset(trim(input)) matches Some(n) ==> (r matches Ok(x) ==> (
    clock matches Some(c) && clock_distance(c, x@, n) && (n == 0 ==> c == x@))))
}

/// Resolves `input` to an RFC 3339 UTC string with nanoseconds and a `Z`,
/// with the clock reading used for a relative form.
///
/// The input is trimmed first. A relative form (`now`, `now-<duration>`) is
/// refused when its duration does not parse, or is longer than the clock can
/// go back; otherwise it is the clock minus the duration, which can still be
/// refused as out of range when that instant is before chrono's range. Any
/// other input is handed to chrono as RFC 3339 and comes back as chrono
/// writes it, or is refused.
pub fn resolve_timestamp_nanos(input: &str) -> (r: (Result<String, TimestampError>, Option<String>))
    ensures
        nanos_answer_at(
            input@,
            match r.1 {
                Some(c) => Some(c@),
                None => None,
            },
            r.0,
        ),
{
    let v = crate::text::chars_of(input);
    let t = trim_chars(&v);
    if is_relative_exec(&t) {
        match read_relative(&t) {
            DurationRead::Invalid => (
                Err(TimestampError::Unrecognised { input: crate::text::owned(input) }),
                None,
            ),
            DurationRead::TooLong => (
                Err(TimestampError::OutOfRange { input: crate::text::owned(input) }),
                None,
            ),
            DurationRead::Seconds(secs) => match utc_now_minus_nanos(secs) {
                Some((c, x)) => (Ok(x), Some(c)),
                None => (Err(TimestampError::OutOfRange { input: crate::text::owned(input) }), None),
            },
        }
    } else {
        let ts = crate::text::string_of(&t);
        match rfc3339_to_utc_nanos(ts.as_str()) {
            Some(x) => (Ok(x), None),
            None => (Err(TimestampError::Unrecognised { input: crate::text::owned(input) }), None),
        }
    }
}

/// Resolves `input` to an RFC 3339 UTC string with nanoseconds and a `Z`
/// (see `resolve_timestamp_nanos`); a relative form is resolved against
/// some clock reading.
pub fn parse_timestamp_nanos(input: &str) -> (r: Result<String, TimestampError>)
    ensures
        nanos_outcome(input@, r),
        exists|clock: Option<Seq<char>>| nanos_answer_at(input@, clock, r),
{
    let (r, clock) = resolve_timestamp_nanos(input);
    let ghost c = match clock {
        Some(c) => Some(c@),
        None => None,
    };
    assert(nanos_answer_at(input@, c, r));
    r
}

/// What resolving `input` to Unix epoch seconds gives when the clock reads
/// `now`: for a relative form `now - d`, `now` minus `d` seconds (refused
/// when that leaves the `i64` range or `d` is longer than the clock can go
/// back); for anything else, chrono's reading of it as RFC 3339.
pub open spec fn epoch_answer_at(input: Seq<char>, now: i64, r: Result<i64, TimestampError>) -> bool {
    let t = trim(input);
    if is_relative(t) {
        match relative_offset(t) {
            None => refused_unrecognised(r, input),
            Some(n) => if n > MAX_OFFSET_SECONDS || now - n < i64::MIN {
                refused_out_of_range(r, input)
            } else {
                r matches Ok(x) && x == now - n
            },
        }
    } else {
        match spec_rfc3339_epoch_seconds(t) {
            Some(x) => r == Ok::<i64, TimestampError>(x),
            None => refused_unrecognised(r, input),
        }
    }
}

/// Resolves `input` to Unix epoch seconds against the clock reading `now`.
pub fn epoch_seconds_at(input: &str, now: i64) -> (r: Result<i64, TimestampError>)
    ensures
        epoch_answer_at(input@, now, r),
{
    let v = crate::text::chars_of(input);
    let t = trim_chars(&v);
    if is_relative_exec(&t) {
        match read_relative(&t) {
            DurationRead::Invalid => Err(
                TimestampError::Unrecognised { input: crate::text::owned(input) },
            ),
            DurationRead::TooLong => Err(
                TimestampError::OutOfRange { input: crate::text::owned(input) },
            ),
            DurationRead::Seconds(secs) => match now.checked_sub(secs as i64) {
                Some(x) => Ok(x),
                None => Err(TimestampError::OutOfRange { input: crate::text::owned(input) }),
            },
        }
    } else {
        let ts = crate::text::string_of(&t);
        match rfc3339_epoch_seconds(ts.as_str()) {
            Some(x) => Ok(x),
            None => Err(TimestampError::Unrecognised { input: crate::text::owned(input) }),
        }
    }
}

/// Resolves `input` to Unix epoch seconds against one reading of the
/// clock, and gives that reading.
pub fn resolve_epoch_seconds(input: &str) -> (r: (Result<i64, TimestampError>, i64))
    ensures
        epoch_answer_at(input@, r.1, r.0),
{
    let now = utc_now_epoch_seconds();
    (epoch_seconds_at(input, now), now)
}

/// Resolves `input` to Unix epoch seconds, with the same grammar as
/// [`parse_timestamp_nanos`]: a relative form is the clock's epoch second
/// minus the duration (refused when that leaves the `i64` range), anything
/// else is chrono's reading of it as RFC 3339.
pub fn parse_timestamp_epoch_seconds(input: &str) -> (r: Result<i64, TimestampError>)
    ensures
        ({
            let t = trim(input@);
            if is_relative(t) {
                match relative_offset(t) {
                    None => refused_unrecognised(r, input@),
                    Some(n) => if n > MAX_OFFSET_SECONDS {
                        refused_out_of_range(r, input@)
                    } else {
                        r is Ok || refused_out_of_range(r, input@)
                    },
                }
            } else {
                match spec_rfc3339_epoch_seconds(t) {
                    Some(x) => r == Ok::<i64, TimestampError>(x),
                    None => refused_unrecognised(r, input@),
                }
            }
        }),
        exists|now: i64| epoch_answer_at(input@, now, r),
{
    let (r, now) = resolve_epoch_seconds(input);
    assert(epoch_answer_at(input@, now, r));
    r
}

/// Whether `t` starts with `now`.
fn is_relative_exec(t: &[char]) -> (r: bool)
    ensures
        r == is_relative(t@),
{
    proof {
        reveal_strlit("now");
    }
    if t.len() >= 3 && t[0] == 'n' && t[1] == 'o' && t[2] == 'w' {
        assert(t@.take(3) =~= "now"@);
        true
    } else {
        assert(t@.len() >= 3 ==> t@.take(3)[0] == t@[0] && t@.take(3)[1] == t@[1] && t@.take(
            3,
        )[2] == t@[2]);
        false
    }
}


// ── Laws of relative timestamps ──────────────────────────────────────────────

/// `now-d`, for a duration text `d` with no whitespace at its ends, is a
/// relative form whose offset is the length of `d` in seconds; `now` is a
/// relative form of offset 0.
proof fn lemma_now_minus_text(d: Seq<char>)
    requires
        d.len() > 0,
        !crate::text::is_ws(d[0]),
        !crate::text::is_ws(d.last()),
    ensures
        trim("now-"@ + d) == "now-"@ + d,
        is_relative("now-"@ + d),
        relative_offset("now-"@ + d) == duration_seconds(d),
        trim("now"@) == "now"@,
        is_relative("now"@),
        relative_offset("now"@) == Some(0nat),
{
    reveal_strlit("now-");
    reveal_strlit("now");
    let t = "now-"@ + d;
    assert(t[0] == 'n');
    assert(t.last() == d.last());
    crate::text::lemma_trim_clean(t);
    assert(t.take(3) =~= "now"@);
    assert(t != "now"@) by {
        assert(t.len() != "now"@.len());
    }
    let rest = t.skip(3);
    assert(rest =~= seq!['-'] + d);
    assert(!crate::text::is_ws(rest[0]));
    assert(trim_start(rest) == rest);
    assert(rest.skip(1) =~= d);
    crate::text::lemma_trim_clean(d);
    assert("now"@[0] == 'n' && "now"@.last() == 'w');
    crate::text::lemma_trim_clean("now"@);
    assert("now"@.take(3) =~= "now"@);
}

/// Resolved to epoch seconds against one clock reading, `now` is the
/// reading and `now-d` is the reading minus the length of `d` in seconds:
/// the two answers are exactly that many seconds apart.
pub proof fn lemma_epoch_of_now_minus_is_clock_minus_duration(
    d: Seq<char>,
    clock: i64,
    x: i64,
    y: i64,
)
    requires
        d.len() > 0,
        !crate::text::is_ws(d[0]),
        !crate::text::is_ws(d.last()),
        epoch_answer_at("now-"@ + d, clock, Ok(x)),
        epoch_answer_at("now"@, clock, Ok(y)),
    ensures
        y == clock,
        duration_seconds(d) matches Some(k) && y - x == k,
{
    lemma_now_minus_text(d);
}

/// Resolved to RFC 3339, `now` is the clock reading itself, and an
/// accepted `now-d` lies the length of `d` in seconds before the reading
/// it was resolved against (to the epoch second, where chrono reads both
/// back).
pub proof fn lemma_nanos_of_now_minus_is_clock_minus_duration(
    d: Seq<char>,
    clock: Option<Seq<char>>,
    x: String,
    now_clock: Option<Seq<char>>,
    y: String,
)
    requires
        d.len() > 0,
        !crate::text::is_ws(d[0]),
        !crate::text::is_ws(d.last()),
        nanos_answer_at("now-"@ + d, clock, Ok(x)),
        nanos_answer_at("now"@, now_clock, Ok(y)),
    ensures
        duration_seconds(d) matches Some(k) && clock matches Some(c) && clock_distance(c, x@, k),
        now_clock == Some(y@),
{
    lemma_now_minus_text(d);
}

/// The duration units and their lengths in seconds: a second, a minute, an
/// hour, a day and a week.
pub open spec fn duration_units() -> Seq<(char, nat)> {
    seq![('s', 1nat), ('m', 60nat), ('h', 3600nat), ('d', 86400nat), ('w', 604800nat)]
}

/// The leading digits of digits followed by a non-digit are those digits.
proof fn lemma_leading_digits_of_group(ds: Seq<char>, tail: Seq<char>)
    requires
        forall|i: int| 0 <= i < ds.len() ==> is_digit(#[trigger] ds[i]),
        tail.len() > 0,
        !is_digit(tail[0]),
    ensures
        leading_digits(ds + tail) == ds.len(),
    decreases ds.len(),
{
    if ds.len() == 0 {
        assert((ds + tail)[0] == tail[0]);
    } else {
        assert((ds + tail).drop_first() =~= ds.drop_first() + tail);
        lemma_leading_digits_of_group(ds.drop_first(), tail);
    }
}

/// A duration is read group by group: digits followed by a unit count that
/// many units (a second, a minute, an hour, a day or a week), and the
/// groups after it add on; the whole is refused when the rest is.
pub proof fn lemma_duration_adds_its_groups(ds: Seq<char>, i: int, rest: Seq<char>)
    requires
        ds.len() > 0,
        forall|j: int| 0 <= j < ds.len() ==> is_digit(#[trigger] ds[j]),
        0 <= i < duration_units().len(),
    ensures
        duration_seconds(ds + seq![duration_units()[i].0] + rest) == match duration_seconds(rest) {
            Some(r) => Some(digits_value(ds) * duration_units()[i].1 + r),
            None => None,
        },
{
    let u = duration_units()[i].0;
    let s = ds + seq![u] + rest;
    let tail = seq![u] + rest;
    assert(s =~= ds + tail);
    assert(!is_digit(u));
    lemma_leading_digits_of_group(ds, tail);
    let k = ds.len();
    assert(s[k as int] == u);
    assert(s.take(k as int) =~= ds);
    assert(s.skip((k + 1) as int) =~= rest);
    assert(unit_seconds(u) == duration_units()[i].1);
}

} // verus!
