//! `cx logs`: merging the answers of several profiles, and how a log's
//! severity is shown.

use crate::json::{
    as_str_of, at_pointer, cell_text, get_value, json_as_str, json_at_pointer, json_cell_text,
    json_get, json_str_at, json_str_at_pointer, json_with_string_field, or_else, str_at,
    str_at_pointer, with_string_field,
};
use crate::text::{owned, push_str, spec_to_uppercase, views};
use vstd::prelude::*;

verus! {

// ── Merge ────────────────────────────────────────────────────────────────────

/// One profile's answer to a log query, as far as merging reads it.
pub struct LogsResponse {
    pub raw_results: Vec<serde_json::Value>,
    pub warnings: Vec<String>,
    pub is_aggregate: bool,
}

/// The answers of all profiles, merged.
pub struct MergedLogs {
    /// The rows of the profiles that answered, in profile order.
    pub rows: Vec<serde_json::Value>,
    /// Each warning, behind the name of its profile in brackets.
    pub warnings: Vec<String>,
    /// Whether the first profile that answered ran an aggregation.
    pub is_aggregate: bool,
    pub include_profile: bool,
    /// One line for each profile that failed, to be shown as an error.
    pub errors: Vec<String>,
}

/// The key under which a row names its profile.
pub open spec fn profile_key() -> Seq<char> {
    "profile"@
}

/// A profile's rows as merged: each tagged with the profile's name when
/// profiles are shown, else as they came.
pub open spec fn tagged_rows(raw: Seq<serde_json::Value>, profile: Seq<char>, tagged: bool) -> Seq<
    serde_json::Value,
> {
    if tagged {
        raw.map_values(|v: serde_json::Value| json_with_string_field(v, profile_key(), profile))
    } else {
        raw
    }
}

/// `[profile] warning`.
pub open spec fn warning_line(profile: Seq<char>, w: Seq<char>) -> Seq<char> {
    "["@ + profile + "] "@ + w
}

/// `error from profile 'profile': message`.
pub open spec fn error_line(profile: Seq<char>, message: Seq<char>) -> Seq<char> {
    "error from profile '"@ + profile + "': "@ + message
}

/// The merged rows of `answers`.
pub open spec fn merged_rows(answers: Seq<(String, Result<LogsResponse, String>)>, tagged: bool) -> Seq<
    serde_json::Value,
>
    decreases answers.len(),
{
    if answers.len() == 0 {
        seq![]
    } else {
        let (profile, answer) = answers.last();
        merged_rows(answers.drop_last(), tagged) + match answer {
            Ok(r) => tagged_rows(r.raw_results@, profile@, tagged),
            Err(_) => seq![],
        }
    }
}

/// The merged warnings of `answers`.
pub open spec fn merged_warnings(answers: Seq<(String, Result<LogsResponse, String>)>) -> Seq<
    Seq<char>,
>
    decreases answers.len(),
{
    if answers.len() == 0 {
        seq![]
    } else {
        let (profile, answer) = answers.last();
        merged_warnings(answers.drop_last()) + match answer {
            Ok(r) => r.warnings@.map_values(|w: String| warning_line(profile@, w@)),
            Err(_) => seq![],
        }
    }
}

/// The error lines of the profiles of `answers` that failed.
pub open spec fn merged_errors(answers: Seq<(String, Result<LogsResponse, String>)>) -> Seq<
    Seq<char>,
>
    decreases answers.len(),
{
    if answers.len() == 0 {
        seq![]
    } else {
        let (profile, answer) = answers.last();
        merged_errors(answers.drop_last()) + match answer {
            Ok(_) => seq![],
            Err(e) => seq![error_line(profile@, e@)],
        }
    }
}

/// The aggregation flag of the first profile of `answers` that answered.
pub open spec fn first_aggregate(answers: Seq<(String, Result<LogsResponse, String>)>) -> Option<
    bool,
>
    decreases answers.len(),
{
    if answers.len() == 0 {
        None
    } else {
        match first_aggregate(answers.drop_last()) {
            Some(b) => Some(b),
            None => match answers.last().1 {
                Ok(r) => Some(r.is_aggregate),
                Err(_) => None,
            },
        }
    }
}

/// How many rows the profiles that answered sent, all together.
pub open spec fn answered_rows(answers: Seq<(String, Result<LogsResponse, String>)>) -> nat
    decreases answers.len(),
{
    if answers.len() == 0 {
        0
    } else {
        answered_rows(answers.drop_last()) + match answers.last().1 {
            Ok(r) => r.raw_results@.len(),
            Err(_) => 0,
        }
    }
}

/// Merging keeps every row of every profile that answered, and no other:
/// the merged rows are exactly as many as the answered ones, tagged or not.
pub proof fn lemma_merge_keeps_every_answered_row(
    answers: Seq<(String, Result<LogsResponse, String>)>,
    tagged: bool,
)
    ensures
        merged_rows(answers, tagged).len() == answered_rows(answers),
    decreases answers.len(),
{
    if answers.len() > 0 {
        lemma_merge_keeps_every_answered_row(answers.drop_last(), tagged);
    }
}

/// The rows of one profile, each tagged with its name.
pub(crate) fn tag_rows(raw: Vec<serde_json::Value>, profile: &str) -> (r: Vec<serde_json::Value>)
    ensures
        r@ == tagged_rows(raw@, profile@, true),
{
    let ghost all = raw@;
    let n = raw.len();
    let mut rest = raw;
    let mut out: Vec<serde_json::Value> = Vec::new();
    let mut k: usize = 0;
    while k < n
        invariant
            n == all.len(),
            k <= n,
            rest@ == all.subrange(k as int, n as int),
            out@ == tagged_rows(all.subrange(0, k as int), profile@, true),
        decreases n - k,
    {
        let row = rest.remove(0);
        out.push(with_string_field(row, "profile", profile));
        proof {
            reveal_strlit("profile");
            assert(all.subrange(0, k + 1) =~= all.subrange(0, k as int).push(all[k as int]));
            assert(rest@ =~= all.subrange(k + 1, n as int));
        }
        assert(out@ =~= tagged_rows(all.subrange(0, k + 1), profile@, true));
        k = k + 1;
    }
    assert(all.subrange(0, n as int) =~= all);
    out
}

/// The warnings of one profile, each behind its name.
fn warning_lines(profile: &str, ws: &Vec<String>) -> (r: Vec<String>)
    ensures
        views(r@) == ws@.map_values(|w: String| warning_line(profile@, w@)),
{
    let mut out: Vec<String> = Vec::new();
    let n = ws.len();
    for i in 0..n
        invariant
            n == ws@.len(),
            views(out@) == ws@.take(i as int).map_values(|w: String| warning_line(profile@, w@)),
    {
        let mut line = owned("[");
        push_str(&mut line, profile);
        push_str(&mut line, "] ");
        push_str(&mut line, ws[i].as_str());
        proof {
            crate::text::lemma_views_push(out@, line);
            assert(ws@.take(i + 1) =~= ws@.take(i as int).push(ws@[i as int]));
        }
        out.push(line);
        assert(views(out@) =~= ws@.take(i + 1).map_values(|w: String| warning_line(profile@, w@)));
    }
    assert(ws@.take(n as int) =~= ws@);
    out
}

/// Merges the answers of several profiles, in their order: the rows of each
/// profile that answered (tagged with its name under `"profile"` when
/// `include_profile`), its warnings behind its name, the aggregation flag of
/// the first that answered (`false` when none did), and an error line for
/// each that failed.
pub fn merge(per_profile: Vec<(String, Result<LogsResponse, String>)>, include_profile: bool) -> (m: MergedLogs)
    ensures
        m.rows@ == merged_rows(per_profile@, include_profile),
        views(m.warnings@) == merged_warnings(per_profile@),
        views(m.errors@) == merged_errors(per_profile@),
        m.is_aggregate == match first_aggregate(per_profile@) {
            Some(b) => b,
            None => false,
        },
        m.include_profile == include_profile,
{
    let ghost all = per_profile@;
    let n = per_profile.len();
    let mut rest = per_profile;
    let mut rows: Vec<serde_json::Value> = Vec::new();
    let mut warnings: Vec<String> = Vec::new();
    let mut errors: Vec<String> = Vec::new();
    let mut aggregate: Option<bool> = None;
    let mut k: usize = 0;
    while k < n
        invariant
            n == all.len(),
            k <= n,
            rest@ == all.subrange(k as int, n as int),
            rows@ == merged_rows(all.subrange(0, k as int), include_profile),
            views(warnings@) == merged_warnings(all.subrange(0, k as int)),
            views(errors@) == merged_errors(all.subrange(0, k as int)),
            aggregate == first_aggregate(all.subrange(0, k as int)),
        decreases n - k,
    {
        let (profile, answer) = rest.remove(0);
        proof {
            let pre = all.subrange(0, k + 1);
            assert(pre.drop_last() =~= all.subrange(0, k as int));
            assert(pre.last() == all[k as int]);
            assert(rest@ =~= all.subrange(k + 1, n as int));
        }
        match answer {
            Ok(resp) => {
                let mut lines = warning_lines(profile.as_str(), &resp.warnings);
                let ghost before = warnings@;
                let ghost added = lines@;
                warnings.append(&mut lines);
                assert(views(warnings@) =~= views(before) + views(added));
                if aggregate.is_none() {
                    aggregate = Some(resp.is_aggregate);
                }
                let LogsResponse { raw_results, warnings: _, is_aggregate: _ } = resp;
                let mut tagged = if include_profile {
                    tag_rows(raw_results, profile.as_str())
                } else {
                    raw_results
                };
                rows.append(&mut tagged);
            },
            Err(e) => {
                let mut line = owned("error from profile '");
                push_str(&mut line, profile.as_str());
                push_str(&mut line, "': ");
                push_str(&mut line, e.as_str());
                proof {
                    crate::text::lemma_views_push(errors@, line);
                }
                errors.push(line);
            },
        }
        k = k + 1;
    }
    assert(all.subrange(0, n as int) =~= all);
    let is_aggregate = match aggregate {
        Some(b) => b,
        None => false,
    };
    MergedLogs { rows, warnings, is_aggregate, include_profile, errors }
}

/// The name of a severity: the numeric codes `1`..`6` are `DEBUG`,
/// `VERBOSE`, `INFO`, `WARNING`, `ERROR` and `CRITICAL`; anything else is
/// shown upper-cased.
pub open spec fn spec_map_severity(raw: Seq<char>) -> Seq<char> {
    if raw == "1"@ {
        "DEBUG"@
    } else if raw == "2"@ {
        "VERBOSE"@
    } else if raw == "3"@ {
        "INFO"@
    } else if raw == "4"@ {
        "WARNING"@
    } else if raw == "5"@ {
        "ERROR"@
    } else if raw == "6"@ {
        "CRITICAL"@
    } else {
        crate::text::spec_to_uppercase(raw)
    }
}

/// The severity levels in the order of their numeric codes `1`..`6`.
pub open spec fn severity_levels() -> Seq<Seq<char>> {
    seq!["DEBUG"@, "VERBOSE"@, "INFO"@, "WARNING"@, "ERROR"@, "CRITICAL"@]
}

/// The numeric codes name the levels in order: code `k` (1 to 6), written
/// in decimal, is the `k`-th level of `DEBUG`, `VERBOSE`, `INFO`,
/// `WARNING`, `ERROR`, `CRITICAL`; so no two codes share a name.
pub proof fn lemma_severity_codes_name_the_levels(code: nat, other: nat)
    requires
        1 <= code <= 6,
        1 <= other <= 6,
    ensures
        spec_map_severity(crate::text::decimal_nat(code)) == severity_levels()[code - 1],
        code != other ==> spec_map_severity(crate::text::decimal_nat(code)) != spec_map_severity(
            crate::text::decimal_nat(other),
        ),
{
    reveal_strlit("1");
    reveal_strlit("2");
    reveal_strlit("3");
    reveal_strlit("4");
    reveal_strlit("5");
    reveal_strlit("6");
    reveal_strlit("DEBUG");
    reveal_strlit("VERBOSE");
    reveal_strlit("INFO");
    reveal_strlit("WARNING");
    reveal_strlit("ERROR");
    reveal_strlit("CRITICAL");
    lemma_code_text(code);
    lemma_code_text(other);
    lemma_code_name(code);
    lemma_code_name(other);
    assert(severity_levels()[0][0] == 'D' && severity_levels()[1][0] == 'V' && severity_levels()[2][0] == 'I');
    assert(severity_levels()[3][0] == 'W' && severity_levels()[4][0] == 'E' && severity_levels()[5][0] == 'C');
}

/// The name of one code from 1 to 6.
proof fn lemma_code_name(code: nat)
    requires
        1 <= code <= 6,
    ensures
        spec_map_severity(crate::text::decimal_nat(code)) == severity_levels()[code - 1],
{
    reveal_strlit("1");
    reveal_strlit("2");
    reveal_strlit("3");
    reveal_strlit("4");
    reveal_strlit("5");
    reveal_strlit("6");
    reveal_strlit("DEBUG");
    reveal_strlit("VERBOSE");
    reveal_strlit("INFO");
    reveal_strlit("WARNING");
    reveal_strlit("ERROR");
    reveal_strlit("CRITICAL");
    lemma_code_text(code);
    let l = severity_levels();
    if code == 1 {
        assert(l[0] == "DEBUG"@);
    } else if code == 2 {
        assert("2"@[0] != "1"@[0]);
        assert(l[1] == "VERBOSE"@);
    } else if code == 3 {
        assert("3"@[0] != "1"@[0] && "3"@[0] != "2"@[0]);
        assert(l[2] == "INFO"@);
    } else if code == 4 {
        assert("4"@[0] != "1"@[0] && "4"@[0] != "2"@[0] && "4"@[0] != "3"@[0]);
        assert(l[3] == "WARNING"@);
    } else if code == 5 {
        assert("5"@[0] != "1"@[0] && "5"@[0] != "2"@[0] && "5"@[0] != "3"@[0] && "5"@[0] != "4"@[0]);
        assert(l[4] == "ERROR"@);
    } else {
        assert("6"@[0] != "1"@[0] && "6"@[0] != "2"@[0] && "6"@[0] != "3"@[0] && "6"@[0] != "4"@[0] && "6"@[0] != "5"@[0]);
        assert(l[5] == "CRITICAL"@);
    }
}

/// The decimal text of a code from 1 to 6 is that one digit.
proof fn lemma_code_text(code: nat)
    requires
        1 <= code <= 6,
    ensures
        code == 1 ==> crate::text::decimal_nat(code) == "1"@,
        code == 2 ==> crate::text::decimal_nat(code) == "2"@,
        code == 3 ==> crate::text::decimal_nat(code) == "3"@,
        code == 4 ==> crate::text::decimal_nat(code) == "4"@,
        code == 5 ==> crate::text::decimal_nat(code) == "5"@,
        code == 6 ==> crate::text::decimal_nat(code) == "6"@,
{
    reveal_strlit("1");
    reveal_strlit("2");
    reveal_strlit("3");
    reveal_strlit("4");
    reveal_strlit("5");
    reveal_strlit("6");
    let d = crate::text::decimal_nat(code);
    assert(d == seq![crate::text::digit_char(code)]);
    if code == 1 {
        assert(crate::text::digit_char(1) == '1');
        assert(d =~= "1"@);
    } else if code == 2 {
        assert(crate::text::digit_char(2) == '2');
        assert(d =~= "2"@);
    } else if code == 3 {
        assert(crate::text::digit_char(3) == '3');
        assert(d =~= "3"@);
    } else if code == 4 {
        assert(crate::text::digit_char(4) == '4');
        assert(d =~= "4"@);
    } else if code == 5 {
        assert(crate::text::digit_char(5) == '5');
        assert(d =~= "5"@);
    } else {
        assert(crate::text::digit_char(6) == '6');
        assert(d =~= "6"@);
    }
}

/// The name of a log's severity.
pub fn map_severity(raw: &str) -> (r: String)
    ensures
        r@ == spec_map_severity(raw@),
{
    let v = crate::text::chars_of(raw);
    if crate::text::chars_eq_str(&v, "1") {
        crate::text::owned("DEBUG")
    } else if crate::text::chars_eq_str(&v, "2") {
        crate::text::owned("VERBOSE")
    } else if crate::text::chars_eq_str(&v, "3") {
        crate::text::owned("INFO")
    } else if crate::text::chars_eq_str(&v, "4") {
        crate::text::owned("WARNING")
    } else if crate::text::chars_eq_str(&v, "5") {
        crate::text::owned("ERROR")
    } else if crate::text::chars_eq_str(&v, "6") {
        crate::text::owned("CRITICAL")
    } else {
        crate::text::to_uppercase(raw)
    }
}


// ── Text output ──────────────────────────────────────────────────────────────

/// The colour a severity is shown in.
#[derive(PartialEq, Eq, Structural, Clone, Copy, Debug)]
pub enum Tone {
    /// `ERROR` and `CRITICAL`.
    Alarm,
    /// `WARNING` and `WARN`.
    Caution,
    /// `DEBUG`.
    Quiet,
    /// Any other severity.
    Plain,
}

/// The tone of a severity, by its upper-cased name.
pub open spec fn spec_tone(upper: Seq<char>) -> Tone {
    if upper == "ERROR"@ || upper == "CRITICAL"@ {
        Tone::Alarm
    } else if upper == "WARNING"@ || upper == "WARN"@ {
        Tone::Caution
    } else if upper == "DEBUG"@ {
        Tone::Quiet
    } else {
        Tone::Plain
    }
}

/// One log row as a line of text: `<prefix><timestamp> [<severity>] <text>`.
pub struct LogLine {
    /// `[profile] ` when profiles are shown and the row names one, else empty.
    pub prefix: String,
    pub timestamp: String,
    pub severity: String,
    pub tone: Tone,
    pub text: String,
}

/// `[profile] ` for a row whose profile is shown, else nothing.
pub open spec fn spec_profile_prefix(row: serde_json::Value, include_profile: bool) -> Seq<char> {
    if include_profile {
        match json_str_at(row, profile_key()) {
            Some(p) => "["@ + p + "] "@,
            None => Seq::empty(),
        }
    } else {
        Seq::empty()
    }
}

/// A string that a lookup found, or `-` when it found nothing or no string.
pub open spec fn str_or_dash(found: Option<serde_json::Value>) -> Seq<char> {
    match found {
        Some(v) => match json_as_str(v) {
            Some(s) => s,
            None => "-"@,
        },
        None => "-"@,
    }
}

/// A log's time: the first of `/metadata/timestamp`,
/// `/userData/coralogix/timestamp`, `/userData/timestamp` and
/// `/userData/@timestamp` that is there, when it is a string; else `-`.
pub open spec fn spec_log_timestamp(row: serde_json::Value) -> Seq<char> {
    str_or_dash(
        or_else(
            or_else(
                or_else(
                    json_at_pointer(row, "/metadata/timestamp"@),
                    json_at_pointer(row, "/userData/coralogix/timestamp"@),
                ),
                json_at_pointer(row, "/userData/timestamp"@),
            ),
            json_at_pointer(row, "/userData/@timestamp"@),
        ),
    )
}

/// A log's severity: `/metadata/severity` by name, `INFO` when it is not a
/// string there.
pub open spec fn spec_log_severity(row: serde_json::Value) -> Seq<char> {
    match json_str_at_pointer(row, "/metadata/severity"@) {
        Some(s) => spec_map_severity(s),
        None => "INFO"@,
    }
}

/// A log's text: the first of `/userData/message`, `/userData/msg` and
/// `userData` that is there, a string as it is and anything else as JSON
/// text; empty when none is there.
pub open spec fn spec_log_text(row: serde_json::Value) -> Seq<char> {
    match or_else(
        or_else(json_at_pointer(row, "/userData/message"@), json_at_pointer(row, "/userData/msg"@)),
        json_get(row, "userData"@),
    ) {
        Some(v) => json_cell_text(v),
        None => Seq::empty(),
    }
}

/// `[profile] ` for a row whose profile is shown.
pub fn profile_prefix(row: &serde_json::Value, include_profile: bool) -> (r: String)
    ensures
        r@ == spec_profile_prefix(*row, include_profile),
{
    if include_profile {
        match str_at(row, "profile") {
            Some(p) => {
                let mut s = owned("[");
                push_str(&mut s, p);
                push_str(&mut s, "] ");
                s
            },
            None => String::new(),
        }
    } else {
        String::new()
    }
}

/// The string a lookup found, or `-`.
pub fn found_str_or_dash(found: &Option<serde_json::Value>) -> (r: String)
    ensures
        r@ == str_or_dash(*found),
{
    match found {
        Some(v) => match as_str_of(v) {
            Some(s) => owned(s),
            None => owned("-"),
        },
        None => owned("-"),
    }
}

/// The first of two lookups that found something.
pub fn first_found(a: Option<serde_json::Value>, b: Option<serde_json::Value>) -> (r: Option<serde_json::Value>)
    ensures
        r == or_else(a, b),
{
    if a.is_some() {
        a
    } else {
        b
    }
}

/// The tone of a severity.
pub fn tone_of(severity: &str) -> (t: Tone)
    ensures
        t == spec_tone(spec_to_uppercase(severity@)),
{
    let upper = crate::text::to_uppercase(severity);
    let u = crate::text::chars_of(upper.as_str());
    if crate::text::chars_eq_str(&u, "ERROR") || crate::text::chars_eq_str(&u, "CRITICAL") {
        Tone::Alarm
    } else if crate::text::chars_eq_str(&u, "WARNING") || crate::text::chars_eq_str(&u, "WARN") {
        Tone::Caution
    } else if crate::text::chars_eq_str(&u, "DEBUG") {
        Tone::Quiet
    } else {
        Tone::Plain
    }
}

/// Whether `l` is the line of `row`.
pub open spec fn is_log_line(l: LogLine, row: serde_json::Value, include_profile: bool) -> bool {
    &&& l.prefix@ == spec_profile_prefix(row, include_profile)
    &&& l.timestamp@ == spec_log_timestamp(row)
    &&& l.severity@ == spec_log_severity(row)
    &&& l.tone == spec_tone(spec_to_uppercase(spec_log_severity(row)))
    &&& l.text@ == spec_log_text(row)
}

/// The line of one log row.
pub fn log_line(row: &serde_json::Value, include_profile: bool) -> (l: LogLine)
    ensures
        is_log_line(l, *row, include_profile),
{
    let prefix = profile_prefix(row, include_profile);
    let ts = first_found(
        first_found(
            first_found(
                at_pointer(row, "/metadata/timestamp"),
                at_pointer(row, "/userData/coralogix/timestamp"),
            ),
            at_pointer(row, "/userData/timestamp"),
        ),
        at_pointer(row, "/userData/@timestamp"),
    );
    let timestamp = found_str_or_dash(&ts);
    let severity = match str_at_pointer(row, "/metadata/severity") {
        Some(s) => map_severity(s),
        None => owned("INFO"),
    };
    let tone = tone_of(severity.as_str());
    let found = first_found(
        first_found(at_pointer(row, "/userData/message"), at_pointer(row, "/userData/msg")),
        get_value(row, "userData"),
    );
    let text = match &found {
        Some(v) => cell_text(v),
        None => String::new(),
    };
    LogLine { prefix, timestamp, severity, tone, text }
}

/// What the text output of merged rows shows.
pub enum LogText {
    /// No rows: a note that nothing was found.
    NoResults,
    /// An aggregation: each row as pretty JSON.
    Rows,
    /// One line per row.
    Lines(Vec<LogLine>),
}

/// The text output of merged log rows: a note when there are none, the rows
/// themselves for an aggregation, else one line per row in order.
pub fn log_text(merged: &MergedLogs) -> (t: LogText)
    ensures
        merged.rows@.len() == 0 ==> t is NoResults,
        merged.rows@.len() > 0 && merged.is_aggregate ==> t is Rows,
        merged.rows@.len() > 0 && !merged.is_aggregate ==> (t matches LogText::Lines(lines) && lines@.len()
            == merged.rows@.len() && forall|i: int|
            0 <= i < lines@.len() ==> is_log_line(#[trigger] lines@[i], merged.rows@[i], merged.include_profile)),
{
    if merged.rows.len() == 0 {
        return LogText::NoResults;
    }
    if merged.is_aggregate {
        return LogText::Rows;
    }
    let mut lines: Vec<LogLine> = Vec::new();
    let mut i: usize = 0;
    while i < merged.rows.len()
        invariant
            i <= merged.rows@.len(),
            lines@.len() == i,
            forall|j: int| 0 <= j < i ==> is_log_line(#[trigger] lines@[j], merged.rows@[j], merged.include_profile),
        decreases merged.rows@.len() - i,
    {
        lines.push(log_line(&merged.rows[i], merged.include_profile));
        i = i + 1;
    }
    LogText::Lines(lines)
}

} // verus!
