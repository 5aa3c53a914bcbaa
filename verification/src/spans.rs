//! `cx spans`: how a merged span row reads as a line of text.

use crate::json::{as_u64_of, at_pointer, get_value, json_as_u64, json_at_pointer, json_get, or_else};
use crate::logs::{
    first_found, found_str_or_dash, profile_prefix, spec_profile_prefix, str_or_dash, MergedLogs,
};
use crate::text::{decimal_nat, decimal_u64, owned, push_str};
use vstd::prelude::*;

verus! {

/// One span row as a line of text:
/// `<prefix><trace> <span> <service> <operation> <duration>`.
pub struct SpanLine {
    /// `[profile] ` when profiles are shown and the row names one, else empty.
    pub prefix: String,
    pub trace_id: String,
    pub span_id: String,
    pub service: String,
    pub operation: String,
    pub duration: String,
}

/// The value under `key` in the row's `userData`, when both are there.
pub open spec fn user_data_get(row: serde_json::Value, key: Seq<char>) -> Option<serde_json::Value> {
    match json_get(row, "userData"@) {
        Some(u) => json_get(u, key),
        None => None,
    }
}

/// The trace id: `traceID`, else `trace_id`, in `userData`.
pub open spec fn spec_trace_id(row: serde_json::Value) -> Seq<char> {
    str_or_dash(or_else(user_data_get(row, "traceID"@), user_data_get(row, "trace_id"@)))
}

/// The span id: `spanID`, else `span_id`, in `userData`.
pub open spec fn spec_span_id(row: serde_json::Value) -> Seq<char> {
    str_or_dash(or_else(user_data_get(row, "spanID"@), user_data_get(row, "span_id"@)))
}

/// The operation: `/labels/operationName`, else `operationName` in
/// `userData`.
pub open spec fn spec_operation(row: serde_json::Value) -> Seq<char> {
    str_or_dash(or_else(json_at_pointer(row, "/labels/operationName"@), user_data_get(row, "operationName"@)))
}

/// The service: `/labels/serviceName`, else `/labels/processServiceName`.
pub open spec fn spec_service(row: serde_json::Value) -> Seq<char> {
    str_or_dash(
        or_else(json_at_pointer(row, "/labels/serviceName"@), json_at_pointer(row, "/labels/processServiceName"@)),
    )
}

/// The duration, given in microseconds by `/metadata/duration` (else
/// `duration` in `userData`), shown as whole milliseconds with `ms`; `-`
/// when it is no unsigned integer.
pub open spec fn spec_duration(row: serde_json::Value) -> Seq<char> {
    match or_else(json_at_pointer(row, "/metadata/duration"@), user_data_get(row, "duration"@)) {
        Some(v) => match json_as_u64(v) {
            Some(d) => decimal_nat((d / 1000) as nat) + "ms"@,
            None => "-"@,
        },
        None => "-"@,
    }
}

/// Whether `l` is the line of `row`.
pub open spec fn is_span_line(l: SpanLine, row: serde_json::Value, include_profile: bool) -> bool {
    &&& l.prefix@ == spec_profile_prefix(row, include_profile)
    &&& l.trace_id@ == spec_trace_id(row)
    &&& l.span_id@ == spec_span_id(row)
    &&& l.service@ == spec_service(row)
    &&& l.operation@ == spec_operation(row)
    &&& l.duration@ == spec_duration(row)
}

/// The value under `key` in the row's `userData`.
fn user_data_value(row: &serde_json::Value, key: &str) -> (r: Option<serde_json::Value>)
    ensures
        r == user_data_get(*row, key@),
{
    match get_value(row, "userData") {
        Some(u) => get_value(&u, key),
        None => None,
    }
}

/// The line of one span row.
pub fn span_line(row: &serde_json::Value, include_profile: bool) -> (l: SpanLine)
    ensures
        is_span_line(l, *row, include_profile),
{
    let prefix = profile_prefix(row, include_profile);
    let trace_id = found_str_or_dash(
        &first_found(user_data_value(row, "traceID"), user_data_value(row, "trace_id")),
    );
    let span_id = found_str_or_dash(
        &first_found(user_data_value(row, "spanID"), user_data_value(row, "span_id")),
    );
    let operation = found_str_or_dash(
        &first_found(at_pointer(row, "/labels/operationName"), user_data_value(row, "operationName")),
    );
    let service = found_str_or_dash(
        &first_found(at_pointer(row, "/labels/serviceName"), at_pointer(row, "/labels/processServiceName")),
    );
    let found = first_found(at_pointer(row, "/metadata/duration"), user_data_value(row, "duration"));
    let duration = match &found {
        Some(v) => match as_u64_of(v) {
            Some(d) => {
                let mut s = decimal_u64(d / 1000);
                push_str(&mut s, "ms");
                s
            },
            None => owned("-"),
        },
        None => owned("-"),
    };
    SpanLine { prefix, trace_id, span_id, service, operation, duration }
}

/// What the text output of merged span rows shows.
pub enum SpanText {
    /// No rows: a note that no span was found.
    NoSpans,
    /// An aggregation: each row as pretty JSON.
    Rows,
    /// One line per row.
    Lines(Vec<SpanLine>),
}

/// The text output of merged span rows: a note when there are none, the
/// rows themselves for an aggregation, else one line per row in order.
pub fn span_text(merged: &MergedLogs) -> (t: SpanText)
    ensures
        merged.rows@.len() == 0 ==> t is NoSpans,
        merged.rows@.len() > 0 && merged.is_aggregate ==> t is Rows,
        merged.rows@.len() > 0 && !merged.is_aggregate ==> (t matches SpanText::Lines(lines) && lines@.len()
            == merged.rows@.len() && forall|i: int|
            0 <= i < lines@.len() ==> is_span_line(#[trigger] lines@[i], merged.rows@[i], merged.include_profile)),
{
    if merged.rows.len() == 0 {
        return SpanText::NoSpans;
    }
    if merged.is_aggregate {
        return SpanText::Rows;
    }
    let mut lines: Vec<SpanLine> = Vec::new();
    let mut i: usize = 0;
    while i < merged.rows.len()
        invariant
            i <= merged.rows@.len(),
            lines@.len() == i,
            forall|j: int| 0 <= j < i ==> is_span_line(#[trigger] lines@[j], merged.rows@[j], merged.include_profile),
        decreases merged.rows@.len() - i,
    {
        lines.push(span_line(&merged.rows[i], merged.include_profile));
        i = i + 1;
    }
    SpanText::Lines(lines)
}

} // verus!
