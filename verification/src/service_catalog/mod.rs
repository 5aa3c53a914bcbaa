//! `cx service-catalog`: entity-type names, aggregation and sort-order enums,
//! column / group-by / filter flags, the time range, and the requests of
//! the v2 entities API.

use vstd::prelude::*;
use crate::json::{
    json_number, number_value, entry_views, json_array, json_object_of, json_opt_number,
    json_string, json_strings, object_of, opt_field, opt_field_value, opt_number_value,
    profile_tagged, string_value, strings_value, tag_profile, array_of,
};
use crate::request::{encode_path_segment, spec_percent_encode, ApiRequest, Method};
use crate::text::{
    chars_eq, chars_eq_str, chars_of, owned, split, split_chars, split_once, split_once_chars,
    string_of, trim, trim_chars, views,
};
use crate::timestamp::{parse_timestamp_epoch_seconds, TimestampError};

pub mod data;

verus! {

pub const BASE_PATH: &'static str = "/v2/entities";

pub const DATA_AGGREGATION_TABLE: &'static str = "DATA_AGGREGATION_TYPE_TABLE";

pub const DATA_AGGREGATION_TIMESERIES: &'static str = "DATA_AGGREGATION_TYPE_TIMESERIES";

pub const SORT_ORDER_ASC: &'static str = "SORT_ORDER_ASCENDING";

pub const SORT_ORDER_DESC: &'static str = "SORT_ORDER_DESCENDING";

// ── Answers ──────────────────────────────────────────────────────────────────

#[derive(Debug)]
pub struct EntityTypeInfo {
    pub entity_type: Option<String>,
    pub id: Option<String>,
    pub display_name: Option<String>,
    pub description: Option<String>,
}

#[derive(Debug)]
pub struct ListEntityTypesResponse {
    pub entity_types: Vec<EntityTypeInfo>,
}

#[derive(Debug)]
pub struct ColumnMetadata {
    pub id: Option<String>,
    pub display_name: Option<String>,
    pub unit: Option<String>,
}

#[derive(Debug)]
pub struct EntityTypeMetadata {
    pub entity_id: Option<String>,
    pub display_name: Option<String>,
    pub description: Option<String>,
    pub columns: Vec<ColumnMetadata>,
    pub default_columns: Vec<String>,
    pub groupable_labels: Vec<String>,
    pub group_by_limit: Option<i32>,
    pub default_group_by: Vec<String>,
    pub filterable_labels: Vec<String>,
    pub required_filters: Vec<String>,
}

#[derive(Debug)]
pub struct EnvironmentActivity {
    pub name: Option<String>,
    pub last_seen: Option<String>,
}

#[derive(Debug)]
pub struct EntityItem {
    pub name: Option<String>,
    pub system: Option<String>,
    pub last_seen: Option<String>,
    pub deployments: Vec<String>,
    pub environments: Vec<EnvironmentActivity>,
}

#[derive(Debug)]
pub struct ListEntitiesResponse {
    pub entities: Vec<EntityItem>,
}

/// One `ApmFilter`: a label name and the values it must match.
#[derive(Debug)]
pub struct ApmFilterInput {
    pub label_name: String,
    pub label_values: Vec<String>,
}

/// Parameters of an entities-data request. `limit`, `sort_column` and
/// `sort_order` only apply to table aggregation.
pub struct DataParams<'p> {
    pub start: i64,
    pub end: i64,
    pub columns: &'p [String],
    pub group_by: &'p [String],
    pub filters: &'p [ApmFilterInput],
    pub data_aggregation_type: &'p str,
    pub limit: Option<i32>,
    pub sort_column: Option<&'p str>,
    pub sort_order: Option<&'p str>,
}

// ── Errors ───────────────────────────────────────────────────────────────────

#[derive(Debug)]
pub enum ServiceCatalogError {
    Empty { field: String },
    UnknownEntityType { input: String },
    UnknownAggregation { value: String },
    UnknownSortOrder { value: String },
    TableControlsWithTimeseries,
    Timestamp(TimestampError),
    EndNotAfterStart { start: String, end: String },
    NoColumns,
    EmptyColumn,
    EmptyGroupBy,
    FilterMissingEquals { raw: String },
    FilterEmptyLabel { raw: String },
    FilterNoValues { raw: String },
    FilterRepeated { label: String },
    ColumnValueNotObject,
    ColumnValueFields { keys: Vec<String> },
    ColumnResultNotObject,
    ColumnResultShape,
    EmptyDataResult,
}

impl ServiceCatalogError {
    pub open spec fn spec_message(&self) -> Seq<char> {
        match self {
            ServiceCatalogError::Empty { field } => field@ + " must not be empty"@,
            ServiceCatalogError::UnknownEntityType { input } => "unknown entity type '"@ + input@
                + "'; supported: service, database, operation, database-operation, jvm, jvm-gc, k8s-pod, transaction"@,
            ServiceCatalogError::UnknownAggregation { value } => "unknown --aggregation '"@
                + value@ + "'; allowed: table, timeseries"@,
            ServiceCatalogError::UnknownSortOrder { value } => "unknown --sort-order '"@ + value@
                + "'; allowed: asc, desc"@,
            ServiceCatalogError::TableControlsWithTimeseries =>
                "--limit, --sort-column, and --sort-order only apply to --aggregation table; the backend ignores them for timeseries, so they must be omitted rather than silently dropped"@,
            ServiceCatalogError::Timestamp(e) => e.spec_message(),
            ServiceCatalogError::EndNotAfterStart { start, end } => "--end ("@ + end@
                + ") must be strictly after --start ("@ + start@ + ")"@,
            ServiceCatalogError::NoColumns =>
                "--column is required and must be non-empty; run `cx service-catalog schema <entity-type>` first to discover valid column ids"@,
            ServiceCatalogError::EmptyColumn => "--column values must not be empty"@,
            ServiceCatalogError::EmptyGroupBy => "--group-by values must not be empty"@,
            ServiceCatalogError::FilterMissingEquals { raw } => "invalid --filter '"@ + raw@
                + "': expected label=value1,value2,..."@,
            ServiceCatalogError::FilterEmptyLabel { raw } => "invalid --filter '"@ + raw@
                + "': label name must not be empty"@,
            ServiceCatalogError::FilterNoValues { raw } => "invalid --filter '"@ + raw@
                + "': must have at least one non-empty value"@,
            ServiceCatalogError::FilterRepeated { label } => "--filter label '"@ + label@
                + "' given more than once; combine values with commas instead (--filter "@
                + label@
                + "=a,b) - filters AND together, so repeating a label cannot mean \"either value\""@,
            ServiceCatalogError::ColumnValueNotObject =>
                "malformed service-catalog column value: expected an object"@,
            ServiceCatalogError::ColumnValueFields { keys } =>
                "malformed service-catalog column value: expected exactly one value field, got "@
                + crate::json::debug_list(views(keys@)),
            ServiceCatalogError::ColumnResultNotObject =>
                "malformed service-catalog column result: expected an object"@,
            ServiceCatalogError::ColumnResultShape =>
                "malformed service-catalog column result: expected exactly one of 'value' or 'error'"@,
            ServiceCatalogError::EmptyDataResult =>
                "service-catalog returned an empty or unrecognized response (neither table nor timeseries data)"@,
        }
    }

    /// The error as the user reads it.
    pub fn message(&self) -> (r: String)
        ensures
            r@ == self.spec_message(),
    {
        let mut r = String::new();
        match self {
            ServiceCatalogError::Empty { field } => {
                r.append(field.as_str());
                r.append(" must not be empty");
            },
            ServiceCatalogError::UnknownEntityType { input } => {
                r.append("unknown entity type '");
                r.append(input.as_str());
                r.append(
                    "'; supported: service, database, operation, database-operation, jvm, jvm-gc, k8s-pod, transaction",
                );
            },
            ServiceCatalogError::UnknownAggregation { value } => {
                r.append("unknown --aggregation '");
                r.append(value.as_str());
                r.append("'; allowed: table, timeseries");
            },
            ServiceCatalogError::UnknownSortOrder { value } => {
                r.append("unknown --sort-order '");
                r.append(value.as_str());
                r.append("'; allowed: asc, desc");
            },
            ServiceCatalogError::TableControlsWithTimeseries => {
                r.append(
                    "--limit, --sort-column, and --sort-order only apply to --aggregation table; the backend ignores them for timeseries, so they must be omitted rather than silently dropped",
                );
            },
            ServiceCatalogError::Timestamp(e) => {
                r = e.message();
            },
            ServiceCatalogError::EndNotAfterStart { start, end } => {
                r.append("--end (");
                r.append(end.as_str());
                r.append(") must be strictly after --start (");
                r.append(start.as_str());
                r.append(")");
            },
            ServiceCatalogError::NoColumns => {
                r.append(
                    "--column is required and must be non-empty; run `cx service-catalog schema <entity-type>` first to discover valid column ids",
                );
            },
            ServiceCatalogError::EmptyColumn => {
                r.append("--column values must not be empty");
            },
            ServiceCatalogError::EmptyGroupBy => {
                r.append("--group-by values must not be empty");
            },
            ServiceCatalogError::FilterMissingEquals { raw } => {
                r.append("invalid --filter '");
                r.append(raw.as_str());
                r.append("': expected label=value1,value2,...");
            },
            ServiceCatalogError::FilterEmptyLabel { raw } => {
                r.append("invalid --filter '");
                r.append(raw.as_str());
                r.append("': label name must not be empty");
            },
            ServiceCatalogError::FilterNoValues { raw } => {
                r.append("invalid --filter '");
                r.append(raw.as_str());
                r.append("': must have at least one non-empty value");
            },
            ServiceCatalogError::FilterRepeated { label } => {
                r.append("--filter label '");
                r.append(label.as_str());
                r.append(
                    "' given more than once; combine values with commas instead (--filter ",
                );
                r.append(label.as_str());
                r.append(
                    "=a,b) - filters AND together, so repeating a label cannot mean \"either value\"",
                );
            },
            ServiceCatalogError::ColumnValueNotObject => {
                r.append("malformed service-catalog column value: expected an object");
            },
            ServiceCatalogError::ColumnValueFields { keys } => {
                r.append(
                    "malformed service-catalog column value: expected exactly one value field, got ",
                );
                r.append(crate::json::debug_list_text(keys).as_str());
            },
            ServiceCatalogError::ColumnResultNotObject => {
                r.append("malformed service-catalog column result: expected an object");
            },
            ServiceCatalogError::ColumnResultShape => {
                r.append(
                    "malformed service-catalog column result: expected exactly one of 'value' or 'error'",
                );
            },
            ServiceCatalogError::EmptyDataResult => {
                r.append(
                    "service-catalog returned an empty or unrecognized response (neither table nor timeseries data)",
                );
            },
        }
        r
    }
}

// ── Entity types ─────────────────────────────────────────────────────────────

/// The full proto enum names the API accepts (`ENTITY_TYPE_UNSPECIFIED` is a
/// protobuf zero value and deliberately excluded).
pub open spec fn valid_entity_type(s: Seq<char>) -> bool {
    ||| s == "ENTITY_TYPE_TRANSACTION"@
    ||| s == "ENTITY_TYPE_SERVICE"@
    ||| s == "ENTITY_TYPE_DATABASE"@
    ||| s == "ENTITY_TYPE_OPERATION"@
    ||| s == "ENTITY_TYPE_DATABASE_OPERATION"@
    ||| s == "ENTITY_TYPE_JVM"@
    ||| s == "ENTITY_TYPE_JVM_GC"@
    ||| s == "ENTITY_TYPE_K8S_POD"@
}

/// `s` with every `-` replaced by `_`.
pub open spec fn dash_to_underscore(s: Seq<char>) -> Seq<char> {
    s.map_values(|c: char| if c == '-' { '_' } else { c })
}

/// The proto enum name an entity type input denotes: upper-cased, dashes
/// made underscores, and prefixed with `ENTITY_TYPE_` unless already.
pub open spec fn entity_type_name(input: Seq<char>) -> Seq<char> {
    let upper = dash_to_underscore(crate::text::uppercased(trim(input)));
    if crate::text::starts_with(upper, "ENTITY_TYPE_"@) {
        upper
    } else {
        "ENTITY_TYPE_"@ + upper
    }
}

/// A character of a proto enum name: an upper-case ASCII letter, a digit or
/// `_`.
pub open spec fn enum_name_char(c: char) -> bool {
    ('A' <= c && c <= 'Z') || ('0' <= c && c <= '9') || c == '_'
}

proof fn lemma_enum_name_is_stable(v: Seq<char>)
    requires
        v.len() > 0,
        forall|i: int| 0 <= i < v.len() ==> enum_name_char(#[trigger] v[i]),
        crate::text::starts_with(v, "ENTITY_TYPE_"@),
    ensures
        entity_type_name(v) == v,
{
    assert(!crate::text::is_ws(v[0]) && !crate::text::is_ws(v.last())) by {
        assert(enum_name_char(v[0]));
        assert(enum_name_char(v[v.len() - 1]));
    }
    crate::text::lemma_trim_clean(v);
    assert(vstd::utf8::is_ascii_chars(v)) by {
        assert forall|i: int| 0 <= i < v.len() implies '\0' <= #[trigger] v[i] <= '\u{7f}' by {
            assert(enum_name_char(v[i]));
        }
    }
    assert(crate::text::ascii_upper(v) =~= v) by {
        assert forall|i: int| 0 <= i < v.len() implies crate::text::upper_char(v[i]) == v[i] by {
            assert(enum_name_char(v[i]));
        }
    }
    assert(dash_to_underscore(v) =~= v) by {
        assert forall|i: int| 0 <= i < v.len() implies (if v[i] == '-' {
            '_'
        } else {
            v[i]
        }) == v[i] by {
            assert(enum_name_char(v[i]));
        }
    }
}

proof fn lemma_valid_names_are_enum_names(v: Seq<char>)
    requires
        valid_entity_type(v),
    ensures
        v.len() > 0,
        forall|i: int| 0 <= i < v.len() ==> enum_name_char(#[trigger] v[i]),
        crate::text::starts_with(v, "ENTITY_TYPE_"@),
{
    reveal_strlit("ENTITY_TYPE_");
    reveal_strlit("ENTITY_TYPE_TRANSACTION");
    reveal_strlit("ENTITY_TYPE_SERVICE");
    reveal_strlit("ENTITY_TYPE_DATABASE");
    reveal_strlit("ENTITY_TYPE_OPERATION");
    reveal_strlit("ENTITY_TYPE_DATABASE_OPERATION");
    reveal_strlit("ENTITY_TYPE_JVM");
    reveal_strlit("ENTITY_TYPE_JVM_GC");
    reveal_strlit("ENTITY_TYPE_K8S_POD");
    assert(v.take(12) =~= "ENTITY_TYPE_"@);
}

/// Normalizing is stable: a name that normalization accepted normalizes to
/// itself, so `ENTITY_TYPE_K8S_POD` stays `ENTITY_TYPE_K8S_POD`.
pub proof fn lemma_entity_type_name_is_stable(input: Seq<char>)
    requires
        valid_entity_type(entity_type_name(input)),
    ensures
        entity_type_name(entity_type_name(input)) == entity_type_name(input),
{
    lemma_valid_names_are_enum_names(entity_type_name(input));
    lemma_enum_name_is_stable(entity_type_name(input));
}

fn is_valid_entity_type(s: &[char]) -> (r: bool)
    ensures
        r == valid_entity_type(s@),
{
    chars_eq_str(s, "ENTITY_TYPE_TRANSACTION") || chars_eq_str(s, "ENTITY_TYPE_SERVICE")
        || chars_eq_str(s, "ENTITY_TYPE_DATABASE") || chars_eq_str(s, "ENTITY_TYPE_OPERATION")
        || chars_eq_str(s, "ENTITY_TYPE_DATABASE_OPERATION") || chars_eq_str(s, "ENTITY_TYPE_JVM")
        || chars_eq_str(s, "ENTITY_TYPE_JVM_GC") || chars_eq_str(s, "ENTITY_TYPE_K8S_POD")
}

/// Whether `v` starts with the characters of `p`.
fn starts_with_exec(v: &[char], p: &str) -> (r: bool)
    ensures
        r == crate::text::starts_with(v@, p@),
{
    let pv = chars_of(p);
    if pv.len() > v.len() {
        return false;
    }
    let head = crate::text::slice_range(v, 0, pv.len());
    assert(head@ =~= v@.take(pv@.len() as int));
    chars_eq(&head, &pv)
}

/// Normalizes a user-supplied entity type into the full proto enum name the
/// API's path accepts: `service`, `K8S_POD` and `ENTITY_TYPE_K8S_POD` all
/// become `ENTITY_TYPE_K8S_POD`. Anything that does not name one of the
/// supported types is refused.
pub fn normalize_entity_type(input: &str) -> (r: Result<String, ServiceCatalogError>)
    ensures
        trim(input@).len() == 0 ==> (r matches Err(ServiceCatalogError::Empty { field }) && field@
            == "entity type"@),
        trim(input@).len() > 0 && valid_entity_type(entity_type_name(input@)) ==> (r matches Ok(
            name,
        ) && name@ == entity_type_name(input@)),
        trim(input@).len() > 0 && !valid_entity_type(entity_type_name(input@)) ==> (r matches Err(
            ServiceCatalogError::UnknownEntityType { input: i },
        ) && i@ == input@),
{
    let trimmed = crate::text::trim_ref(input);
    if trimmed.unicode_len() == 0 {
        return Err(ServiceCatalogError::Empty { field: crate::text::owned("entity type") });
    }
    let upper = crate::text::to_uppercase(trimmed);
    let uv = chars_of(upper.as_str());
    let mut replaced: Vec<char> = Vec::new();
    let n = uv.len();
    for i in 0..n
        invariant
            n == uv@.len(),
            replaced@ == dash_to_underscore(uv@.take(i as int)),
    {
        let c = uv[i];
        replaced.push(if c == '-' { '_' } else { c });
        assert(replaced@ =~= dash_to_underscore(uv@.take((i + 1) as int)));
    }
    assert(uv@.take(n as int) =~= uv@);
    let name: Vec<char> = if starts_with_exec(&replaced, "ENTITY_TYPE_") {
        replaced
    } else {
        let mut v = chars_of("ENTITY_TYPE_");
        let m = replaced.len();
        for i in 0..m
            invariant
                m == replaced@.len(),
                v@ == "ENTITY_TYPE_"@ + replaced@.take(i as int),
        {
            v.push(replaced[i]);
            assert(v@ =~= "ENTITY_TYPE_"@ + replaced@.take((i + 1) as int));
        }
        assert(replaced@.take(m as int) =~= replaced@);
        v
    };
    if !is_valid_entity_type(&name) {
        return Err(ServiceCatalogError::UnknownEntityType { input: crate::text::owned(input) });
    }
    Ok(string_of(&name))
}

// ── Aggregation and sort order ───────────────────────────────────────────────

/// The aggregation enum for `--aggregation`: `table` or `timeseries` in any
/// case, surrounding whitespace ignored.
pub fn parse_aggregation(aggregation: &str) -> (r: Result<&'static str, ServiceCatalogError>)
    ensures
        ({
            let v = crate::text::spec_to_lowercase(trim(aggregation@));
            &&& v == "table"@ ==> (r matches Ok(x) && x@ == DATA_AGGREGATION_TABLE@)
            &&& v == "timeseries"@ ==> (r matches Ok(x) && x@ == DATA_AGGREGATION_TIMESERIES@)
            &&& (v != "table"@ && v != "timeseries"@) ==> (r matches Err(
                ServiceCatalogError::UnknownAggregation { value },
            ) && value@ == v)
        }),
{
    proof {
        reveal_strlit("table");
        reveal_strlit("timeseries");
        assert("table"@.len() != "timeseries"@.len());
    }
    let t = crate::text::trim_ref(aggregation);
    let v = crate::text::to_lowercase(t);
    let vv = chars_of(v.as_str());
    if chars_eq_str(&vv, "table") {
        Ok(DATA_AGGREGATION_TABLE)
    } else if chars_eq_str(&vv, "timeseries") {
        Ok(DATA_AGGREGATION_TIMESERIES)
    } else {
        Err(ServiceCatalogError::UnknownAggregation { value: v })
    }
}

/// The sort-order enum for `--sort-order`: `asc` or `desc` in any case,
/// surrounding whitespace ignored.
pub fn parse_sort_order(sort_order: &str) -> (r: Result<&'static str, ServiceCatalogError>)
    ensures
        crate::text::spec_to_lowercase(trim(sort_order@)) == "asc"@ ==> r == Ok::<&'static str, ServiceCatalogError>(SORT_ORDER_ASC),
        crate::text::spec_to_lowercase(trim(sort_order@)) == "desc"@ ==> r == Ok::<&'static str, ServiceCatalogError>(SORT_ORDER_DESC),
        crate::text::spec_to_lowercase(trim(sort_order@)) != "asc"@ && crate::text::spec_to_lowercase(trim(sort_order@)) != "desc"@
            ==> (r matches Err(ServiceCatalogError::UnknownSortOrder { value }) && value@ == crate::text::spec_to_lowercase(trim(sort_order@))),
{
    proof {
        reveal_strlit("asc");
        reveal_strlit("desc");
        assert("asc"@[0] != "desc"@[0]);
    }
    let t = crate::text::trim_ref(sort_order);
    let v = crate::text::to_lowercase(t);
    let vv = chars_of(v.as_str());
    if chars_eq_str(&vv, "asc") {
        Ok(SORT_ORDER_ASC)
    } else if chars_eq_str(&vv, "desc") {
        Ok(SORT_ORDER_DESC)
    } else {
        Err(ServiceCatalogError::UnknownSortOrder { value: v })
    }
}

/// `--limit`, `--sort-column` and `--sort-order` only apply to table
/// aggregation; the backend silently ignores them for timeseries, so the
/// combination is refused up front.
pub fn validate_table_controls_scope(
    aggregation: &str,
    limit: Option<i32>,
    sort_column: Option<&str>,
    sort_order: Option<&str>,
) -> (r: Result<(), ServiceCatalogError>)
    ensures
        (aggregation@ == DATA_AGGREGATION_TIMESERIES@ && (limit is Some || sort_column is Some
            || sort_order is Some)) ==> (r matches Err(
            ServiceCatalogError::TableControlsWithTimeseries,
        )),
        !(aggregation@ == DATA_AGGREGATION_TIMESERIES@ && (limit is Some || sort_column is Some
            || sort_order is Some)) ==> r is Ok,
{
    let av = chars_of(aggregation);
    if chars_eq_str(&av, DATA_AGGREGATION_TIMESERIES) && (limit.is_some() || sort_column.is_some()
        || sort_order.is_some()) {
        return Err(ServiceCatalogError::TableControlsWithTimeseries);
    }
    Ok(())
}

// ── Validation helpers ───────────────────────────────────────────────────────

/// Trims a required value and refuses it when nothing remains.
pub fn require_non_empty<'v>(value: &'v str, field_name: &str) -> (r: Result<
    &'v str,
    ServiceCatalogError,
>)
    ensures
        trim(value@).len() == 0 ==> (r matches Err(ServiceCatalogError::Empty { field }) && field@
            == field_name@),
        trim(value@).len() > 0 ==> (r matches Ok(t) && t@ == trim(value@)),
{
    let trimmed = crate::text::trim_ref(value);
    if trimmed.unicode_len() == 0 {
        return Err(ServiceCatalogError::Empty { field: crate::text::owned(field_name) });
    }
    Ok(trimmed)
}

/// Both ends of the time range as epoch seconds; the end must lie strictly
/// after the start.
pub fn parse_time_range(start: &str, end: &str) -> (r: Result<(i64, i64), ServiceCatalogError>)
    ensures
        r matches Ok((s, e)) ==> s < e,
        r matches Err(ServiceCatalogError::EndNotAfterStart { start: s, end: e }) ==> s@ == start@
            && e@ == end@,
{
    let start_epoch = match parse_timestamp_epoch_seconds(start) {
        Ok(x) => x,
        Err(e) => {
            return Err(ServiceCatalogError::Timestamp(e));
        },
    };
    let end_epoch = match parse_timestamp_epoch_seconds(end) {
        Ok(x) => x,
        Err(e) => {
            return Err(ServiceCatalogError::Timestamp(e));
        },
    };
    if end_epoch <= start_epoch {
        return Err(
            ServiceCatalogError::EndNotAfterStart {
                start: crate::text::owned(start),
                end: crate::text::owned(end),
            },
        );
    }
    Ok((start_epoch, end_epoch))
}

/// The trimmed values.
pub open spec fn trimmed_all(v: Seq<String>) -> Seq<Seq<char>> {
    v.map_values(|s: String| trim(s@))
}

/// Trims every value, refusing any that is empty once trimmed.
fn trim_each(values: &[String]) -> (r: Option<Vec<String>>)
    ensures
        r is Some <==> forall|i: int| 0 <= i < values@.len() ==> trim(#[trigger] values@[i]@).len()
            > 0,
        r matches Some(t) ==> views(t@) == trimmed_all(values@),
{
    let mut out: Vec<String> = Vec::new();
    let n = values.len();
    for i in 0..n
        invariant
            n == values@.len(),
            views(out@) == trimmed_all(values@.take(i as int)),
            forall|j: int| 0 <= j < i ==> trim(#[trigger] values@[j]@).len() > 0,
    {
        let t = crate::text::trim_str(values[i].as_str());
        if t.unicode_len() == 0 {
            return None;
        }
        let ghost before = out@;
        out.push(t);
        proof {
            crate::text::lemma_views_push(before, t);
            assert(trimmed_all(values@.take((i + 1) as int)) =~= trimmed_all(values@.take(i as int)).push(trim(values@[i as int]@)));
        }
    }
    assert(values@.take(n as int) =~= values@);
    Some(out)
}

/// The `--column` ids, trimmed: at least one is required and none may be
/// empty.
pub fn validate_columns(columns: &[String]) -> (r: Result<Vec<String>, ServiceCatalogError>)
    ensures
        columns@.len() == 0 ==> (r matches Err(ServiceCatalogError::NoColumns)),
        columns@.len() > 0 ==> (r is Ok <==> forall|i: int|
            0 <= i < columns@.len() ==> trim(#[trigger] columns@[i]@).len() > 0),
        columns@.len() > 0 && r is Err ==> (r matches Err(ServiceCatalogError::EmptyColumn)),
        r matches Ok(t) ==> views(t@) == trimmed_all(columns@),
{
    if columns.len() == 0 {
        return Err(ServiceCatalogError::NoColumns);
    }
    match trim_each(columns) {
        Some(t) => Ok(t),
        None => Err(ServiceCatalogError::EmptyColumn),
    }
}

/// The `--group-by` labels, trimmed; none may be empty (no label at all is
/// fine).
pub fn validate_group_by(group_by: &[String]) -> (r: Result<Vec<String>, ServiceCatalogError>)
    ensures
        r is Ok <==> forall|i: int| 0 <= i < group_by@.len() ==> trim(#[trigger] group_by@[i]@).len()
            > 0,
        r is Err ==> (r matches Err(ServiceCatalogError::EmptyGroupBy)),
        r matches Ok(t) ==> views(t@) == trimmed_all(group_by@),
{
    match trim_each(group_by) {
        Some(t) => Ok(t),
        None => Err(ServiceCatalogError::EmptyGroupBy),
    }
}

// ── Filters ──────────────────────────────────────────────────────────────────

/// The non-empty trimmed pieces, in order (repeats kept).
pub open spec fn non_empty_trimmed(pieces: Seq<Seq<char>>) -> Seq<Seq<char>>
    decreases pieces.len(),
{
    if pieces.len() == 0 {
        seq![]
    } else {
        let acc = non_empty_trimmed(pieces.drop_last());
        let v = trim(pieces.last());
        if v.len() > 0 {
            acc.push(v)
        } else {
            acc
        }
    }
}

/// The label and values of a `label=v1,v2` entry.
pub open spec fn filter_entry(e: Seq<char>) -> (Seq<char>, Seq<Seq<char>>) {
    match split_once(e, '=') {
        Some((l, v)) => (trim(l), non_empty_trimmed(split(v, ','))),
        None => (seq![], seq![]),
    }
}

/// Whether a label is already among the parsed filters.
pub open spec fn label_seen(acc: Seq<(Seq<char>, Seq<Seq<char>>)>, l: Seq<char>) -> bool {
    exists|j: int| 0 <= j < acc.len() && #[trigger] acc[j].0 == l
}

/// The filters of a list of entries, or `None` when one is refused.
pub open spec fn spec_filters(raw: Seq<Seq<char>>) -> Option<Seq<(Seq<char>, Seq<Seq<char>>)>>
    decreases raw.len(),
{
    if raw.len() == 0 {
        Some(seq![])
    } else {
        match spec_filters(raw.drop_last()) {
            None => None,
            Some(acc) => {
                let e = raw.last();
                let (l, vs) = filter_entry(e);
                if split_once(e, '=') is None || l.len() == 0 || vs.len() == 0 || label_seen(acc, l) {
                    None
                } else {
                    Some(acc.push((l, vs)))
                }
            },
        }
    }
}

/// The error for the refused entry `e`.
pub open spec fn filter_error(err: ServiceCatalogError, e: Seq<char>) -> bool {
    let (l, vs) = filter_entry(e);
    if split_once(e, '=') is None {
        err matches ServiceCatalogError::FilterMissingEquals { raw } && raw@ == e
    } else if l.len() == 0 {
        err matches ServiceCatalogError::FilterEmptyLabel { raw } && raw@ == e
    } else if vs.len() == 0 {
        err matches ServiceCatalogError::FilterNoValues { raw } && raw@ == e
    } else {
        err matches ServiceCatalogError::FilterRepeated { label } && label@ == l
    }
}

/// The views of parsed filters.
pub open spec fn filter_views(fs: Seq<ApmFilterInput>) -> Seq<(Seq<char>, Seq<Seq<char>>)> {
    fs.map_values(|f: ApmFilterInput| (f.label_name@, views(f.label_values@)))
}

proof fn lemma_filters_none_extends(raw: Seq<Seq<char>>, i: int)
    requires
        0 <= i <= raw.len(),
        spec_filters(raw.take(i)) is None,
    ensures
        spec_filters(raw) is None,
    decreases raw.len() - i,
{
    if i < raw.len() {
        assert(raw.take(i + 1).drop_last() =~= raw.take(i));
        lemma_filters_none_extends(raw, i + 1);
    } else {
        assert(raw.take(i) =~= raw);
    }
}

/// The non-empty trimmed comma-separated values of `raw_values`.
fn filter_values(raw_values: &[char]) -> (r: Vec<String>)
    ensures
        views(r@) == non_empty_trimmed(split(raw_values@, ',')),
{
    let pieces = split_chars(raw_values, ',');
    let ghost ps = pieces@.map_values(|p: Vec<char>| p@);
    let mut out: Vec<String> = Vec::new();
    let n = pieces.len();
    for i in 0..n
        invariant
            n == pieces@.len(),
            ps == pieces@.map_values(|p: Vec<char>| p@),
            ps == split(raw_values@, ','),
            views(out@) == non_empty_trimmed(ps.take(i as int)),
    {
        let v = trim_chars(&pieces[i]);
        assert(ps.take((i + 1) as int).drop_last() =~= ps.take(i as int));
        assert(ps.take((i + 1) as int).last() == pieces@[i as int]@);
        if v.len() > 0 {
            let ghost before = out@;
            let s = string_of(&v);
            out.push(s);
            proof {
                crate::text::lemma_views_push(before, s);
            }
        }
    }
    assert(ps.take(n as int) =~= ps);
    out
}

/// Parses repeatable `--filter label=value1,value2` flags. The label is
/// trimmed and must not be empty, the values are the trimmed non-empty
/// comma-separated pieces and at least one is required, and a label may be
/// given once only: filters AND together, so repeating one cannot mean
/// "either value".
pub fn parse_filters(filters: &[String]) -> (r: Result<Vec<ApmFilterInput>, ServiceCatalogError>)
    ensures
        r is Ok <==> spec_filters(views(filters@)) is Some,
        r matches Ok(fs) ==> spec_filters(views(filters@)) == Some(filter_views(fs@)),
        r matches Err(err) ==> exists|i: int|
            0 <= i < filters@.len() && (spec_filters(#[trigger] views(filters@).take(i)) is Some)
                && (spec_filters(views(filters@).take(i + 1)) is None) && filter_error(
                err,
                filters@[i]@,
            ),
{
    let ghost rv = views(filters@);
    let mut parsed: Vec<ApmFilterInput> = Vec::new();
    let n = filters.len();
    assert(rv.take(0) =~= Seq::<Seq<char>>::empty());
    assert(filter_views(parsed@) =~= Seq::<(Seq<char>, Seq<Seq<char>>)>::empty());
    for i in 0..n
        invariant
            n == filters@.len(),
            rv == views(filters@),
            spec_filters(rv.take(i as int)) == Some(filter_views(parsed@)),
    {
        let raw = chars_of(filters[i].as_str());
        let ghost acc = filter_views(parsed@);
        assert(rv.take((i + 1) as int).drop_last() =~= rv.take(i as int));
        assert(rv.take((i + 1) as int).last() == filters@[i as int]@);
        match split_once_chars(&raw, '=') {
            None => {
                proof {
                    lemma_filters_none_extends(rv, i + 1);
                }
                return Err(
                    ServiceCatalogError::FilterMissingEquals {
                        raw: crate::text::owned(filters[i].as_str()),
                    },
                );
            },
            Some((label, values)) => {
                let label_name = trim_chars(&label);
                if label_name.len() == 0 {
                    proof {
                        lemma_filters_none_extends(rv, i + 1);
                    }
                    return Err(
                        ServiceCatalogError::FilterEmptyLabel {
                            raw: crate::text::owned(filters[i].as_str()),
                        },
                    );
                }
                let label_values = filter_values(&values);
                if label_values.len() == 0 {
                    proof {
                        lemma_filters_none_extends(rv, i + 1);
                    }
                    return Err(
                        ServiceCatalogError::FilterNoValues {
                            raw: crate::text::owned(filters[i].as_str()),
                        },
                    );
                }
                let m = parsed.len();
                let mut j: usize = 0;
                #[verifier::loop_isolation(false)]
                while j < m
                    invariant
                        m == parsed@.len(),
                        acc == filter_views(parsed@),
                        j <= m,
                        forall|t: int| 0 <= t < j ==> acc[t].0 != label_name@,
                    decreases m - j,
                {
                    let lj = chars_of(parsed[j].label_name.as_str());
                    assert(acc[j as int].0 == parsed@[j as int].label_name@);
                    if chars_eq(&lj, &label_name) {
                        proof {
                            assert(label_seen(acc, label_name@));
                            lemma_filters_none_extends(rv, i + 1);
                        }
                        return Err(ServiceCatalogError::FilterRepeated { label: string_of(&label_name) });
                    }
                    j = j + 1;
                }
                assert(!label_seen(acc, label_name@));
                parsed.push(ApmFilterInput { label_name: string_of(&label_name), label_values });
                assert(filter_views(parsed@) =~= acc.push(filter_entry(filters@[i as int]@)));
            },
        }
    }
    assert(rv.take(n as int) =~= rv);
    Ok(parsed)
}

/// A copy of parsed filters.
pub fn clone_filters(filters: &[ApmFilterInput]) -> (r: Vec<ApmFilterInput>)
    ensures
        filter_views(r@) == filter_views(filters@),
{
    let mut out: Vec<ApmFilterInput> = Vec::new();
    let n = filters.len();
    for i in 0..n
        invariant
            n == filters@.len(),
            out@.len() == i,
            filter_views(out@) == filter_views(filters@.take(i as int)),
    {
        let f = ApmFilterInput {
            label_name: crate::text::owned(filters[i].label_name.as_str()),
            label_values: crate::infra::filter::clone_strings(&filters[i].label_values),
        };
        let ghost before = out@;
        out.push(f);
        proof {
            let g = filters@[i as int];
            assert(out@ == before.push(f));
            assert(filter_views(out@)[i as int] == (g.label_name@, views(g.label_values@)));
            assert forall|k: int| 0 <= k < i implies #[trigger] filter_views(out@)[k]
                == filter_views(before)[k] by {
                assert(out@[k] == before[k]);
            }
            assert(filter_views(out@) =~= filter_views(filters@.take((i + 1) as int)));
        }
    }
    assert(filters@.take(n as int) =~= filters@);
    out
}

/// A table cell: the value, or a dash when it is absent or empty.
pub fn display_or_dash(value: Option<&str>) -> (r: String)
    ensures
        r@ == crate::infra::or_dash(crate::infra::opt_view(value)),
{
    crate::infra::display_or_dash(value)
}

// ── Table cells ──────────────────────────────────────────────────────────────

/// How an optional JSON value reads in a table cell: `-` when it is absent,
/// `null` or the empty string; a string's contents; the JSON text of
/// anything else.
pub open spec fn json_cell_or_dash(value: Option<serde_json::Value>) -> Seq<char> {
    match value {
        None => "-"@,
        Some(v) => if crate::json::json_is_null(v) {
            "-"@
        } else {
            crate::infra::or_dash(Some(crate::json::json_cell_text(v)))
        },
    }
}

/// A table cell for an optional JSON value, or a dash.
pub fn display_json_or_dash(value: Option<&serde_json::Value>) -> (r: String)
    ensures
        r@ == json_cell_or_dash(
            match value {
                Some(v) => Some(*v),
                None => None,
            },
        ),
{
    match value {
        None => crate::text::owned("-"),
        Some(v) => {
            if crate::json::is_null(v) {
                crate::text::owned("-")
            } else {
                let text = crate::json::cell_text(v);
                crate::infra::display_or_dash(Some(text.as_str()))
            }
        },
    }
}

// ── Request body ─────────────────────────────────────────────────────────────

/// A requested column: `{"columnId": id}`.
pub open spec fn column_request_json(c: String) -> serde_json::Value {
    json_object_of(seq![("columnId"@, json_string(c@))])
}

/// A filter: `{"labelName", "labelValues"}`.
pub open spec fn filter_request_json(f: ApmFilterInput) -> serde_json::Value {
    json_object_of(
        seq![
            ("labelName"@, json_string(f.label_name@)),
            ("labelValues"@, json_array(json_strings(f.label_values@))),
        ],
    )
}

/// An optional entry of the body: present only when the value is.
pub open spec fn opt_body_entry(key: Seq<char>, value: Option<serde_json::Value>) -> Seq<
    (Seq<char>, serde_json::Value),
> {
    match value {
        Some(v) => seq![(key, v)],
        None => seq![],
    }
}

/// The body shared by the entities-data and entity-data requests: the time
/// range, the aggregation, the columns, the group-by labels and the
/// filters, then `limit`, `sortColumn` and `sortOrder` only when set. The
/// entity type and id travel in the path, not here.
pub open spec fn data_body_json(p: DataParams) -> serde_json::Value {
    json_object_of(
        seq![
            ("timeRange"@, json_object_of(seq![("start"@, json_number(p.start as int)), ("end"@, json_number(p.end as int))])),
            ("dataAggregationType"@, json_string(p.data_aggregation_type@)),
            ("columns"@, json_array(p.columns@.map_values(|c: String| column_request_json(c)))),
            ("groupBy"@, json_array(json_strings(p.group_by@))),
            ("filters"@, json_array(p.filters@.map_values(|f: ApmFilterInput| filter_request_json(f)))),
        ] + opt_body_entry(
            "limit"@,
            match p.limit {
                Some(l) => Some(json_number(l as int)),
                None => None,
            },
        ) + opt_body_entry(
            "sortColumn"@,
            match p.sort_column {
                Some(c) => Some(json_string(c@)),
                None => None,
            },
        ) + opt_body_entry(
            "sortOrder"@,
            match p.sort_order {
                Some(o) => Some(json_string(o@)),
                None => None,
            },
        ),
    )
}

fn strings_slice_value(items: &[String]) -> (r: serde_json::Value)
    ensures
        r == json_array(json_strings(items@)),
{
    let mut out: Vec<serde_json::Value> = Vec::new();
    let n = items.len();
    for i in 0..n
        invariant
            n == items@.len(),
            out@ == json_strings(items@.take(i as int)),
    {
        out.push(string_value(items[i].as_str()));
        assert(items@.take(i + 1) =~= items@.take(i as int).push(items@[i as int]));
        assert(out@ =~= json_strings(items@.take(i + 1)));
    }
    assert(items@.take(n as int) =~= items@);
    array_of(out)
}

/// Builds the JSON body of an entities-data or entity-data request.
pub fn build_data_body(params: &DataParams) -> (r: serde_json::Value)
    ensures
        r == data_body_json(*params),
{
    let time_range = vec![
        (owned("start"), number_value(params.start)),
        (owned("end"), number_value(params.end)),
    ];
    assert(entry_views(time_range@) =~= seq![("start"@, json_number(params.start as int)), ("end"@, json_number(params.end as int))]);
    let mut columns: Vec<serde_json::Value> = Vec::new();
    let nc = params.columns.len();
    for i in 0..nc
        invariant
            nc == params.columns@.len(),
            columns@ == params.columns@.take(i as int).map_values(|c: String| column_request_json(c)),
    {
        let entry = vec![(owned("columnId"), string_value(params.columns[i].as_str()))];
        assert(entry_views(entry@) =~= seq![("columnId"@, json_string(params.columns@[i as int]@))]);
        columns.push(object_of(entry));
        assert(params.columns@.take(i + 1) =~= params.columns@.take(i as int).push(params.columns@[i as int]));
        assert(columns@ =~= params.columns@.take(i + 1).map_values(|c: String| column_request_json(c)));
    }
    assert(params.columns@.take(nc as int) =~= params.columns@);
    let mut filters: Vec<serde_json::Value> = Vec::new();
    let nf = params.filters.len();
    for i in 0..nf
        invariant
            nf == params.filters@.len(),
            filters@ == params.filters@.take(i as int).map_values(|f: ApmFilterInput| filter_request_json(f)),
    {
        let f = &params.filters[i];
        let entry = vec![
            (owned("labelName"), string_value(f.label_name.as_str())),
            (owned("labelValues"), strings_value(&f.label_values)),
        ];
        assert(entry_views(entry@) =~= seq![
            ("labelName"@, json_string(f.label_name@)),
            ("labelValues"@, json_array(json_strings(f.label_values@))),
        ]);
        filters.push(object_of(entry));
        assert(params.filters@.take(i + 1) =~= params.filters@.take(i as int).push(params.filters@[i as int]));
        assert(filters@ =~= params.filters@.take(i + 1).map_values(|f: ApmFilterInput| filter_request_json(f)));
    }
    assert(params.filters@.take(nf as int) =~= params.filters@);
    let ghost cv = columns@;
    let ghost fv = filters@;
    let mut body = vec![
        (owned("timeRange"), object_of(time_range)),
        (owned("dataAggregationType"), string_value(params.data_aggregation_type)),
        (owned("columns"), array_of(columns)),
        (owned("groupBy"), strings_slice_value(params.group_by)),
        (owned("filters"), array_of(filters)),
    ];
    let ghost head = entry_views(body@);
    if let Some(limit) = params.limit {
        body.push((owned("limit"), number_value(limit as i64)));
    }
    let ghost with_limit = entry_views(body@);
    if let Some(sort_column) = params.sort_column {
        body.push((owned("sortColumn"), string_value(sort_column)));
    }
    let ghost with_column = entry_views(body@);
    if let Some(sort_order) = params.sort_order {
        body.push((owned("sortOrder"), string_value(sort_order)));
    }
    assert(entry_views(body@) =~= seq![
        ("timeRange"@, json_object_of(seq![("start"@, json_number(params.start as int)), ("end"@, json_number(params.end as int))])),
        ("dataAggregationType"@, json_string(params.data_aggregation_type@)),
        ("columns"@, json_array(cv)),
        ("groupBy"@, json_array(json_strings(params.group_by@))),
        ("filters"@, json_array(fv)),
    ] + opt_body_entry(
        "limit"@,
        match params.limit {
            Some(l) => Some(json_number(l as int)),
            None => None,
        },
    ) + opt_body_entry(
        "sortColumn"@,
        match params.sort_column {
            Some(c) => Some(json_string(c@)),
            None => None,
        },
    ) + opt_body_entry(
        "sortOrder"@,
        match params.sort_order {
            Some(o) => Some(json_string(o@)),
            None => None,
        },
    ));
    object_of(body)
}

// ── Requests ─────────────────────────────────────────────────────────────────

/// Percent-encodes an entity id for use as a URL path segment.
pub fn encode_entity_id(entity_id: &str) -> (r: String)
    ensures
        r@ == spec_percent_encode(entity_id@),
{
    encode_path_segment(entity_id)
}

/// Handle on the v2 entities API of one client.
pub struct ServiceCatalogApi<'a, C> {
    client: &'a C,
}

impl<'a, C> ServiceCatalogApi<'a, C> {
    pub fn new(client: &'a C) -> (r: Self)
        ensures
            r.client() == client,
    {
        Self { client }
    }

    pub closed spec fn client(&self) -> &'a C {
        self.client
    }

    /// The client requests are sent with.
    pub fn client_ref(&self) -> (r: &'a C)
        ensures
            r == self.client(),
    {
        self.client
    }

    /// `GET /v2/entities`: the entity types the account has data for.
    pub fn list_entity_types_request(&self) -> (r: ApiRequest)
        ensures
            r.method == Method::Get,
            r.path@ == BASE_PATH@,
            r.query@.len() == 0,
    {
        proof {
            reveal_strlit("");
        }
        let r = ApiRequest::new(Method::Get, BASE_PATH, "");
        assert(r.path@ =~= BASE_PATH@);
        r
    }

    /// `GET /v2/entities/{type}/metadata`; `entity_type` already normalized.
    pub fn entity_type_schema_request(&self, entity_type: &str) -> (r: ApiRequest)
        ensures
            r.method == Method::Get,
            r.path@ == BASE_PATH@ + "/"@ + entity_type@ + "/metadata"@,
            r.query@.len() == 0,
    {
        let mut path = crate::text::owned(BASE_PATH);
        path.append("/");
        path.append(entity_type);
        path.append("/metadata");
        ApiRequest { method: Method::Get, path, query: Vec::new() }
    }

    /// `GET /v2/entities/{type}`; `entity_type` already normalized.
    pub fn list_entities_request(&self, entity_type: &str) -> (r: ApiRequest)
        ensures
            r.method == Method::Get,
            r.path@ == BASE_PATH@ + "/"@ + entity_type@,
            r.query@.len() == 0,
    {
        let mut path = crate::text::owned(BASE_PATH);
        path.append("/");
        path.append(entity_type);
        ApiRequest { method: Method::Get, path, query: Vec::new() }
    }

    /// `POST /v2/entities/{type}/data`; the body carries the parameters.
    pub fn entities_data_request(&self, entity_type: &str) -> (r: ApiRequest)
        ensures
            r.method == Method::Post,
            r.path@ == BASE_PATH@ + "/"@ + entity_type@ + "/data"@,
            r.query@.len() == 0,
    {
        let mut path = crate::text::owned(BASE_PATH);
        path.append("/");
        path.append(entity_type);
        path.append("/data");
        ApiRequest { method: Method::Post, path, query: Vec::new() }
    }

    /// `POST /v2/entities/{type}/data/entity/{id}`, the id percent-encoded;
    /// the body carries the parameters.
    pub fn entity_data_request(&self, entity_type: &str, entity_id: &str) -> (r: ApiRequest)
        ensures
            r.method == Method::Post,
            r.path@ == BASE_PATH@ + "/"@ + entity_type@ + "/data/entity/"@ + spec_percent_encode(
                entity_id@,
            ),
            r.query@.len() == 0,
    {
        let mut path = crate::text::owned(BASE_PATH);
        path.append("/");
        path.append(entity_type);
        path.append("/data/entity/");
        path.append(encode_entity_id(entity_id).as_str());
        ApiRequest { method: Method::Post, path, query: Vec::new() }
    }
}

// ── Laws ─────────────────────────────────────────────────────────────────────

proof fn lemma_non_empty_trimmed(pieces: Seq<Seq<char>>)
    ensures
        forall|i: int|
            0 <= i < non_empty_trimmed(pieces).len() ==> #[trigger] non_empty_trimmed(
                pieces,
            )[i].len() > 0,
    decreases pieces.len(),
{
    if pieces.len() > 0 {
        lemma_non_empty_trimmed(pieces.drop_last());
        let acc = non_empty_trimmed(pieces.drop_last());
        let d = non_empty_trimmed(pieces);
        assert forall|i: int| 0 <= i < d.len() implies #[trigger] d[i].len() > 0 by {
            if i < acc.len() {
                assert(d[i] == acc[i]);
            }
        }
    }
}

/// Parsed `--filter` entries name each label once (filters AND together, so
/// a repeated label could never mean "either value"), and each carries at
/// least one value, none of them empty.
pub proof fn lemma_parsed_filters_have_distinct_labels(raw: Seq<Seq<char>>)
    requires
        spec_filters(raw) is Some,
    ensures
        ({
            let fs = spec_filters(raw)->0;
            &&& forall|i: int, j: int| 0 <= i < j < fs.len() ==> fs[i].0 != fs[j].0
            &&& forall|i: int| 0 <= i < fs.len() ==> (#[trigger] fs[i]).0.len() > 0 && fs[i].1.len() > 0
            &&& forall|i: int, k: int| 0 <= i < fs.len() && 0 <= k < fs[i].1.len() ==> fs[i].1[k].len() > 0
        }),
    decreases raw.len(),
{
    if raw.len() > 0 {
        lemma_parsed_filters_have_distinct_labels(raw.drop_last());
        let acc = spec_filters(raw.drop_last())->0;
        let e = raw.last();
        let (l, vs) = filter_entry(e);
        let fs = spec_filters(raw)->0;
        assert(fs == acc.push((l, vs)));
        match split_once(e, '=') {
            Some((lab, v)) => {
                lemma_non_empty_trimmed(split(v, ','));
            },
            None => {},
        }
        assert forall|i: int, j: int| 0 <= i < j < fs.len() implies fs[i].0 != fs[j].0 by {
            assert(fs[i] == acc[i]);
            if j < fs.len() - 1 {
                assert(fs[j] == acc[j]);
            } else if fs[i].0 == l {
                assert(label_seen(acc, l));
            }
        }
        assert forall|i: int| 0 <= i < fs.len() implies (#[trigger] fs[i]).0.len() > 0 && fs[i].1.len() > 0 by {
            if i < fs.len() - 1 {
                assert(fs[i] == acc[i]);
            }
        }
        assert forall|i: int, k: int| 0 <= i < fs.len() && 0 <= k < fs[i].1.len() implies fs[i].1[k].len() > 0 by {
            if i < fs.len() - 1 {
                assert(fs[i] == acc[i]);
            }
        }
    }
}

// ── JSON rows ────────────────────────────────────────────────────────────────

/// The JSON row of an entity type.
pub open spec fn entity_type_info_json(item: EntityTypeInfo) -> serde_json::Value {
    json_object_of(
        seq![
            ("entity_type"@, opt_field(item.entity_type)),
            ("id"@, opt_field(item.id)),
            ("display_name"@, opt_field(item.display_name)),
            ("description"@, opt_field(item.description)),
        ],
    )
}

/// The JSON row of an entity type, tagged with its profile when asked.
pub fn entity_type_info_to_json(item: &EntityTypeInfo, include_profile: bool, profile: &str) -> (r: serde_json::Value)
    ensures
        r == profile_tagged(entity_type_info_json(*item), include_profile, profile@),
{
    let entries = vec![
        (owned("entity_type"), opt_field_value(&item.entity_type)),
        (owned("id"), opt_field_value(&item.id)),
        (owned("display_name"), opt_field_value(&item.display_name)),
        (owned("description"), opt_field_value(&item.description)),
    ];
    assert(entry_views(entries@) =~= seq![
        ("entity_type"@, opt_field(item.entity_type)),
        ("id"@, opt_field(item.id)),
        ("display_name"@, opt_field(item.display_name)),
        ("description"@, opt_field(item.description)),
    ]);
    tag_profile(object_of(entries), include_profile, profile)
}

/// The JSON of an entity type's schema.
pub open spec fn entity_type_metadata_json(m: EntityTypeMetadata) -> serde_json::Value {
    json_object_of(
        seq![
            ("entity_id"@, opt_field(m.entity_id)),
            ("display_name"@, opt_field(m.display_name)),
            ("description"@, opt_field(m.description)),
            ("columns"@, data::columns_json(m.columns@)),
            ("default_columns"@, json_array(json_strings(m.default_columns@))),
            ("groupable_labels"@, json_array(json_strings(m.groupable_labels@))),
            ("group_by_limit"@, json_opt_number(match m.group_by_limit { Some(g) => Some(g as int), None => None })),
            ("default_group_by"@, json_array(json_strings(m.default_group_by@))),
            ("filterable_labels"@, json_array(json_strings(m.filterable_labels@))),
            ("required_filters"@, json_array(json_strings(m.required_filters@))),
        ],
    )
}

/// The JSON of an entity type's schema.
pub fn entity_type_metadata_to_json(m: &EntityTypeMetadata) -> (r: serde_json::Value)
    ensures
        r == entity_type_metadata_json(*m),
{
    let limit: Option<i64> = match m.group_by_limit {
        Some(g) => Some(g as i64),
        None => None,
    };
    let entries = vec![
        (owned("entity_id"), opt_field_value(&m.entity_id)),
        (owned("display_name"), opt_field_value(&m.display_name)),
        (owned("description"), opt_field_value(&m.description)),
        (owned("columns"), data::columns_to_json(&m.columns)),
        (owned("default_columns"), strings_value(&m.default_columns)),
        (owned("groupable_labels"), strings_value(&m.groupable_labels)),
        (owned("group_by_limit"), opt_number_value(limit)),
        (owned("default_group_by"), strings_value(&m.default_group_by)),
        (owned("filterable_labels"), strings_value(&m.filterable_labels)),
        (owned("required_filters"), strings_value(&m.required_filters)),
    ];
    assert(entry_views(entries@) =~= seq![
        ("entity_id"@, opt_field(m.entity_id)),
        ("display_name"@, opt_field(m.display_name)),
        ("description"@, opt_field(m.description)),
        ("columns"@, data::columns_json(m.columns@)),
        ("default_columns"@, json_array(json_strings(m.default_columns@))),
        ("groupable_labels"@, json_array(json_strings(m.groupable_labels@))),
        ("group_by_limit"@, json_opt_number(match m.group_by_limit { Some(g) => Some(g as int), None => None })),
        ("default_group_by"@, json_array(json_strings(m.default_group_by@))),
        ("filterable_labels"@, json_array(json_strings(m.filterable_labels@))),
        ("required_filters"@, json_array(json_strings(m.required_filters@))),
    ]);
    object_of(entries)
}

/// An environment an entity was seen in.
pub open spec fn environment_json(e: EnvironmentActivity) -> serde_json::Value {
    json_object_of(seq![("name"@, opt_field(e.name)), ("last_seen"@, opt_field(e.last_seen))])
}

fn environment_to_json(e: &EnvironmentActivity) -> (r: serde_json::Value)
    ensures
        r == environment_json(*e),
{
    let entries = vec![
        (owned("name"), opt_field_value(&e.name)),
        (owned("last_seen"), opt_field_value(&e.last_seen)),
    ];
    assert(entry_views(entries@) =~= seq![("name"@, opt_field(e.name)), ("last_seen"@, opt_field(e.last_seen))]);
    object_of(entries)
}

/// The JSON row of an entity: name, system, when it was last seen, its
/// deployments and the environments it was seen in.
pub open spec fn entity_item_json(item: EntityItem) -> serde_json::Value {
    json_object_of(
        seq![
            ("name"@, opt_field(item.name)),
            ("system"@, opt_field(item.system)),
            ("last_seen"@, opt_field(item.last_seen)),
            ("deployments"@, json_array(json_strings(item.deployments@))),
            ("environments"@, json_array(item.environments@.map_values(|e: EnvironmentActivity| environment_json(e)))),
        ],
    )
}

/// The JSON row of an entity, tagged with its profile when asked.
pub fn entity_item_to_json(item: &EntityItem, include_profile: bool, profile: &str) -> (r: serde_json::Value)
    ensures
        r == profile_tagged(entity_item_json(*item), include_profile, profile@),
{
    let mut envs: Vec<serde_json::Value> = Vec::new();
    let n = item.environments.len();
    for i in 0..n
        invariant
            n == item.environments@.len(),
            envs@ == item.environments@.take(i as int).map_values(
                |e: EnvironmentActivity| environment_json(e),
            ),
    {
        envs.push(environment_to_json(&item.environments[i]));
        assert(item.environments@.take(i + 1) =~= item.environments@.take(i as int).push(
            item.environments@[i as int],
        ));
        assert(envs@ =~= item.environments@.take(i + 1).map_values(
            |e: EnvironmentActivity| environment_json(e),
        ));
    }
    assert(item.environments@.take(n as int) =~= item.environments@);
    let ghost ev = envs@;
    let entries = vec![
        (owned("name"), opt_field_value(&item.name)),
        (owned("system"), opt_field_value(&item.system)),
        (owned("last_seen"), opt_field_value(&item.last_seen)),
        (owned("deployments"), strings_value(&item.deployments)),
        (owned("environments"), array_of(envs)),
    ];
    assert(entry_views(entries@) =~= seq![
        ("name"@, opt_field(item.name)),
        ("system"@, opt_field(item.system)),
        ("last_seen"@, opt_field(item.last_seen)),
        ("deployments"@, json_array(json_strings(item.deployments@))),
        ("environments"@, json_array(ev)),
    ]);
    tag_profile(object_of(entries), include_profile, profile)
}

} // verus!
