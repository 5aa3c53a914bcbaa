//! Flattening the v2 entities-data answers: a `ColumnValue` is a protobuf
//! `oneof`, so its JSON keeps whichever single field was set. Malformed or
//! empty answers are errors rather than an empty or partial result.

use vstd::prelude::*;
use crate::json::{
    array_items, as_i64_of, get_value, json_array_items, json_as_i64, json_get, profile_tagged,
    tag_profile, array_of, copy_value, entry_views, json_array, json_is_null, json_number, json_object_entries,
    json_object_of, json_opt_string, json_str_at, json_string, number_value, object_entries,
    object_of, opt_string_value, str_at, string_value,
};
use crate::text::{chars_eq_str, chars_of, field_view, owned, views};
use super::{ColumnMetadata, ServiceCatalogError};

verus! {

/// One row of a table result: the identity labels, in ascending key order
/// and each once, and the raw `ColumnResult` JSON of each column by column
/// id, in ascending id order and each once.
#[derive(Debug)]
pub struct TableRow {
    pub identity: Vec<(String, String)>,
    pub values: Vec<(String, serde_json::Value)>,
}

#[derive(Debug)]
pub struct TableData {
    pub rows: Vec<TableRow>,
    pub columns: Vec<ColumnMetadata>,
}

#[derive(Debug)]
pub struct TimeseriesData {
    pub series: Vec<serde_json::Value>,
    pub columns: Vec<ColumnMetadata>,
    pub total_series_count: i32,
}

/// An entities-data answer: a table or a timeseries.
#[derive(Debug)]
pub struct EntitiesDataResult {
    pub table: Option<TableData>,
    pub timeseries: Option<TimeseriesData>,
}

/// A result with its error read as the message it shows.
pub open spec fn outcome(r: Result<serde_json::Value, ServiceCatalogError>) -> Result<
    serde_json::Value,
    Seq<char>,
> {
    match r {
        Ok(v) => Ok(v),
        Err(e) => Err(e.spec_message()),
    }
}

// ── Column values and results ────────────────────────────────────────────────

/// The value of the first entry under `key`.
pub open spec fn entry_value(es: Seq<(Seq<char>, serde_json::Value)>, key: Seq<char>) -> Option<
    serde_json::Value,
>
    decreases es.len(),
{
    if es.len() == 0 {
        None
    } else {
        match entry_value(es.drop_last(), key) {
            Some(v) => Some(v),
            None => if es.last().0 == key {
                Some(es.last().1)
            } else {
                None
            },
        }
    }
}

/// The entries other than `warning`, in order: the value fields.
pub open spec fn value_fields(es: Seq<(Seq<char>, serde_json::Value)>) -> Seq<
    (Seq<char>, serde_json::Value),
>
    decreases es.len(),
{
    if es.len() == 0 {
        seq![]
    } else {
        let rest = value_fields(es.drop_last());
        if es.last().0 == "warning"@ {
            rest
        } else {
            rest.push(es.last())
        }
    }
}

/// The keys of some entries.
pub open spec fn entry_keys(es: Seq<(Seq<char>, serde_json::Value)>) -> Seq<Seq<char>> {
    es.map_values(|e: (Seq<char>, serde_json::Value)| e.0)
}

/// A value with its warning: `{"value", "warning"}` when a warning other
/// than `null` is present, the value alone otherwise.
pub open spec fn with_warning(inner: serde_json::Value, warning: Option<serde_json::Value>) -> serde_json::Value {
    match warning {
        Some(w) => if json_is_null(w) {
            inner
        } else {
            json_object_of(seq![("value"@, inner), ("warning"@, w)])
        },
        None => inner,
    }
}

/// A `ColumnValue` flattened: an object with exactly one value field (and
/// an optional `warning`) gives that field's value, wrapped with the
/// warning when there is one.
pub open spec fn spec_flatten_column_value(cv: serde_json::Value) -> Result<serde_json::Value, Seq<char>> {
    match json_object_entries(cv) {
        None => Err("malformed service-catalog column value: expected an object"@),
        Some(es) => {
            let vs = value_fields(es);
            if vs.len() == 1 {
                Ok(with_warning(vs[0].1, entry_value(es, "warning"@)))
            } else {
                Err(
                    "malformed service-catalog column value: expected exactly one value field, got "@
                        + crate::json::debug_list(entry_keys(vs)),
                )
            }
        },
    }
}

/// What a `ColumnError` says: its `message`, else its `code`, else
/// `unknown error`.
pub open spec fn error_text(error: serde_json::Value) -> Seq<char> {
    match json_str_at(error, "message"@) {
        Some(m) => m,
        None => match json_str_at(error, "code"@) {
            Some(c) => c,
            None => "unknown error"@,
        },
    }
}

/// A `ColumnResult` flattened: `{"value": ColumnValue}` gives the flattened
/// value, `{"error": ColumnError}` gives `{"error": <its text>}`; anything
/// else is malformed.
pub open spec fn spec_flatten_column_result(cr: serde_json::Value) -> Result<
    serde_json::Value,
    Seq<char>,
> {
    match json_object_entries(cr) {
        None => Err("malformed service-catalog column result: expected an object"@),
        Some(es) => match (entry_value(es, "value"@), entry_value(es, "error"@)) {
            (Some(v), None) => spec_flatten_column_value(v),
            (None, Some(e)) => Ok(json_object_of(seq![("error"@, json_string(error_text(e)))])),
            _ => Err(
                "malformed service-catalog column result: expected exactly one of 'value' or 'error'"@,
            ),
        },
    }
}

proof fn lemma_entry_value_prefix(es: Seq<(Seq<char>, serde_json::Value)>, n: int, key: Seq<char>)
    requires
        0 <= n <= es.len(),
        entry_value(es.take(n), key) is Some,
    ensures
        entry_value(es, key) == entry_value(es.take(n), key),
    decreases es.len(),
{
    if n == es.len() {
        assert(es.take(n) =~= es);
    } else {
        assert(es.drop_last().take(n) =~= es.take(n));
        lemma_entry_value_prefix(es.drop_last(), n, key);
    }
}

/// The index of the first entry under `key`.
fn find_entry(es: &Vec<(String, serde_json::Value)>, key: &str) -> (r: Option<usize>)
    ensures
        match r {
            Some(i) => i < es@.len() && entry_value(entry_views(es@), key@) == Some(es@[i as int].1),
            None => entry_value(entry_views(es@), key@) is None,
        },
{
    let ghost ev = entry_views(es@);
    let n = es.len();
    for i in 0..n
        invariant
            n == es@.len(),
            ev == entry_views(es@),
            entry_value(ev.take(i as int), key@) is None,
    {
        assert(ev.take(i + 1).drop_last() =~= ev.take(i as int));
        assert(ev.take(i + 1).last() == ev[i as int]);
        if chars_eq_str(&chars_of(es[i].0.as_str()), key) {
            proof {
                lemma_entry_value_prefix(ev, i + 1, key@);
            }
            return Some(i);
        }
    }
    assert(ev.take(n as int) =~= ev);
    None
}

/// Flattens a `ColumnValue`: exactly one value field, plus an optional
/// `warning`.
pub fn flatten_column_value(column_value: &serde_json::Value) -> (r: Result<
    serde_json::Value,
    ServiceCatalogError,
>)
    ensures
        outcome(r) == spec_flatten_column_value(*column_value),
{
    let entries = match object_entries(column_value) {
        Some(es) => es,
        None => return Err(ServiceCatalogError::ColumnValueNotObject),
    };
    let ghost ev = entry_views(entries@);
    let mut keys: Vec<String> = Vec::new();
    let mut first: Option<usize> = None;
    let n = entries.len();
    for i in 0..n
        invariant
            n == entries@.len(),
            ev == entry_views(entries@),
            views(keys@) == entry_keys(value_fields(ev.take(i as int))),
            value_fields(ev.take(i as int)).len() > 0 ==> (first matches Some(f) && f < i
                && value_fields(ev.take(i as int))[0] == ev[f as int]),
            value_fields(ev.take(i as int)).len() == 0 ==> first is None,
    {
        assert(ev.take(i + 1).drop_last() =~= ev.take(i as int));
        assert(ev.take(i + 1).last() == ev[i as int]);
        if !chars_eq_str(&chars_of(entries[i].0.as_str()), "warning") {
            let k = owned(entries[i].0.as_str());
            proof {
                crate::text::lemma_views_push(keys@, k);
                assert(entry_keys(value_fields(ev.take(i + 1))) =~= entry_keys(
                    value_fields(ev.take(i as int)),
                ).push(k@));
            }
            keys.push(k);
            if first.is_none() {
                first = Some(i);
            }
        }
    }
    assert(ev.take(n as int) =~= ev);
    if keys.len() != 1 {
        return Err(ServiceCatalogError::ColumnValueFields { keys });
    }
    let f = match first {
        Some(f) => f,
        None => return Err(ServiceCatalogError::ColumnValueFields { keys }),
    };
    let inner = copy_value(&entries[f].1);
    match find_entry(&entries, "warning") {
        Some(w) => {
            if json_is_null_exec(&entries[w].1) {
                Ok(inner)
            } else {
                let warning = copy_value(&entries[w].1);
                let pair = vec![(owned("value"), inner), (owned("warning"), warning)];
                assert(entry_views(pair@) =~= seq![("value"@, inner), ("warning"@, warning)]);
                Ok(object_of(pair))
            }
        },
        None => Ok(inner),
    }
}

fn json_is_null_exec(v: &serde_json::Value) -> (r: bool)
    ensures
        r == json_is_null(*v),
{
    crate::json::is_null(v)
}

/// Flattens a `ColumnResult`: `{"value": ColumnValue}` or `{"error":
/// ColumnError}`.
pub fn flatten_column_result(column_result: &serde_json::Value) -> (r: Result<
    serde_json::Value,
    ServiceCatalogError,
>)
    ensures
        outcome(r) == spec_flatten_column_result(*column_result),
{
    let entries = match object_entries(column_result) {
        Some(es) => es,
        None => return Err(ServiceCatalogError::ColumnResultNotObject),
    };
    match (find_entry(&entries, "value"), find_entry(&entries, "error")) {
        (Some(a), None) => flatten_column_value(&entries[a].1),
        (None, Some(b)) => {
            let e = &entries[b].1;
            let message = match str_at(e, "message") {
                Some(m) => m,
                None => match str_at(e, "code") {
                    Some(c) => c,
                    None => "unknown error",
                },
            };
            let pair = vec![(owned("error"), string_value(message))];
            assert(entry_views(pair@) =~= seq![("error"@, json_string(error_text(*e)))]);
            Ok(object_of(pair))
        },
        _ => Err(ServiceCatalogError::ColumnResultShape),
    }
}

// ── Table rows ───────────────────────────────────────────────────────────────

/// The identity labels as JSON string entries.
pub open spec fn identity_entries(identity: Seq<(String, String)>) -> Seq<
    (Seq<char>, serde_json::Value),
> {
    identity.map_values(|p: (String, String)| (p.0@, json_string(p.1@)))
}

/// Each column's result flattened, in order; the first malformed one is
/// the error.
pub open spec fn flattened_values(values: Seq<(String, serde_json::Value)>) -> Result<
    Seq<(Seq<char>, serde_json::Value)>,
    Seq<char>,
>
    decreases values.len(),
{
    if values.len() == 0 {
        Ok(seq![])
    } else {
        match flattened_values(values.drop_last()) {
            Err(m) => Err(m),
            Ok(ps) => match spec_flatten_column_result(values.last().1) {
                Err(m) => Err(m),
                Ok(v) => Ok(ps.push((values.last().0@, v))),
            },
        }
    }
}

/// A table row flattened into one object: the identity labels, then each
/// column's flattened result under its id.
pub open spec fn spec_flatten_table_row(row: TableRow) -> Result<serde_json::Value, Seq<char>> {
    match flattened_values(row.values@) {
        Err(m) => Err(m),
        Ok(ps) => Ok(json_object_of(identity_entries(row.identity@) + ps)),
    }
}

proof fn lemma_flattened_values_err(values: Seq<(String, serde_json::Value)>, n: int)
    requires
        0 <= n <= values.len(),
        flattened_values(values.take(n)) is Err,
    ensures
        flattened_values(values) == flattened_values(values.take(n)),
    decreases values.len(),
{
    if n == values.len() {
        assert(values.take(n) =~= values);
    } else {
        assert(values.drop_last().take(n) =~= values.take(n));
        lemma_flattened_values_err(values.drop_last(), n);
    }
}

/// Flattens a table row into one object: identity labels, then each
/// column's flattened result.
pub fn flatten_table_row(row: &TableRow) -> (r: Result<serde_json::Value, ServiceCatalogError>)
    ensures
        outcome(r) == spec_flatten_table_row(*row),
{
    let mut flat: Vec<(String, serde_json::Value)> = Vec::new();
    let ni = row.identity.len();
    for i in 0..ni
        invariant
            ni == row.identity@.len(),
            entry_views(flat@) == identity_entries(row.identity@.take(i as int)),
    {
        let entry = (owned(row.identity[i].0.as_str()), string_value(row.identity[i].1.as_str()));
        let ghost before = flat@;
        flat.push(entry);
        assert(row.identity@.take(i + 1) =~= row.identity@.take(i as int).push(
            row.identity@[i as int],
        ));
        assert(entry_views(flat@) =~= entry_views(before).push((entry.0@, entry.1)));
        assert(entry_views(flat@) =~= identity_entries(row.identity@.take(i + 1)));
    }
    assert(row.identity@.take(ni as int) =~= row.identity@);
    let ghost head = entry_views(flat@);
    let nv = row.values.len();
    for i in 0..nv
        invariant
            nv == row.values@.len(),
            head == identity_entries(row.identity@),
            flattened_values(row.values@.take(i as int)) matches Ok(ps) && entry_views(flat@)
                == head + ps,
    {
        assert(row.values@.take(i + 1).drop_last() =~= row.values@.take(i as int));
        assert(row.values@.take(i + 1).last() == row.values@[i as int]);
        match flatten_column_result(&row.values[i].1) {
            Ok(v) => {
                let entry = (owned(row.values[i].0.as_str()), v);
                let ghost before = flat@;
                flat.push(entry);
                assert(entry_views(flat@) =~= entry_views(before).push((entry.0@, entry.1)));
            },
            Err(e) => {
                proof {
                    lemma_flattened_values_err(row.values@, i + 1);
                }
                return Err(e);
            },
        }
    }
    assert(row.values@.take(nv as int) =~= row.values@);
    Ok(object_of(flat))
}

// ── Whole answers ────────────────────────────────────────────────────────────

/// The JSON of a column's metadata: `id`, `display_name`, `unit`, each a
/// string or `null`.
pub open spec fn column_metadata_json(c: ColumnMetadata) -> serde_json::Value {
    json_object_of(
        seq![
            ("id"@, json_opt_string(field_view(c.id))),
            ("display_name"@, json_opt_string(field_view(c.display_name))),
            ("unit"@, json_opt_string(field_view(c.unit))),
        ],
    )
}

/// The JSON of a column's metadata.
pub fn column_metadata_to_json(c: &ColumnMetadata) -> (r: serde_json::Value)
    ensures
        r == column_metadata_json(*c),
{
    let entries = vec![
        (owned("id"), opt_string_value(crate::json::opt_str(&c.id))),
        (owned("display_name"), opt_string_value(crate::json::opt_str(&c.display_name))),
        (owned("unit"), opt_string_value(crate::json::opt_str(&c.unit))),
    ];
    assert(entry_views(entries@) =~= seq![
        ("id"@, json_opt_string(field_view(c.id))),
        ("display_name"@, json_opt_string(field_view(c.display_name))),
        ("unit"@, json_opt_string(field_view(c.unit))),
    ]);
    object_of(entries)
}

/// The JSON of a list of column metadata.
pub open spec fn columns_json(cs: Seq<ColumnMetadata>) -> serde_json::Value {
    json_array(cs.map_values(|c: ColumnMetadata| column_metadata_json(c)))
}

pub fn columns_to_json(cs: &Vec<ColumnMetadata>) -> (r: serde_json::Value)
    ensures
        r == columns_json(cs@),
{
    let mut items: Vec<serde_json::Value> = Vec::new();
    let n = cs.len();
    for i in 0..n
        invariant
            n == cs@.len(),
            items@ == cs@.take(i as int).map_values(|c: ColumnMetadata| column_metadata_json(c)),
    {
        items.push(column_metadata_to_json(&cs[i]));
        assert(cs@.take(i + 1) =~= cs@.take(i as int).push(cs@[i as int]));
        assert(items@ =~= cs@.take(i + 1).map_values(
            |c: ColumnMetadata| column_metadata_json(c),
        ));
    }
    assert(cs@.take(n as int) =~= cs@);
    array_of(items)
}

/// Each row flattened, in order; the first malformed one is the error.
pub open spec fn flattened_rows(rows: Seq<TableRow>) -> Result<Seq<serde_json::Value>, Seq<char>>
    decreases rows.len(),
{
    if rows.len() == 0 {
        Ok(seq![])
    } else {
        match flattened_rows(rows.drop_last()) {
            Err(m) => Err(m),
            Ok(vs) => match spec_flatten_table_row(rows.last()) {
                Err(m) => Err(m),
                Ok(v) => Ok(vs.push(v)),
            },
        }
    }
}

/// An entities-data answer flattened: a table gives `{rows, columns}`, a
/// timeseries `{series, columns, total_series_count}`; an answer with
/// neither is an error, not a silent empty result.
pub open spec fn spec_format_entities_data(result: EntitiesDataResult) -> Result<
    serde_json::Value,
    Seq<char>,
> {
    match result.table {
        Some(t) => match flattened_rows(t.rows@) {
            Err(m) => Err(m),
            Ok(rs) => Ok(
                json_object_of(
                    seq![("rows"@, json_array(rs)), ("columns"@, columns_json(t.columns@))],
                ),
            ),
        },
        None => match result.timeseries {
            Some(ts) => Ok(
                json_object_of(
                    seq![
                        ("series"@, json_array(ts.series@)),
                        ("columns"@, columns_json(ts.columns@)),
                        ("total_series_count"@, json_number(ts.total_series_count as int)),
                    ],
                ),
            ),
            None => Err(
                "service-catalog returned an empty or unrecognized response (neither table nor timeseries data)"@,
            ),
        },
    }
}

proof fn lemma_flattened_rows_err(rows: Seq<TableRow>, n: int)
    requires
        0 <= n <= rows.len(),
        flattened_rows(rows.take(n)) is Err,
    ensures
        flattened_rows(rows) == flattened_rows(rows.take(n)),
    decreases rows.len(),
{
    if n == rows.len() {
        assert(rows.take(n) =~= rows);
    } else {
        assert(rows.drop_last().take(n) =~= rows.take(n));
        lemma_flattened_rows_err(rows.drop_last(), n);
    }
}

/// Flattens one profile's entities-data answer.
pub fn format_entities_data_response(result: EntitiesDataResult) -> (r: Result<
    serde_json::Value,
    ServiceCatalogError,
>)
    ensures
        outcome(r) == spec_format_entities_data(result),
{
    if let Some(table) = &result.table {
        let mut rows: Vec<serde_json::Value> = Vec::new();
        let n = table.rows.len();
        for i in 0..n
            invariant
                n == table.rows@.len(),
                result.table == Some(*table),
                flattened_rows(table.rows@.take(i as int)) == Ok::<Seq<serde_json::Value>, Seq<char>>(rows@),
        {
            assert(table.rows@.take(i + 1).drop_last() =~= table.rows@.take(i as int));
            assert(table.rows@.take(i + 1).last() == table.rows@[i as int]);
            match flatten_table_row(&table.rows[i]) {
                Ok(v) => {
                    rows.push(v);
                },
                Err(e) => {
                    proof {
                        assert(spec_flatten_table_row(table.rows@[i as int]) == Err::<
                            serde_json::Value,
                            Seq<char>,
                        >(e.spec_message()));
                        assert(flattened_rows(table.rows@.take(i + 1)) == Err::<
                            Seq<serde_json::Value>,
                            Seq<char>,
                        >(e.spec_message()));
                        lemma_flattened_rows_err(table.rows@, i + 1);
                    }
                    return Err(e);
                },
            }
        }
        assert(table.rows@.take(n as int) =~= table.rows@);
        let entries = vec![
            (owned("rows"), array_of(rows)),
            (owned("columns"), columns_to_json(&table.columns)),
        ];
        assert(entry_views(entries@) =~= seq![
            ("rows"@, json_array(rows@)),
            ("columns"@, columns_json(table.columns@)),
        ]);
        return Ok(object_of(entries));
    }
    match result.timeseries {
        Some(ts) => {
            let columns = columns_to_json(&ts.columns);
            let total = number_value(ts.total_series_count as i64);
            let entries = vec![
                (owned("series"), array_of(ts.series)),
                (owned("columns"), columns),
                (owned("total_series_count"), total),
            ];
            assert(entry_views(entries@) =~= seq![
                ("series"@, json_array(ts.series@)),
                ("columns"@, columns_json(ts.columns@)),
                ("total_series_count"@, json_number(ts.total_series_count as int)),
            ]);
            Ok(object_of(entries))
        },
        None => Err(ServiceCatalogError::EmptyDataResult),
    }
}

// ── Merging the answers of several profiles ─────────────────────────────────

/// Whether the first answer has `key`.
pub open spec fn first_has(formatted: Seq<(String, serde_json::Value)>, key: Seq<char>) -> bool {
    formatted.len() > 0 && json_get(formatted[0].1, key) is Some
}

/// The columns of the first answer, or an empty array.
pub open spec fn merged_columns(formatted: Seq<(String, serde_json::Value)>) -> serde_json::Value {
    if formatted.len() > 0 && json_get(formatted[0].1, "columns"@) is Some {
        json_get(formatted[0].1, "columns"@)->0
    } else {
        json_array(seq![])
    }
}

/// The items of the array under `key` in `v`; none when there is no array.
pub open spec fn items_under(v: serde_json::Value, key: Seq<char>) -> Seq<serde_json::Value> {
    match json_get(v, key) {
        Some(a) => match json_array_items(a) {
            Some(items) => items,
            None => seq![],
        },
        None => seq![],
    }
}

/// The items under `key` of every answer, in order, each tagged with its
/// profile when profiles are shown.
pub open spec fn tagged_items(formatted: Seq<(String, serde_json::Value)>, key: Seq<char>, include_profile: bool) -> Seq<
    serde_json::Value,
>
    decreases formatted.len(),
{
    if formatted.len() == 0 {
        seq![]
    } else {
        let (profile, v) = formatted.last();
        tagged_items(formatted.drop_last(), key, include_profile) + items_under(v, key).map_values(
            |x: serde_json::Value| profile_tagged(x, include_profile, profile@),
        )
    }
}

/// An answer's `total_series_count`, 0 when it is no integer.
pub open spec fn series_count_of(v: serde_json::Value) -> int {
    match json_get(v, "total_series_count"@) {
        Some(n) => match json_as_i64(n) {
            Some(k) => k as int,
            None => 0,
        },
        None => 0,
    }
}

/// The sum of the answers' series counts.
pub open spec fn series_total(formatted: Seq<(String, serde_json::Value)>) -> int
    decreases formatted.len(),
{
    if formatted.len() == 0 {
        0
    } else {
        series_total(formatted.drop_last()) + series_count_of(formatted.last().1)
    }
}

/// Whether every running sum of the series counts fits in an `i64`.
pub open spec fn totals_fit(formatted: Seq<(String, serde_json::Value)>) -> bool {
    forall|k: int|
        0 <= k <= formatted.len() ==> i64::MIN <= #[trigger] series_total(formatted.take(k)) <= i64::MAX
}

/// The merged answers: when the first has a `series`, every series (each
/// tagged), the first's columns and the summed series count; else every
/// row (each tagged) and the first's columns.
pub open spec fn spec_merged_entities_data(formatted: Seq<(String, serde_json::Value)>, include_profile: bool) -> serde_json::Value {
    if first_has(formatted, "series"@) {
        json_object_of(
            seq![
                ("series"@, json_array(tagged_items(formatted, "series"@, include_profile))),
                ("columns"@, merged_columns(formatted)),
                ("total_series_count"@, json_number(series_total(formatted))),
            ],
        )
    } else {
        json_object_of(
            seq![
                ("rows"@, json_array(tagged_items(formatted, "rows"@, include_profile))),
                ("columns"@, merged_columns(formatted)),
            ],
        )
    }
}

/// How many items the answers hold under `key`, all together.
pub open spec fn item_count(formatted: Seq<(String, serde_json::Value)>, key: Seq<char>) -> nat
    decreases formatted.len(),
{
    if formatted.len() == 0 {
        0
    } else {
        item_count(formatted.drop_last(), key) + items_under(formatted.last().1, key).len()
    }
}

/// Merging keeps every series or row of every answer, tagged or not, and
/// adds none.
pub proof fn lemma_merge_keeps_every_item(
    formatted: Seq<(String, serde_json::Value)>,
    key: Seq<char>,
    include_profile: bool,
)
    ensures
        tagged_items(formatted, key, include_profile).len() == item_count(formatted, key),
    decreases formatted.len(),
{
    if formatted.len() > 0 {
        lemma_merge_keeps_every_item(formatted.drop_last(), key, include_profile);
    }
}

/// The items of the array under `key` in `v`.
fn items_of(v: &serde_json::Value, key: &str) -> (r: Vec<serde_json::Value>)
    ensures
        r@ == items_under(*v, key@),
{
    match get_value(v, key) {
        Some(a) => match array_items(&a) {
            Some(items) => items,
            None => Vec::new(),
        },
        None => Vec::new(),
    }
}

/// An answer's series count.
fn series_count(v: &serde_json::Value) -> (r: i64)
    ensures
        r as int == series_count_of(*v),
{
    match get_value(v, "total_series_count") {
        Some(n) => match as_i64_of(&n) {
            Some(k) => k,
            None => 0,
        },
        None => 0,
    }
}

/// Appends the items under `key` of one answer, each tagged.
fn push_tagged(out: &mut Vec<serde_json::Value>, v: &serde_json::Value, key: &str, include_profile: bool, profile: &str)
    ensures
        final(out)@ == old(out)@ + items_under(*v, key@).map_values(
            |x: serde_json::Value| profile_tagged(x, include_profile, profile@),
        ),
{
    let items = items_of(v, key);
    let ghost all = items@;
    let ghost start = out@;
    let n = items.len();
    let mut rest = items;
    let mut k: usize = 0;
    while k < n
        invariant
            n == all.len(),
            k <= n,
            all == items_under(*v, key@),
            rest@ == all.subrange(k as int, n as int),
            out@ == start + all.subrange(0, k as int).map_values(
                |x: serde_json::Value| profile_tagged(x, include_profile, profile@),
            ),
        decreases n - k,
    {
        let x = rest.remove(0);
        out.push(tag_profile(x, include_profile, profile));
        proof {
            assert(rest@ =~= all.subrange(k + 1, n as int));
            assert(all.subrange(0, k + 1) =~= all.subrange(0, k as int).push(all[k as int]));
            assert(all.subrange(0, k + 1).map_values(
                |x: serde_json::Value| profile_tagged(x, include_profile, profile@),
            ) =~= all.subrange(0, k as int).map_values(
                |x: serde_json::Value| profile_tagged(x, include_profile, profile@),
            ).push(profile_tagged(all[k as int], include_profile, profile@)));
        }
        k = k + 1;
    }
    assert(all.subrange(0, n as int) =~= all);
}

/// Merges the flattened entities-data answers of the profiles that
/// answered, in order, into one envelope of series or of rows.
pub fn merge_entities_data(formatted: &[(String, serde_json::Value)], include_profile: bool) -> (r: serde_json::Value)
    requires
        first_has(formatted@, "series"@) ==> totals_fit(formatted@),
    ensures
        r == spec_merged_entities_data(formatted@, include_profile),
{
    let n = formatted.len();
    let is_timeseries = n > 0 && get_value(&formatted[0].1, "series").is_some();
    let columns = if n > 0 {
        match get_value(&formatted[0].1, "columns") {
            Some(c) => c,
            None => array_of(Vec::new()),
        }
    } else {
        array_of(Vec::new())
    };
    assert(columns == merged_columns(formatted@));
    let key = if is_timeseries { "series" } else { "rows" };
    proof {
        reveal_strlit("series");
        reveal_strlit("rows");
    }
    let mut items: Vec<serde_json::Value> = Vec::new();
    let mut total: i64 = 0;
    let mut i: usize = 0;
    while i < n
        invariant
            n == formatted@.len(),
            i <= n,
            is_timeseries == first_has(formatted@, "series"@),
            key@ == (if is_timeseries { "series"@ } else { "rows"@ }),
            is_timeseries ==> totals_fit(formatted@),
            items@ == tagged_items(formatted@.take(i as int), key@, include_profile),
            is_timeseries ==> total as int == series_total(formatted@.take(i as int)),
        decreases n - i,
    {
        proof {
            let t = formatted@.take(i + 1);
            assert(t.drop_last() =~= formatted@.take(i as int));
            assert(t.last() == formatted@[i as int]);
        }
        push_tagged(&mut items, &formatted[i].1, key, include_profile, formatted[i].0.as_str());
        if is_timeseries {
            let c = series_count(&formatted[i].1);
            proof {
                assert(i64::MIN <= series_total(formatted@.take(i + 1)) <= i64::MAX);
            }
            total = total + c;
        }
        i = i + 1;
    }
    assert(formatted@.take(n as int) =~= formatted@);
    if is_timeseries {
        let entries = vec![
            (owned("series"), array_of(items)),
            (owned("columns"), columns),
            (owned("total_series_count"), number_value(total)),
        ];
        assert(entry_views(entries@) =~= seq![
            ("series"@, json_array(tagged_items(formatted@, "series"@, include_profile))),
            ("columns"@, merged_columns(formatted@)),
            ("total_series_count"@, json_number(series_total(formatted@))),
        ]);
        object_of(entries)
    } else {
        let entries = vec![(owned("rows"), array_of(items)), (owned("columns"), columns)];
        assert(entry_views(entries@) =~= seq![
            ("rows"@, json_array(tagged_items(formatted@, "rows"@, include_profile))),
            ("columns"@, merged_columns(formatted@)),
        ]);
        object_of(entries)
    }
}

/// Whether every running sum of the answers' series counts fits in an
/// `i64`, as merging a timeseries needs.
pub fn series_totals_fit(formatted: &[(String, serde_json::Value)]) -> (r: bool)
    ensures
        r == totals_fit(formatted@),
{
    let n = formatted.len();
    let mut acc: i128 = 0;
    let mut i: usize = 0;
    while i < n
        invariant
            n == formatted@.len(),
            i <= n,
            acc as int == series_total(formatted@.take(i as int)),
            forall|k: int| 0 <= k <= i ==> i64::MIN <= #[trigger] series_total(formatted@.take(k)) <= i64::MAX,
        decreases n - i,
    {
        proof {
            let t = formatted@.take(i + 1);
            assert(t.drop_last() =~= formatted@.take(i as int));
            assert(t.last() == formatted@[i as int]);
        }
        let c = series_count(&formatted[i].1);
        acc = acc + c as i128;
        if acc < i64::MIN as i128 || acc > i64::MAX as i128 {
            assert(!(i64::MIN <= series_total(formatted@.take(i + 1)) <= i64::MAX));
            return false;
        }
        i = i + 1;
    }
    assert(formatted@.take(n as int) =~= formatted@);
    true
}

/// Merges the answers as `merge_entities_data` does, when a timeseries'
/// running totals fit in an `i64`; `None` when they do not.
pub fn merge_entities_data_checked(formatted: &[(String, serde_json::Value)], include_profile: bool) -> (r: Option<
    serde_json::Value,
>)
    ensures
        (first_has(formatted@, "series"@) ==> totals_fit(formatted@)) ==> r == Some(
            spec_merged_entities_data(formatted@, include_profile),
        ),
        !(first_has(formatted@, "series"@) ==> totals_fit(formatted@)) ==> r is None,
{
    let is_timeseries = formatted.len() > 0 && get_value(&formatted[0].1, "series").is_some();
    if is_timeseries && !series_totals_fit(formatted) {
        None
    } else {
        Some(merge_entities_data(formatted, include_profile))
    }
}

// ── Text tables of flattened rows ────────────────────────────────────────────

/// The keys of a row, when it is an object.
pub open spec fn row_keys(row: serde_json::Value) -> Seq<Seq<char>> {
    match json_object_entries(row) {
        Some(es) => entry_keys(es),
        None => seq![],
    }
}

/// `acc` grown by the keys it lacks, in order, leaving out `profile`.
pub open spec fn add_headers(acc: Seq<Seq<char>>, keys: Seq<Seq<char>>) -> Seq<Seq<char>>
    decreases keys.len(),
{
    if keys.len() == 0 {
        acc
    } else {
        let a = add_headers(acc, keys.drop_last());
        let k = keys.last();
        if k == "profile"@ || a.contains(k) {
            a
        } else {
            a.push(k)
        }
    }
}

/// The headers of a table of rows: every key of every row in the order it
/// first appears, without `profile`. Rows can carry slightly different
/// columns, so the headers are a union, not the first row's keys.
pub open spec fn table_headers(rows: Seq<serde_json::Value>) -> Seq<Seq<char>>
    decreases rows.len(),
{
    if rows.len() == 0 {
        seq![]
    } else {
        add_headers(table_headers(rows.drop_last()), row_keys(rows.last()))
    }
}

/// The record of one row: its profile (empty when it has none), then a
/// cell per header.
pub open spec fn table_record(row: serde_json::Value, headers: Seq<Seq<char>>) -> Seq<Seq<char>> {
    seq![
        match json_str_at(row, "profile"@) {
            Some(p) => p,
            None => seq![],
        },
    ] + headers.map_values(|h: Seq<char>| super::json_cell_or_dash(crate::json::json_get(row, h)))
}

fn add_row_headers(headers: &mut Vec<String>, row: &serde_json::Value)
    ensures
        views(final(headers)@) == add_headers(views(old(headers)@), row_keys(*row)),
{
    let ghost start = views(headers@);
    let entries = match object_entries(row) {
        Some(es) => es,
        None => {
            assert(row_keys(*row) =~= Seq::<Seq<char>>::empty());
            return;
        },
    };
    let ghost ks = entry_keys(entry_views(entries@));
    let n = entries.len();
    for i in 0..n
        invariant
            n == entries@.len(),
            ks == entry_keys(entry_views(entries@)),
            views(headers@) == add_headers(start, ks.take(i as int)),
    {
        assert(ks.take(i + 1).drop_last() =~= ks.take(i as int));
        assert(ks.take(i + 1).last() == entries@[i as int].0@);
        let k = entries[i].0.as_str();
        if !chars_eq_str(&chars_of(k), "profile") && !crate::infra::table::contains_string(headers, k) {
            let owned_k = owned(k);
            proof {
                crate::text::lemma_views_push(headers@, owned_k);
            }
            headers.push(owned_k);
        }
    }
    assert(ks.take(n as int) =~= ks);
}

/// The headers and records of a text table of flattened rows; the profile
/// comes first in each record.
pub fn table_rows(rows: &[serde_json::Value]) -> (r: (Vec<String>, Vec<Vec<String>>))
    ensures
        views(r.0@) == table_headers(rows@),
        r.1@.len() == rows@.len(),
        forall|i: int|
            0 <= i < rows@.len() ==> views(#[trigger] r.1@[i]@) == table_record(
                rows@[i],
                table_headers(rows@),
            ),
{
    let mut headers: Vec<String> = Vec::new();
    let n = rows.len();
    for i in 0..n
        invariant
            n == rows@.len(),
            views(headers@) == table_headers(rows@.take(i as int)),
    {
        assert(rows@.take(i + 1).drop_last() =~= rows@.take(i as int));
        assert(rows@.take(i + 1).last() == rows@[i as int]);
        add_row_headers(&mut headers, &rows[i]);
    }
    assert(rows@.take(n as int) =~= rows@);
    let mut records: Vec<Vec<String>> = Vec::new();
    for i in 0..n
        invariant
            n == rows@.len(),
            views(headers@) == table_headers(rows@),
            records@.len() == i,
            forall|k: int|
                0 <= k < i ==> views(#[trigger] records@[k]@) == table_record(
                    rows@[k],
                    table_headers(rows@),
                ),
    {
        let row = &rows[i];
        let mut record: Vec<String> = Vec::new();
        let profile = match str_at(row, "profile") {
            Some(p) => owned(p),
            None => String::new(),
        };
        proof {
            crate::text::lemma_views_push(record@, profile);
        }
        record.push(profile);
        let nh = headers.len();
        for j in 0..nh
            invariant
                nh == headers@.len(),
                views(headers@) == table_headers(rows@),
                i < n,
                n == rows@.len(),
                *row == rows@[i as int],
                views(record@) == table_record(*row, views(headers@).take(j as int)),
        {
            let cell = super::display_json_or_dash(crate::json::get_value(row, headers[j].as_str()).as_ref());
            proof {
                crate::text::lemma_views_push(record@, cell);
                assert(views(headers@).take(j + 1) =~= views(headers@).take(j as int).push(
                    headers@[j as int]@,
                ));
            }
            record.push(cell);
            assert(views(record@) =~= table_record(*row, views(headers@).take(j + 1)));
        }
        assert(views(headers@).take(nh as int) =~= views(headers@));
        records.push(record);
    }
    (headers, records)
}

} // verus!
