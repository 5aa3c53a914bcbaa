//! Shaping API answers for the text output: the resource table, whose
//! columns are the union of the matched types' columns, the health-policy
//! cells, and the flattened health history.

use vstd::prelude::*;
use crate::text::{chars_of, eq_ignore_case, eq_ignore_case_chars, views};
use super::{display_or_dash, join_or_dash, opt_string_view, or_dash, spec_join_or_dash,
    string_or_dash};
use super::api::{CategoryType, FieldChangeData, HealthHistoryEntry, HealthPolicyData,
    ResourceData, ResourceDiffData, ResourceHealthHistory};
use crate::json::{cell_text, json_cell_text};

verus! {

// ── Cells ────────────────────────────────────────────────────────────────────

/// `category/type` with dashes for missing parts.
pub open spec fn type_pair(t: CategoryType) -> Seq<char> {
    or_dash(opt_string_view(t.category)) + "/"@ + or_dash(opt_string_view(t.resource_type))
}

/// One `category/type` cell per pair.
pub fn format_type_pairs(types: &[CategoryType]) -> (r: Vec<String>)
    ensures
        r@.len() == types@.len(),
        forall|i: int| 0 <= i < r@.len() ==> #[trigger] r@[i]@ == type_pair(types@[i]),
{
    let mut r: Vec<String> = Vec::new();
    let n = types.len();
    for i in 0..n
        invariant
            n == types@.len(),
            r@.len() == i,
            forall|j: int| 0 <= j < i ==> #[trigger] r@[j]@ == type_pair(types@[j]),
    {
        let mut s = string_or_dash(&types[i].category);
        s.append("/");
        s.append(string_or_dash(&types[i].resource_type).as_str());
        r.push(s);
    }
    r
}

/// `name (status)` with dashes for missing parts: the API sends `""` for a
/// policy its catalog does not resolve.
pub open spec fn policy_cell(p: HealthPolicyData) -> Seq<char> {
    or_dash(opt_string_view(p.name)) + " ("@ + or_dash(opt_string_view(p.status)) + ")"@
}

/// One `name (status)` cell per health policy.
pub fn format_health_policies(policies: &[HealthPolicyData]) -> (r: Vec<String>)
    ensures
        r@.len() == policies@.len(),
        forall|i: int| 0 <= i < r@.len() ==> #[trigger] r@[i]@ == policy_cell(policies@[i]),
{
    let mut r: Vec<String> = Vec::new();
    let n = policies.len();
    for i in 0..n
        invariant
            n == policies@.len(),
            r@.len() == i,
            forall|j: int| 0 <= j < i ==> #[trigger] r@[j]@ == policy_cell(policies@[j]),
    {
        let mut s = string_or_dash(&policies[i].name);
        s.append(" (");
        s.append(string_or_dash(&policies[i].status).as_str());
        s.append(")");
        r.push(s);
    }
    r
}

// ── Columns ──────────────────────────────────────────────────────────────────

/// The column names of a resource, in order.
pub open spec fn column_keys(r: ResourceData) -> Seq<Seq<char>> {
    r.columns@.map_values(|p: (String, String)| p.0@)
}

/// `acc` extended by each key not yet present, except `name` in any case.
pub open spec fn add_keys(acc: Seq<Seq<char>>, keys: Seq<Seq<char>>) -> Seq<Seq<char>>
    decreases keys.len(),
{
    if keys.len() == 0 {
        acc
    } else {
        let a = add_keys(acc, keys.drop_last());
        let k = keys.last();
        if !eq_ignore_case(k, "name"@) && !a.contains(k) {
            a.push(k)
        } else {
            a
        }
    }
}

/// The union of the resources' column names: each resource's names in its
/// own (sorted) order, new names appended, `name` left to its own column.
pub open spec fn union_columns(rs: Seq<ResourceData>) -> Seq<Seq<char>>
    decreases rs.len(),
{
    if rs.len() == 0 {
        seq![]
    } else {
        add_keys(union_columns(rs.drop_last()), column_keys(rs.last()))
    }
}

/// Whether `k` is `name` in any ASCII case.
fn is_name_key(k: &str) -> (r: bool)
    ensures
        r == eq_ignore_case(k@, "name"@),
{
    let kv = chars_of(k);
    let nv = chars_of("name");
    eq_ignore_case_chars(&kv, &nv)
}

/// Whether `k` is among `v`.
pub fn contains_string(v: &Vec<String>, k: &str) -> (r: bool)
    ensures
        r == views(v@).contains(k@),
{
    let n = v.len();
    for i in 0..n
        invariant
            n == v@.len(),
            forall|j: int| 0 <= j < i ==> views(v@)[j] != k@,
    {
        let kv = chars_of(k);
        let vi = chars_of(v[i].as_str());
        if crate::text::chars_eq(&kv, &vi) {
            assert(views(v@)[i as int] == k@);
            return true;
        }
    }
    false
}

/// The columns of the resource table: every column name the rows carry,
/// each once, in order of first appearance, without `name`.
pub fn union_of_columns(resources: &[&ResourceData]) -> (r: Vec<String>)
    requires
        forall|i: int| 0 <= i < resources@.len() ==> (#[trigger] resources@[i]).well_formed(),
    ensures
        views(r@) == union_columns(resources@.map_values(|x: &ResourceData| *x)),
{
    let ghost rs = resources@.map_values(|x: &ResourceData| *x);
    let mut columns: Vec<String> = Vec::new();
    let n = resources.len();
    assert(rs.take(0) =~= Seq::<ResourceData>::empty());
    for i in 0..n
        invariant
            n == resources@.len(),
            rs == resources@.map_values(|x: &ResourceData| *x),
            views(columns@) == union_columns(rs.take(i as int)),
    {
        let res = resources[i];
        let ghost acc = views(columns@);
        let ghost keys = column_keys(*res);
        assert(rs.take((i + 1) as int).drop_last() =~= rs.take(i as int));
        assert(rs.take((i + 1) as int).last() == *res);
        let m = res.columns.len();
        for j in 0..m
            invariant
                m == res.columns@.len(),
                keys == column_keys(*res),
                views(columns@) == add_keys(acc, keys.take(j as int)),
        {
            let name = &res.columns[j].0;
            assert(keys.take((j + 1) as int).drop_last() =~= keys.take(j as int));
            assert(keys.take((j + 1) as int).last() == name@);
            if !is_name_key(name.as_str()) && !contains_string(&columns, name.as_str()) {
                let s = crate::text::owned(name.as_str());
                let ghost before = columns@;
                columns.push(s);
                proof {
                    crate::text::lemma_views_push(before, s);
                }
            }
        }
        assert(keys.take(m as int) =~= keys);
    }
    assert(rs.take(n as int) =~= rs);
    columns
}

// ── Names ────────────────────────────────────────────────────────────────────

/// Index of the first column whose name is `name` in any ASCII case.
pub open spec fn name_column(cols: Seq<(String, String)>) -> Option<int>
    decreases cols.len(),
{
    if cols.len() == 0 {
        None
    } else if eq_ignore_case(cols[0].0@, "name"@) {
        Some(0)
    } else {
        match name_column(cols.drop_first()) {
            Some(i) => Some(i + 1),
            None => None,
        }
    }
}

/// The name shown for a resource: the value of its `Name` column (matched
/// in any case) when non-empty, which is the display name the API's name
/// filter searches; otherwise its `name` field.
pub open spec fn spec_display_name(item: ResourceData) -> Option<Seq<char>> {
    match name_column(item.columns@) {
        Some(i) => if item.columns@[i].1@.len() > 0 {
            Some(item.columns@[i].1@)
        } else {
            opt_string_view(item.name)
        },
        None => opt_string_view(item.name),
    }
}

proof fn lemma_name_column(cols: Seq<(String, String)>, i: int)
    requires
        0 <= i <= cols.len(),
        forall|j: int| 0 <= j < i ==> !eq_ignore_case(#[trigger] cols[j].0@, "name"@),
        i < cols.len() ==> eq_ignore_case(cols[i].0@, "name"@),
    ensures
        i < cols.len() ==> name_column(cols) == Some(i),
        i == cols.len() ==> name_column(cols) is None,
    decreases i,
{
    if i > 0 {
        assert forall|j: int| 0 <= j < i - 1 implies !eq_ignore_case(
            #[trigger] cols.drop_first()[j].0@,
            "name"@,
        ) by {
            assert(cols.drop_first()[j] == cols[j + 1]);
        }
        if i < cols.len() {
            assert(cols.drop_first()[i - 1] == cols[i]);
        }
        lemma_name_column(cols.drop_first(), i - 1);
    }
}

/// The name shown for a resource (see `spec_display_name`).
pub fn display_name(item: &ResourceData) -> (r: Option<&str>)
    requires
        item.well_formed(),
    ensures
        match r {
            Some(s) => spec_display_name(*item) == Some(s@),
            None => spec_display_name(*item) is None,
        },
{
    let n = item.columns.len();
    let mut i: usize = 0;
    while i < n && !is_name_key(item.columns[i].0.as_str())
        invariant
            n == item.columns@.len(),
            i <= n,
            forall|j: int| 0 <= j < i ==> !eq_ignore_case(#[trigger] item.columns@[j].0@, "name"@),
        decreases n - i,
    {
        i = i + 1;
    }
    proof {
        lemma_name_column(item.columns@, i as int);
    }
    if i < n && item.columns[i].1.as_str().unicode_len() > 0 {
        return Some(item.columns[i].1.as_str());
    }
    match &item.name {
        Some(s) => Some(s.as_str()),
        None => None,
    }
}

// ── The resource table ───────────────────────────────────────────────────────

/// The value of the column named exactly `key`, or empty.
pub open spec fn column_value(cols: Seq<(String, String)>, key: Seq<char>) -> Seq<char>
    decreases cols.len(),
{
    if cols.len() == 0 {
        seq![]
    } else if cols[0].0@ == key {
        cols[0].1@
    } else {
        column_value(cols.drop_first(), key)
    }
}

/// The table's fixed headers.
pub open spec fn fixed_headers() -> Seq<Seq<char>> {
    seq!["Resource ID"@, "Name"@, "Category"@, "Type"@, "Policies"@]
}

/// The fixed cells of one row: the profile, id, display name, category,
/// type and health policies.
pub open spec fn fixed_cells(profile: Seq<char>, r: ResourceData) -> Seq<Seq<char>> {
    seq![
        profile,
        or_dash(opt_string_view(r.resource_id)),
        or_dash(spec_display_name(r)),
        or_dash(opt_string_view(r.category)),
        or_dash(opt_string_view(r.resource_type)),
        spec_join_or_dash(r.health_policies@.map_values(|p: HealthPolicyData| policy_cell(p))),
    ]
}

/// One row of the table: the fixed cells then one cell per union column,
/// blank when the resource does not carry that column.
pub open spec fn table_row(profile: Seq<char>, r: ResourceData, columns: Seq<Seq<char>>) -> Seq<
    Seq<char>,
> {
    fixed_cells(profile, r) + columns.map_values(|c: Seq<char>| column_value(r.columns@, c))
}

/// The value of the column named exactly `key`.
fn column_value_exec(cols: &Vec<(String, String)>, key: &str) -> (r: String)
    ensures
        r@ == column_value(cols@, key@),
{
    let n = cols.len();
    let kv = chars_of(key);
    let mut i: usize = 0;
    proof {
        reveal_strlit("");
    }
    assert(cols@.skip(0) =~= cols@);
    while i < n
        invariant
            n == cols@.len(),
            i <= n,
            kv@ == key@,
            column_value(cols@, key@) == column_value(cols@.skip(i as int), key@),
        decreases n - i,
    {
        let ci = chars_of(cols[i].0.as_str());
        assert(cols@.skip(i as int)[0] == cols@[i as int]);
        if crate::text::chars_eq(&ci, &kv) {
            return crate::text::owned(cols[i].1.as_str());
        }
        assert(cols@.skip(i as int).drop_first() =~= cols@.skip(i + 1));
        i = i + 1;
    }
    assert(cols@.skip(n as int) =~= Seq::<(String, String)>::empty());
    crate::text::owned("")
}

/// The resource table: the fixed headers and the union of the rows'
/// columns, and one row per resource (the profile first).
pub fn list_table(merged: &[(String, ResourceData)]) -> (r: (Vec<String>, Vec<Vec<String>>))
    requires
        forall|i: int| 0 <= i < merged@.len() ==> (#[trigger] merged@[i]).1.well_formed(),
    ensures
        ({
            let rs = merged@.map_values(|m: (String, ResourceData)| m.1);
            let columns = union_columns(rs);
            &&& views(r.0@) == fixed_headers() + columns
            &&& r.1@.len() == merged@.len()
            &&& forall|i: int|
                0 <= i < merged@.len() ==> views(#[trigger] r.1@[i]@) == table_row(
                    merged@[i].0@,
                    merged@[i].1,
                    columns,
                )
        }),
{
    let ghost rs = merged@.map_values(|m: (String, ResourceData)| m.1);
    let mut refs: Vec<&ResourceData> = Vec::new();
    let n = merged.len();
    for i in 0..n
        invariant
            n == merged@.len(),
            refs@.len() == i,
            forall|j: int| 0 <= j < i ==> *#[trigger] refs@[j] == merged@[j].1,
    {
        refs.push(&merged[i].1);
    }
    assert(refs@.map_values(|x: &ResourceData| *x) =~= rs);
    let columns = union_of_columns(&refs);

    let mut headers: Vec<String> = Vec::new();
    headers.push(crate::text::owned("Resource ID"));
    headers.push(crate::text::owned("Name"));
    headers.push(crate::text::owned("Category"));
    headers.push(crate::text::owned("Type"));
    headers.push(crate::text::owned("Policies"));
    let nc = columns.len();
    for j in 0..nc
        invariant
            nc == columns@.len(),
            views(headers@) == fixed_headers() + views(columns@).take(j as int),
    {
        let ghost before = headers@;
        let s = crate::text::owned(columns[j].as_str());
        headers.push(s);
        proof {
            crate::text::lemma_views_push(before, s);
            assert(views(columns@).take((j + 1) as int) =~= views(columns@).take(j as int).push(
                columns@[j as int]@,
            ));
        }
    }
    assert(views(columns@).take(nc as int) =~= views(columns@));

    let ghost cols = views(columns@);
    let mut rows: Vec<Vec<String>> = Vec::new();
    for i in 0..n
        invariant
            n == merged@.len(),
            cols == union_columns(rs),
            cols == views(columns@),
            nc == columns@.len(),
            rs == merged@.map_values(|m: (String, ResourceData)| m.1),
            forall|k: int| 0 <= k < merged@.len() ==> (#[trigger] merged@[k]).1.well_formed(),
            rows@.len() == i,
            forall|k: int|
                0 <= k < i ==> views(#[trigger] rows@[k]@) == table_row(
                    merged@[k].0@,
                    merged@[k].1,
                    cols,
                ),
    {
        let profile = &merged[i].0;
        let res = &merged[i].1;
        let mut row: Vec<String> = Vec::new();
        row.push(crate::text::owned(profile.as_str()));
        row.push(string_or_dash(&res.resource_id));
        row.push(display_or_dash(display_name(res)));
        row.push(string_or_dash(&res.category));
        row.push(string_or_dash(&res.resource_type));
        let cells = format_health_policies(&res.health_policies);
        assert(views(cells@) =~= res.health_policies@.map_values(
            |p: HealthPolicyData| policy_cell(p),
        ));
        row.push(join_or_dash(&cells));
        assert(views(row@) =~= fixed_cells(profile@, *res));
        let ghost fixed = views(row@);
        for j in 0..nc
            invariant
                nc == columns@.len(),
                cols == views(columns@),
                views(row@) == fixed + cols.take(j as int).map_values(
                    |c: Seq<char>| column_value(res.columns@, c),
                ),
        {
            let ghost before = row@;
            let v = column_value_exec(&res.columns, columns[j].as_str());
            row.push(v);
            proof {
                crate::text::lemma_views_push(before, v);
                assert(cols.take((j + 1) as int).map_values(
                    |c: Seq<char>| column_value(res.columns@, c),
                ) =~= cols.take(j as int).map_values(
                    |c: Seq<char>| column_value(res.columns@, c),
                ).push(column_value(res.columns@, cols[j as int])));
            }
        }
        assert(cols.take(nc as int) =~= cols);
        rows.push(row);
    }
    (headers, rows)
}

// ── Health history ───────────────────────────────────────────────────────────

/// The resource id a history sample is reported under: its id, or a dash.
pub open spec fn history_resource(h: ResourceHealthHistory) -> Seq<char> {
    match h.resource_id {
        Some(s) => s@,
        None => "-"@,
    }
}

/// Every sample of every resource, in order, each with its resource id.
pub open spec fn history_pairs(results: Seq<ResourceHealthHistory>) -> Seq<
    (Seq<char>, HealthHistoryEntry),
>
    decreases results.len(),
{
    if results.len() == 0 {
        seq![]
    } else {
        let h = results.last();
        history_pairs(results.drop_last()) + h.health_history@.map_values(
            |e: HealthHistoryEntry| (history_resource(h), e),
        )
    }
}

/// Every health sample, in order, with the resource it belongs to (a dash
/// when the id is missing); a resource without samples contributes none.
/// Each pair becomes one output row.
pub fn flat_map_history<'a>(results: &'a [ResourceHealthHistory]) -> (r: Vec<
    (&'a str, &'a HealthHistoryEntry),
>)
    ensures
        r@.len() == history_pairs(results@).len(),
        forall|k: int|
            0 <= k < r@.len() ==> (#[trigger] r@[k]).0@ == history_pairs(results@)[k].0 && *r@[k].1
                == history_pairs(results@)[k].1,
{
    let mut out: Vec<(&'a str, &'a HealthHistoryEntry)> = Vec::new();
    let n = results.len();
    assert(results@.take(0) =~= Seq::<ResourceHealthHistory>::empty());
    for i in 0..n
        invariant
            n == results@.len(),
            out@.len() == history_pairs(results@.take(i as int)).len(),
            forall|k: int|
                0 <= k < out@.len() ==> (#[trigger] out@[k]).0@ == history_pairs(
                    results@.take(i as int),
                )[k].0 && *out@[k].1 == history_pairs(results@.take(i as int))[k].1,
    {
        let h = &results[i];
        let resource: &str = match &h.resource_id {
            Some(s) => s.as_str(),
            None => "-",
        };
        proof {
            reveal_strlit("-");
        }
        assert(resource@ == history_resource(*h));
        let ghost prev = history_pairs(results@.take(i as int));
        let ghost ext = h.health_history@.map_values(
            |e: HealthHistoryEntry| (history_resource(*h), e),
        );
        assert(results@.take((i + 1) as int).drop_last() =~= results@.take(i as int));
        assert(history_pairs(results@.take((i + 1) as int)) == prev + ext);
        let m = h.health_history.len();
        for j in 0..m
            invariant
                m == h.health_history@.len(),
                ext == h.health_history@.map_values(
                    |e: HealthHistoryEntry| (history_resource(*h), e),
                ),
                resource@ == history_resource(*h),
                out@.len() == prev.len() + j,
                forall|k: int|
                    0 <= k < out@.len() ==> (#[trigger] out@[k]).0@ == (prev + ext)[k].0
                        && *out@[k].1 == (prev + ext)[k].1,
        {
            let ghost before = out@;
            out.push((resource, &h.health_history[j]));
            proof {
                assert forall|k: int| 0 <= k < out@.len() implies (#[trigger] out@[k]).0@ == (prev
                    + ext)[k].0 && *out@[k].1 == (prev + ext)[k].1 by {
                    if k < before.len() {
                        assert(out@[k] == before[k]);
                    } else {
                        assert((prev + ext)[k] == ext[j as int]);
                    }
                }
            }
        }
    }
    assert(results@.take(n as int) =~= results@);
    out
}

// ── Configuration diffs ──────────────────────────────────────────────────────

/// A change value as the diff table shows it: a string bare, anything else
/// in its JSON form, so that `null` reads `null` and not the dash that
/// means a missing value, and a number is not taken for a string.
pub fn render_change_value(value: &serde_json::Value) -> (r: String)
    ensures
        r@ == json_cell_text(*value),
{
    cell_text(value)
}

/// The cells that open every row of one resource: profile, resource id,
/// source and outcome.
pub open spec fn diff_head(d: ResourceDiffData, profile: Seq<char>) -> Seq<Seq<char>> {
    seq![
        profile,
        or_dash(opt_string_view(d.resource_id)),
        or_dash(opt_string_view(d.source)),
        or_dash(opt_string_view(d.outcome)),
    ]
}

/// The row of one field change: the resource's cells, then field, before
/// and after.
pub open spec fn change_row(head: Seq<Seq<char>>, c: FieldChangeData) -> Seq<Seq<char>> {
    head + seq![
        or_dash(opt_string_view(c.field)),
        json_cell_text(c.before),
        json_cell_text(c.after),
    ]
}

/// The rows of one resource: one per change, the resource repeated down
/// them, or a single row of dashes when it carries no change.
pub open spec fn diff_rows(d: ResourceDiffData, profile: Seq<char>) -> Seq<Seq<Seq<char>>> {
    if d.changes@.len() == 0 {
        seq![diff_head(d, profile) + seq!["-"@, "-"@, "-"@]]
    } else {
        d.changes@.map_values(|c: FieldChangeData| change_row(diff_head(d, profile), c))
    }
}

/// The diff table: the rows of each resource, in order.
pub open spec fn spec_diff_table(results: Seq<ResourceDiffData>, profile: Seq<char>) -> Seq<
    Seq<Seq<char>>,
>
    decreases results.len(),
{
    if results.len() == 0 {
        seq![]
    } else {
        spec_diff_table(results.drop_last(), profile) + diff_rows(results.last(), profile)
    }
}

/// The cell texts of a table.
pub open spec fn table_views(rows: Seq<Vec<String>>) -> Seq<Seq<Seq<char>>> {
    rows.map_values(|r: Vec<String>| views(r@))
}

/// Every row of a diff table has seven cells, and every resource the API
/// answered about has a row, also one that carries no change.
pub proof fn lemma_diff_table_shape(results: Seq<ResourceDiffData>, profile: Seq<char>)
    ensures
        forall|i: int|
            0 <= i < spec_diff_table(results, profile).len() ==> (
            #[trigger] spec_diff_table(results, profile)[i]).len() == 7,
        spec_diff_table(results, profile).len() >= results.len(),
    decreases results.len(),
{
    if results.len() > 0 {
        lemma_diff_table_shape(results.drop_last(), profile);
        let pre = spec_diff_table(results.drop_last(), profile);
        let add = diff_rows(results.last(), profile);
        assert forall|i: int| 0 <= i < add.len() implies (#[trigger] add[i]).len() == 7 by {}
        assert forall|i: int|
            0 <= i < spec_diff_table(results, profile).len() implies (
            #[trigger] spec_diff_table(results, profile)[i]).len() == 7 by {
            if i < pre.len() {
                assert(spec_diff_table(results, profile)[i] == pre[i]);
            } else {
                assert(spec_diff_table(results, profile)[i] == add[i - pre.len()]);
            }
        }
    }
}

fn push_cell(row: &mut Vec<String>, cell: String)
    ensures
        views(final(row)@) == views(old(row)@).push(cell@),
{
    proof {
        crate::text::lemma_views_push(row@, cell);
    }
    row.push(cell);
}

fn head_cells(d: &ResourceDiffData, profile: &str) -> (r: Vec<String>)
    ensures
        views(r@) == diff_head(*d, profile@),
{
    let mut row: Vec<String> = Vec::new();
    push_cell(&mut row, crate::text::owned(profile));
    push_cell(&mut row, string_or_dash(&d.resource_id));
    push_cell(&mut row, string_or_dash(&d.source));
    push_cell(&mut row, string_or_dash(&d.outcome));
    assert(views(row@) =~= diff_head(*d, profile@));
    row
}

fn diff_rows_of(d: &ResourceDiffData, profile: &str) -> (r: Vec<Vec<String>>)
    ensures
        table_views(r@) == diff_rows(*d, profile@),
{
    let mut out: Vec<Vec<String>> = Vec::new();
    let n = d.changes.len();
    if n == 0 {
        let mut row = head_cells(d, profile);
        push_cell(&mut row, crate::text::owned("-"));
        push_cell(&mut row, crate::text::owned("-"));
        push_cell(&mut row, crate::text::owned("-"));
        assert(views(row@) =~= diff_head(*d, profile@) + seq!["-"@, "-"@, "-"@]);
        out.push(row);
        assert(table_views(out@) =~= seq![views(row@)]);
        assert(table_views(out@) =~= diff_rows(*d, profile@));
        return out;
    }
    let ghost head = diff_head(*d, profile@);
    for i in 0..n
        invariant
            n == d.changes@.len(),
            head == diff_head(*d, profile@),
            table_views(out@) == d.changes@.take(i as int).map_values(
                |c: FieldChangeData| change_row(head, c),
            ),
    {
        let c = &d.changes[i];
        let mut row = head_cells(d, profile);
        push_cell(&mut row, string_or_dash(&c.field));
        push_cell(&mut row, render_change_value(&c.before));
        push_cell(&mut row, render_change_value(&c.after));
        assert(views(row@) =~= change_row(head, *c));
        let ghost before = out@;
        out.push(row);
        assert(table_views(out@) =~= table_views(before).push(views(row@)));
        assert(d.changes@.take(i + 1) =~= d.changes@.take(i as int).push(*c));
        assert(d.changes@.take(i + 1).map_values(|c: FieldChangeData| change_row(head, c))
            =~= d.changes@.take(i as int).map_values(|c: FieldChangeData| change_row(head, c)).push(
            change_row(head, *c),
        ));
        assert(table_views(out@) =~= d.changes@.take(i + 1).map_values(
            |c: FieldChangeData| change_row(head, c),
        ));
    }
    assert(d.changes@.take(n as int) =~= d.changes@);
    out
}

/// One table row per field change, with the resource repeated down its
/// changes; a resource that carries no change keeps one row of dashes.
pub fn diff_table(results: &[ResourceDiffData], profile: &str) -> (r: Vec<Vec<String>>)
    ensures
        table_views(r@) == spec_diff_table(results@, profile@),
{
    let mut out: Vec<Vec<String>> = Vec::new();
    let n = results.len();
    for i in 0..n
        invariant
            n == results@.len(),
            table_views(out@) == spec_diff_table(results@.take(i as int), profile@),
    {
        let mut rows = diff_rows_of(&results[i], profile);
        let ghost before = out@;
        let ghost added = rows@;
        out.append(&mut rows);
        assert(results@.take(i + 1).drop_last() =~= results@.take(i as int));
        assert(results@.take(i + 1).last() == results@[i as int]);
        assert(table_views(out@) =~= table_views(before) + table_views(added));
    }
    assert(results@.take(n as int) =~= results@);
    out
}

} // verus!
