//! The JSON rows of the machine output formats: one object per answer item,
//! keys in the order they are written, tagged with the profile under
//! fan-out.

use vstd::prelude::*;
use crate::json::{
    array_of, bool_value, copy_value, entry_views, json_array, json_bool, json_object_of,
    json_opt_number, json_strings, object_of, opt_field, opt_field_value, opt_number_value,
    profile_tagged, string_value, json_string, strings_value, tag_profile, json_or_null,
    value_or_null,
};
use crate::text::owned;
use super::api::{
    CategoryType, FieldChangeData, FilterDescriptor, GetRawDataResponse, HealthHistoryEntry,
    HealthPolicyData,
    ResourceChangeData,
    ResourceData, ResourceDiffData, ResourceTypeMapping,
};

verus! {

// ── Resources ────────────────────────────────────────────────────────────────

/// A health policy as the API sent it: `id`, `name`, `status`.
pub open spec fn policy_json(p: HealthPolicyData) -> serde_json::Value {
    json_object_of(seq![("id"@, opt_field(p.id)), ("name"@, opt_field(p.name)), ("status"@, opt_field(p.status))])
}

/// A resource's columns as one object, in their order.
pub open spec fn columns_object(cols: Seq<(String, String)>) -> serde_json::Value {
    json_object_of(cols.map_values(|c: (String, String)| (c.0@, json_string(c.1@))))
}

/// A resource row: id, name, scope, its health policies as sent (an empty
/// array when none applies), and its columns.
pub open spec fn resource_json(item: ResourceData) -> serde_json::Value {
    json_object_of(
        seq![
            ("resource_id"@, opt_field(item.resource_id)),
            ("name"@, opt_field(item.name)),
            ("category"@, opt_field(item.category)),
            ("type"@, opt_field(item.resource_type)),
            ("health_policies"@, json_array(item.health_policies@.map_values(|p: HealthPolicyData| policy_json(p)))),
            ("columns"@, columns_object(item.columns@)),
        ],
    )
}

fn policy_to_json(p: &HealthPolicyData) -> (r: serde_json::Value)
    ensures
        r == policy_json(*p),
{
    let entries = vec![
        (owned("id"), opt_field_value(&p.id)),
        (owned("name"), opt_field_value(&p.name)),
        (owned("status"), opt_field_value(&p.status)),
    ];
    assert(entry_views(entries@) =~= seq![("id"@, opt_field(p.id)), ("name"@, opt_field(p.name)), ("status"@, opt_field(p.status))]);
    object_of(entries)
}

fn columns_to_object(cols: &Vec<(String, String)>) -> (r: serde_json::Value)
    ensures
        r == columns_object(cols@),
{
    let mut entries: Vec<(String, serde_json::Value)> = Vec::new();
    let n = cols.len();
    for i in 0..n
        invariant
            n == cols@.len(),
            entry_views(entries@) == cols@.take(i as int).map_values(
                |c: (String, String)| (c.0@, json_string(c.1@)),
            ),
    {
        let e = (owned(cols[i].0.as_str()), string_value(cols[i].1.as_str()));
        let ghost before = entries@;
        entries.push(e);
        assert(entry_views(entries@) =~= entry_views(before).push((e.0@, e.1)));
        assert(cols@.take(i + 1) =~= cols@.take(i as int).push(cols@[i as int]));
        assert(entry_views(entries@) =~= cols@.take(i + 1).map_values(
            |c: (String, String)| (c.0@, json_string(c.1@)),
        ));
    }
    assert(cols@.take(n as int) =~= cols@);
    object_of(entries)
}

/// The JSON row of a resource, tagged with its profile when asked.
pub fn resource_to_json(item: &ResourceData, include_profile: bool, profile: &str) -> (r: serde_json::Value)
    requires
        item.well_formed(),
    ensures
        r == profile_tagged(resource_json(*item), include_profile, profile@),
{
    let mut policies: Vec<serde_json::Value> = Vec::new();
    let n = item.health_policies.len();
    for i in 0..n
        invariant
            n == item.health_policies@.len(),
            policies@ == item.health_policies@.take(i as int).map_values(
                |p: HealthPolicyData| policy_json(p),
            ),
    {
        policies.push(policy_to_json(&item.health_policies[i]));
        assert(item.health_policies@.take(i + 1) =~= item.health_policies@.take(i as int).push(
            item.health_policies@[i as int],
        ));
        assert(policies@ =~= item.health_policies@.take(i + 1).map_values(
            |p: HealthPolicyData| policy_json(p),
        ));
    }
    assert(item.health_policies@.take(n as int) =~= item.health_policies@);
    let ghost pv = policies@;
    let entries = vec![
        (owned("resource_id"), opt_field_value(&item.resource_id)),
        (owned("name"), opt_field_value(&item.name)),
        (owned("category"), opt_field_value(&item.category)),
        (owned("type"), opt_field_value(&item.resource_type)),
        (owned("health_policies"), array_of(policies)),
        (owned("columns"), columns_to_object(&item.columns)),
    ];
    assert(entry_views(entries@) =~= seq![
        ("resource_id"@, opt_field(item.resource_id)),
        ("name"@, opt_field(item.name)),
        ("category"@, opt_field(item.category)),
        ("type"@, opt_field(item.resource_type)),
        ("health_policies"@, json_array(pv)),
        ("columns"@, columns_object(item.columns@)),
    ]);
    tag_profile(object_of(entries), include_profile, profile)
}

// ── Configuration changes ────────────────────────────────────────────────────

/// A configuration-change summary row.
pub open spec fn change_json(item: ResourceChangeData) -> serde_json::Value {
    json_object_of(
        seq![
            ("resource_id"@, opt_field(item.resource_id)),
            ("source"@, opt_field(item.source)),
            ("outcome"@, opt_field(item.outcome)),
            ("last_change"@, opt_field(item.last_change)),
            ("change_count"@, json_opt_number(match item.change_count {
                Some(c) => Some(c as int),
                None => None,
            })),
        ],
    )
}

/// The JSON row of a configuration-change summary.
pub fn change_to_json(item: &ResourceChangeData) -> (r: serde_json::Value)
    ensures
        r == change_json(*item),
{
    let count: Option<i64> = match item.change_count {
        Some(c) => Some(c as i64),
        None => None,
    };
    let entries = vec![
        (owned("resource_id"), opt_field_value(&item.resource_id)),
        (owned("source"), opt_field_value(&item.source)),
        (owned("outcome"), opt_field_value(&item.outcome)),
        (owned("last_change"), opt_field_value(&item.last_change)),
        (owned("change_count"), opt_number_value(count)),
    ];
    assert(entry_views(entries@) =~= seq![
        ("resource_id"@, opt_field(item.resource_id)),
        ("source"@, opt_field(item.source)),
        ("outcome"@, opt_field(item.outcome)),
        ("last_change"@, opt_field(item.last_change)),
        ("change_count"@, json_opt_number(match item.change_count {
            Some(c) => Some(c as int),
            None => None,
        })),
    ]);
    object_of(entries)
}

/// One changed field, both sides in their raw JSON.
pub open spec fn field_change_json(c: FieldChangeData) -> serde_json::Value {
    json_object_of(seq![("field"@, opt_field(c.field)), ("before"@, c.before), ("after"@, c.after)])
}

/// The JSON of one changed field.
pub fn field_change_to_json(c: &FieldChangeData) -> (r: serde_json::Value)
    ensures
        r == field_change_json(*c),
{
    let before = copy_value(&c.before);
    let after = copy_value(&c.after);
    let entries = vec![
        (owned("field"), opt_field_value(&c.field)),
        (owned("before"), before),
        (owned("after"), after),
    ];
    assert(entry_views(entries@) =~= seq![("field"@, opt_field(c.field)), ("before"@, c.before), ("after"@, c.after)]);
    object_of(entries)
}

/// A diff row: the resource, the compared window, and each change with the
/// raw JSON types of both sides kept.
pub open spec fn diff_json(item: ResourceDiffData) -> serde_json::Value {
    json_object_of(
        seq![
            ("resource_id"@, opt_field(item.resource_id)),
            ("source"@, opt_field(item.source)),
            ("outcome"@, opt_field(item.outcome)),
            ("compared_from"@, opt_field(item.compared_from)),
            ("compared_to"@, opt_field(item.compared_to)),
            ("changes"@, json_array(item.changes@.map_values(|c: FieldChangeData| field_change_json(c)))),
        ],
    )
}

/// The JSON row of a configuration diff.
pub fn diff_to_json(item: &ResourceDiffData) -> (r: serde_json::Value)
    ensures
        r == diff_json(*item),
{
    let mut changes: Vec<serde_json::Value> = Vec::new();
    let n = item.changes.len();
    for i in 0..n
        invariant
            n == item.changes@.len(),
            changes@ == item.changes@.take(i as int).map_values(
                |c: FieldChangeData| field_change_json(c),
            ),
    {
        changes.push(field_change_to_json(&item.changes[i]));
        assert(item.changes@.take(i + 1) =~= item.changes@.take(i as int).push(
            item.changes@[i as int],
        ));
        assert(changes@ =~= item.changes@.take(i + 1).map_values(
            |c: FieldChangeData| field_change_json(c),
        ));
    }
    assert(item.changes@.take(n as int) =~= item.changes@);
    let ghost cv = changes@;
    let entries = vec![
        (owned("resource_id"), opt_field_value(&item.resource_id)),
        (owned("source"), opt_field_value(&item.source)),
        (owned("outcome"), opt_field_value(&item.outcome)),
        (owned("compared_from"), opt_field_value(&item.compared_from)),
        (owned("compared_to"), opt_field_value(&item.compared_to)),
        (owned("changes"), array_of(changes)),
    ];
    assert(entry_views(entries@) =~= seq![
        ("resource_id"@, opt_field(item.resource_id)),
        ("source"@, opt_field(item.source)),
        ("outcome"@, opt_field(item.outcome)),
        ("compared_from"@, opt_field(item.compared_from)),
        ("compared_to"@, opt_field(item.compared_to)),
        ("changes"@, json_array(cv)),
    ]);
    object_of(entries)
}

// ── Filters and types ────────────────────────────────────────────────────────

/// A `category`/`type` pair.
pub open spec fn type_pair_json(t: CategoryType) -> serde_json::Value {
    json_object_of(seq![("category"@, opt_field(t.category)), ("type"@, opt_field(t.resource_type))])
}

fn type_pair_to_json(t: &CategoryType) -> (r: serde_json::Value)
    ensures
        r == type_pair_json(*t),
{
    let entries = vec![
        (owned("category"), opt_field_value(&t.category)),
        (owned("type"), opt_field_value(&t.resource_type)),
    ];
    assert(entry_views(entries@) =~= seq![("category"@, opt_field(t.category)), ("type"@, opt_field(t.resource_type))]);
    object_of(entries)
}

/// A filter descriptor row: name, kind, whether it takes wildcards, its
/// values, and the types it applies to.
pub open spec fn filter_json(item: FilterDescriptor) -> serde_json::Value {
    json_object_of(
        seq![
            ("name"@, opt_field(item.name)),
            ("kind"@, opt_field(item.kind)),
            ("wildcard"@, json_bool(item.wildcard)),
            ("values"@, json_array(json_strings(item.values@))),
            ("types"@, json_array(item.types@.map_values(|t: CategoryType| type_pair_json(t)))),
        ],
    )
}

/// The JSON row of a filter descriptor, tagged with its profile when asked.
pub fn filter_to_json(item: &FilterDescriptor, include_profile: bool, profile: &str) -> (r: serde_json::Value)
    ensures
        r == profile_tagged(filter_json(*item), include_profile, profile@),
{
    let mut types: Vec<serde_json::Value> = Vec::new();
    let n = item.types.len();
    for i in 0..n
        invariant
            n == item.types@.len(),
            types@ == item.types@.take(i as int).map_values(|t: CategoryType| type_pair_json(t)),
    {
        types.push(type_pair_to_json(&item.types[i]));
        assert(item.types@.take(i + 1) =~= item.types@.take(i as int).push(item.types@[i as int]));
        assert(types@ =~= item.types@.take(i + 1).map_values(|t: CategoryType| type_pair_json(t)));
    }
    assert(item.types@.take(n as int) =~= item.types@);
    let ghost tv = types@;
    let entries = vec![
        (owned("name"), opt_field_value(&item.name)),
        (owned("kind"), opt_field_value(&item.kind)),
        (owned("wildcard"), bool_value(item.wildcard)),
        (owned("values"), strings_value(&item.values)),
        (owned("types"), array_of(types)),
    ];
    assert(entry_views(entries@) =~= seq![
        ("name"@, opt_field(item.name)),
        ("kind"@, opt_field(item.kind)),
        ("wildcard"@, json_bool(item.wildcard)),
        ("values"@, json_array(json_strings(item.values@))),
        ("types"@, json_array(tv)),
    ]);
    tag_profile(object_of(entries), include_profile, profile)
}

/// The category of a type mapping, if it has one.
pub open spec fn mapping_category(item: ResourceTypeMapping) -> Option<String> {
    match item.category_type {
        Some(c) => c.category,
        None => None,
    }
}

/// The type of a type mapping, if it has one.
pub open spec fn mapping_type(item: ResourceTypeMapping) -> Option<String> {
    match item.category_type {
        Some(c) => c.resource_type,
        None => None,
    }
}

/// A resource type mapping row: its category, type and label.
pub open spec fn type_mapping_json(item: ResourceTypeMapping) -> serde_json::Value {
    json_object_of(
        seq![
            ("category"@, opt_field(mapping_category(item))),
            ("type"@, opt_field(mapping_type(item))),
            ("label"@, opt_field(item.label)),
        ],
    )
}

/// The JSON row of a resource type mapping, tagged with its profile when
/// asked.
pub fn type_mapping_to_json(item: &ResourceTypeMapping, include_profile: bool, profile: &str) -> (r: serde_json::Value)
    ensures
        r == profile_tagged(type_mapping_json(*item), include_profile, profile@),
{
    let none: Option<String> = None;
    let (category, resource_type) = match &item.category_type {
        Some(c) => (opt_field_value(&c.category), opt_field_value(&c.resource_type)),
        None => (opt_field_value(&none), opt_field_value(&none)),
    };
    let entries = vec![
        (owned("category"), category),
        (owned("type"), resource_type),
        (owned("label"), opt_field_value(&item.label)),
    ];
    assert(entry_views(entries@) =~= seq![
        ("category"@, opt_field(mapping_category(*item))),
        ("type"@, opt_field(mapping_type(*item))),
        ("label"@, opt_field(item.label)),
    ]);
    tag_profile(object_of(entries), include_profile, profile)
}

// ── Health history ───────────────────────────────────────────────────────────

/// One daily health sample: `timestamp` and `status`.
pub open spec fn health_entry_json(item: HealthHistoryEntry) -> serde_json::Value {
    json_object_of(seq![("timestamp"@, opt_field(item.timestamp)), ("status"@, opt_field(item.status))])
}

/// The JSON of one daily health sample.
pub fn health_entry_to_json(item: &HealthHistoryEntry) -> (r: serde_json::Value)
    ensures
        r == health_entry_json(*item),
{
    let entries = vec![
        (owned("timestamp"), opt_field_value(&item.timestamp)),
        (owned("status"), opt_field_value(&item.status)),
    ];
    assert(entry_views(entries@) =~= seq![("timestamp"@, opt_field(item.timestamp)), ("status"@, opt_field(item.status))]);
    object_of(entries)
}

// ── Raw data ─────────────────────────────────────────────────────────────────

/// The raw-data envelope: `version_timestamp`, then `raw_data` (`null`
/// when the document is missing).
pub open spec fn raw_data_json(resp: GetRawDataResponse) -> serde_json::Value {
    json_object_of(
        seq![("version_timestamp"@, opt_field(resp.version_timestamp)), ("raw_data"@, json_or_null(resp.raw_data))],
    )
}

/// The JSON envelope of a raw-data answer.
pub fn raw_data_envelope(resp: GetRawDataResponse) -> (r: serde_json::Value)
    ensures
        r == raw_data_json(resp),
{
    let ghost before = resp;
    let version = opt_field_value(&resp.version_timestamp);
    let GetRawDataResponse { raw_data, version_timestamp: _ } = resp;
    let entries = vec![(owned("version_timestamp"), version), (owned("raw_data"), value_or_null(raw_data))];
    assert(entry_views(entries@) =~= seq![
        ("version_timestamp"@, opt_field(before.version_timestamp)),
        ("raw_data"@, json_or_null(before.raw_data)),
    ]);
    object_of(entries)
}

} // verus!
