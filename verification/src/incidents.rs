//! `cx incidents`: the options of `list`, the enum names the API takes,
//! and the body of a list request.

use vstd::prelude::*;
use crate::text::{
    ascii_upper, field_view, split_once, starts_with, trim, views,
};
use crate::timestamp::{nanos_outcome, parse_timestamp_nanos, TimestampError};
use crate::json::{
    array_of, bool_value, count_value, entry_views, json_array, json_bool, json_count,
    json_object_of, json_string, json_strings, object_of, string_value, strings_value,
};
use crate::text::owned;

verus! {

/// The options of `incidents list`.
#[derive(Debug, Clone)]
pub struct ListIncidentsOptions {
    pub statuses: Vec<String>,
    pub severities: Vec<String>,
    pub states: Vec<String>,
    pub assignees: Vec<String>,
    pub application_names: Vec<String>,
    pub subsystem_names: Vec<String>,
    pub contextual_labels: Vec<String>,
    pub search_query: Option<String>,
    pub search_field: Option<String>,
    pub search_contextual_label: Option<String>,
    pub is_muted: Option<bool>,
    pub created_start: Option<String>,
    pub created_end: Option<String>,
    pub duration_start: Option<String>,
    pub duration_end: Option<String>,
    pub order_by: Option<String>,
    pub order_direction: Option<String>,
    pub page_size: u32,
    pub page_token: Option<String>,
    pub limit: Option<usize>,
}

impl Default for ListIncidentsOptions {
    fn default() -> (r: Self)
        ensures
            r.statuses@.len() == 0 && r.severities@.len() == 0 && r.states@.len() == 0,
            r.assignees@.len() == 0 && r.application_names@.len() == 0,
            r.subsystem_names@.len() == 0 && r.contextual_labels@.len() == 0,
            r.search_query is None && r.search_field is None && r.search_contextual_label is None,
            r.is_muted is None,
            r.created_start is None && r.created_end is None,
            r.duration_start is None && r.duration_end is None,
            r.order_by is None && r.order_direction is None,
            r.page_size == 0 && r.page_token is None && r.limit is None,
    {
        ListIncidentsOptions {
            statuses: Vec::new(),
            severities: Vec::new(),
            states: Vec::new(),
            assignees: Vec::new(),
            application_names: Vec::new(),
            subsystem_names: Vec::new(),
            contextual_labels: Vec::new(),
            search_query: None,
            search_field: None,
            search_contextual_label: None,
            is_muted: None,
            created_start: None,
            created_end: None,
            duration_start: None,
            duration_end: None,
            order_by: None,
            order_direction: None,
            page_size: 0,
            page_token: None,
            limit: None,
        }
    }
}

// ── Enum names ───────────────────────────────────────────────────────────────

pub const STATUS_PREFIX: &'static str = "INCIDENT_STATUS_";

pub const SEVERITY_PREFIX: &'static str = "INCIDENT_SEVERITY_";

pub const STATE_PREFIX: &'static str = "INCIDENT_STATE_";

pub const FIELD_PREFIX: &'static str = "INCIDENTS_FIELDS_";

pub const DIRECTION_PREFIX: &'static str = "ORDER_BY_DIRECTION_";

/// `s` with every `-` and space made `_`.
pub open spec fn underscored(s: Seq<char>) -> Seq<char> {
    s.map_values(|c: char| if c == '-' || c == ' ' { '_' } else { c })
}

/// An input as an enum name: trimmed, `-` and spaces made `_`, upper-cased.
pub open spec fn enum_text(input: Seq<char>) -> Seq<char> {
    ascii_upper(underscored(trim(input)))
}

/// `p + s`, unless `s` already starts with `p`.
pub open spec fn with_prefix(s: Seq<char>, p: Seq<char>) -> Seq<char> {
    if starts_with(s, p) {
        s
    } else {
        p + s
    }
}

/// The full enum name of an input: `critical` becomes
/// `INCIDENT_SEVERITY_CRITICAL` for the prefix `INCIDENT_SEVERITY_`.
pub open spec fn spec_normalize_enum(input: Seq<char>, prefix: Seq<char>) -> Seq<char> {
    with_prefix(enum_text(input), prefix)
}

/// The field an alias stands for; any other name stands for itself.
pub open spec fn field_alias(n: Seq<char>) -> Seq<char> {
    if n == "CREATED"@ || n == "CREATED_AT"@ || n == "CREATED_TIME"@ {
        "CREATED_TIME"@
    } else if n == "CLOSED"@ || n == "CLOSED_AT"@ || n == "CLOSED_TIME"@ {
        "CLOSED_TIME"@
    } else if n == "LAST_UPDATE"@ || n == "LAST_STATE_UPDATE"@ || n == "LAST_STATE_UPDATE_AT"@
        || n == "LAST_STATE_UPDATE_TIME"@ {
        "LAST_STATE_UPDATE_TIME"@
    } else if n == "APPLICATION"@ || n == "APPLICATION_NAME"@ {
        "APPLICATION_NAME"@
    } else if n == "SUBSYSTEM"@ || n == "SUBSYSTEM_NAME"@ {
        "SUBSYSTEM_NAME"@
    } else {
        n
    }
}

/// The full name of an incident field: `created_at` becomes
/// `INCIDENTS_FIELDS_CREATED_TIME`.
pub open spec fn spec_normalize_incident_field(input: Seq<char>) -> Seq<char> {
    with_prefix(field_alias(enum_text(input)), FIELD_PREFIX@)
}

fn enum_text_exec(input: &str) -> (r: Vec<char>)
    ensures
        r@ == enum_text(input@),
{
    let t = crate::text::trim_chars(&crate::text::chars_of(input));
    let mut u: Vec<char> = Vec::new();
    let n = t.len();
    for i in 0..n
        invariant
            n == t@.len(),
            u@ == underscored(t@.take(i as int)),
    {
        let c = t[i];
        u.push(if c == '-' || c == ' ' { '_' } else { c });
        assert(u@ =~= underscored(t@.take((i + 1) as int)));
    }
    assert(t@.take(n as int) =~= t@);
    crate::text::upper_chars(&u)
}

fn with_prefix_exec(s: Vec<char>, prefix: &str) -> (r: String)
    ensures
        r@ == with_prefix(s@, prefix@),
{
    let p = crate::text::chars_of(prefix);
    if p.len() <= s.len() {
        let head = crate::text::slice_range(&s, 0, p.len());
        assert(head@ =~= s@.take(p@.len() as int));
        if crate::text::chars_eq(&head, &p) {
            return crate::text::string_of(&s);
        }
    }
    let mut r = crate::text::owned(prefix);
    r.append(crate::text::string_of(&s).as_str());
    r
}

/// The full enum name of an input for the prefix.
pub fn normalize_enum(input: &str, prefix: &str) -> (r: String)
    ensures
        r@ == spec_normalize_enum(input@, prefix@),
{
    with_prefix_exec(enum_text_exec(input), prefix)
}

fn is_one_of(v: &[char], a: &str, b: &str, c: &str) -> (r: bool)
    ensures
        r == (v@ == a@ || v@ == b@ || v@ == c@),
{
    crate::text::chars_eq_str(v, a) || crate::text::chars_eq_str(v, b)
        || crate::text::chars_eq_str(v, c)
}

/// The full name of an incident field, aliases resolved.
pub fn normalize_incident_field(input: &str) -> (r: String)
    ensures
        r@ == spec_normalize_incident_field(input@),
{
    let n = enum_text_exec(input);
    let field: Vec<char> = if is_one_of(&n, "CREATED", "CREATED_AT", "CREATED_TIME") {
        crate::text::chars_of("CREATED_TIME")
    } else if is_one_of(&n, "CLOSED", "CLOSED_AT", "CLOSED_TIME") {
        crate::text::chars_of("CLOSED_TIME")
    } else if is_one_of(&n, "LAST_UPDATE", "LAST_STATE_UPDATE", "LAST_STATE_UPDATE_AT")
        || crate::text::chars_eq_str(&n, "LAST_STATE_UPDATE_TIME") {
        crate::text::chars_of("LAST_STATE_UPDATE_TIME")
    } else if is_one_of(&n, "APPLICATION", "APPLICATION_NAME", "APPLICATION_NAME") {
        crate::text::chars_of("APPLICATION_NAME")
    } else if is_one_of(&n, "SUBSYSTEM", "SUBSYSTEM_NAME", "SUBSYSTEM_NAME") {
        crate::text::chars_of("SUBSYSTEM_NAME")
    } else {
        n
    };
    with_prefix_exec(field, FIELD_PREFIX)
}

/// The full name of an ordering direction: `asc` becomes
/// `ORDER_BY_DIRECTION_ASC`.
pub fn normalize_order_direction(input: &str) -> (r: String)
    ensures
        r@ == spec_normalize_enum(input@, DIRECTION_PREFIX@),
{
    normalize_enum(input, DIRECTION_PREFIX)
}

// ── The list body ────────────────────────────────────────────────────────────

/// A time range of the filter; each end as RFC 3339.
#[derive(Debug)]
pub struct TimeRange {
    pub start_time: Option<String>,
    pub end_time: Option<String>,
}

/// What the free-text search looks at: an incident field or a contextual
/// label.
#[derive(Debug)]
pub struct SearchQuery {
    pub query: String,
    pub incident_field: Option<String>,
    pub contextual_label: Option<String>,
}

/// The filter of a list request. A list given no values, and every other
/// absent part, is left out of the request.
#[derive(Debug)]
pub struct IncidentsFilter {
    pub status: Option<Vec<String>>,
    pub severity: Option<Vec<String>>,
    pub state: Option<Vec<String>>,
    pub assignee: Option<Vec<String>>,
    pub application_name: Option<Vec<String>>,
    pub subsystem_name: Option<Vec<String>>,
    /// Each label key with its values, keys in the order first given.
    pub contextual_labels: Option<Vec<(String, Vec<String>)>>,
    pub is_muted: Option<bool>,
    pub search_query: Option<SearchQuery>,
    pub created_at_range: Option<TimeRange>,
    pub incident_duration_range: Option<TimeRange>,
}

#[derive(Debug)]
pub struct OrderBy {
    pub incident_field: String,
    pub direction: String,
}

/// The body of a list request.
#[derive(Debug)]
pub struct ListIncidentsBody {
    pub filter: IncidentsFilter,
    pub page_size: u32,
    pub page_token: Option<String>,
    pub order_bys: Option<OrderBy>,
}

/// Why a list request could not be built.
#[derive(Debug)]
pub enum IncidentsError {
    InvalidContextualLabel { label: String },
    SearchTargetTwice,
    SearchTargetMissing,
    Timestamp(TimestampError),
    /// Every profile asked failed; their error lines.
    AllProfilesFailed { errors: Vec<String> },
}

impl IncidentsError {
    pub open spec fn spec_message(&self) -> Seq<char> {
        match self {
            IncidentsError::InvalidContextualLabel { label } => "Invalid contextual label '"@
                + label@ + "'. Use key=value."@,
            IncidentsError::SearchTargetTwice =>
                "Use only one of --query-field or --query-contextual-label with --query."@,
            IncidentsError::SearchTargetMissing =>
                "Use --query-field or --query-contextual-label with --query."@,
            IncidentsError::Timestamp(e) => e.spec_message(),
            IncidentsError::AllProfilesFailed { .. } =>
                "Failed to list incidents for all selected profiles."@,
        }
    }

    /// The message shown to the user.
    pub fn message(&self) -> (r: String)
        ensures
            r@ == self.spec_message(),
    {
        match self {
            IncidentsError::InvalidContextualLabel { label } => {
                let mut s = crate::text::owned("Invalid contextual label '");
                s.append(label.as_str());
                s.append("'. Use key=value.");
                s
            },
            IncidentsError::SearchTargetTwice => crate::text::owned(
                "Use only one of --query-field or --query-contextual-label with --query.",
            ),
            IncidentsError::SearchTargetMissing => crate::text::owned(
                "Use --query-field or --query-contextual-label with --query.",
            ),
            IncidentsError::Timestamp(e) => e.message(),
            IncidentsError::AllProfilesFailed { .. } => crate::text::owned(
                "Failed to list incidents for all selected profiles.",
            ),
        }
    }
}

/// The values of a list part: each normalized with the prefix when there
/// is one; `None` when there are no values.
pub open spec fn spec_list_part(values: Seq<Seq<char>>, prefix: Option<Seq<char>>) -> Option<
    Seq<Seq<char>>,
> {
    if values.len() == 0 {
        None
    } else {
        match prefix {
            Some(p) => Some(values.map_values(|v: Seq<char>| spec_normalize_enum(v, p))),
            None => Some(values),
        }
    }
}

/// The view of an optional list of strings.
pub open spec fn opt_views(v: Option<Vec<String>>) -> Option<Seq<Seq<char>>> {
    match v {
        Some(x) => Some(views(x@)),
        None => None,
    }
}

fn list_part(values: &[String], prefix: Option<&str>) -> (r: Option<Vec<String>>)
    ensures
        opt_views(r) == spec_list_part(
            views(values@),
            match prefix {
                Some(p) => Some(p@),
                None => None,
            },
        ),
{
    if values.len() == 0 {
        return None;
    }
    let mut out: Vec<String> = Vec::new();
    let n = values.len();
    for i in 0..n
        invariant
            n == values@.len(),
            views(out@) == (match prefix {
                Some(p) => views(values@.take(i as int)).map_values(
                    |v: Seq<char>| spec_normalize_enum(v, p@),
                ),
                None => views(values@.take(i as int)),
            }),
    {
        let item = match prefix {
            Some(p) => normalize_enum(values[i].as_str(), p),
            None => crate::text::owned(values[i].as_str()),
        };
        let ghost before = out@;
        out.push(item);
        proof {
            crate::text::lemma_views_push(before, item);
            assert(values@.take((i + 1) as int) =~= values@.take(i as int).push(values@[i as int]));
            crate::text::lemma_views_push(values@.take(i as int), values@[i as int]);
        }
        assert(views(out@) =~= (match prefix {
            Some(p) => views(values@.take((i + 1) as int)).map_values(
                |v: Seq<char>| spec_normalize_enum(v, p@),
            ),
            None => views(values@.take((i + 1) as int)),
        }));
    }
    assert(values@.take(n as int) =~= values@);
    Some(out)
}

// ── Contextual labels ────────────────────────────────────────────────────────

/// A contextual label read as `key=value`, both sides trimmed and not empty.
pub open spec fn label_entry(label: Seq<char>) -> Option<(Seq<char>, Seq<char>)> {
    match split_once(label, '=') {
        Some((k, v)) => if trim(k).len() > 0 && trim(v).len() > 0 {
            Some((trim(k), trim(v)))
        } else {
            None
        },
        None => None,
    }
}

/// The first label that is not `key=value`.
pub open spec fn first_bad_label(labels: Seq<Seq<char>>) -> Option<Seq<char>>
    decreases labels.len(),
{
    if labels.len() == 0 {
        None
    } else if label_entry(labels[0]) is None {
        Some(labels[0])
    } else {
        first_bad_label(labels.drop_first())
    }
}

/// The index of the group of key `k`.
pub open spec fn group_index(groups: Seq<(Seq<char>, Seq<Seq<char>>)>, k: Seq<char>) -> Option<int>
    decreases groups.len(),
{
    if groups.len() == 0 {
        None
    } else if groups.last().0 == k {
        Some(groups.len() - 1)
    } else {
        group_index(groups.drop_last(), k)
    }
}

/// `v` added to the group of `k`, or a new group for `k` at the end.
pub open spec fn add_to_group(groups: Seq<(Seq<char>, Seq<Seq<char>>)>, k: Seq<char>, v: Seq<char>) -> Seq<
    (Seq<char>, Seq<Seq<char>>),
> {
    match group_index(groups, k) {
        Some(i) => groups.update(i, (k, groups[i].1.push(v))),
        None => groups.push((k, seq![v])),
    }
}

/// The values of the labels grouped by key, keys in the order first given.
pub open spec fn group_labels(labels: Seq<Seq<char>>) -> Seq<(Seq<char>, Seq<Seq<char>>)>
    decreases labels.len(),
{
    if labels.len() == 0 {
        seq![]
    } else {
        match label_entry(labels.last()) {
            Some((k, v)) => add_to_group(group_labels(labels.drop_last()), k, v),
            None => group_labels(labels.drop_last()),
        }
    }
}

/// The view of label groups.
pub open spec fn groups_view(g: Seq<(String, Vec<String>)>) -> Seq<(Seq<char>, Seq<Seq<char>>)> {
    g.map_values(|e: (String, Vec<String>)| (e.0@, views(e.1@)))
}

proof fn lemma_group_index(groups: Seq<(Seq<char>, Seq<Seq<char>>)>, k: Seq<char>)
    ensures
        match group_index(groups, k) {
            Some(i) => 0 <= i < groups.len() && groups[i].0 == k,
            None => forall|j: int| 0 <= j < groups.len() ==> groups[j].0 != k,
        },
    decreases groups.len(),
{
    if groups.len() > 0 && groups.last().0 != k {
        lemma_group_index(groups.drop_last(), k);
        match group_index(groups.drop_last(), k) {
            Some(i) => {},
            None => {
                assert forall|j: int| 0 <= j < groups.len() implies groups[j].0 != k by {
                    if j < groups.len() - 1 {
                        assert(groups[j] == groups.drop_last()[j]);
                    }
                }
            },
        }
    }
}

proof fn lemma_first_bad_label_prefix(labels: Seq<Seq<char>>, i: int)
    requires
        0 <= i < labels.len(),
        first_bad_label(labels.take(i)) is None,
    ensures
        first_bad_label(labels.take(i + 1)) == (if label_entry(labels[i]) is None {
            Some(labels[i])
        } else {
            None::<Seq<char>>
        }),
        label_entry(labels[i]) is None ==> first_bad_label(labels) == Some(labels[i]),
    decreases i,
{
    assert(labels.take(i + 1)[0] == labels[0]);
    if i > 0 {
        assert(labels.take(i)[0] == labels[0]);
        assert(label_entry(labels[0]) is Some);
        assert(labels.take(i).drop_first() =~= labels.drop_first().take(i - 1));
        assert(labels.take(i + 1).drop_first() =~= labels.drop_first().take(i));
        lemma_first_bad_label_prefix(labels.drop_first(), i - 1);
        assert(labels.drop_first()[i - 1] == labels[i]);
        assert(first_bad_label(labels.take(i + 1)) == first_bad_label(labels.drop_first().take(i)));
    } else {
        assert(first_bad_label(Seq::<Seq<char>>::empty()) is None);
        assert(labels.take(1).drop_first() =~= Seq::<Seq<char>>::empty());
    }
}

/// Position of the group of `k` in `groups`.
fn find_group(groups: &Vec<(String, Vec<String>)>, k: &str) -> (r: Option<usize>)
    ensures
        match r {
            Some(i) => group_index(groups_view(groups@), k@) == Some(i as int),
            None => group_index(groups_view(groups@), k@) is None,
        },
{
    let mut i = groups.len();
    assert(groups_view(groups@).take(i as int) =~= groups_view(groups@));
    while i > 0
        invariant
            i <= groups@.len(),
            group_index(groups_view(groups@), k@) == group_index(
                groups_view(groups@).take(i as int),
                k@,
            ),
        decreases i,
    {
        let ghost g = groups_view(groups@).take(i as int);
        assert(g.drop_last() =~= groups_view(groups@).take(i - 1));
        assert(g.last() == groups_view(groups@)[i - 1]);
        if crate::text::chars_eq_str(&crate::text::chars_of(groups[i - 1].0.as_str()), k) {
            return Some(i - 1);
        }
        i = i - 1;
    }
    None
}

/// Groups `key=value` contextual labels by key, in the order keys first
/// appear; the first label that is not `key=value` (both sides non-empty
/// after trimming) is refused.
pub fn group_contextual_labels(labels: &[String]) -> (r: Result<
    Vec<(String, Vec<String>)>,
    IncidentsError,
>)
    ensures
        match first_bad_label(views(labels@)) {
            Some(bad) => r matches Err(IncidentsError::InvalidContextualLabel { label }) && label@
                == bad,
            None => r matches Ok(g) && groups_view(g@) == group_labels(views(labels@)),
        },
{
    let mut groups: Vec<(String, Vec<String>)> = Vec::new();
    let n = labels.len();
    let ghost lv = views(labels@);
    assert(lv.take(0) =~= Seq::<Seq<char>>::empty());
    for i in 0..n
        invariant
            n == labels@.len(),
            lv == views(labels@),
            first_bad_label(lv.take(i as int)) is None,
            groups_view(groups@) == group_labels(lv.take(i as int)),
    {
        proof {
            lemma_first_bad_label_prefix(lv, i as int);
        }
        assert(lv[i as int] == labels@[i as int]@);
        let lab = crate::text::chars_of(labels[i].as_str());
        let parsed = crate::text::split_once_chars(&lab, '=');
        let entry: Option<(Vec<char>, Vec<char>)> = match parsed {
            Some((k, v)) => {
                let kt = crate::text::trim_chars(&k);
                let vt = crate::text::trim_chars(&v);
                if kt.len() > 0 && vt.len() > 0 {
                    Some((kt, vt))
                } else {
                    None
                }
            },
            None => None,
        };
        match entry {
            None => {
                return Err(
                    IncidentsError::InvalidContextualLabel {
                        label: crate::text::owned(labels[i].as_str()),
                    },
                );
            },
            Some((kt, vt)) => {
                assert(label_entry(lv[i as int]) == Some((kt@, vt@)));
                let key = crate::text::string_of(&kt);
                let value = crate::text::string_of(&vt);
                let ghost before = groups_view(groups@);
                proof {
                    lemma_group_index(before, key@);
                }
                assert(lv.take((i + 1) as int).drop_last() =~= lv.take(i as int));
                assert(lv.take((i + 1) as int).last() == lv[i as int]);
                match find_group(&groups, key.as_str()) {
                    Some(gi) => {
                        let mut entry_vals = crate::infra::filter::clone_strings(&groups[gi].1);
                        let ghost old_vals = entry_vals@;
                        assert(views(old_vals) == before[gi as int].1);
                        entry_vals.push(value);
                        proof {
                            crate::text::lemma_views_push(old_vals, value);
                        }
                        assert(views(entry_vals@) == before[gi as int].1.push(value@));
                        assert(before[gi as int].0 == key@);
                        let k2 = crate::text::owned(key.as_str());
                        let ghost old_groups = groups@;
                        groups.set(gi, (k2, entry_vals));
                        assert(groups@ == old_groups.update(gi as int, (k2, entry_vals)));
                        assert(groups_view(groups@) =~= before.update(
                            gi as int,
                            (key@, before[gi as int].1.push(value@)),
                        ));
                    },
                    None => {
                        let mut vals: Vec<String> = Vec::new();
                        vals.push(value);
                        assert(views(vals@) =~= seq![value@]);
                        groups.push((key, vals));
                        assert(groups_view(groups@) =~= before.push((key@, seq![value@])));
                    },
                }
            },
        }
    }
    assert(lv.take(n as int) =~= lv);
    Ok(groups)
}

// ── Search query ─────────────────────────────────────────────────────────────

/// The refusal a search query's targets call for, if any: `--query` needs
/// exactly one of `--query-field` and `--query-contextual-label`.
pub open spec fn search_error(o: ListIncidentsOptions) -> Option<IncidentsError> {
    if o.search_query is Some && o.search_field is Some && o.search_contextual_label is Some {
        Some(IncidentsError::SearchTargetTwice)
    } else if o.search_query is Some && o.search_field is None && o.search_contextual_label
        is None {
        Some(IncidentsError::SearchTargetMissing)
    } else {
        None
    }
}

/// The search part of the filter.
pub open spec fn spec_search(o: ListIncidentsOptions) -> Option<(Seq<char>, Option<Seq<char>>, Option<Seq<char>>)> {
    match o.search_query {
        Some(q) => Some(
            (
                q@,
                match o.search_field {
                    Some(f) => Some(spec_normalize_incident_field(f@)),
                    None => None,
                },
                field_view(o.search_contextual_label),
            ),
        ),
        None => None,
    }
}

pub open spec fn search_view(s: Option<SearchQuery>) -> Option<(Seq<char>, Option<Seq<char>>, Option<Seq<char>>)> {
    match s {
        Some(q) => Some((q.query@, field_view(q.incident_field), field_view(q.contextual_label))),
        None => None,
    }
}

// ── Time ranges ──────────────────────────────────────────────────────────────

/// Whether `out` is what resolving `input` may give when it succeeds: both
/// absent, or the resolution of the given input.
pub open spec fn resolved(input: Option<String>, out: Option<String>) -> bool {
    match (input, out) {
        (None, None) => true,
        (Some(i), Some(o)) => nanos_outcome(i@, Ok(o)),
        _ => false,
    }
}

/// Whether a range part is as given: absent when neither end is given,
/// else both ends resolved.
pub open spec fn range_resolved(start: Option<String>, end: Option<String>, r: Option<TimeRange>) -> bool {
    if start is None && end is None {
        r is None
    } else {
        r matches Some(tr) && resolved(start, tr.start_time) && resolved(end, tr.end_time)
    }
}

/// Whether `e` is what resolving one of the given times may fail with.
pub open spec fn time_failure(o: ListIncidentsOptions, e: TimestampError) -> bool {
    ||| (o.created_start matches Some(t) && nanos_outcome(t@, Err(e)))
    ||| (o.created_end matches Some(t) && nanos_outcome(t@, Err(e)))
    ||| (o.duration_start matches Some(t) && nanos_outcome(t@, Err(e)))
    ||| (o.duration_end matches Some(t) && nanos_outcome(t@, Err(e)))
}

fn resolve(input: &Option<String>) -> (r: Result<Option<String>, TimestampError>)
    ensures
        match r {
            Ok(out) => resolved(*input, out),
            Err(e) => input matches Some(t) && nanos_outcome(t@, Err(e)),
        },
{
    match input {
        Some(t) => match parse_timestamp_nanos(t.as_str()) {
            Ok(x) => Ok(Some(x)),
            Err(e) => Err(e),
        },
        None => Ok(None),
    }
}

fn time_range(start: &Option<String>, end: &Option<String>) -> (r: Result<
    Option<TimeRange>,
    TimestampError,
>)
    ensures
        match r {
            Ok(tr) => range_resolved(*start, *end, tr),
            Err(e) => (start matches Some(t) && nanos_outcome(t@, Err(e))) || (end matches Some(t)
                && nanos_outcome(t@, Err(e))),
        },
{
    if start.is_none() && end.is_none() {
        return Ok(None);
    }
    let s = match resolve(start) {
        Ok(x) => x,
        Err(e) => return Err(e),
    };
    let e = match resolve(end) {
        Ok(x) => x,
        Err(err) => return Err(err),
    };
    Ok(Some(TimeRange { start_time: s, end_time: e }))
}

// ── Building the body ────────────────────────────────────────────────────────

/// The ordering of a request: the field named by `--order-by`, in the
/// direction of `--order-direction` (`DESC` when not given).
pub open spec fn spec_order(o: ListIncidentsOptions) -> Option<(Seq<char>, Seq<char>)> {
    match o.order_by {
        Some(f) => Some(
            (
                spec_normalize_incident_field(f@),
                spec_normalize_enum(
                    match o.order_direction {
                        Some(d) => d@,
                        None => "DESC"@,
                    },
                    DIRECTION_PREFIX@,
                ),
            ),
        ),
        None => None,
    }
}

pub open spec fn order_view(o: Option<OrderBy>) -> Option<(Seq<char>, Seq<char>)> {
    match o {
        Some(x) => Some((x.incident_field@, x.direction@)),
        None => None,
    }
}

/// Whether `body` is the request `o` and `page_token` call for, the time
/// ranges aside.
pub open spec fn body_matches(o: ListIncidentsOptions, page_token: Option<Seq<char>>, body: ListIncidentsBody) -> bool {
    let f = body.filter;
    &&& opt_views(f.status) == spec_list_part(views(o.statuses@), Some(STATUS_PREFIX@))
    &&& opt_views(f.severity) == spec_list_part(views(o.severities@), Some(SEVERITY_PREFIX@))
    &&& opt_views(f.state) == spec_list_part(views(o.states@), Some(STATE_PREFIX@))
    &&& opt_views(f.assignee) == spec_list_part(views(o.assignees@), None)
    &&& opt_views(f.application_name) == spec_list_part(views(o.application_names@), None)
    &&& opt_views(f.subsystem_name) == spec_list_part(views(o.subsystem_names@), None)
    &&& (if o.contextual_labels@.len() == 0 {
        f.contextual_labels is None
    } else {
        f.contextual_labels matches Some(g) && groups_view(g@) == group_labels(views(o.contextual_labels@))
    })
    &&& f.is_muted == o.is_muted
    &&& search_view(f.search_query) == spec_search(o)
    &&& range_resolved(o.created_start, o.created_end, f.created_at_range)
    &&& range_resolved(o.duration_start, o.duration_end, f.incident_duration_range)
    &&& body.page_size == o.page_size
    &&& field_view(body.page_token) == (match page_token {
        Some(t) => Some(t),
        None => field_view(o.page_token),
    })
    &&& order_view(body.order_bys) == spec_order(o)
}

fn clone_opt(s: &Option<String>) -> (r: Option<String>)
    ensures
        field_view(r) == field_view(*s),
{
    match s {
        Some(x) => Some(crate::text::owned(x.as_str())),
        None => None,
    }
}

/// Builds the body of a list request from the options, with `page_token`
/// (when given) in place of the options' own. Refused, in this order: a
/// contextual label that is not `key=value`; a search query with both or
/// neither of its targets; a time that does not resolve.
pub fn build_list_body(options: &ListIncidentsOptions, page_token: Option<&str>) -> (r: Result<
    ListIncidentsBody,
    IncidentsError,
>)
    ensures
        first_bad_label(views(options.contextual_labels@)) matches Some(bad) ==> (r matches Err(
            IncidentsError::InvalidContextualLabel { label },
        ) && label@ == bad),
        (first_bad_label(views(options.contextual_labels@)) is None && search_error(*options)
            is Some) ==> (r matches Err(e) && Some(e) == search_error(*options)),
        first_bad_label(views(options.contextual_labels@)) is None && search_error(*options)
            is None ==> match r {
            Ok(body) => body_matches(
                *options,
                match page_token {
                    Some(t) => Some(t@),
                    None => None,
                },
                body,
            ),
            Err(IncidentsError::Timestamp(e)) => time_failure(*options, e),
            Err(_) => false,
        },
{
    let status = list_part(&options.statuses, Some(STATUS_PREFIX));
    let severity = list_part(&options.severities, Some(SEVERITY_PREFIX));
    let state = list_part(&options.states, Some(STATE_PREFIX));
    let assignee = list_part(&options.assignees, None);
    let application_name = list_part(&options.application_names, None);
    let subsystem_name = list_part(&options.subsystem_names, None);
    let contextual_labels = if options.contextual_labels.len() == 0 {
        None
    } else {
        match group_contextual_labels(&options.contextual_labels) {
            Ok(g) => Some(g),
            Err(e) => return Err(e),
        }
    };
    proof {
        if options.contextual_labels@.len() == 0 {
            assert(views(options.contextual_labels@).len() == 0);
        }
    }
    let search_query = match &options.search_query {
        Some(q) => {
            if options.search_field.is_some() && options.search_contextual_label.is_some() {
                return Err(IncidentsError::SearchTargetTwice);
            }
            if options.search_field.is_none() && options.search_contextual_label.is_none() {
                return Err(IncidentsError::SearchTargetMissing);
            }
            let incident_field = match &options.search_field {
                Some(f) => Some(normalize_incident_field(f.as_str())),
                None => None,
            };
            Some(
                SearchQuery {
                    query: crate::text::owned(q.as_str()),
                    incident_field,
                    contextual_label: clone_opt(&options.search_contextual_label),
                },
            )
        },
        None => None,
    };
    let created_at_range = match time_range(&options.created_start, &options.created_end) {
        Ok(x) => x,
        Err(e) => return Err(IncidentsError::Timestamp(e)),
    };
    let incident_duration_range = match time_range(&options.duration_start, &options.duration_end) {
        Ok(x) => x,
        Err(e) => return Err(IncidentsError::Timestamp(e)),
    };
    let token = match page_token {
        Some(t) => Some(crate::text::owned(t)),
        None => clone_opt(&options.page_token),
    };
    let order_bys = match &options.order_by {
        Some(f) => {
            let direction = match &options.order_direction {
                Some(d) => normalize_order_direction(d.as_str()),
                None => normalize_order_direction("DESC"),
            };
            Some(OrderBy { incident_field: normalize_incident_field(f.as_str()), direction })
        },
        None => None,
    };
    Ok(
        ListIncidentsBody {
            filter: IncidentsFilter {
                status,
                severity,
                state,
                assignee,
                application_name,
                subsystem_name,
                contextual_labels,
                is_muted: options.is_muted,
                search_query,
                created_at_range,
                incident_duration_range,
            },
            page_size: options.page_size,
            page_token: token,
            order_bys,
        },
    )
}

// ── Paging ───────────────────────────────────────────────────────────────────

/// What to do after a page of incidents came back.
#[derive(Debug, PartialEq, Eq, Structural)]
pub enum PageStep {
    /// Ask for the next page.
    Next,
    /// Stop, keeping the first `keep` incidents.
    Stop { keep: usize },
}

/// After a page: stop with the first `limit` incidents once that many are
/// collected, stop when there is no next page, else ask for it.
pub fn page_step(collected: usize, limit: Option<usize>, has_next_page: bool) -> (r: PageStep)
    ensures
        (limit matches Some(l) && collected >= l) ==> r == (PageStep::Stop { keep: limit->0 }),
        !(limit matches Some(l) && collected >= l) && !has_next_page ==> r == (PageStep::Stop {
            keep: collected,
        }),
        !(limit matches Some(l) && collected >= l) && has_next_page ==> r == PageStep::Next,
{
    match limit {
        Some(l) => {
            if collected >= l {
                return PageStep::Stop { keep: l };
            }
        },
        None => {},
    }
    if has_next_page {
        PageStep::Next
    } else {
        PageStep::Stop { keep: collected }
    }
}

// ── Laws ─────────────────────────────────────────────────────────────────────

/// Whether a character can stand in a full enum name: no whitespace, no
/// `-`, no ASCII lower-case letter.
pub open spec fn enum_char(c: char) -> bool {
    !crate::text::is_ws(c) && c != '-' && !('a' <= c && c <= 'z')
}

/// Whether every character of `s` can stand in a full enum name.
pub open spec fn enum_chars(s: Seq<char>) -> bool {
    forall|i: int| 0 <= i < s.len() ==> enum_char(#[trigger] s[i])
}

/// An input made an enum name holds only enum characters.
proof fn lemma_enum_text_chars(input: Seq<char>)
    ensures
        forall|i: int|
            0 <= i < enum_text(input).len() ==> (#[trigger] enum_text(input)[i]) != '-'
                && enum_text(input)[i] != ' ' && !('a' <= enum_text(input)[i]
                && enum_text(input)[i] <= 'z'),
        enum_text(input).len() > 0 ==> enum_char(enum_text(input)[0]) && enum_char(
            enum_text(input).last(),
        ),
{
    let t = trim(input);
    let u = underscored(t);
    let n = enum_text(input);
    crate::text::lemma_trim_ends(input);
    assert(n.len() == t.len());
    if n.len() > 0 {
        assert(u[0] == (if t[0] == '-' || t[0] == ' ' { '_' } else { t[0] }));
        assert(n[0] == crate::text::upper_char(u[0]));
        let k = n.len() - 1;
        assert(u[k] == (if t[k] == '-' || t[k] == ' ' { '_' } else { t[k] }));
        assert(n[k] == crate::text::upper_char(u[k]));
    }
}

/// Normalizing an enum name twice is normalizing it once, for a prefix made
/// of enum characters: a full name such as `INCIDENT_STATUS_ACKNOWLEDGED`
/// passes through unchanged.
pub proof fn lemma_normalize_enum_idempotent(input: Seq<char>, prefix: Seq<char>)
    requires
        enum_chars(prefix),
    ensures
        spec_normalize_enum(spec_normalize_enum(input, prefix), prefix) == spec_normalize_enum(
            input,
            prefix,
        ),
{
    let n = enum_text(input);
    let m = spec_normalize_enum(input, prefix);
    lemma_enum_text_chars(input);
    assert(forall|i: int| 0 <= i < n.len() ==> enum_char(#[trigger] n[i]) || crate::text::is_ws(n[i]));
    assert forall|i: int| 0 <= i < m.len() implies (#[trigger] m[i]) != '-' && m[i] != ' ' && !(
    'a' <= m[i] && m[i] <= 'z') by {
        if !starts_with(n, prefix) && i < prefix.len() {
            assert(m[i] == prefix[i]);
        } else if !starts_with(n, prefix) {
            assert(m[i] == n[i - prefix.len()]);
        }
    }
    if m.len() > 0 {
        if starts_with(n, prefix) {
            assert(m == n);
        } else {
            assert(m == prefix + n);
            if prefix.len() > 0 {
                assert(m[0] == prefix[0]);
            } else {
                assert(m[0] == n[0]);
            }
            if n.len() > 0 {
                assert(m.last() == n.last());
            } else {
                assert(m.last() == prefix.last());
            }
        }
    }
    crate::text::lemma_trim_clean(m);
    assert(underscored(m) =~= m);
    assert(crate::text::ascii_upper(m) =~= m);
    assert(enum_text(m) == m);
    if !starts_with(n, prefix) {
        assert(m.take(prefix.len() as int) =~= prefix);
    }
}

/// The field each alias of `incidents list` names, as a table: the
/// creation, closing and last state-update times, the application and the
/// subsystem, each under its short and long spellings.
pub open spec fn incident_field_aliases() -> Seq<(Seq<char>, Seq<char>)> {
    seq![
        ("CREATED"@, "CREATED_TIME"@),
        ("CREATED_AT"@, "CREATED_TIME"@),
        ("CREATED_TIME"@, "CREATED_TIME"@),
        ("CLOSED"@, "CLOSED_TIME"@),
        ("CLOSED_AT"@, "CLOSED_TIME"@),
        ("CLOSED_TIME"@, "CLOSED_TIME"@),
        ("LAST_UPDATE"@, "LAST_STATE_UPDATE_TIME"@),
        ("LAST_STATE_UPDATE"@, "LAST_STATE_UPDATE_TIME"@),
        ("LAST_STATE_UPDATE_AT"@, "LAST_STATE_UPDATE_TIME"@),
        ("LAST_STATE_UPDATE_TIME"@, "LAST_STATE_UPDATE_TIME"@),
        ("APPLICATION"@, "APPLICATION_NAME"@),
        ("APPLICATION_NAME"@, "APPLICATION_NAME"@),
        ("SUBSYSTEM"@, "SUBSYSTEM_NAME"@),
        ("SUBSYSTEM_NAME"@, "SUBSYSTEM_NAME"@),
    ]
}

/// Whether `n` is one of the aliases of the table.
pub open spec fn is_field_alias(n: Seq<char>) -> bool {
    exists|i: int| 0 <= i < incident_field_aliases().len() && #[trigger] incident_field_aliases()[i].0 == n
}

/// Each alias resolves to the field it names: an input whose enum text is
/// the alias in row `i` of the table (in any case, with `-` or spaces for
/// `_`) becomes `INCIDENTS_FIELDS_` and that row's field.
pub proof fn lemma_field_aliases_resolve(input: Seq<char>, i: int)
    requires
        0 <= i < incident_field_aliases().len(),
        enum_text(input) == incident_field_aliases()[i].0,
    ensures
        spec_normalize_incident_field(input) == FIELD_PREFIX@ + incident_field_aliases()[i].1,
{
    reveal_strlit("APPLICATION");
    reveal_strlit("APPLICATION_NAME");
    reveal_strlit("CLOSED");
    reveal_strlit("CLOSED_AT");
    reveal_strlit("CLOSED_TIME");
    reveal_strlit("CREATED");
    reveal_strlit("CREATED_AT");
    reveal_strlit("CREATED_TIME");
    reveal_strlit("LAST_STATE_UPDATE");
    reveal_strlit("LAST_STATE_UPDATE_AT");
    reveal_strlit("LAST_STATE_UPDATE_TIME");
    reveal_strlit("LAST_UPDATE");
    reveal_strlit("SUBSYSTEM");
    reveal_strlit("SUBSYSTEM_NAME");
    reveal_strlit("INCIDENTS_FIELDS_");
    let t = incident_field_aliases();
    let n = enum_text(input);
    lemma_alias_row(i);
    let a = field_alias(n);
    assert(a == t[i].1);
    assert(a[0] != 'I');
    assert(!starts_with(a, FIELD_PREFIX@)) by {
        if starts_with(a, FIELD_PREFIX@) {
            assert(a.take(17)[0] == a[0]);
        }
    }
}

/// Any other name of a field, not yet prefixed, is kept as it is and
/// prefixed: `name` becomes `INCIDENTS_FIELDS_NAME`.
pub proof fn lemma_other_fields_are_kept(input: Seq<char>)
    requires
        !is_field_alias(enum_text(input)),
        !starts_with(enum_text(input), FIELD_PREFIX@),
    ensures
        spec_normalize_incident_field(input) == FIELD_PREFIX@ + enum_text(input),
{
    let t = incident_field_aliases();
    let n = enum_text(input);
    assert forall|i: int| 0 <= i < t.len() implies #[trigger] t[i].0 != n by {}
    assert(t[0].0 == "CREATED"@ && t[1].0 == "CREATED_AT"@ && t[2].0 == "CREATED_TIME"@);
    assert(t[3].0 == "CLOSED"@ && t[4].0 == "CLOSED_AT"@ && t[5].0 == "CLOSED_TIME"@);
    assert(t[6].0 == "LAST_UPDATE"@ && t[7].0 == "LAST_STATE_UPDATE"@ && t[8].0 == "LAST_STATE_UPDATE_AT"@);
    assert(t[9].0 == "LAST_STATE_UPDATE_TIME"@ && t[10].0 == "APPLICATION"@ && t[11].0 == "APPLICATION_NAME"@);
    assert(t[12].0 == "SUBSYSTEM"@ && t[13].0 == "SUBSYSTEM_NAME"@);
    assert(field_alias(n) == n);
}

/// Distinct fields stay distinct: inputs whose aliases name different
/// fields normalize to different names.
pub proof fn lemma_distinct_fields_stay_distinct(x: Seq<char>, y: Seq<char>, i: int, j: int)
    requires
        0 <= i < incident_field_aliases().len(),
        0 <= j < incident_field_aliases().len(),
        enum_text(x) == incident_field_aliases()[i].0,
        enum_text(y) == incident_field_aliases()[j].0,
        incident_field_aliases()[i].1 != incident_field_aliases()[j].1,
    ensures
        spec_normalize_incident_field(x) != spec_normalize_incident_field(y),
{
    lemma_field_aliases_resolve(x, i);
    lemma_field_aliases_resolve(y, j);
    let p = FIELD_PREFIX@;
    let a = p + incident_field_aliases()[i].1;
    let b = p + incident_field_aliases()[j].1;
    if a == b {
        assert(a.skip(p.len() as int) =~= incident_field_aliases()[i].1);
        assert(b.skip(p.len() as int) =~= incident_field_aliases()[j].1);
    }
}

/// Row `i` of the alias table is what `field_alias` gives for its alias.
proof fn lemma_alias_row(i: int)
    requires
        0 <= i < incident_field_aliases().len(),
    ensures
        field_alias(incident_field_aliases()[i].0) == incident_field_aliases()[i].1,
{
    reveal_strlit("APPLICATION");
    reveal_strlit("APPLICATION_NAME");
    reveal_strlit("CLOSED");
    reveal_strlit("CLOSED_AT");
    reveal_strlit("CLOSED_TIME");
    reveal_strlit("CREATED");
    reveal_strlit("CREATED_AT");
    reveal_strlit("CREATED_TIME");
    reveal_strlit("LAST_STATE_UPDATE");
    reveal_strlit("LAST_STATE_UPDATE_AT");
    reveal_strlit("LAST_STATE_UPDATE_TIME");
    reveal_strlit("LAST_UPDATE");
    reveal_strlit("SUBSYSTEM");
    reveal_strlit("SUBSYSTEM_NAME");
    let t = incident_field_aliases();
    let n = t[i].0;
    assert(n.len() > 0);
    let _ = (n[0], n[1], n[2]);
}

/// A text with no `-`, space or ASCII lower-case letter, and no whitespace
/// at either end, is its own enum text.
proof fn lemma_enum_text_of_clean(m: Seq<char>)
    requires
        forall|i: int| 0 <= i < m.len() ==> (#[trigger] m[i]) != '-' && m[i] != ' ' && !('a' <= m[i] && m[i] <= 'z'),
        m.len() > 0 ==> !crate::text::is_ws(m[0]) && !crate::text::is_ws(m.last()),
    ensures
        enum_text(m) == m,
{
    crate::text::lemma_trim_clean(m);
    assert(underscored(m) =~= m);
    assert(crate::text::ascii_upper(m) =~= m);
}

/// Normalizing an incident field twice is normalizing it once: a full name
/// such as `INCIDENTS_FIELDS_CREATED_TIME` passes through unchanged, and
/// every result carries the `INCIDENTS_FIELDS_` prefix.
pub proof fn lemma_normalize_incident_field_idempotent(input: Seq<char>)
    ensures
        starts_with(spec_normalize_incident_field(input), FIELD_PREFIX@),
        spec_normalize_incident_field(spec_normalize_incident_field(input)) == spec_normalize_incident_field(
            input,
        ),
{
    reveal_strlit("INCIDENTS_FIELDS_");
    reveal_strlit("CREATED");
    reveal_strlit("CREATED_AT");
    reveal_strlit("CREATED_TIME");
    reveal_strlit("CLOSED");
    reveal_strlit("CLOSED_AT");
    reveal_strlit("CLOSED_TIME");
    reveal_strlit("LAST_UPDATE");
    reveal_strlit("LAST_STATE_UPDATE");
    reveal_strlit("LAST_STATE_UPDATE_AT");
    reveal_strlit("LAST_STATE_UPDATE_TIME");
    reveal_strlit("APPLICATION");
    reveal_strlit("APPLICATION_NAME");
    reveal_strlit("SUBSYSTEM");
    reveal_strlit("SUBSYSTEM_NAME");
    let p = FIELD_PREFIX@;
    let n = enum_text(input);
    let a = field_alias(n);
    let m = spec_normalize_incident_field(input);
    lemma_enum_text_chars(input);
    assert(forall|i: int| 0 <= i < a.len() ==> (#[trigger] a[i]) != '-' && a[i] != ' ' && !('a' <= a[i]
        && a[i] <= 'z'));
    assert(a.len() > 0 ==> !crate::text::is_ws(a[0]) && !crate::text::is_ws(a.last()));
    if starts_with(a, p) {
        assert(m == a);
    } else {
        assert(m == p + a);
        assert(m.take(p.len() as int) =~= p);
        assert forall|i: int| 0 <= i < m.len() implies (#[trigger] m[i]) != '-' && m[i] != ' ' && !(
        'a' <= m[i] && m[i] <= 'z') by {
            if i < p.len() {
                assert(m[i] == p[i]);
            } else {
                assert(m[i] == a[i - p.len()]);
            }
        }
        assert(m[0] == p[0]);
        if a.len() > 0 {
            assert(m.last() == a.last());
        } else {
            assert(m.last() == p.last());
        }
    }
    assert(starts_with(m, p));
    assert(m.subrange(0, p.len() as int) == p);
    assert(m.subrange(0, p.len() as int)[0] == m[0]);
    assert(m[0] == 'I');
    lemma_enum_text_of_clean(m);
    assert(field_alias(m) == m);
}

// ── The list body as JSON ────────────────────────────────────────────────────

/// Entries of a JSON object.
pub type Entries = Seq<(Seq<char>, serde_json::Value)>;

/// The entry of a list of strings, when there is one.
pub open spec fn strings_entry(key: Seq<char>, values: Option<Vec<String>>) -> Entries {
    match values {
        Some(xs) => seq![(key, json_array(json_strings(xs@)))],
        None => seq![],
    }
}

/// The entry of a string, when there is one.
pub open spec fn string_entry(key: Seq<char>, value: Option<String>) -> Entries {
    match value {
        Some(x) => seq![(key, json_string(x@))],
        None => seq![],
    }
}

/// The entry of a JSON value, when there is one.
pub open spec fn value_entry(key: Seq<char>, value: Option<serde_json::Value>) -> Entries {
    match value {
        Some(v) => seq![(key, v)],
        None => seq![],
    }
}

/// The contextual labels: each key with `{"contextualLabelValues": [...]}`.
pub open spec fn labels_json(labels: Seq<(String, Vec<String>)>) -> serde_json::Value {
    json_object_of(
        labels.map_values(
            |l: (String, Vec<String>)|
                (l.0@, json_object_of(seq![("contextualLabelValues"@, json_array(json_strings(l.1@)))])),
        ),
    )
}

/// The search query: the text, then the field or the label it looks at.
pub open spec fn search_query_json(q: SearchQuery) -> serde_json::Value {
    json_object_of(
        seq![("query"@, json_string(q.query@))] + string_entry("incidentField"@, q.incident_field)
            + string_entry("contextualLabel"@, q.contextual_label),
    )
}

/// A time range: `startTime` and `endTime`, each when given.
pub open spec fn time_range_json(t: TimeRange) -> serde_json::Value {
    json_object_of(string_entry("startTime"@, t.start_time) + string_entry("endTime"@, t.end_time))
}

/// The filter, its parts in the order the API documents them, each absent
/// part left out.
pub open spec fn filter_json(f: IncidentsFilter) -> serde_json::Value {
    json_object_of(
        strings_entry("status"@, f.status) + strings_entry("severity"@, f.severity)
            + strings_entry("state"@, f.state) + strings_entry("assignee"@, f.assignee)
            + strings_entry("applicationName"@, f.application_name) + strings_entry(
            "subsystemName"@,
            f.subsystem_name,
        ) + value_entry(
            "contextualLabels"@,
            match f.contextual_labels {
                Some(ls) => Some(labels_json(ls@)),
                None => None,
            },
        ) + value_entry(
            "isMuted"@,
            match f.is_muted {
                Some(b) => Some(json_bool(b)),
                None => None,
            },
        ) + value_entry(
            "searchQuery"@,
            match f.search_query {
                Some(q) => Some(search_query_json(q)),
                None => None,
            },
        ) + value_entry(
            "createdAtRange"@,
            match f.created_at_range {
                Some(t) => Some(time_range_json(t)),
                None => None,
            },
        ) + value_entry(
            "incidentDurationRange"@,
            match f.incident_duration_range {
                Some(t) => Some(time_range_json(t)),
                None => None,
            },
        ),
    )
}

/// The body of a list request as JSON: the filter, the pagination, then
/// the order when one is asked for.
pub open spec fn list_body_json(b: ListIncidentsBody) -> serde_json::Value {
    json_object_of(
        seq![
            ("filter"@, filter_json(b.filter)),
            (
                "pagination"@,
                json_object_of(
                    seq![("pageSize"@, json_count(b.page_size as nat))] + string_entry(
                        "pageToken"@,
                        b.page_token,
                    ),
                ),
            ),
        ] + value_entry(
            "orderBys"@,
            match b.order_bys {
                Some(o) => Some(
                    json_array(
                        seq![
                            json_object_of(
                                seq![
                                    ("incidentField"@, json_string(o.incident_field@)),
                                    ("direction"@, json_string(o.direction@)),
                                ],
                            ),
                        ],
                    ),
                ),
                None => None,
            },
        ),
    )
}

fn push_strings(entries: &mut Vec<(String, serde_json::Value)>, key: &str, values: &Option<Vec<String>>)
    ensures
        entry_views(final(entries)@) == entry_views(old(entries)@) + strings_entry(key@, *values),
{
    let ghost before = entry_views(entries@);
    if let Some(xs) = values {
        entries.push((owned(key), strings_value(xs)));
    }
    assert(entry_views(entries@) =~= before + strings_entry(key@, *values));
}

fn push_string(entries: &mut Vec<(String, serde_json::Value)>, key: &str, value: &Option<String>)
    ensures
        entry_views(final(entries)@) == entry_views(old(entries)@) + string_entry(key@, *value),
{
    let ghost before = entry_views(entries@);
    if let Some(x) = value {
        entries.push((owned(key), string_value(x.as_str())));
    }
    assert(entry_views(entries@) =~= before + string_entry(key@, *value));
}

fn push_value(entries: &mut Vec<(String, serde_json::Value)>, key: &str, value: Option<serde_json::Value>)
    ensures
        entry_views(final(entries)@) == entry_views(old(entries)@) + value_entry(key@, value),
{
    let ghost before = entry_views(entries@);
    if let Some(v) = value {
        entries.push((owned(key), v));
    }
    assert(entry_views(entries@) =~= before + value_entry(key@, value));
}

fn labels_to_json(labels: &Vec<(String, Vec<String>)>) -> (r: serde_json::Value)
    ensures
        r == labels_json(labels@),
{
    let mut entries: Vec<(String, serde_json::Value)> = Vec::new();
    let n = labels.len();
    for i in 0..n
        invariant
            n == labels@.len(),
            entry_views(entries@) == labels@.take(i as int).map_values(
                |l: (String, Vec<String>)|
                    (l.0@, json_object_of(seq![("contextualLabelValues"@, json_array(json_strings(l.1@)))])),
            ),
    {
        let inner = vec![(owned("contextualLabelValues"), strings_value(&labels[i].1))];
        assert(entry_views(inner@) =~= seq![("contextualLabelValues"@, json_array(json_strings(labels@[i as int].1@)))]);
        let e = (owned(labels[i].0.as_str()), object_of(inner));
        let ghost before = entries@;
        entries.push(e);
        assert(entry_views(entries@) =~= entry_views(before).push((e.0@, e.1)));
        assert(labels@.take(i + 1) =~= labels@.take(i as int).push(labels@[i as int]));
        assert(entry_views(entries@) =~= labels@.take(i + 1).map_values(
            |l: (String, Vec<String>)|
                (l.0@, json_object_of(seq![("contextualLabelValues"@, json_array(json_strings(l.1@)))])),
        ));
    }
    assert(labels@.take(n as int) =~= labels@);
    object_of(entries)
}

fn search_query_to_json(q: &SearchQuery) -> (r: serde_json::Value)
    ensures
        r == search_query_json(*q),
{
    let mut entries = vec![(owned("query"), string_value(q.query.as_str()))];
    assert(entry_views(entries@) =~= seq![("query"@, json_string(q.query@))]);
    push_string(&mut entries, "incidentField", &q.incident_field);
    push_string(&mut entries, "contextualLabel", &q.contextual_label);
    object_of(entries)
}

fn time_range_to_json(t: &TimeRange) -> (r: serde_json::Value)
    ensures
        r == time_range_json(*t),
{
    let mut entries: Vec<(String, serde_json::Value)> = Vec::new();
    assert(entry_views(entries@) =~= Seq::<(Seq<char>, serde_json::Value)>::empty());
    push_string(&mut entries, "startTime", &t.start_time);
    push_string(&mut entries, "endTime", &t.end_time);
    assert(entry_views(entries@) =~= string_entry("startTime"@, t.start_time) + string_entry(
        "endTime"@,
        t.end_time,
    ));
    object_of(entries)
}

/// The filter of a list request as JSON.
pub fn filter_to_json(f: &IncidentsFilter) -> (r: serde_json::Value)
    ensures
        r == filter_json(*f),
{
    let mut entries: Vec<(String, serde_json::Value)> = Vec::new();
    let ghost e0 = entry_views(entries@);
    assert(e0 =~= Seq::<(Seq<char>, serde_json::Value)>::empty());
    push_strings(&mut entries, "status", &f.status);
    push_strings(&mut entries, "severity", &f.severity);
    push_strings(&mut entries, "state", &f.state);
    push_strings(&mut entries, "assignee", &f.assignee);
    push_strings(&mut entries, "applicationName", &f.application_name);
    push_strings(&mut entries, "subsystemName", &f.subsystem_name);
    let labels = match &f.contextual_labels {
        Some(ls) => Some(labels_to_json(ls)),
        None => None,
    };
    push_value(&mut entries, "contextualLabels", labels);
    let muted = match f.is_muted {
        Some(b) => Some(bool_value(b)),
        None => None,
    };
    push_value(&mut entries, "isMuted", muted);
    let search = match &f.search_query {
        Some(q) => Some(search_query_to_json(q)),
        None => None,
    };
    push_value(&mut entries, "searchQuery", search);
    let created = match &f.created_at_range {
        Some(t) => Some(time_range_to_json(t)),
        None => None,
    };
    push_value(&mut entries, "createdAtRange", created);
    let duration = match &f.incident_duration_range {
        Some(t) => Some(time_range_to_json(t)),
        None => None,
    };
    push_value(&mut entries, "incidentDurationRange", duration);
    assert(entry_views(entries@) =~= e0 + strings_entry("status"@, f.status) + strings_entry(
        "severity"@,
        f.severity,
    ) + strings_entry("state"@, f.state) + strings_entry("assignee"@, f.assignee) + strings_entry(
        "applicationName"@,
        f.application_name,
    ) + strings_entry("subsystemName"@, f.subsystem_name) + value_entry(
        "contextualLabels"@,
        match f.contextual_labels {
            Some(ls) => Some(labels_json(ls@)),
            None => None,
        },
    ) + value_entry(
        "isMuted"@,
        match f.is_muted {
            Some(b) => Some(json_bool(b)),
            None => None,
        },
    ) + value_entry(
        "searchQuery"@,
        match f.search_query {
            Some(q) => Some(search_query_json(q)),
            None => None,
        },
    ) + value_entry(
        "createdAtRange"@,
        match f.created_at_range {
            Some(t) => Some(time_range_json(t)),
            None => None,
        },
    ) + value_entry(
        "incidentDurationRange"@,
        match f.incident_duration_range {
            Some(t) => Some(time_range_json(t)),
            None => None,
        },
    ));
    object_of(entries)
}

/// The body of a list request as the JSON the API takes.
pub fn list_body_to_json(body: &ListIncidentsBody) -> (r: serde_json::Value)
    ensures
        r == list_body_json(*body),
{
    let mut pagination = vec![(owned("pageSize"), count_value(body.page_size as usize))];
    assert(entry_views(pagination@) =~= seq![("pageSize"@, json_count(body.page_size as nat))]);
    push_string(&mut pagination, "pageToken", &body.page_token);
    let ghost pv = entry_views(pagination@);
    let mut entries = vec![
        (owned("filter"), filter_to_json(&body.filter)),
        (owned("pagination"), object_of(pagination)),
    ];
    let ghost head = entry_views(entries@);
    assert(head =~= seq![("filter"@, filter_json(body.filter)), ("pagination"@, json_object_of(pv))]);
    let order = match &body.order_bys {
        Some(o) => {
            let inner = vec![
                (owned("incidentField"), string_value(o.incident_field.as_str())),
                (owned("direction"), string_value(o.direction.as_str())),
            ];
            assert(entry_views(inner@) =~= seq![
                ("incidentField"@, json_string(o.incident_field@)),
                ("direction"@, json_string(o.direction@)),
            ]);
            let one = object_of(inner);
            let items = vec![one];
            assert(items@ =~= seq![one]);
            Some(array_of(items))
        },
        None => None,
    };
    push_value(&mut entries, "orderBys", order);
    assert(entry_views(entries@) =~= head + value_entry(
        "orderBys"@,
        match body.order_bys {
            Some(o) => Some(
                json_array(
                    seq![
                        json_object_of(
                            seq![
                                ("incidentField"@, json_string(o.incident_field@)),
                                ("direction"@, json_string(o.direction@)),
                            ],
                        ),
                    ],
                ),
            ),
            None => None,
        },
    ));
    object_of(entries)
}

// ── Events and rows across profiles ──────────────────────────────────────────

/// One event of an incident.
#[derive(Debug)]
pub struct IncidentEvent {
    pub id: Option<String>,
    pub incident_id: Option<String>,
    pub event_type: Option<String>,
    pub created_at: Option<String>,
}

/// The JSON row of an event.
pub open spec fn event_json(e: IncidentEvent) -> serde_json::Value {
    json_object_of(
        seq![
            ("id"@, crate::json::opt_field(e.id)),
            ("incident_id"@, crate::json::opt_field(e.incident_id)),
            ("type"@, crate::json::opt_field(e.event_type)),
            ("created_at"@, crate::json::opt_field(e.created_at)),
        ],
    )
}

/// The JSON row of an event, tagged with its profile when asked.
pub fn event_to_json(event: &IncidentEvent, include_profile: bool, profile: &str) -> (r: serde_json::Value)
    ensures
        r == crate::json::profile_tagged(event_json(*event), include_profile, profile@),
{
    let entries = vec![
        (owned("id"), crate::json::opt_field_value(&event.id)),
        (owned("incident_id"), crate::json::opt_field_value(&event.incident_id)),
        (owned("type"), crate::json::opt_field_value(&event.event_type)),
        (owned("created_at"), crate::json::opt_field_value(&event.created_at)),
    ];
    assert(entry_views(entries@) =~= seq![
        ("id"@, crate::json::opt_field(event.id)),
        ("incident_id"@, crate::json::opt_field(event.incident_id)),
        ("type"@, crate::json::opt_field(event.event_type)),
        ("created_at"@, crate::json::opt_field(event.created_at)),
    ]);
    crate::json::tag_profile(object_of(entries), include_profile, profile)
}

/// A text or the empty text.
pub open spec fn or_empty(s: Option<String>) -> Seq<char> {
    match s {
        Some(x) => x@,
        None => seq![],
    }
}

fn text_or_empty(s: &Option<String>) -> (r: String)
    ensures
        r@ == or_empty(*s),
{
    match s {
        Some(x) => owned(x.as_str()),
        None => String::new(),
    }
}

/// The table record of an event: profile, event id, incident id, type and
/// creation time, each missing one empty.
pub fn event_row(profile: &str, event: &IncidentEvent) -> (r: Vec<String>)
    ensures
        views(r@) == seq![
            profile@,
            or_empty(event.id),
            or_empty(event.incident_id),
            or_empty(event.event_type),
            or_empty(event.created_at),
        ],
{
    let r = vec![
        owned(profile),
        text_or_empty(&event.id),
        text_or_empty(&event.incident_id),
        text_or_empty(&event.event_type),
        text_or_empty(&event.created_at),
    ];
    assert(views(r@) =~= seq![
        profile@,
        or_empty(event.id),
        or_empty(event.incident_id),
        or_empty(event.event_type),
        or_empty(event.created_at),
    ]);
    r
}

/// The rows of several profiles, merged.
pub struct MergedRows {
    /// The rows of the profiles that answered, in profile order, each
    /// tagged with its profile when profiles are shown.
    pub rows: Vec<serde_json::Value>,
    /// One line for each profile that failed.
    pub errors: Vec<String>,
}

/// The merged rows of `answers`.
pub open spec fn merged_rows(answers: Seq<(String, Result<Vec<serde_json::Value>, String>)>, tagged: bool) -> Seq<
    serde_json::Value,
>
    decreases answers.len(),
{
    if answers.len() == 0 {
        seq![]
    } else {
        let (profile, answer) = answers.last();
        merged_rows(answers.drop_last(), tagged) + match answer {
            Ok(rows) => crate::logs::tagged_rows(rows@, profile@, tagged),
            Err(_) => seq![],
        }
    }
}

/// The error lines of the profiles of `answers` that failed.
pub open spec fn merged_errors(answers: Seq<(String, Result<Vec<serde_json::Value>, String>)>) -> Seq<
    Seq<char>,
>
    decreases answers.len(),
{
    if answers.len() == 0 {
        seq![]
    } else {
        let (profile, answer) = answers.last();
        merged_errors(answers.drop_last()) + match answer {
            Ok(_) => seq![],
            Err(e) => seq![crate::logs::error_line(profile@, e@)],
        }
    }
}

/// Merges the rows several profiles answered, in their order, tagging
/// each with its profile when `include_profile`; a profile that failed
/// gives an error line instead.
pub fn merge_rows(per_profile: Vec<(String, Result<Vec<serde_json::Value>, String>)>, include_profile: bool) -> (m: MergedRows)
    ensures
        m.rows@ == merged_rows(per_profile@, include_profile),
        views(m.errors@) == merged_errors(per_profile@),
{
    let ghost all = per_profile@;
    let n = per_profile.len();
    let mut rest = per_profile;
    let mut rows: Vec<serde_json::Value> = Vec::new();
    let mut errors: Vec<String> = Vec::new();
    let mut k: usize = 0;
    while k < n
        invariant
            n == all.len(),
            k <= n,
            rest@ == all.subrange(k as int, n as int),
            rows@ == merged_rows(all.subrange(0, k as int), include_profile),
            views(errors@) == merged_errors(all.subrange(0, k as int)),
        decreases n - k,
    {
        let (profile, answer) = rest.remove(0);
        proof {
            let pre = all.subrange(0, k + 1);
            assert(pre.drop_last() =~= all.subrange(0, k as int));
            assert(pre.last() == all[k as int]);
            assert(rest@ =~= all.subrange(k + 1, n as int));
        }
        match answer {
            Ok(raw) => {
                let mut tagged = if include_profile {
                    crate::logs::tag_rows(raw, profile.as_str())
                } else {
                    raw
                };
                rows.append(&mut tagged);
            },
            Err(e) => {
                let mut line = owned("error from profile '");
                crate::text::push_str(&mut line, profile.as_str());
                crate::text::push_str(&mut line, "': ");
                crate::text::push_str(&mut line, e.as_str());
                proof {
                    crate::text::lemma_views_push(errors@, line);
                }
                errors.push(line);
            },
        }
        k = k + 1;
    }
    assert(all.subrange(0, n as int) =~= all);
    MergedRows { rows, errors }
}


// ── Incidents as listed ──────────────────────────────────────────────────────

/// An incident as `incidents list` shows it. The severity, state and
/// assignee texts are the display texts of the API's answer.
#[derive(Debug)]
pub struct Incident {
    pub id: Option<String>,
    pub name: Option<String>,
    pub severity: String,
    pub state: String,
    pub created_at: Option<String>,
    pub closed_at: Option<String>,
    pub is_muted: Option<bool>,
    pub assigned_to: String,
    pub description: Option<String>,
}

/// The JSON row of an incident, its keys in this order.
pub open spec fn incident_json(i: Incident) -> serde_json::Value {
    json_object_of(
        seq![
            ("id"@, crate::json::opt_field(i.id)),
            ("name"@, crate::json::opt_field(i.name)),
            ("severity"@, crate::json::json_string(i.severity@)),
            ("state"@, crate::json::json_string(i.state@)),
            ("created_at"@, crate::json::opt_field(i.created_at)),
            ("closed_at"@, crate::json::opt_field(i.closed_at)),
            ("is_muted"@, crate::json::json_opt_bool(i.is_muted)),
            ("assigned_to"@, crate::json::json_string(i.assigned_to@)),
        ],
    )
}

/// The JSON row of an incident, tagged with its profile when asked.
pub fn incident_to_json(incident: &Incident, include_profile: bool, profile: &str) -> (r: serde_json::Value)
    ensures
        r == crate::json::profile_tagged(incident_json(*incident), include_profile, profile@),
{
    let entries = vec![
        (owned("id"), crate::json::opt_field_value(&incident.id)),
        (owned("name"), crate::json::opt_field_value(&incident.name)),
        (owned("severity"), crate::json::string_value(incident.severity.as_str())),
        (owned("state"), crate::json::string_value(incident.state.as_str())),
        (owned("created_at"), crate::json::opt_field_value(&incident.created_at)),
        (owned("closed_at"), crate::json::opt_field_value(&incident.closed_at)),
        (owned("is_muted"), crate::json::opt_bool_value(incident.is_muted)),
        (owned("assigned_to"), crate::json::string_value(incident.assigned_to.as_str())),
    ];
    assert(crate::json::entry_views(entries@) =~= seq![
        ("id"@, crate::json::opt_field(incident.id)),
        ("name"@, crate::json::opt_field(incident.name)),
        ("severity"@, crate::json::json_string(incident.severity@)),
        ("state"@, crate::json::json_string(incident.state@)),
        ("created_at"@, crate::json::opt_field(incident.created_at)),
        ("closed_at"@, crate::json::opt_field(incident.closed_at)),
        ("is_muted"@, crate::json::json_opt_bool(incident.is_muted)),
        ("assigned_to"@, crate::json::json_string(incident.assigned_to@)),
    ]);
    crate::json::tag_profile(crate::json::object_of(entries), include_profile, profile)
}

/// The cells of an incident's table row: profile, id, name, severity,
/// state, creation time and assignees, absent texts empty.
pub open spec fn incident_cells(profile: Seq<char>, i: Incident) -> Seq<Seq<char>> {
    seq![profile, or_empty(i.id), or_empty(i.name), i.severity@, i.state@, or_empty(i.created_at), i.assigned_to@]
}

/// The table row of an incident.
pub fn incident_row(profile: &str, incident: &Incident) -> (r: Vec<String>)
    ensures
        views(r@) == incident_cells(profile@, *incident),
{
    let r = vec![
        owned(profile),
        text_or_empty(&incident.id),
        text_or_empty(&incident.name),
        owned(incident.severity.as_str()),
        owned(incident.state.as_str()),
        text_or_empty(&incident.created_at),
        owned(incident.assigned_to.as_str()),
    ];
    assert(views(r@) =~= incident_cells(profile@, *incident));
    r
}

/// The incidents of every profile that answered, merged.
#[derive(Debug)]
pub struct MergedIncidents {
    /// The JSON rows, in profile order, each tagged with its profile when
    /// profiles are shown.
    pub rows: Vec<serde_json::Value>,
    /// The incidents themselves, behind their profiles, in the same order.
    pub items: Vec<(String, Incident)>,
    /// One line for each profile that failed.
    pub errors: Vec<String>,
}

/// The JSON row of a gathered incident.
pub open spec fn gathered_row(item: (Seq<char>, Incident), include_profile: bool) -> serde_json::Value {
    crate::json::profile_tagged(incident_json(item.1), include_profile, item.0)
}

/// Merges the incidents that each profile listed, in profile order; refused
/// when there were profiles and every one of them failed.
pub fn merge_incident_pages(
    per_profile: Vec<(String, Result<Vec<Incident>, String>)>,
    include_profile: bool,
) -> (r: Result<MergedIncidents, IncidentsError>)
    ensures
        r is Err <==> (per_profile@.len() > 0 && crate::answers::failed_count(per_profile@)
            == per_profile@.len()),
        r matches Err(e) ==> (e matches IncidentsError::AllProfilesFailed { errors } && views(errors@)
            == crate::answers::gathered_errors(per_profile@)),
        r matches Ok(m) ==> {
            &&& m.items@.map_values(|p: (String, Incident)| crate::answers::item_view(p))
                == crate::answers::gathered_items(per_profile@)
            &&& views(m.errors@) == crate::answers::gathered_errors(per_profile@)
            &&& m.rows@ == crate::answers::gathered_items(per_profile@).map_values(
                |p: (Seq<char>, Incident)| gathered_row(p, include_profile),
            )
        },
{
    let failed = crate::answers::all_failed(&per_profile);
    let g = crate::answers::gather(per_profile);
    let ghost gi = g.items@.map_values(|p: (String, Incident)| crate::answers::item_view(p));
    if failed {
        return Err(IncidentsError::AllProfilesFailed { errors: g.errors });
    }
    let mut rows: Vec<serde_json::Value> = Vec::new();
    let n = g.items.len();
    for i in 0..n
        invariant
            n == g.items@.len(),
            gi == g.items@.map_values(|p: (String, Incident)| crate::answers::item_view(p)),
            rows@ == gi.take(i as int).map_values(
                |p: (Seq<char>, Incident)| gathered_row(p, include_profile),
            ),
    {
        let row = incident_to_json(&g.items[i].1, include_profile, g.items[i].0.as_str());
        proof {
            assert(gi[i as int] == crate::answers::item_view(g.items@[i as int]));
            assert(gi.take(i + 1) =~= gi.take(i as int).push(gi[i as int]));
        }
        rows.push(row);
        assert(rows@ =~= gi.take(i + 1).map_values(
            |p: (Seq<char>, Incident)| gathered_row(p, include_profile),
        ));
    }
    assert(gi.take(n as int) =~= gi);
    Ok(MergedIncidents { rows, items: g.items, errors: g.errors })
}


/// The detail lines of `incidents get`, each as label, the gap after it
/// (colon and padding), and value: name, id, severity, state, creation time
/// and assignees, absent texts as `-`, then the description when there is
/// a non-empty one.
pub open spec fn incident_details(i: Incident) -> Seq<(Seq<char>, Seq<char>, Seq<char>)> {
    seq![
        ("Name"@, ":      "@, crate::text::value_or_dash(field_view(i.name))),
        ("ID"@, ":        "@, crate::text::value_or_dash(field_view(i.id))),
        ("Severity"@, ":  "@, i.severity@),
        ("State"@, ":     "@, i.state@),
        ("Created"@, ":   "@, crate::text::value_or_dash(field_view(i.created_at))),
        ("Assigned"@, ":  "@, i.assigned_to@),
    ] + match i.description {
        Some(d) => if d@.len() > 0 {
            seq![("Description"@, ": "@, d@)]
        } else {
            seq![]
        },
        None => seq![],
    }
}

/// The detail lines of an incident.
pub fn incident_detail_lines(incident: &Incident) -> (r: Vec<(String, String, String)>)
    ensures
        r@.map_values(|l: (String, String, String)| (l.0@, l.1@, l.2@)) == incident_details(*incident),
{
    let mut r = vec![
        (owned("Name"), owned(":      "), owned(crate::text::field_or_dash(&incident.name))),
        (owned("ID"), owned(":        "), owned(crate::text::field_or_dash(&incident.id))),
        (owned("Severity"), owned(":  "), owned(incident.severity.as_str())),
        (owned("State"), owned(":     "), owned(incident.state.as_str())),
        (owned("Created"), owned(":   "), owned(crate::text::field_or_dash(&incident.created_at))),
        (owned("Assigned"), owned(":  "), owned(incident.assigned_to.as_str())),
    ];
    if let Some(d) = &incident.description {
        if d.as_str().unicode_len() > 0 {
            r.push((owned("Description"), owned(": "), owned(d.as_str())));
        }
    }
    assert(r@.map_values(|l: (String, String, String)| (l.0@, l.1@, l.2@)) =~= incident_details(*incident));
    r
}

} // verus!
