//! The infrastructure resources API: the shapes of its answers, the filter
//! tree sent with `list`, and the requests each endpoint takes.

use vstd::prelude::*;
use crate::request::{encode_path_segment, spec_percent_encode, ApiRequest, Method};
use crate::text::{decimal, decimal_i64};

verus! {

/// Path of the resources API.
pub const BASE_PATH: &'static str = "/mgmt/api/infrastructure/resources/v1";

// ── Answers ──────────────────────────────────────────────────────────────────

#[derive(Debug)]
pub struct GetAvailableResourceTypesResponse {
    pub resource_types: Vec<ResourceTypeMapping>,
}

/// The API also returns `resourceType`, which is deliberately not surfaced.
#[derive(Debug)]
pub struct ResourceTypeMapping {
    pub category_type: Option<CategoryType>,
    pub label: Option<String>,
}

#[derive(Debug)]
pub struct CategoryType {
    pub category: Option<String>,
    pub resource_type: Option<String>,
}

#[derive(Debug)]
pub struct GetFiltersResponse {
    pub filters: Vec<FilterDescriptor>,
}

#[derive(Debug)]
pub struct FilterDescriptor {
    pub name: Option<String>,
    pub kind: Option<String>,
    pub wildcard: bool,
    pub values: Vec<String>,
    pub types: Vec<CategoryType>,
}

/// A resource's raw document at a version; `raw_data` is `None` when the
/// document is cleanly missing.
#[derive(Debug)]
pub struct GetRawDataResponse {
    pub raw_data: Option<serde_json::Value>,
    pub version_timestamp: Option<String>,
}

#[derive(Debug)]
pub struct GetResourcesResponse {
    pub resources: Vec<ResourceData>,
    pub total_count: i64,
}

/// One resource. `columns` holds the column name/value pairs in ascending
/// name order, each name once (the order in which the API's map is read);
/// `well_formed` states it, and the readers of the columns require it.
#[derive(Debug)]
pub struct ResourceData {
    pub resource_id: Option<String>,
    pub name: Option<String>,
    pub columns: Vec<(String, String)>,
    pub category: Option<String>,
    pub resource_type: Option<String>,
    pub health_policies: Vec<HealthPolicyData>,
}

/// Column names in strictly ascending order: sorted, and each once.
pub open spec fn columns_in_order(cols: Seq<(String, String)>) -> bool {
    forall|i: int, j: int|
        0 <= i && j == i + 1 && j < cols.len() ==> crate::text::lex_lt(
            (#[trigger] cols[i]).0@,
            (#[trigger] cols[j]).0@,
        )
}

impl ResourceData {
    /// The columns come as a map gives them: by ascending name, each once.
    pub open spec fn well_formed(&self) -> bool {
        columns_in_order(self.columns@)
    }
}

/// Whether column names are strictly ascending, as the API's map gives
/// them.
pub fn columns_ordered(cols: &[(String, String)]) -> (r: bool)
    ensures
        r == columns_in_order(cols@),
{
    let n = cols.len();
    let mut i: usize = 1;
    while i < n
        invariant
            n == cols@.len(),
            1 <= i,
            forall|a: int, b: int|
                0 <= a && b == a + 1 && b < i && b < n ==> crate::text::lex_lt(
                    (#[trigger] cols@[a]).0@,
                    (#[trigger] cols@[b]).0@,
                ),
        decreases n - i,
    {
        if !crate::text::str_lt(cols[i - 1].0.as_str(), cols[i].0.as_str()) {
            assert(!crate::text::lex_lt(cols@[i - 1].0@, cols@[i as int].0@));
            return false;
        }
        i = i + 1;
    }
    true
}

#[derive(Debug)]
pub struct HealthPolicyData {
    pub id: Option<String>,
    pub status: Option<String>,
    pub name: Option<String>,
}

#[derive(Debug)]
pub struct ResourceHealthHistory {
    pub resource_id: Option<String>,
    pub health_history: Vec<HealthHistoryEntry>,
}

#[derive(Debug)]
pub struct HealthHistoryEntry {
    /// RFC 3339 timestamp of the daily sample.
    pub timestamp: Option<String>,
    /// `Healthy`, `Critical`, or `Unmonitored`.
    pub status: Option<String>,
}

#[derive(Debug)]
pub struct SummarizeConfigChangesResponse {
    pub results: Vec<ResourceChangeData>,
}

#[derive(Debug)]
pub struct ResourceChangeData {
    pub resource_id: Option<String>,
    pub source: Option<String>,
    pub outcome: Option<String>,
    pub last_change: Option<String>,
    pub change_count: Option<u32>,
}

#[derive(Debug)]
pub struct DiffConfigChangesResponse {
    pub results: Vec<ResourceDiffData>,
}

/// What changed on one resource between two points in time.
#[derive(Debug)]
pub struct ResourceDiffData {
    pub resource_id: Option<String>,
    pub source: Option<String>,
    pub outcome: Option<String>,
    pub compared_from: Option<String>,
    pub compared_to: Option<String>,
    pub changes: Vec<FieldChangeData>,
}

/// One changed field, with both sides as raw JSON so that numbers and
/// booleans keep their type.
#[derive(Debug)]
pub struct FieldChangeData {
    pub field: Option<String>,
    pub before: serde_json::Value,
    pub after: serde_json::Value,
}

// ── Filter tree ──────────────────────────────────────────────────────────────

/// Parameters of a `list` request.
pub struct ListResourcesParams<'p> {
    pub category: Option<&'p str>,
    pub resource_type: Option<&'p str>,
    pub filter: Option<&'p Filter>,
    pub start_row: Option<i64>,
    pub end_row: Option<i64>,
}

/// A node of the attribute filter: one attribute matching any of its
/// values, or a boolean combination of nodes.
#[derive(Debug, PartialEq, Eq)]
pub enum Filter {
    Match(FieldMatch),
    Bool(BoolFilter),
}

#[derive(Debug, PartialEq, Eq)]
pub struct FieldMatch {
    pub field: String,
    pub values: Vec<String>,
}

#[derive(Debug, PartialEq, Eq)]
pub struct BoolFilter {
    pub op: Op,
    pub operands: Vec<Filter>,
}

#[derive(Debug, PartialEq, Eq, Clone, Copy)]
pub enum Op {
    And,
    Or,
}

/// Parameters shared by the two configuration-change endpoints.
pub struct ConfigChangesParams<'p> {
    pub from: &'p str,
    pub to: &'p str,
    pub resource_ids: &'p [&'p str],
}

/// Percent-encodes a resource id for use as a URL path segment, so ids can
/// be passed exactly as `list` returns them.
pub fn encode_resource_id(resource_id: &str) -> (r: String)
    ensures
        r@ == spec_percent_encode(resource_id@),
{
    encode_path_segment(resource_id)
}

/// Handle on the resources API of one client.
pub struct InfraApi<'a, C> {
    client: &'a C,
}

impl<'a, C> InfraApi<'a, C> {
    pub fn new(client: &'a C) -> (r: Self)
        ensures
            r.client() == client,
    {
        Self { client }
    }

    pub closed spec fn client(&self) -> &'a C {
        self.client
    }

    /// The client requests are sent with.
    pub fn client_ref(&self) -> (r: &'a C)
        ensures
            r == self.client(),
    {
        self.client
    }

    /// `GET {BASE_PATH}/types`.
    pub fn available_types_request(&self) -> (r: ApiRequest)
        ensures
            r.method == Method::Get,
            r.path@ == BASE_PATH@ + "/types"@,
            r.query@.len() == 0,
    {
        ApiRequest::new(Method::Get, BASE_PATH, "/types")
    }

    /// `GET {BASE_PATH}/filters`, with `category` and `type` when given.
    pub fn filters_request(&self, category: Option<&str>, resource_type: Option<&str>) -> (r:
        ApiRequest)
        ensures
            r.method == Method::Get,
            r.path@ == BASE_PATH@ + "/filters"@,
            r.query@.len() == (if category is Some { 1int } else { 0 }) + (if resource_type is Some {
                1int
            } else {
                0
            }),
            category matches Some(c) ==> r.query@[0].0@ == "category"@ && r.query@[0].1@ == c@,
            resource_type matches Some(t) ==> r.query@.last().0@ == "type"@ && r.query@.last().1@
                == t@,
    {
        let mut r = ApiRequest::new(Method::Get, BASE_PATH, "/filters");
        if let Some(c) = category {
            r.push_query("category", c);
        }
        if let Some(t) = resource_type {
            r.push_query("type", t);
        }
        r
    }

    /// `POST {BASE_PATH}`, with `startRow` and `endRow` when given; the body
    /// carries the category, type and filter.
    pub fn list_request(&self, params: &ListResourcesParams) -> (r: ApiRequest)
        ensures
            r.method == Method::Post,
            r.path@ == BASE_PATH@,
            r.query@.len() == (if params.start_row is Some { 1int } else { 0 }) + (
            if params.end_row is Some {
                1int
            } else {
                0
            }),
            params.start_row matches Some(s) ==> r.query@[0].0@ == "startRow"@ && r.query@[0].1@
                == decimal(s as int),
            params.end_row matches Some(e) ==> r.query@.last().0@ == "endRow"@ && r.query@.last().1@
                == decimal(e as int),
    {
        proof {
            reveal_strlit("");
        }
        let mut r = ApiRequest::new(Method::Post, BASE_PATH, "");
        assert(r.path@ =~= BASE_PATH@);
        if let Some(s) = params.start_row {
            r.push_query("startRow", decimal_i64(s).as_str());
        }
        let ghost q = r.query@;
        if let Some(e) = params.end_row {
            r.push_query("endRow", decimal_i64(e).as_str());
        }
        proof {
            if params.start_row is Some {
                assert(r.query@[0] == q[0]);
            }
        }
        r
    }

    /// `POST {BASE_PATH}/health-history`; the body carries the ids.
    pub fn health_history_request(&self) -> (r: ApiRequest)
        ensures
            r.method == Method::Post,
            r.path@ == BASE_PATH@ + "/health-history"@,
            r.query@.len() == 0,
    {
        ApiRequest::new(Method::Post, BASE_PATH, "/health-history")
    }

    /// `POST {BASE_PATH}/configuration/summary`; the body carries the window
    /// and the ids.
    pub fn config_changes_request(&self) -> (r: ApiRequest)
        ensures
            r.method == Method::Post,
            r.path@ == BASE_PATH@ + "/configuration/summary"@,
            r.query@.len() == 0,
    {
        ApiRequest::new(Method::Post, BASE_PATH, "/configuration/summary")
    }

    /// `POST {BASE_PATH}/configuration/diff`; the body carries the window and
    /// the ids.
    pub fn config_diff_request(&self) -> (r: ApiRequest)
        ensures
            r.method == Method::Post,
            r.path@ == BASE_PATH@ + "/configuration/diff"@,
            r.query@.len() == 0,
    {
        ApiRequest::new(Method::Post, BASE_PATH, "/configuration/diff")
    }

    /// `GET {BASE_PATH}/{id}/raw-data`, the id percent-encoded as a path
    /// segment, with `timestamp` when given.
    pub fn raw_data_request(&self, resource_id: &str, timestamp: Option<&str>) -> (r: ApiRequest)
        ensures
            r.method == Method::Get,
            r.path@ == BASE_PATH@ + "/"@ + spec_percent_encode(resource_id@) + "/raw-data"@,
            timestamp is None ==> r.query@.len() == 0,
            timestamp matches Some(t) ==> r.query@.len() == 1 && r.query@[0].0@ == "timestamp"@
                && r.query@[0].1@ == t@,
    {
        let encoded = encode_resource_id(resource_id);
        let mut path = crate::text::owned(BASE_PATH);
        path.append("/");
        path.append(encoded.as_str());
        path.append("/raw-data");
        let mut r = ApiRequest { method: Method::Get, path, query: Vec::new() };
        if let Some(t) = timestamp {
            r.push_query("timestamp", t);
        }
        r
    }
}

} // verus!
