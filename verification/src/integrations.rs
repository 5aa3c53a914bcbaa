//! `cx integrations`: integrations and the requests of their APIs.

use vstd::prelude::*;
use crate::request::{ApiRequest, Method};
use crate::json::{
    array_at_pointer, copy_value, entry_views, first_key, get_value, json_array_at_pointer,
    json_first_key, json_get, json_object_of, json_str_at, json_str_at_pointer, json_string,
    json_with_field, json_without, object_of, str_at, str_at_pointer, string_value, with_field,
    without_key,
};
use crate::text::owned;
use crate::text::{field_or_dash, field_view, text_or_dash, value_or_dash};

verus! {

/// Path of the integrations API.
pub const INTEGRATIONS_BASE: &'static str = "/mgmt/openapi/5/integrations/integrations/v1";

/// Path of the integrations metadata API.
pub const INTEGRATIONS_METADATA_BASE: &'static str = "/mgmt/openapi/5/integrations/metadata/v1";

/// One integration. `integration_type` is a oneof object whose single key is
/// the type (e.g. `cloudformation`, `arm`, `managed`, `untracked`).
#[derive(Debug)]
pub struct Integration {
    pub id: Option<String>,
    pub name: Option<String>,
    pub description: Option<String>,
    pub tags: Vec<String>,
    pub versions: Vec<String>,
    pub integration_type: Option<serde_json::Value>,
}

impl Integration {
    /// The name, or `-` when absent.
    pub fn display_name(&self) -> (r: &str)
        ensures
            r@ == value_or_dash(field_view(self.name)),
    {
        field_or_dash(&self.name)
    }

    /// The first key of the `integrationType` object, or `-` when there is
    /// none.
    pub fn display_type(&self) -> (r: &str)
        ensures
            r@ == value_or_dash(
                match self.integration_type {
                    Some(v) => json_first_key(v),
                    None => None,
                },
            ),
    {
        match &self.integration_type {
            Some(v) => text_or_dash(first_key(v)),
            None => "-",
        }
    }

    /// The last version, or `-` when there is none.
    pub fn display_version(&self) -> (r: &str)
        ensures
            r@ == (if self.versions@.len() > 0 {
                self.versions@.last()@
            } else {
                "-"@
            }),
    {
        if self.versions.len() > 0 {
            self.versions[self.versions.len() - 1].as_str()
        } else {
            "-"
        }
    }
}

#[derive(Debug)]
pub struct IntegrationEntry {
    pub integration: Integration,
    pub errors: Vec<serde_json::Value>,
}

#[derive(Debug)]
pub struct ListIntegrationsResponse {
    pub integrations: Vec<IntegrationEntry>,
}

#[derive(Debug)]
pub struct SaveIntegrationResponse {
    pub deployment: Option<Integration>,
}

#[derive(Debug)]
pub struct DeleteIntegrationResponse {}

// ── Requests ─────────────────────────────────────────────────────────────────

pub struct IntegrationsApi<'a, C> {
    client: &'a C,
}

impl<'a, C> IntegrationsApi<'a, C> {
    pub fn new(client: &'a C) -> (r: Self)
        ensures
            r.client() == client,
    {
        Self { client }
    }

    pub closed spec fn client(&self) -> &'a C {
        self.client
    }

    /// The client requests are sent with.
    pub fn client_ref(&self) -> (r: &'a C)
        ensures
            r == self.client(),
    {
        self.client
    }

    /// `GET {INTEGRATIONS_BASE}`.
    pub fn list_request(&self) -> (r: ApiRequest)
        ensures
            r.method == Method::Get,
            r.path@ == INTEGRATIONS_BASE@,
            r.query@.len() == 0,
    {
        ApiRequest::at(Method::Get, INTEGRATIONS_BASE)
    }

    /// `GET {INTEGRATIONS_BASE}/{id}`.
    pub fn get_details_request(&self, id: &str) -> (r: ApiRequest)
        ensures
            r.method == Method::Get,
            r.path@ == INTEGRATIONS_BASE@ + "/"@ + id@,
            r.query@.len() == 0,
    {
        ApiRequest::with_id(Method::Get, INTEGRATIONS_BASE, id)
    }

    /// `GET {INTEGRATIONS_BASE}/{id}/definition`.
    pub fn get_definition_request(&self, id: &str) -> (r: ApiRequest)
        ensures
            r.method == Method::Get,
            r.path@ == INTEGRATIONS_BASE@ + "/"@ + id@ + "/definition"@,
            r.query@.len() == 0,
    {
        ApiRequest::with_segment(Method::Get, INTEGRATIONS_BASE, id, "/definition")
    }

    /// `GET {INTEGRATIONS_BASE}/{id}/deployed`.
    pub fn get_deployed_request(&self, id: &str) -> (r: ApiRequest)
        ensures
            r.method == Method::Get,
            r.path@ == INTEGRATIONS_BASE@ + "/"@ + id@ + "/deployed"@,
            r.query@.len() == 0,
    {
        ApiRequest::with_segment(Method::Get, INTEGRATIONS_BASE, id, "/deployed")
    }

    /// `POST {INTEGRATIONS_BASE}`.
    pub fn save_request(&self) -> (r: ApiRequest)
        ensures
            r.method == Method::Post,
            r.path@ == INTEGRATIONS_BASE@,
            r.query@.len() == 0,
    {
        ApiRequest::at(Method::Post, INTEGRATIONS_BASE)
    }

    /// `PUT {INTEGRATIONS_METADATA_BASE}`.
    pub fn update_request(&self) -> (r: ApiRequest)
        ensures
            r.method == Method::Put,
            r.path@ == INTEGRATIONS_METADATA_BASE@,
            r.query@.len() == 0,
    {
        ApiRequest::at(Method::Put, INTEGRATIONS_METADATA_BASE)
    }

    /// `DELETE {INTEGRATIONS_BASE}/{id}`.
    pub fn delete_request(&self, id: &str) -> (r: ApiRequest)
        ensures
            r.method == Method::Delete,
            r.path@ == INTEGRATIONS_BASE@ + "/"@ + id@,
            r.query@.len() == 0,
    {
        ApiRequest::with_id(Method::Delete, INTEGRATIONS_BASE, id)
    }

    /// `POST {INTEGRATIONS_METADATA_BASE}/test`.
    pub fn test_request(&self) -> (r: ApiRequest)
        ensures
            r.method == Method::Post,
            r.path@ == INTEGRATIONS_METADATA_BASE@ + "/test"@,
            r.query@.len() == 0,
    {
        ApiRequest::new(Method::Post, INTEGRATIONS_METADATA_BASE, "/test")
    }

    /// `GET {INTEGRATIONS_BASE}/template`.
    pub fn get_template_request(&self) -> (r: ApiRequest)
        ensures
            r.method == Method::Get,
            r.path@ == INTEGRATIONS_BASE@ + "/template"@,
            r.query@.len() == 0,
    {
        ApiRequest::new(Method::Get, INTEGRATIONS_BASE, "/template")
    }
}

// ── Integration metadata ─────────────────────────────────────────────────────

/// Why an integration JSON could not be turned into metadata.
#[derive(Debug)]
pub enum IntegrationError {
    /// None of the three supported shapes.
    UnknownShape,
    DeploymentNotFound { id: String },
    MissingVersion { id: String },
    MissingParameters { id: String },
    /// `test` without `--id` on JSON that is not a test request already.
    TestNeedsId,
}

impl IntegrationError {
    pub open spec fn spec_message(&self) -> Seq<char> {
        match self {
            IntegrationError::UnknownShape =>
                "integration JSON must contain `integrationKey`, `metadata`, or `integrationDetail.integration.id`"@,
            IntegrationError::DeploymentNotFound { id } => "deployment `"@ + id@
                + "` was not found in the integration JSON"@,
            IntegrationError::MissingVersion { id } => "deployment `"@ + id@
                + "` is missing `definitionVersion`"@,
            IntegrationError::MissingParameters { id } => "deployment `"@ + id@
                + "` is missing `parameters`"@,
            IntegrationError::TestNeedsId =>
                "`cx integrations test` requires `--id <deployed-integration-id>` unless the JSON contains both `integrationId` and `integrationData`"@,
        }
    }

    /// The error as the user reads it.
    pub fn message(&self) -> (r: String)
        ensures
            r@ == self.spec_message(),
    {
        let mut r = String::new();
        match self {
            IntegrationError::UnknownShape => {
                r.append(
                    "integration JSON must contain `integrationKey`, `metadata`, or `integrationDetail.integration.id`",
                );
            },
            IntegrationError::DeploymentNotFound { id } => {
                r.append("deployment `");
                r.append(id.as_str());
                r.append("` was not found in the integration JSON");
            },
            IntegrationError::MissingVersion { id } => {
                r.append("deployment `");
                r.append(id.as_str());
                r.append("` is missing `definitionVersion`");
            },
            IntegrationError::MissingParameters { id } => {
                r.append("deployment `");
                r.append(id.as_str());
                r.append("` is missing `parameters`");
            },
            IntegrationError::TestNeedsId => {
                r.append(
                    "`cx integrations test` requires `--id <deployed-integration-id>` unless the JSON contains both `integrationId` and `integrationData`",
                );
            },
        }
        r
    }
}

/// A result with its error read as its message.
pub open spec fn outcome(r: Result<serde_json::Value, IntegrationError>) -> Result<serde_json::Value, Seq<char>> {
    match r {
        Ok(v) => Ok(v),
        Err(e) => Err(e.spec_message()),
    }
}

/// The first deployment whose `id` is `id`.
pub open spec fn find_deployment(ds: Seq<serde_json::Value>, id: Seq<char>) -> Option<serde_json::Value>
    decreases ds.len(),
{
    if ds.len() == 0 {
        None
    } else {
        match find_deployment(ds.drop_last(), id) {
            Some(d) => Some(d),
            None => if json_str_at(ds.last(), "id"@) == Some(id) {
                Some(ds.last())
            } else {
                None
            },
        }
    }
}

/// `{"parameters": p}`.
pub open spec fn parameters_object(p: serde_json::Value) -> serde_json::Value {
    json_object_of(seq![("parameters"@, p)])
}

/// The Integration Service metadata a user's integration JSON stands for.
/// Three shapes are accepted: an object holding `metadata`, which is taken
/// as is; metadata itself (it holds `integrationKey`), with a top-level
/// `parameters` moved under `integrationParameters`; or what `cx
/// integrations get` prints, from which the deployment `deployment_id` is
/// picked out of `integrationDetail.default.registered`.
pub open spec fn spec_integration_metadata(body: serde_json::Value, deployment_id: Seq<char>) -> Result<
    serde_json::Value,
    Seq<char>,
> {
    match json_get(body, "metadata"@) {
        Some(m) => Ok(m),
        None => if json_get(body, "integrationKey"@) is Some {
            match json_get(body, "parameters"@) {
                Some(p) => Ok(
                    json_with_field(
                        json_without(body, "parameters"@),
                        "integrationParameters"@,
                        parameters_object(p),
                    ),
                ),
                None => Ok(body),
            }
        } else {
            match json_str_at_pointer(body, "/integrationDetail/integration/id"@) {
                None => Err(
                    "integration JSON must contain `integrationKey`, `metadata`, or `integrationDetail.integration.id`"@,
                ),
                Some(key) => match json_array_at_pointer(body, "/integrationDetail/default/registered"@) {
                    None => Err("deployment `"@ + deployment_id + "` was not found in the integration JSON"@),
                    Some(ds) => match find_deployment(ds, deployment_id) {
                        None => Err("deployment `"@ + deployment_id + "` was not found in the integration JSON"@),
                        Some(d) => match json_str_at(d, "definitionVersion"@) {
                            None => Err("deployment `"@ + deployment_id + "` is missing `definitionVersion`"@),
                            Some(version) => match json_get(d, "parameters"@) {
                                None => Err("deployment `"@ + deployment_id + "` is missing `parameters`"@),
                                Some(p) => Ok(
                                    json_object_of(
                                        seq![
                                            ("integrationKey"@, json_string(key)),
                                            ("integrationParameters"@, parameters_object(p)),
                                            ("version"@, json_string(version)),
                                        ],
                                    ),
                                ),
                            },
                        },
                    },
                },
            }
        },
    }
}

proof fn lemma_find_deployment_prefix(ds: Seq<serde_json::Value>, n: int, id: Seq<char>)
    requires
        0 <= n <= ds.len(),
        find_deployment(ds.take(n), id) is Some,
    ensures
        find_deployment(ds, id) == find_deployment(ds.take(n), id),
    decreases ds.len(),
{
    if n == ds.len() {
        assert(ds.take(n) =~= ds);
    } else {
        assert(ds.drop_last().take(n) =~= ds.take(n));
        lemma_find_deployment_prefix(ds.drop_last(), n, id);
    }
}

fn find_deployment_index(ds: &Vec<serde_json::Value>, id: &str) -> (r: Option<usize>)
    ensures
        match r {
            Some(i) => i < ds@.len() && find_deployment(ds@, id@) == Some(ds@[i as int]),
            None => find_deployment(ds@, id@) is None,
        },
{
    let n = ds.len();
    for i in 0..n
        invariant
            n == ds@.len(),
            find_deployment(ds@.take(i as int), id@) is None,
    {
        assert(ds@.take(i + 1).drop_last() =~= ds@.take(i as int));
        assert(ds@.take(i + 1).last() == ds@[i as int]);
        let matches = match str_at(&ds[i], "id") {
            Some(x) => crate::text::chars_eq_str(&crate::text::chars_of(x), id),
            None => false,
        };
        if matches {
            proof {
                lemma_find_deployment_prefix(ds@, i + 1, id@);
            }
            return Some(i);
        }
    }
    assert(ds@.take(n as int) =~= ds@);
    None
}

fn parameters_value(p: serde_json::Value) -> (r: serde_json::Value)
    ensures
        r == parameters_object(p),
{
    let entries = vec![(owned("parameters"), p)];
    assert(entry_views(entries@) =~= seq![("parameters"@, p)]);
    object_of(entries)
}

/// Turns a user's integration JSON into Integration Service metadata, so
/// that what `cx integrations get` prints can be passed to `update` or
/// `test` as it is.
pub fn integration_metadata(body: &serde_json::Value, deployment_id: &str) -> (r: Result<
    serde_json::Value,
    IntegrationError,
>)
    ensures
        outcome(r) == spec_integration_metadata(*body, deployment_id@),
{
    if let Some(metadata) = get_value(body, "metadata") {
        return Ok(metadata);
    }
    if get_value(body, "integrationKey").is_some() {
        return match get_value(body, "parameters") {
            Some(p) => {
                let without = without_key(copy_value(body), "parameters");
                Ok(with_field(without, "integrationParameters", parameters_value(p)))
            },
            None => Ok(copy_value(body)),
        };
    }
    let key = match str_at_pointer(body, "/integrationDetail/integration/id") {
        Some(k) => k,
        None => return Err(IntegrationError::UnknownShape),
    };
    let deployments = match array_at_pointer(body, "/integrationDetail/default/registered") {
        Some(ds) => ds,
        None => return Err(IntegrationError::DeploymentNotFound { id: owned(deployment_id) }),
    };
    let i = match find_deployment_index(&deployments, deployment_id) {
        Some(i) => i,
        None => return Err(IntegrationError::DeploymentNotFound { id: owned(deployment_id) }),
    };
    let deployment = &deployments[i];
    let version = match str_at(deployment, "definitionVersion") {
        Some(v) => v,
        None => return Err(IntegrationError::MissingVersion { id: owned(deployment_id) }),
    };
    let parameters = match get_value(deployment, "parameters") {
        Some(p) => p,
        None => return Err(IntegrationError::MissingParameters { id: owned(deployment_id) }),
    };
    let ghost pv = parameters;
    let entries = vec![
        (owned("integrationKey"), string_value(key)),
        (owned("integrationParameters"), parameters_value(parameters)),
        (owned("version"), string_value(version)),
    ];
    assert(entry_views(entries@) =~= seq![
        ("integrationKey"@, json_string(key@)),
        ("integrationParameters"@, parameters_object(pv)),
        ("version"@, json_string(version@)),
    ]);
    Ok(object_of(entries))
}

/// The body of an integration test request: JSON that holds both
/// `integrationId` and `integrationData` is one already; otherwise the
/// deployment is `--id`, else the JSON's `integrationId`, and its data is
/// the metadata the JSON stands for.
pub open spec fn spec_test_request(body: serde_json::Value, deployment_id: Option<Seq<char>>) -> Result<
    serde_json::Value,
    Seq<char>,
> {
    if json_get(body, "integrationData"@) is Some && json_get(body, "integrationId"@) is Some {
        Ok(body)
    } else {
        let id = match deployment_id {
            Some(d) => Some(d),
            None => json_str_at(body, "integrationId"@),
        };
        match id {
            None => Err(
                "`cx integrations test` requires `--id <deployed-integration-id>` unless the JSON contains both `integrationId` and `integrationData`"@,
            ),
            Some(d) => match spec_integration_metadata(body, d) {
                Err(m) => Err(m),
                Ok(metadata) => Ok(
                    json_object_of(
                        seq![("integrationId"@, json_string(d)), ("integrationData"@, metadata)],
                    ),
                ),
            },
        }
    }
}

/// Builds the body of `cx integrations test`.
pub fn test_request(body: &serde_json::Value, deployment_id: Option<&str>) -> (r: Result<
    serde_json::Value,
    IntegrationError,
>)
    ensures
        outcome(r) == spec_test_request(
            *body,
            match deployment_id {
                Some(d) => Some(d@),
                None => None,
            },
        ),
{
    if get_value(body, "integrationData").is_some() && get_value(body, "integrationId").is_some() {
        return Ok(copy_value(body));
    }
    let id: &str = match deployment_id {
        Some(d) => d,
        None => match str_at(body, "integrationId") {
            Some(d) => d,
            None => return Err(IntegrationError::TestNeedsId),
        },
    };
    let metadata = match integration_metadata(body, id) {
        Ok(m) => m,
        Err(e) => return Err(e),
    };
    let ghost mv = metadata;
    let entries = vec![(owned("integrationId"), string_value(id)), (owned("integrationData"), metadata)];
    assert(entry_views(entries@) =~= seq![("integrationId"@, json_string(id@)), ("integrationData"@, mv)]);
    Ok(object_of(entries))
}

} // verus!
