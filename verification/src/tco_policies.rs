//! `cx tco-policies`: TCO policies and the requests of their APIs.

use vstd::prelude::*;
use crate::json::{
    entry_views, json_object_of, json_opt_bool, json_string, object_of, opt_bool_value, opt_field,
    opt_field_value, profile_tagged, string_value, tag_profile,
};
use crate::text::owned;
use crate::request::{ApiRequest, Method};
use crate::json::{json_str_at, str_at};
use crate::text::{
    field_or_dash, field_view, strip_prefix_or_dash, stripped_or_dash, text_or_dash,
    value_or_dash,
};

verus! {

/// Path of the TCO policies API.
pub const TCO_POLICIES_BASE: &'static str = "/mgmt/openapi/5/dataplans/policies/v1";

/// Path of the TCO policy settings API.
pub const TCO_POLICY_SETTINGS_BASE: &'static str = "/mgmt/openapi/5/dataplans/policy-settings/v1";

pub const PRIORITY_PREFIX: &'static str = "PRIORITY_TYPE_";

pub const SOURCE_TYPE_PREFIX: &'static str = "SOURCE_TYPE_";

pub const SEVERITY_PREFIX: &'static str = "SEVERITY_";

#[derive(Debug)]
pub struct TcoPolicy {
    pub id: Option<String>,
    pub name: Option<String>,
    pub priority: Option<String>,
    pub source_type: Option<String>,
    pub severity: Option<String>,
    pub archive_retention: Option<serde_json::Value>,
    pub enabled: Option<bool>,
    pub created_at: Option<String>,
    pub updated_at: Option<String>,
    pub application_rule: Option<serde_json::Value>,
    pub subsystem_rule: Option<serde_json::Value>,
}

impl TcoPolicy {
    /// The name, or `-` when absent.
    pub fn display_name(&self) -> (r: &str)
        ensures
            r@ == value_or_dash(field_view(self.name)),
    {
        field_or_dash(&self.name)
    }

    /// The priority without its `PRIORITY_TYPE_` prefix, or `-`.
    pub fn display_priority(&self) -> (r: String)
        ensures
            r@ == stripped_or_dash(field_view(self.priority), PRIORITY_PREFIX@),
    {
        strip_prefix_or_dash(&self.priority, PRIORITY_PREFIX)
    }

    /// The source type without its `SOURCE_TYPE_` prefix, or `-`.
    pub fn display_source_type(&self) -> (r: String)
        ensures
            r@ == stripped_or_dash(field_view(self.source_type), SOURCE_TYPE_PREFIX@),
    {
        strip_prefix_or_dash(&self.source_type, SOURCE_TYPE_PREFIX)
    }

    /// The severity without its `SEVERITY_` prefix, or `-`.
    pub fn display_severity(&self) -> (r: String)
        ensures
            r@ == stripped_or_dash(field_view(self.severity), SEVERITY_PREFIX@),
    {
        strip_prefix_or_dash(&self.severity, SEVERITY_PREFIX)
    }

    /// The `id` string of the archive retention, or `-`.
    pub fn display_archive_retention(&self) -> (r: String)
        ensures
            r@ == value_or_dash(
                match self.archive_retention {
                    Some(v) => json_str_at(v, "id"@),
                    None => None,
                },
            ),
    {
        match &self.archive_retention {
            Some(v) => crate::text::owned(text_or_dash(str_at(v, "id"))),
            None => crate::text::owned("-"),
        }
    }
}

#[derive(Debug)]
pub struct ListTcoPoliciesResponse {
    pub policies: Vec<TcoPolicy>,
}

#[derive(Debug)]
pub struct GetTcoPolicyResponse {
    pub policy: Option<TcoPolicy>,
}

#[derive(Debug)]
pub struct CreateTcoPolicyResponse {
    pub policy: Option<TcoPolicy>,
}

#[derive(Debug)]
pub struct UpdateTcoPolicyResponse {
    pub policy: Option<TcoPolicy>,
}

#[derive(Debug)]
pub struct DeleteTcoPolicyResponse {}

#[derive(Debug)]
pub struct TcoSettingsResponse {
    pub settings: serde_json::Value,
}

// ── Requests ─────────────────────────────────────────────────────────────────

pub struct TcoPoliciesApi<'a, C> {
    client: &'a C,
}

impl<'a, C> TcoPoliciesApi<'a, C> {
    pub fn new(client: &'a C) -> (r: Self)
        ensures
            r.client() == client,
    {
        Self { client }
    }

    pub closed spec fn client(&self) -> &'a C {
        self.client
    }

    /// The client requests are sent with.
    pub fn client_ref(&self) -> (r: &'a C)
        ensures
            r == self.client(),
    {
        self.client
    }

    /// `GET {TCO_POLICIES_BASE}`.
    pub fn list_request(&self) -> (r: ApiRequest)
        ensures
            r.method == Method::Get,
            r.path@ == TCO_POLICIES_BASE@,
            r.query@.len() == 0,
    {
        ApiRequest::at(Method::Get, TCO_POLICIES_BASE)
    }

    /// `GET {TCO_POLICIES_BASE}/{id}`.
    pub fn get_request(&self, id: &str) -> (r: ApiRequest)
        ensures
            r.method == Method::Get,
            r.path@ == TCO_POLICIES_BASE@ + "/"@ + id@,
            r.query@.len() == 0,
    {
        ApiRequest::with_id(Method::Get, TCO_POLICIES_BASE, id)
    }

    /// `POST {TCO_POLICIES_BASE}`.
    pub fn create_request(&self) -> (r: ApiRequest)
        ensures
            r.method == Method::Post,
            r.path@ == TCO_POLICIES_BASE@,
            r.query@.len() == 0,
    {
        ApiRequest::at(Method::Post, TCO_POLICIES_BASE)
    }

    /// `PUT {TCO_POLICIES_BASE}`.
    pub fn update_request(&self) -> (r: ApiRequest)
        ensures
            r.method == Method::Put,
            r.path@ == TCO_POLICIES_BASE@,
            r.query@.len() == 0,
    {
        ApiRequest::at(Method::Put, TCO_POLICIES_BASE)
    }

    /// `DELETE {TCO_POLICIES_BASE}/{id}`.
    pub fn delete_request(&self, id: &str) -> (r: ApiRequest)
        ensures
            r.method == Method::Delete,
            r.path@ == TCO_POLICIES_BASE@ + "/"@ + id@,
            r.query@.len() == 0,
    {
        ApiRequest::with_id(Method::Delete, TCO_POLICIES_BASE, id)
    }

    /// `POST {TCO_POLICIES_BASE}/all/reorder`.
    pub fn reorder_request(&self) -> (r: ApiRequest)
        ensures
            r.method == Method::Post,
            r.path@ == TCO_POLICIES_BASE@ + "/all/reorder"@,
            r.query@.len() == 0,
    {
        ApiRequest::new(Method::Post, TCO_POLICIES_BASE, "/all/reorder")
    }

    /// `POST {TCO_POLICIES_BASE}/all/test-policies`.
    pub fn test_policies_request(&self) -> (r: ApiRequest)
        ensures
            r.method == Method::Post,
            r.path@ == TCO_POLICIES_BASE@ + "/all/test-policies"@,
            r.query@.len() == 0,
    {
        ApiRequest::new(Method::Post, TCO_POLICIES_BASE, "/all/test-policies")
    }

    /// `GET {TCO_POLICY_SETTINGS_BASE}`.
    pub fn get_settings_request(&self) -> (r: ApiRequest)
        ensures
            r.method == Method::Get,
            r.path@ == TCO_POLICY_SETTINGS_BASE@,
            r.query@.len() == 0,
    {
        ApiRequest::at(Method::Get, TCO_POLICY_SETTINGS_BASE)
    }

    /// `PUT {TCO_POLICY_SETTINGS_BASE}`.
    pub fn replace_settings_request(&self) -> (r: ApiRequest)
        ensures
            r.method == Method::Put,
            r.path@ == TCO_POLICY_SETTINGS_BASE@,
            r.query@.len() == 0,
    {
        ApiRequest::at(Method::Put, TCO_POLICY_SETTINGS_BASE)
    }
}

// ── JSON rows ────────────────────────────────────────────────────────────────

/// The JSON row of a TCO policy.
pub open spec fn policy_json(policy: TcoPolicy) -> serde_json::Value {
    json_object_of(
        seq![
            ("id"@, opt_field(policy.id)),
            ("name"@, json_string(value_or_dash(field_view(policy.name)))),
            ("priority"@, json_string(stripped_or_dash(field_view(policy.priority), PRIORITY_PREFIX@))),
            ("source_type"@, json_string(stripped_or_dash(field_view(policy.source_type), SOURCE_TYPE_PREFIX@))),
            ("severity"@, json_string(stripped_or_dash(field_view(policy.severity), SEVERITY_PREFIX@))),
            ("archive_retention"@, json_string(value_or_dash(match policy.archive_retention { Some(v) => json_str_at(v, "id"@), None => None }))),
            ("enabled"@, json_opt_bool(policy.enabled)),
            ("created_at"@, opt_field(policy.created_at)),
        ],
    )
}

/// The JSON row of a TCO policy, tagged with its profile when asked.
pub fn policy_to_json(policy: &TcoPolicy, include_profile: bool, profile: &str) -> (r: serde_json::Value)
    ensures
        r == profile_tagged(policy_json(*policy), include_profile, profile@),
{
    let entries = vec![
        (owned("id"), opt_field_value(&policy.id)),
        (owned("name"), string_value(policy.display_name())),
        (owned("priority"), string_value(policy.display_priority().as_str())),
        (owned("source_type"), string_value(policy.display_source_type().as_str())),
        (owned("severity"), string_value(policy.display_severity().as_str())),
        (owned("archive_retention"), string_value(policy.display_archive_retention().as_str())),
        (owned("enabled"), opt_bool_value(policy.enabled)),
        (owned("created_at"), opt_field_value(&policy.created_at)),
    ];
    assert(entry_views(entries@) =~= seq![
        ("id"@, opt_field(policy.id)),
        ("name"@, json_string(value_or_dash(field_view(policy.name)))),
        ("priority"@, json_string(stripped_or_dash(field_view(policy.priority), PRIORITY_PREFIX@))),
        ("source_type"@, json_string(stripped_or_dash(field_view(policy.source_type), SOURCE_TYPE_PREFIX@))),
        ("severity"@, json_string(stripped_or_dash(field_view(policy.severity), SEVERITY_PREFIX@))),
        ("archive_retention"@, json_string(value_or_dash(match policy.archive_retention { Some(v) => json_str_at(v, "id"@), None => None }))),
        ("enabled"@, json_opt_bool(policy.enabled)),
        ("created_at"@, opt_field(policy.created_at)),
    ]);
    tag_profile(object_of(entries), include_profile, profile)
}

} // verus!
