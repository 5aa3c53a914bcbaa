//! `cx parsing-rules`: rule groups and the requests of their API.

use vstd::prelude::*;
use crate::json::{
    count_value, entry_views, json_count, json_object_of, json_opt_bool, json_opt_number,
    json_string, object_of, opt_bool_value, opt_field, opt_field_value, opt_number_value,
    profile_tagged, string_value, tag_profile,
};
use crate::text::owned;
use crate::request::{ApiRequest, Method};
use crate::text::{field_or_dash, field_view, value_or_dash};

verus! {

/// Path of the rule-groups API.
pub const RULE_GROUPS_BASE: &'static str = "/mgmt/openapi/5/parsing-rules/rule-groups/v1";

/// Path of the parsing-rules limits API.
pub const PARSING_RULES_LIMITS_BASE: &'static str = "/mgmt/openapi/5/parsing-rules/limits/v1";

#[derive(Debug)]
pub struct RuleGroup {
    pub id: Option<String>,
    pub name: Option<String>,
    pub rules: Option<Vec<serde_json::Value>>,
    pub enabled: Option<bool>,
    pub order: Option<u32>,
    pub creator: Option<String>,
    pub description: Option<String>,
}

impl RuleGroup {
    /// The name, or `-` when absent.
    pub fn display_name(&self) -> (r: &str)
        ensures
            r@ == value_or_dash(field_view(self.name)),
    {
        field_or_dash(&self.name)
    }

    /// The number of rules, 0 when none were sent.
    pub fn rules_count(&self) -> (r: usize)
        ensures
            r == match self.rules {
                Some(d) => d@.len(),
                None => 0,
            },
    {
        match &self.rules {
            Some(d) => d.len(),
            None => 0,
        }
    }
}

#[derive(Debug)]
pub struct ListRuleGroupsResponse {
    pub rule_groups: Vec<RuleGroup>,
}

#[derive(Debug)]
pub struct GetRuleGroupResponse {
    pub rule_group: Option<RuleGroup>,
}

#[derive(Debug)]
pub struct CreateRuleGroupResponse {
    pub rule_group: Option<RuleGroup>,
}

#[derive(Debug)]
pub struct DeleteRuleGroupResponse {}

// ── Requests ─────────────────────────────────────────────────────────────────

pub struct RuleGroupsApi<'a, C> {
    client: &'a C,
}

impl<'a, C> RuleGroupsApi<'a, C> {
    pub fn new(client: &'a C) -> (r: Self)
        ensures
            r.client() == client,
    {
        Self { client }
    }

    pub closed spec fn client(&self) -> &'a C {
        self.client
    }

    /// The client requests are sent with.
    pub fn client_ref(&self) -> (r: &'a C)
        ensures
            r == self.client(),
    {
        self.client
    }

    /// `GET {RULE_GROUPS_BASE}`.
    pub fn list_request(&self) -> (r: ApiRequest)
        ensures
            r.method == Method::Get,
            r.path@ == RULE_GROUPS_BASE@,
            r.query@.len() == 0,
    {
        ApiRequest::at(Method::Get, RULE_GROUPS_BASE)
    }

    /// `GET {RULE_GROUPS_BASE}/{id}`.
    pub fn get_request(&self, id: &str) -> (r: ApiRequest)
        ensures
            r.method == Method::Get,
            r.path@ == RULE_GROUPS_BASE@ + "/"@ + id@,
            r.query@.len() == 0,
    {
        ApiRequest::with_id(Method::Get, RULE_GROUPS_BASE, id)
    }

    /// `POST {RULE_GROUPS_BASE}`.
    pub fn create_request(&self) -> (r: ApiRequest)
        ensures
            r.method == Method::Post,
            r.path@ == RULE_GROUPS_BASE@,
            r.query@.len() == 0,
    {
        ApiRequest::at(Method::Post, RULE_GROUPS_BASE)
    }

    /// `PUT {RULE_GROUPS_BASE}/{id}`.
    pub fn update_request(&self, id: &str) -> (r: ApiRequest)
        ensures
            r.method == Method::Put,
            r.path@ == RULE_GROUPS_BASE@ + "/"@ + id@,
            r.query@.len() == 0,
    {
        ApiRequest::with_id(Method::Put, RULE_GROUPS_BASE, id)
    }

    /// `DELETE {RULE_GROUPS_BASE}/{id}`.
    pub fn delete_request(&self, id: &str) -> (r: ApiRequest)
        ensures
            r.method == Method::Delete,
            r.path@ == RULE_GROUPS_BASE@ + "/"@ + id@,
            r.query@.len() == 0,
    {
        ApiRequest::with_id(Method::Delete, RULE_GROUPS_BASE, id)
    }

    /// `POST {RULE_GROUPS_BASE}/bulk-delete`.
    pub fn bulk_delete_request(&self) -> (r: ApiRequest)
        ensures
            r.method == Method::Post,
            r.path@ == RULE_GROUPS_BASE@ + "/bulk-delete"@,
            r.query@.len() == 0,
    {
        ApiRequest::new(Method::Post, RULE_GROUPS_BASE, "/bulk-delete")
    }

    /// `POST {PARSING_RULES_LIMITS_BASE}` without a body.
    pub fn usage_limits_request(&self) -> (r: ApiRequest)
        ensures
            r.method == Method::Post,
            r.path@ == PARSING_RULES_LIMITS_BASE@,
            r.query@.len() == 0,
    {
        ApiRequest::at(Method::Post, PARSING_RULES_LIMITS_BASE)
    }
}

// ── JSON rows ────────────────────────────────────────────────────────────────

/// The JSON row of a rule group.
pub open spec fn rule_group_json(rg: RuleGroup) -> serde_json::Value {
    json_object_of(
        seq![
            ("id"@, opt_field(rg.id)),
            ("name"@, json_string(value_or_dash(field_view(rg.name)))),
            ("rules_count"@, json_count(match rg.rules { Some(d) => d@.len(), None => 0 })),
            ("enabled"@, json_opt_bool(rg.enabled)),
            ("order"@, json_opt_number(match rg.order { Some(o) => Some(o as int), None => None })),
            ("creator"@, opt_field(rg.creator)),
        ],
    )
}

/// The JSON row of a rule group, tagged with its profile when asked.
pub fn rg_to_json(rg: &RuleGroup, include_profile: bool, profile: &str) -> (r: serde_json::Value)
    ensures
        r == profile_tagged(rule_group_json(*rg), include_profile, profile@),
{
    let order: Option<i64> = match rg.order {
        Some(o) => Some(o as i64),
        None => None,
    };
    let entries = vec![
        (owned("id"), opt_field_value(&rg.id)),
        (owned("name"), string_value(rg.display_name())),
        (owned("rules_count"), count_value(rg.rules_count())),
        (owned("enabled"), opt_bool_value(rg.enabled)),
        (owned("order"), opt_number_value(order)),
        (owned("creator"), opt_field_value(&rg.creator)),
    ];
    assert(entry_views(entries@) =~= seq![
        ("id"@, opt_field(rg.id)),
        ("name"@, json_string(value_or_dash(field_view(rg.name)))),
        ("rules_count"@, json_count(match rg.rules { Some(d) => d@.len(), None => 0 })),
        ("enabled"@, json_opt_bool(rg.enabled)),
        ("order"@, json_opt_number(match rg.order { Some(o) => Some(o as int), None => None })),
        ("creator"@, opt_field(rg.creator)),
    ]);
    tag_profile(object_of(entries), include_profile, profile)
}

} // verus!
