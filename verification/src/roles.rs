//! `cx roles`: custom and system roles and the requests of their APIs.

use vstd::prelude::*;
use crate::json::{
    count_value, entry_views, json_count, json_object_of, json_opt_number, json_string, object_of,
    opt_field, opt_field_value, opt_int, opt_number_value, profile_tagged, string_value,
    tag_profile,
};
use crate::text::owned;
use crate::request::{ApiRequest, Method};
use crate::text::{field_or_dash, field_view, value_or_dash};

verus! {

/// Path of the custom-roles API.
pub const CUSTOM_ROLES_BASE: &'static str = "/mgmt/openapi/5/aaa/custom-roles/v1";

/// Path of the system-roles API.
pub const SYSTEM_ROLES_BASE: &'static str = "/mgmt/openapi/5/aaa/system-roles/v1";

#[derive(Debug)]
pub struct CustomRole {
    pub role_id: Option<i64>,
    pub name: Option<String>,
    pub description: Option<String>,
    pub parent_role_id: Option<i64>,
    pub parent_role_name: Option<String>,
    pub permissions: Vec<String>,
    pub team_id: Option<i64>,
}

impl CustomRole {
    /// The name, or `-` when absent.
    pub fn display_name(&self) -> (r: &str)
        ensures
            r@ == value_or_dash(field_view(self.name)),
    {
        field_or_dash(&self.name)
    }

    /// The description, or `-` when absent.
    pub fn display_description(&self) -> (r: &str)
        ensures
            r@ == value_or_dash(field_view(self.description)),
    {
        field_or_dash(&self.description)
    }

    /// The number of permissions the role grants.
    pub fn permissions_count(&self) -> (r: usize)
        ensures
            r == self.permissions@.len(),
    {
        self.permissions.len()
    }
}

#[derive(Debug)]
pub struct SystemRole {
    pub role_id: Option<i64>,
    pub name: Option<String>,
    pub description: Option<String>,
    pub permissions: Vec<String>,
}

impl SystemRole {
    /// The name, or `-` when absent.
    pub fn display_name(&self) -> (r: &str)
        ensures
            r@ == value_or_dash(field_view(self.name)),
    {
        field_or_dash(&self.name)
    }

    /// The description, or `-` when absent.
    pub fn display_description(&self) -> (r: &str)
        ensures
            r@ == value_or_dash(field_view(self.description)),
    {
        field_or_dash(&self.description)
    }

    /// The number of permissions the role grants.
    pub fn permissions_count(&self) -> (r: usize)
        ensures
            r == self.permissions@.len(),
    {
        self.permissions.len()
    }
}

#[derive(Debug)]
pub struct ListCustomRolesResponse {
    pub roles: Vec<CustomRole>,
}

#[derive(Debug)]
pub struct ListSystemRolesResponse {
    pub roles: Vec<SystemRole>,
}

#[derive(Debug)]
pub struct GetCustomRoleResponse {
    pub role: Option<CustomRole>,
}

#[derive(Debug)]
pub struct CreateRoleResponse {
    pub id: Option<i64>,
}

#[derive(Debug)]
pub struct DeleteRoleResponse {}

// ── Requests ─────────────────────────────────────────────────────────────────

pub struct RolesApi<'a, C> {
    client: &'a C,
}

impl<'a, C> RolesApi<'a, C> {
    pub fn new(client: &'a C) -> (r: Self)
        ensures
            r.client() == client,
    {
        Self { client }
    }

    pub closed spec fn client(&self) -> &'a C {
        self.client
    }

    /// The client requests are sent with.
    pub fn client_ref(&self) -> (r: &'a C)
        ensures
            r == self.client(),
    {
        self.client
    }

    /// `GET {CUSTOM_ROLES_BASE}`: every custom role.
    pub fn list_custom_request(&self) -> (r: ApiRequest)
        ensures
            r.method == Method::Get,
            r.path@ == CUSTOM_ROLES_BASE@,
            r.query@.len() == 0,
    {
        ApiRequest::at(Method::Get, CUSTOM_ROLES_BASE)
    }

    /// `GET {CUSTOM_ROLES_BASE}/{role_id}`.
    pub fn get_custom_request(&self, role_id: &str) -> (r: ApiRequest)
        ensures
            r.method == Method::Get,
            r.path@ == CUSTOM_ROLES_BASE@ + "/"@ + role_id@,
            r.query@.len() == 0,
    {
        ApiRequest::with_id(Method::Get, CUSTOM_ROLES_BASE, role_id)
    }

    /// `PUT {CUSTOM_ROLES_BASE}`: creating a role uses PUT, as the API has it.
    pub fn create_request(&self) -> (r: ApiRequest)
        ensures
            r.method == Method::Put,
            r.path@ == CUSTOM_ROLES_BASE@,
            r.query@.len() == 0,
    {
        ApiRequest::at(Method::Put, CUSTOM_ROLES_BASE)
    }

    /// `POST {CUSTOM_ROLES_BASE}/{role_id}`: updating a role uses POST.
    pub fn update_request(&self, role_id: &str) -> (r: ApiRequest)
        ensures
            r.method == Method::Post,
            r.path@ == CUSTOM_ROLES_BASE@ + "/"@ + role_id@,
            r.query@.len() == 0,
    {
        ApiRequest::with_id(Method::Post, CUSTOM_ROLES_BASE, role_id)
    }

    /// `DELETE {CUSTOM_ROLES_BASE}/{role_id}`.
    pub fn delete_request(&self, role_id: &str) -> (r: ApiRequest)
        ensures
            r.method == Method::Delete,
            r.path@ == CUSTOM_ROLES_BASE@ + "/"@ + role_id@,
            r.query@.len() == 0,
    {
        ApiRequest::with_id(Method::Delete, CUSTOM_ROLES_BASE, role_id)
    }

    /// `GET {SYSTEM_ROLES_BASE}`: every system role.
    pub fn list_system_request(&self) -> (r: ApiRequest)
        ensures
            r.method == Method::Get,
            r.path@ == SYSTEM_ROLES_BASE@,
            r.query@.len() == 0,
    {
        ApiRequest::at(Method::Get, SYSTEM_ROLES_BASE)
    }
}

// ── JSON rows ────────────────────────────────────────────────────────────────

/// The JSON row of a custom role.
pub open spec fn custom_role_json(role: CustomRole) -> serde_json::Value {
    json_object_of(
        seq![
            ("role_id"@, json_opt_number(opt_int(role.role_id))),
            ("name"@, json_string(value_or_dash(field_view(role.name)))),
            ("description"@, json_string(value_or_dash(field_view(role.description)))),
            ("parent_role_id"@, json_opt_number(opt_int(role.parent_role_id))),
            ("parent_role_name"@, opt_field(role.parent_role_name)),
            ("permissions_count"@, json_count(role.permissions@.len())),
            ("team_id"@, json_opt_number(opt_int(role.team_id))),
        ],
    )
}

/// The JSON row of a custom role, tagged with its profile when asked.
pub fn custom_role_to_json(role: &CustomRole, include_profile: bool, profile: &str) -> (r: serde_json::Value)
    ensures
        r == profile_tagged(custom_role_json(*role), include_profile, profile@),
{
    let entries = vec![
        (owned("role_id"), opt_number_value(role.role_id)),
        (owned("name"), string_value(role.display_name())),
        (owned("description"), string_value(role.display_description())),
        (owned("parent_role_id"), opt_number_value(role.parent_role_id)),
        (owned("parent_role_name"), opt_field_value(&role.parent_role_name)),
        (owned("permissions_count"), count_value(role.permissions_count())),
        (owned("team_id"), opt_number_value(role.team_id)),
    ];
    assert(entry_views(entries@) =~= seq![
        ("role_id"@, json_opt_number(opt_int(role.role_id))),
        ("name"@, json_string(value_or_dash(field_view(role.name)))),
        ("description"@, json_string(value_or_dash(field_view(role.description)))),
        ("parent_role_id"@, json_opt_number(opt_int(role.parent_role_id))),
        ("parent_role_name"@, opt_field(role.parent_role_name)),
        ("permissions_count"@, json_count(role.permissions@.len())),
        ("team_id"@, json_opt_number(opt_int(role.team_id))),
    ]);
    tag_profile(object_of(entries), include_profile, profile)
}

/// The JSON row of a system role.
pub open spec fn system_role_json(role: SystemRole) -> serde_json::Value {
    json_object_of(
        seq![
            ("role_id"@, json_opt_number(opt_int(role.role_id))),
            ("name"@, json_string(value_or_dash(field_view(role.name)))),
            ("description"@, json_string(value_or_dash(field_view(role.description)))),
            ("permissions_count"@, json_count(role.permissions@.len())),
        ],
    )
}

/// The JSON row of a system role, tagged with its profile when asked.
pub fn system_role_to_json(role: &SystemRole, include_profile: bool, profile: &str) -> (r: serde_json::Value)
    ensures
        r == profile_tagged(system_role_json(*role), include_profile, profile@),
{
    let entries = vec![
        (owned("role_id"), opt_number_value(role.role_id)),
        (owned("name"), string_value(role.display_name())),
        (owned("description"), string_value(role.display_description())),
        (owned("permissions_count"), count_value(role.permissions_count())),
    ];
    assert(entry_views(entries@) =~= seq![
        ("role_id"@, json_opt_number(opt_int(role.role_id))),
        ("name"@, json_string(value_or_dash(field_view(role.name)))),
        ("description"@, json_string(value_or_dash(field_view(role.description)))),
        ("permissions_count"@, json_count(role.permissions@.len())),
    ]);
    tag_profile(object_of(entries), include_profile, profile)
}

} // verus!
