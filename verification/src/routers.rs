//! `cx routers`: notification routers and the requests of their API.

use vstd::prelude::*;
use crate::json::{
    count_value, entry_views, json_count, json_object_of, json_string, object_of, opt_field,
    opt_field_value, profile_tagged, string_value, tag_profile,
};
use crate::text::owned;
use crate::request::{ApiRequest, Method};
use crate::text::{
    field_or_dash, field_view, strip_prefix_or_dash, stripped_or_dash, value_or_dash,
};

verus! {

/// Path of the routers API.
pub const ROUTERS_BASE: &'static str =
    "/mgmt/openapi/5/notifications/notification-center/v1/routers";

/// Prefix of the entity-type enum names, left out when shown.
pub const ENTITY_TYPE_PREFIX: &'static str = "ENTITY_TYPE_";

#[derive(Debug)]
pub struct Router {
    pub id: Option<String>,
    pub name: Option<String>,
    pub entity_type: Option<String>,
    pub destinations: Option<Vec<serde_json::Value>>,
    pub create_time: Option<String>,
    pub update_time: Option<String>,
}

impl Router {
    /// The name, or `-` when absent.
    pub fn display_name(&self) -> (r: &str)
        ensures
            r@ == value_or_dash(field_view(self.name)),
    {
        field_or_dash(&self.name)
    }

    /// The entity type without its `ENTITY_TYPE_` prefix, or `-`.
    pub fn display_entity_type(&self) -> (r: String)
        ensures
            r@ == stripped_or_dash(field_view(self.entity_type), ENTITY_TYPE_PREFIX@),
    {
        strip_prefix_or_dash(&self.entity_type, ENTITY_TYPE_PREFIX)
    }

    /// The number of destinations, 0 when none were sent.
    pub fn destinations_count(&self) -> (r: usize)
        ensures
            r == match self.destinations {
                Some(d) => d@.len(),
                None => 0,
            },
    {
        match &self.destinations {
            Some(d) => d.len(),
            None => 0,
        }
    }
}

#[derive(Debug)]
pub struct ListRoutersResponse {
    pub routers: Vec<Router>,
}

#[derive(Debug)]
pub struct GetRouterResponse {
    pub router: Option<Router>,
}

#[derive(Debug)]
pub struct CreateRouterResponse {
    pub router: Option<Router>,
}

#[derive(Debug)]
pub struct DeleteRouterResponse {}

// ── Requests ─────────────────────────────────────────────────────────────────

pub struct RoutersApi<'a, C> {
    client: &'a C,
}

impl<'a, C> RoutersApi<'a, C> {
    pub fn new(client: &'a C) -> (r: Self)
        ensures
            r.client() == client,
    {
        Self { client }
    }

    pub closed spec fn client(&self) -> &'a C {
        self.client
    }

    /// The client requests are sent with.
    pub fn client_ref(&self) -> (r: &'a C)
        ensures
            r == self.client(),
    {
        self.client
    }

    /// `GET {ROUTERS_BASE}`.
    pub fn list_request(&self) -> (r: ApiRequest)
        ensures
            r.method == Method::Get,
            r.path@ == ROUTERS_BASE@,
            r.query@.len() == 0,
    {
        ApiRequest::at(Method::Get, ROUTERS_BASE)
    }

    /// `GET {ROUTERS_BASE}/{id}`.
    pub fn get_request(&self, id: &str) -> (r: ApiRequest)
        ensures
            r.method == Method::Get,
            r.path@ == ROUTERS_BASE@ + "/"@ + id@,
            r.query@.len() == 0,
    {
        ApiRequest::with_id(Method::Get, ROUTERS_BASE, id)
    }

    /// `POST {ROUTERS_BASE}`.
    pub fn create_request(&self) -> (r: ApiRequest)
        ensures
            r.method == Method::Post,
            r.path@ == ROUTERS_BASE@,
            r.query@.len() == 0,
    {
        ApiRequest::at(Method::Post, ROUTERS_BASE)
    }

    /// `PUT {ROUTERS_BASE}`.
    pub fn replace_request(&self) -> (r: ApiRequest)
        ensures
            r.method == Method::Put,
            r.path@ == ROUTERS_BASE@,
            r.query@.len() == 0,
    {
        ApiRequest::at(Method::Put, ROUTERS_BASE)
    }

    /// `DELETE {ROUTERS_BASE}/{id}`.
    pub fn delete_request(&self, id: &str) -> (r: ApiRequest)
        ensures
            r.method == Method::Delete,
            r.path@ == ROUTERS_BASE@ + "/"@ + id@,
            r.query@.len() == 0,
    {
        ApiRequest::with_id(Method::Delete, ROUTERS_BASE, id)
    }

    /// `POST {ROUTERS_BASE}/matcher/validate`.
    pub fn validate_matcher_request(&self) -> (r: ApiRequest)
        ensures
            r.method == Method::Post,
            r.path@ == ROUTERS_BASE@ + "/matcher/validate"@,
            r.query@.len() == 0,
    {
        ApiRequest::new(Method::Post, ROUTERS_BASE, "/matcher/validate")
    }
}

// ── JSON rows ────────────────────────────────────────────────────────────────

/// The JSON row of a router.
pub open spec fn router_json(router: Router) -> serde_json::Value {
    json_object_of(
        seq![
            ("id"@, opt_field(router.id)),
            ("name"@, json_string(value_or_dash(field_view(router.name)))),
            ("entity_type"@, json_string(stripped_or_dash(field_view(router.entity_type), ENTITY_TYPE_PREFIX@))),
            ("destinations_count"@, json_count(match router.destinations { Some(d) => d@.len(), None => 0 })),
            ("create_time"@, opt_field(router.create_time)),
        ],
    )
}

/// The JSON row of a router, tagged with its profile when asked.
pub fn router_to_json(router: &Router, include_profile: bool, profile: &str) -> (r: serde_json::Value)
    ensures
        r == profile_tagged(router_json(*router), include_profile, profile@),
{
    let entries = vec![
        (owned("id"), opt_field_value(&router.id)),
        (owned("name"), string_value(router.display_name())),
        (owned("entity_type"), string_value(router.display_entity_type().as_str())),
        (owned("destinations_count"), count_value(router.destinations_count())),
        (owned("create_time"), opt_field_value(&router.create_time)),
    ];
    assert(entry_views(entries@) =~= seq![
        ("id"@, opt_field(router.id)),
        ("name"@, json_string(value_or_dash(field_view(router.name)))),
        ("entity_type"@, json_string(stripped_or_dash(field_view(router.entity_type), ENTITY_TYPE_PREFIX@))),
        ("destinations_count"@, json_count(match router.destinations { Some(d) => d@.len(), None => 0 })),
        ("create_time"@, opt_field(router.create_time)),
    ]);
    tag_profile(object_of(entries), include_profile, profile)
}

} // verus!
