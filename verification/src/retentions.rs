//! `cx retentions`: retention tags and the requests of their API.

use vstd::prelude::*;
use crate::request::{ApiRequest, Method};
use crate::text::{field_or_dash, field_view, value_or_dash};

verus! {

/// Path of the retention-tags API.
pub const RETENTIONS_BASE: &'static str = "/mgmt/openapi/5/dataengine/retention-tags/v1";

#[derive(Debug)]
pub struct Retention {
    pub id: Option<String>,
    pub name: Option<String>,
    pub retention_days: Option<u32>,
    pub enabled: Option<bool>,
}

impl Retention {
    /// The name, or `-` when absent.
    pub fn display_name(&self) -> (r: &str)
        ensures
            r@ == value_or_dash(field_view(self.name)),
    {
        field_or_dash(&self.name)
    }
}

#[derive(Debug)]
pub struct ListRetentionsResponse {
    pub retentions: Vec<Retention>,
}

#[derive(Debug)]
pub struct UpdateRetentionsResponse {}

#[derive(Debug)]
pub struct ActivateRetentionResponse {}

#[derive(Debug)]
pub struct RetentionStatusResponse {
    pub enabled: Option<bool>,
}

// ── Requests ─────────────────────────────────────────────────────────────────

pub struct RetentionsApi<'a, C> {
    client: &'a C,
}

impl<'a, C> RetentionsApi<'a, C> {
    pub fn new(client: &'a C) -> (r: Self)
        ensures
            r.client() == client,
    {
        Self { client }
    }

    pub closed spec fn client(&self) -> &'a C {
        self.client
    }

    /// The client requests are sent with.
    pub fn client_ref(&self) -> (r: &'a C)
        ensures
            r == self.client(),
    {
        self.client
    }

    /// `GET {RETENTIONS_BASE}`.
    pub fn list_request(&self) -> (r: ApiRequest)
        ensures
            r.method == Method::Get,
            r.path@ == RETENTIONS_BASE@,
            r.query@.len() == 0,
    {
        ApiRequest::at(Method::Get, RETENTIONS_BASE)
    }

    /// `PUT {RETENTIONS_BASE}`.
    pub fn update_request(&self) -> (r: ApiRequest)
        ensures
            r.method == Method::Put,
            r.path@ == RETENTIONS_BASE@,
            r.query@.len() == 0,
    {
        ApiRequest::at(Method::Put, RETENTIONS_BASE)
    }

    /// `POST {RETENTIONS_BASE}/activate` with an empty object.
    pub fn activate_request(&self) -> (r: ApiRequest)
        ensures
            r.method == Method::Post,
            r.path@ == RETENTIONS_BASE@ + "/activate"@,
            r.query@.len() == 0,
    {
        ApiRequest::new(Method::Post, RETENTIONS_BASE, "/activate")
    }

    /// `GET {RETENTIONS_BASE}/enabled`.
    pub fn status_request(&self) -> (r: ApiRequest)
        ensures
            r.method == Method::Get,
            r.path@ == RETENTIONS_BASE@ + "/enabled"@,
            r.query@.len() == 0,
    {
        ApiRequest::new(Method::Get, RETENTIONS_BASE, "/enabled")
    }
}

} // verus!
