//! `cx saml`: the team's SAML configuration and the requests of its API.

use vstd::prelude::*;
use crate::request::{ApiRequest, Method};

verus! {

/// Path of the team SAML API.
pub const SAML_BASE: &'static str = "/mgmt/openapi/5/aaa/team-saml/v1";

#[derive(Debug)]
pub struct SamlConfig {
    pub team_id: Option<i64>,
    pub idp_details: Option<serde_json::Value>,
    pub idp_parameters: Option<serde_json::Value>,
    pub sp_parameters: Option<serde_json::Value>,
}

#[derive(Debug)]
pub struct GetSPParametersResponse {
    pub params: Option<serde_json::Value>,
}

pub struct SamlApi<'a, C> {
    client: &'a C,
}

impl<'a, C> SamlApi<'a, C> {
    pub fn new(client: &'a C) -> (r: Self)
        ensures
            r.client() == client,
    {
        Self { client }
    }

    pub closed spec fn client(&self) -> &'a C {
        self.client
    }

    /// The client requests are sent with.
    pub fn client_ref(&self) -> (r: &'a C)
        ensures
            r == self.client(),
    {
        self.client
    }

    /// `GET {SAML_BASE}/configuration`: the IDP and SP details.
    pub fn get_config_request(&self) -> (r: ApiRequest)
        ensures
            r.method == Method::Get,
            r.path@ == SAML_BASE@ + "/configuration"@,
            r.query@.len() == 0,
    {
        ApiRequest::new(Method::Get, SAML_BASE, "/configuration")
    }

    /// `POST {SAML_BASE}/idp_parameters`.
    pub fn set_idp_params_request(&self) -> (r: ApiRequest)
        ensures
            r.method == Method::Post,
            r.path@ == SAML_BASE@ + "/idp_parameters"@,
            r.query@.len() == 0,
    {
        ApiRequest::new(Method::Post, SAML_BASE, "/idp_parameters")
    }

    /// `GET {SAML_BASE}/sp_parameters`.
    pub fn get_sp_params_request(&self) -> (r: ApiRequest)
        ensures
            r.method == Method::Get,
            r.path@ == SAML_BASE@ + "/sp_parameters"@,
            r.query@.len() == 0,
    {
        ApiRequest::new(Method::Get, SAML_BASE, "/sp_parameters")
    }

    /// `POST {SAML_BASE}/active`: turns SAML on or off.
    pub fn set_active_request(&self) -> (r: ApiRequest)
        ensures
            r.method == Method::Post,
            r.path@ == SAML_BASE@ + "/active"@,
            r.query@.len() == 0,
    {
        ApiRequest::new(Method::Post, SAML_BASE, "/active")
    }
}

} // verus!
