//! `cx presets`: notification-center presets and the requests of their API.

use vstd::prelude::*;
use crate::request::{ApiRequest, Method};
use crate::text::{
    chars_eq_str, chars_of, field_or_dash, field_view, strip_prefix_or_dash, stripped_or_dash,
    value_or_dash,
};

verus! {

/// Path of the presets API.
pub const PRESETS_BASE: &'static str =
    "/mgmt/openapi/5/notifications/notification-center/v1/presets";

/// Prefix of the connector-type enum names, left out when shown.
pub const CONNECTOR_TYPE_PREFIX: &'static str = "CONNECTOR_TYPE_";

#[derive(Debug)]
pub struct Preset {
    pub id: Option<String>,
    pub name: Option<String>,
    pub connector_type: Option<String>,
    pub is_default: Option<bool>,
    pub is_custom: Option<bool>,
    pub preset_type: Option<String>,
}

/// The connector type as shown: without `CONNECTOR_TYPE_`, or `-` when
/// absent.
pub open spec fn spec_display_connector_type(p: Preset) -> Seq<char> {
    stripped_or_dash(field_view(p.connector_type), CONNECTOR_TYPE_PREFIX@)
}

/// Whether the preset is custom: the `isCustom` flag when sent, else
/// whether `presetType` is `CUSTOM`, else unknown.
pub open spec fn spec_display_is_custom(p: Preset) -> Option<bool> {
    match p.is_custom {
        Some(b) => Some(b),
        None => match p.preset_type {
            Some(t) => Some(t@ == "CUSTOM"@),
            None => None,
        },
    }
}

impl Preset {
    /// The name, or `-` when absent.
    pub fn display_name(&self) -> (r: &str)
        ensures
            r@ == value_or_dash(field_view(self.name)),
    {
        field_or_dash(&self.name)
    }

    /// The connector type without its `CONNECTOR_TYPE_` prefix, or `-`.
    pub fn display_connector_type(&self) -> (r: String)
        ensures
            r@ == spec_display_connector_type(*self),
    {
        strip_prefix_or_dash(&self.connector_type, CONNECTOR_TYPE_PREFIX)
    }

    /// Whether the preset is custom, as far as the answer tells.
    pub fn display_is_custom(&self) -> (r: Option<bool>)
        ensures
            r == spec_display_is_custom(*self),
    {
        match self.is_custom {
            Some(b) => Some(b),
            None => match &self.preset_type {
                Some(t) => Some(chars_eq_str(&chars_of(t.as_str()), "CUSTOM")),
                None => None,
            },
        }
    }
}

#[derive(Debug)]
pub struct ListPresetsResponse {
    pub presets: Vec<Preset>,
}

#[derive(Debug)]
pub struct GetPresetResponse {
    pub preset: Option<Preset>,
}

#[derive(Debug)]
pub struct CreatePresetResponse {
    pub preset: Option<Preset>,
}

#[derive(Debug)]
pub struct DeletePresetResponse {}

#[derive(Debug)]
pub struct SetDefaultPresetResponse {}

// ── Requests ─────────────────────────────────────────────────────────────────

pub struct PresetsApi<'a, C> {
    client: &'a C,
}

impl<'a, C> PresetsApi<'a, C> {
    pub fn new(client: &'a C) -> (r: Self)
        ensures
            r.client() == client,
    {
        Self { client }
    }

    pub closed spec fn client(&self) -> &'a C {
        self.client
    }

    /// The client requests are sent with.
    pub fn client_ref(&self) -> (r: &'a C)
        ensures
            r == self.client(),
    {
        self.client
    }

    /// `GET {PRESETS_BASE}:summariesList`.
    pub fn list_request(&self) -> (r: ApiRequest)
        ensures
            r.method == Method::Get,
            r.path@ == PRESETS_BASE@ + ":summariesList"@,
            r.query@.len() == 0,
    {
        ApiRequest::new(Method::Get, PRESETS_BASE, ":summariesList")
    }

    /// `GET {PRESETS_BASE}/{id}`.
    pub fn get_request(&self, id: &str) -> (r: ApiRequest)
        ensures
            r.method == Method::Get,
            r.path@ == PRESETS_BASE@ + "/"@ + id@,
            r.query@.len() == 0,
    {
        ApiRequest::with_id(Method::Get, PRESETS_BASE, id)
    }

    /// `POST {PRESETS_BASE}:createCustom`.
    pub fn create_request(&self) -> (r: ApiRequest)
        ensures
            r.method == Method::Post,
            r.path@ == PRESETS_BASE@ + ":createCustom"@,
            r.query@.len() == 0,
    {
        ApiRequest::new(Method::Post, PRESETS_BASE, ":createCustom")
    }

    /// `PUT {PRESETS_BASE}:replaceCustom`.
    pub fn replace_request(&self) -> (r: ApiRequest)
        ensures
            r.method == Method::Put,
            r.path@ == PRESETS_BASE@ + ":replaceCustom"@,
            r.query@.len() == 0,
    {
        ApiRequest::new(Method::Put, PRESETS_BASE, ":replaceCustom")
    }

    /// `DELETE {PRESETS_BASE}/custom/{id}`.
    pub fn delete_request(&self, id: &str) -> (r: ApiRequest)
        ensures
            r.method == Method::Delete,
            r.path@ == PRESETS_BASE@ + "/custom/"@ + id@,
            r.query@.len() == 0,
    {
        let mut r = ApiRequest::new(Method::Delete, PRESETS_BASE, "/custom/");
        r.path.append(id);
        r
    }

    /// `POST {PRESETS_BASE}/{id}/default/apply` with an empty object.
    pub fn set_default_request(&self, id: &str) -> (r: ApiRequest)
        ensures
            r.method == Method::Post,
            r.path@ == PRESETS_BASE@ + "/"@ + id@ + "/default/apply"@,
            r.query@.len() == 0,
    {
        ApiRequest::with_segment(Method::Post, PRESETS_BASE, id, "/default/apply")
    }
}

} // verus!
