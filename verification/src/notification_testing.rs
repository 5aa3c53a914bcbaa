//! `cx notification-testing`: the notification-center test endpoints.

use vstd::prelude::*;
use crate::request::{ApiRequest, Method};

verus! {

/// Path of the notification-center API.
pub const NOTIFICATION_TEST_BASE: &'static str =
    "/mgmt/openapi/5/notifications/notification-center/v1";

#[derive(Debug)]
pub struct TestResultResponse {
    pub result: serde_json::Value,
}

pub struct NotificationTestingApi<'a, C> {
    client: &'a C,
}

impl<'a, C> NotificationTestingApi<'a, C> {
    pub fn new(client: &'a C) -> (r: Self)
        ensures
            r.client() == client,
    {
        Self { client }
    }

    pub closed spec fn client(&self) -> &'a C {
        self.client
    }

    /// The client requests are sent with.
    pub fn client_ref(&self) -> (r: &'a C)
        ensures
            r == self.client(),
    {
        self.client
    }

    /// `POST {NOTIFICATION_TEST_BASE}/connectors/tests/config`.
    pub fn test_connector_request(&self) -> (r: ApiRequest)
        ensures
            r.method == Method::Post,
            r.path@ == NOTIFICATION_TEST_BASE@ + "/connectors/tests/config"@,
            r.query@.len() == 0,
    {
        ApiRequest::new(Method::Post, NOTIFICATION_TEST_BASE, "/connectors/tests/config")
    }

    /// `POST {NOTIFICATION_TEST_BASE}/destinations/tests`.
    pub fn test_destination_request(&self) -> (r: ApiRequest)
        ensures
            r.method == Method::Post,
            r.path@ == NOTIFICATION_TEST_BASE@ + "/destinations/tests"@,
            r.query@.len() == 0,
    {
        ApiRequest::new(Method::Post, NOTIFICATION_TEST_BASE, "/destinations/tests")
    }

    /// `POST {NOTIFICATION_TEST_BASE}/presets/tests/config`.
    pub fn test_preset_request(&self) -> (r: ApiRequest)
        ensures
            r.method == Method::Post,
            r.path@ == NOTIFICATION_TEST_BASE@ + "/presets/tests/config"@,
            r.query@.len() == 0,
    {
        ApiRequest::new(Method::Post, NOTIFICATION_TEST_BASE, "/presets/tests/config")
    }

    /// `POST {NOTIFICATION_TEST_BASE}/routing-conditions/tests`.
    pub fn test_routing_condition_request(&self) -> (r: ApiRequest)
        ensures
            r.method == Method::Post,
            r.path@ == NOTIFICATION_TEST_BASE@ + "/routing-conditions/tests"@,
            r.query@.len() == 0,
    {
        ApiRequest::new(Method::Post, NOTIFICATION_TEST_BASE, "/routing-conditions/tests")
    }

    /// `POST {NOTIFICATION_TEST_BASE}/template-render/tests`.
    pub fn test_template_render_request(&self) -> (r: ApiRequest)
        ensures
            r.method == Method::Post,
            r.path@ == NOTIFICATION_TEST_BASE@ + "/template-render/tests"@,
            r.query@.len() == 0,
    {
        ApiRequest::new(Method::Post, NOTIFICATION_TEST_BASE, "/template-render/tests")
    }
}

} // verus!
