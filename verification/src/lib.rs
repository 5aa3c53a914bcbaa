//! Verified core of the `cx` command-line client.

use vstd::prelude::*;

pub mod answers;
pub mod extensions;
pub mod incidents;
pub mod infra;
pub mod integrations;
pub mod json;
pub mod logs;
pub mod metrics;
pub mod notification_testing;
pub mod olly;
pub mod parsing_rules;
pub mod presets;
pub mod profiles;
pub mod request;
pub mod retentions;
pub mod roles;
pub mod routers;
pub mod saml;
pub mod service_catalog;
pub mod search_by_value;
pub mod skills;
pub mod spans;
pub mod suppression_rules;
pub mod tco_policies;
pub mod text;
pub mod timestamp;

verus! {

} // verus!
