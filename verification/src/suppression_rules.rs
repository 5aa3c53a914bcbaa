//! `cx suppression-rules`: alert-scheduler rules, how an id given on the
//! command line relates to them, and the requests of their API.
//!
//! A rule carries two ids: `unique_identifier`, its stable id that every
//! route takes, and `id`, the id of the rule's current version, which
//! changes on every update and is not addressable. Passing a version id is
//! not refused by the API (`GET` answers `{}`, `DELETE` answers 200 without
//! deleting), so the two are told apart here.

use vstd::prelude::*;
use crate::json::{
    entry_views, json_object_of, json_opt_bool, object_of, opt_bool_value, opt_field,
    opt_field_value, profile_tagged, tag_profile,
};
use crate::text::owned;
use crate::request::{ApiRequest, Method};
use crate::json::{
    is_object, json_is_object, json_object_len_at, json_parse, json_parse_error, object_len_at,
    parse_json_reporting,
};
use crate::text::field_view;

verus! {

/// Path of the suppression-rules API.
pub const SCHEDULERS_BASE: &'static str = "/mgmt/openapi/5/alerts/suppression-rules/v1";

/// A suppression rule, as returned by the alert-scheduler API.
#[derive(Debug)]
pub struct AlertSchedulerRule {
    /// The rule's stable id. Use this for get/update/delete and console links.
    pub unique_identifier: Option<String>,
    /// The rule *version* id: changes on every update, not addressable.
    pub id: Option<String>,
    pub name: Option<String>,
    pub description: Option<String>,
    pub enabled: Option<bool>,
    pub schedule: Option<serde_json::Value>,
    pub meta_labels: Option<Vec<serde_json::Value>>,
    pub created_at: Option<String>,
    pub updated_at: Option<String>,
}

/// One entry of a list answer: the rule, beside its upcoming activation
/// windows.
#[derive(Debug)]
pub struct AlertSchedulerRuleEntry {
    pub alert_scheduler_rule: Option<AlertSchedulerRule>,
    pub next_active_timeframes: Vec<serde_json::Value>,
}

#[derive(Debug)]
pub struct GetBulkAlertSchedulerRuleResponse {
    pub alert_scheduler_rules: Vec<AlertSchedulerRuleEntry>,
}

#[derive(Debug)]
pub struct CreateAlertSchedulerRuleResponse {
    pub alert_scheduler_rule: Option<AlertSchedulerRule>,
}

#[derive(Debug)]
pub struct UpdateAlertSchedulerRuleResponse {
    pub alert_scheduler_rule: Option<AlertSchedulerRule>,
}

#[derive(Debug)]
pub struct DeleteAlertSchedulerRuleResponse {}

/// The key under which a `GET` answer carries its rule.
pub const RULE_KEY: &'static str = "alertSchedulerRule";

/// Whether an object under the rule key holds a rule: it is present and
/// has at least one entry.
pub fn rule_present(entries: Option<usize>) -> (r: bool)
    ensures
        r == (entries matches Some(n) && n > 0),
{
    match entries {
        Some(n) => n > 0,
        None => false,
    }
}

/// Whether a `GET` answer actually carries a rule: the endpoint answers
/// `{}` rather than 404 for an unknown id, so an answer alone says nothing.
/// The rule must be a non-empty object under `alertSchedulerRule`.
pub fn rule_found(val: &serde_json::Value) -> (r: bool)
    ensures
        r == (json_object_len_at(*val, RULE_KEY@) matches Some(n) && n > 0),
{
    rule_present(object_len_at(val, RULE_KEY))
}

/// How an input id relates to the rules that actually exist.
#[derive(Debug, PartialEq)]
pub enum RuleIdKind {
    /// Matches a rule's `unique_identifier`: addressable as is.
    Addressable,
    /// Matches a rule's *version* `id`; carries the addressable `unique_identifier`.
    VersionId(String),
    /// Matches no rule under either field.
    Unknown,
}

/// Whether the entry holds a rule whose stable id is `input`.
pub open spec fn has_stable_id(e: AlertSchedulerRuleEntry, input: Seq<char>) -> bool {
    match e.alert_scheduler_rule {
        Some(r) => field_view(r.unique_identifier) == Some(input),
        None => false,
    }
}

/// Whether some listed rule has `input` as its stable id.
pub open spec fn is_addressable(entries: Seq<AlertSchedulerRuleEntry>, input: Seq<char>) -> bool {
    exists|i: int| 0 <= i < entries.len() && has_stable_id(#[trigger] entries[i], input)
}

/// Among the listed rules whose version id is `input` and that carry a
/// stable id, the stable id of the last one; `None` when no such rule has a
/// stable id (a rule matched by version id but without a stable id gives
/// nothing to address it by).
pub open spec fn version_match(entries: Seq<AlertSchedulerRuleEntry>, input: Seq<char>) -> Option<
    Seq<char>,
>
    decreases entries.len(),
{
    if entries.len() == 0 {
        None
    } else {
        match entries.last().alert_scheduler_rule {
            Some(r) => if field_view(r.id) == Some(input) && r.unique_identifier is Some {
                field_view(r.unique_identifier)
            } else {
                version_match(entries.drop_last(), input)
            },
            None => version_match(entries.drop_last(), input),
        }
    }
}

/// Whether `a` and `b` hold the same text.
fn same_text(a: &Option<String>, b: &str) -> (r: bool)
    ensures
        r == (field_view(*a) == Some(b@)),
{
    match a {
        Some(s) => crate::text::chars_eq_str(&crate::text::chars_of(s.as_str()), b),
        None => false,
    }
}

fn clone_opt(a: &Option<String>) -> (r: Option<String>)
    ensures
        field_view(r) == field_view(*a),
{
    match a {
        Some(s) => Some(crate::text::owned(s.as_str())),
        None => None,
    }
}

/// Classifies an id against an already-fetched rule list. A stable id wins
/// over a version id when (pathologically) the input is one rule's stable id
/// and another's version id, since every route takes the stable id. A
/// version id is answered with the stable id of a rule that has one;
/// `Unknown` when no rule matches, and also when every rule matched by
/// version id lacks a stable id, since there is then nothing to address.
pub fn classify_rule_id_in(resp: &GetBulkAlertSchedulerRuleResponse, input: &str) -> (r:
    RuleIdKind)
    ensures
        ({
            let entries = resp.alert_scheduler_rules@;
            &&& is_addressable(entries, input@) ==> r is Addressable
            &&& (!is_addressable(entries, input@) && version_match(entries, input@) is Some) ==> (
            r matches RuleIdKind::VersionId(u) && Some(u@) == version_match(entries, input@))
            &&& (!is_addressable(entries, input@) && version_match(entries, input@) is None)
                ==> r is Unknown
        }),
{
    let entries = &resp.alert_scheduler_rules;
    let ghost all = entries@;
    let mut found: Option<String> = None;
    let n = entries.len();
    let mut i: usize = 0;
    while i < n
        invariant
            n == entries@.len(),
            all == entries@,
            all == resp.alert_scheduler_rules@,
            i <= n,
            !is_addressable(all.take(i as int), input@),
            field_view(found) == version_match(all.take(i as int), input@),
        decreases n - i,
    {
        let ghost prefix = all.take(i as int);
        assert(all.take(i + 1).drop_last() =~= prefix);
        assert(all.take(i + 1).last() == all[i as int]);
        match &entries[i].alert_scheduler_rule {
            Some(rule) => {
                if same_text(&rule.unique_identifier, input) {
                    assert(has_stable_id(all[i as int], input@));
                    return RuleIdKind::Addressable;
                }
                if same_text(&rule.id, input) && rule.unique_identifier.is_some() {
                    found = clone_opt(&rule.unique_identifier);
                }
            },
            None => {},
        }
        assert forall|k: int| 0 <= k < i + 1 implies !has_stable_id(
            #[trigger] all.take(i + 1)[k],
            input@,
        ) by {
            if k < i {
                assert(all.take(i + 1)[k] == prefix[k]);
            }
        }
        i = i + 1;
    }
    assert(all.take(n as int) =~= all);
    match found {
        Some(u) => RuleIdKind::VersionId(u),
        None => RuleIdKind::Unknown,
    }
}

// ── Requests ─────────────────────────────────────────────────────────────────

pub struct AlertSchedulersApi<'a, C> {
    client: &'a C,
}

impl<'a, C> AlertSchedulersApi<'a, C> {
    pub fn new(client: &'a C) -> (r: Self)
        ensures
            r.client() == client,
    {
        Self { client }
    }

    pub closed spec fn client(&self) -> &'a C {
        self.client
    }

    /// The client requests are sent with.
    pub fn client_ref(&self) -> (r: &'a C)
        ensures
            r == self.client(),
    {
        self.client
    }

    /// `GET {SCHEDULERS_BASE}`: every rule.
    pub fn list_request(&self) -> (r: ApiRequest)
        ensures
            r.method == Method::Get,
            r.path@ == SCHEDULERS_BASE@,
            r.query@.len() == 0,
    {
        ApiRequest::at(Method::Get, SCHEDULERS_BASE)
    }

    /// `GET {SCHEDULERS_BASE}/{id}`, by stable id. An unknown id is answered
    /// with `{}`, not with an error.
    pub fn get_request(&self, id: &str) -> (r: ApiRequest)
        ensures
            r.method == Method::Get,
            r.path@ == SCHEDULERS_BASE@ + "/"@ + id@,
            r.query@.len() == 0,
    {
        ApiRequest::with_id(Method::Get, SCHEDULERS_BASE, id)
    }

    /// `POST {SCHEDULERS_BASE}`.
    pub fn create_request(&self) -> (r: ApiRequest)
        ensures
            r.method == Method::Post,
            r.path@ == SCHEDULERS_BASE@,
            r.query@.len() == 0,
    {
        ApiRequest::at(Method::Post, SCHEDULERS_BASE)
    }

    /// `PUT {SCHEDULERS_BASE}`.
    pub fn update_request(&self) -> (r: ApiRequest)
        ensures
            r.method == Method::Put,
            r.path@ == SCHEDULERS_BASE@,
            r.query@.len() == 0,
    {
        ApiRequest::at(Method::Put, SCHEDULERS_BASE)
    }

    /// `DELETE {SCHEDULERS_BASE}/{id}`, by stable id. It answers 200 whether
    /// or not anything was deleted.
    pub fn delete_request(&self, id: &str) -> (r: ApiRequest)
        ensures
            r.method == Method::Delete,
            r.path@ == SCHEDULERS_BASE@ + "/"@ + id@,
            r.query@.len() == 0,
    {
        ApiRequest::with_id(Method::Delete, SCHEDULERS_BASE, id)
    }
}

// ── JSON rows ────────────────────────────────────────────────────────────────

/// The JSON row of a suppression rule: both ids under the API's own names, the stable `unique_identifier` first.
pub open spec fn rule_json(rule: AlertSchedulerRule) -> serde_json::Value {
    json_object_of(
        seq![
            ("unique_identifier"@, opt_field(rule.unique_identifier)),
            ("id"@, opt_field(rule.id)),
            ("name"@, opt_field(rule.name)),
            ("description"@, opt_field(rule.description)),
            ("enabled"@, json_opt_bool(rule.enabled)),
            ("created_at"@, opt_field(rule.created_at)),
            ("updated_at"@, opt_field(rule.updated_at)),
        ],
    )
}

/// The JSON row of a suppression rule, tagged with its profile when asked.
pub fn rule_to_json(rule: &AlertSchedulerRule, include_profile: bool, profile: &str) -> (r: serde_json::Value)
    ensures
        r == profile_tagged(rule_json(*rule), include_profile, profile@),
{
    let entries = vec![
        (owned("unique_identifier"), opt_field_value(&rule.unique_identifier)),
        (owned("id"), opt_field_value(&rule.id)),
        (owned("name"), opt_field_value(&rule.name)),
        (owned("description"), opt_field_value(&rule.description)),
        (owned("enabled"), opt_bool_value(rule.enabled)),
        (owned("created_at"), opt_field_value(&rule.created_at)),
        (owned("updated_at"), opt_field_value(&rule.updated_at)),
    ];
    assert(entry_views(entries@) =~= seq![
        ("unique_identifier"@, opt_field(rule.unique_identifier)),
        ("id"@, opt_field(rule.id)),
        ("name"@, opt_field(rule.name)),
        ("description"@, opt_field(rule.description)),
        ("enabled"@, json_opt_bool(rule.enabled)),
        ("created_at"@, opt_field(rule.created_at)),
        ("updated_at"@, opt_field(rule.updated_at)),
    ]);
    tag_profile(object_of(entries), include_profile, profile)
}

// ── Update bodies and notes ──────────────────────────────────────────────────

/// The rule an update body describes: the object under
/// `alertSchedulerRule`, else the body itself.
pub open spec fn body_rule(body: serde_json::Value) -> serde_json::Value {
    match crate::json::json_get(body, "alertSchedulerRule"@) {
        Some(r) => r,
        None => body,
    }
}

/// The id an update body names: the rule's `uniqueIdentifier`, else its
/// `id`.
pub open spec fn spec_update_body_identifier(body: serde_json::Value) -> Option<Seq<char>> {
    match crate::json::json_str_at(body_rule(body), "uniqueIdentifier"@) {
        Some(u) => Some(u),
        None => crate::json::json_str_at(body_rule(body), "id"@),
    }
}

/// The id an update body names, wrapped in `alertSchedulerRule` or not.
pub fn update_body_identifier(body: &serde_json::Value) -> (r: Option<String>)
    ensures
        field_view(r) == spec_update_body_identifier(*body),
{
    let rule = match crate::json::get_value(body, "alertSchedulerRule") {
        Some(r) => r,
        None => crate::json::copy_value(body),
    };
    match crate::json::str_at(&rule, "uniqueIdentifier") {
        Some(u) => Some(owned(u)),
        None => match crate::json::str_at(&rule, "id") {
            Some(i) => Some(owned(i)),
            None => None,
        },
    }
}

/// The note shown when a version id given on the command line was replaced
/// by the rule's stable id.
pub open spec fn spec_version_id_note(input: Seq<char>, unique_identifier: Seq<char>) -> Seq<char> {
    "Note: '"@ + input + "' is a rule version id, not its stable id. Using uniqueIdentifier '"@
        + unique_identifier + "' instead - the version id changes on every update."@
}

/// The note shown when a version id was replaced by the stable id.
pub fn version_id_note(input: &str, unique_identifier: &str) -> (r: String)
    ensures
        r@ == spec_version_id_note(input@, unique_identifier@),
{
    let mut s = owned("Note: '");
    s.append(input);
    s.append("' is a rule version id, not its stable id. Using uniqueIdentifier '");
    s.append(unique_identifier);
    s.append("' instead - the version id changes on every update.");
    s
}


// ── Rule bodies read from a file ─────────────────────────────────────────────

/// Why a rule body read from a file was refused.
#[derive(Debug)]
pub enum BodyError {
    /// The text is not JSON; `serde_json`'s message.
    Parse(String),
    /// The JSON is not an object; the name of what was being read.
    NotObject(String),
}

impl BodyError {
    /// The message shown for the refusal.
    pub open spec fn spec_message(&self) -> Seq<char> {
        match self {
            BodyError::Parse(m) => m@,
            BodyError::NotObject(entity) => entity@ + " JSON must be a JSON object"@,
        }
    }

    /// The message shown for the refusal.
    pub fn message(&self) -> (r: String)
        ensures
            r@ == self.spec_message(),
    {
        match self {
            BodyError::Parse(m) => owned(m.as_str()),
            BodyError::NotObject(entity) => {
                let mut s = owned(entity.as_str());
                crate::text::push_str(&mut s, " JSON must be a JSON object");
                s
            },
        }
    }
}

/// Reads a definition body: the text must be JSON, and the JSON an object.
pub fn parse_json_body(raw: &str, entity_name: &str) -> (r: Result<serde_json::Value, BodyError>)
    ensures
        json_parse(raw@) is None ==> (r matches Err(BodyError::Parse(m)) && m@ == json_parse_error(raw@)),
        json_parse(raw@) matches Some(v) ==> (json_is_object(v) ==> r == Ok::<serde_json::Value, BodyError>(v)),
        json_parse(raw@) matches Some(v) ==> (!json_is_object(v) ==> (r matches Err(BodyError::NotObject(e))
            && e@ == entity_name@)),
{
    match parse_json_reporting(raw) {
        Err(m) => Err(BodyError::Parse(m)),
        Ok(v) => {
            if is_object(&v) {
                Ok(v)
            } else {
                Err(BodyError::NotObject(owned(entity_name)))
            }
        },
    }
}

} // verus!
