//! `cx extensions`: the extension catalog, deployed extensions and the
//! requests of the extensions API.

use vstd::prelude::*;
use crate::json::{
    entry_views, json_array, json_object_of, json_opt_bool, json_opt_count, json_opt_string,
    json_strings, object_of, opt_bool_value, opt_count_value, opt_field, opt_field_value,
    opt_string_value, profile_tagged, strings_value, tag_profile,
};
use crate::text::owned;
use crate::infra::spec_join_or_dash;
use crate::request::{ApiRequest, Method};
use crate::text::{field_or_dash, field_view, spec_parse_u64, value_or_dash, views};

verus! {

/// Path of the extensions API.
pub const EXTENSIONS_BASE: &'static str = "/mgmt/openapi/5/integrations/extensions/v1";

/// One extension of the catalog.
#[derive(Debug)]
pub struct Extension {
    pub id: Option<String>,
    pub name: Option<String>,
    pub version: Option<String>,
    pub deployed: Option<bool>,
    pub updated: Option<String>,
}

impl Extension {
    /// The name, or `-` when absent.
    pub fn display_name(&self) -> (r: &str)
        ensures
            r@ == value_or_dash(field_view(self.name)),
    {
        field_or_dash(&self.name)
    }

    /// The version, or `-` when absent.
    pub fn display_version(&self) -> (r: &str)
        ensures
            r@ == value_or_dash(field_view(self.version)),
    {
        field_or_dash(&self.version)
    }
}

#[derive(Debug)]
pub struct ListExtensionsResponse {
    pub extensions: Vec<Extension>,
}

/// One entry of `summary.deployedItemCounts`, as the API sent it: a JSON
/// number that is an unsigned 64-bit integer, a JSON string (proto int64
/// fields can travel as strings), or anything else.
#[derive(Debug)]
pub enum ItemCount {
    Unsigned(u64),
    Text(String),
    Other,
}

/// One deployed extension. The deployed endpoint sends no name; its
/// `summary` is reduced to the entries of `summary.deployedItemCounts`,
/// `None` when the summary or that object is absent.
#[derive(Debug)]
pub struct DeployedExtension {
    pub id: Option<String>,
    pub version: Option<String>,
    pub applications: Vec<String>,
    pub subsystems: Vec<String>,
    pub item_ids: Vec<String>,
    pub item_counts: Option<Vec<ItemCount>>,
}

#[derive(Debug)]
pub struct ListDeployedExtensionsResponse {
    pub deployed_extensions: Vec<DeployedExtension>,
}

/// What one count entry contributes: a number as is, a string when it
/// parses as an unsigned number, nothing otherwise.
pub open spec fn item_count_value(c: ItemCount) -> Option<nat> {
    match c {
        ItemCount::Unsigned(n) => Some(n as nat),
        ItemCount::Text(s) => spec_parse_u64(s@),
        ItemCount::Other => None,
    }
}

/// The sum of the entries that contribute.
pub open spec fn counts_sum(cs: Seq<ItemCount>) -> nat
    decreases cs.len(),
{
    if cs.len() == 0 {
        0
    } else {
        counts_sum(cs.drop_last()) + match item_count_value(cs.last()) {
            Some(n) => n,
            None => 0,
        }
    }
}

/// Total number of deployed items: the sum of `summary.deployedItemCounts`,
/// else the number of item ids when there are any, else unknown.
pub open spec fn spec_deployed_item_count(e: DeployedExtension) -> Option<nat> {
    match e.item_counts {
        Some(cs) => Some(counts_sum(cs@)),
        None => if e.item_ids@.len() > 0 {
            Some(e.item_ids@.len())
        } else {
            None
        },
    }
}

impl DeployedExtension {
    /// Total number of deployed items, summed from
    /// `summary.deployedItemCounts`; falls back to the length of `itemIds`
    /// when the summary is absent. The sum must fit in a `u64`.
    pub fn deployed_item_count(&self) -> (r: Option<u64>)
        requires
            self.item_counts matches Some(cs) ==> counts_sum(cs@) <= u64::MAX,
        ensures
            match spec_deployed_item_count(*self) {
                Some(n) => r == Some(n as u64),
                None => r is None,
            },
    {
        match &self.item_counts {
            Some(cs) => {
                let mut total: u64 = 0;
                let n = cs.len();
                let mut i: usize = 0;
                while i < n
                    invariant
                        n == cs@.len(),
                        i <= n,
                        counts_sum(cs@) <= u64::MAX,
                        total == counts_sum(cs@.take(i as int)),
                    decreases n - i,
                {
                    proof {
                        assert(cs@.take(i + 1).drop_last() =~= cs@.take(i as int));
                        lemma_counts_sum_prefix(cs@, i + 1);
                    }
                    let add: u64 = match &cs[i] {
                        ItemCount::Unsigned(v) => *v,
                        ItemCount::Text(s) => match crate::text::parse_u64(s.as_str()) {
                            Some(v) => v,
                            None => 0,
                        },
                        ItemCount::Other => 0,
                    };
                    total = total + add;
                    i = i + 1;
                }
                assert(cs@.take(n as int) =~= cs@);
                Some(total)
            },
            None => {
                if self.item_ids.len() > 0 {
                    Some(self.item_ids.len() as u64)
                } else {
                    None
                }
            },
        }
    }

    /// Whether the summary's counts sum to no more than `u64::MAX`, so that
    /// `deployed_item_count` can add them up.
    pub fn item_counts_fit(&self) -> (r: bool)
        ensures
            r == (self.item_counts matches Some(cs) ==> counts_sum(cs@) <= u64::MAX),
    {
        match &self.item_counts {
            Some(cs) => {
                let mut total: u64 = 0;
                let n = cs.len();
                let mut i: usize = 0;
                while i < n
                    invariant
                        n == cs@.len(),
                        i <= n,
                        self.item_counts matches Some(c) && c@ == cs@,
                        total == counts_sum(cs@.take(i as int)),
                    decreases n - i,
                {
                    assert(cs@.take(i + 1).drop_last() =~= cs@.take(i as int));
                    let add: u64 = match &cs[i] {
                        ItemCount::Unsigned(v) => *v,
                        ItemCount::Text(s) => match crate::text::parse_u64(s.as_str()) {
                            Some(v) => v,
                            None => 0,
                        },
                        ItemCount::Other => 0,
                    };
                    match total.checked_add(add) {
                        Some(t) => {
                            total = t;
                        },
                        None => {
                            proof {
                                assert(cs@.take(i + 1).last() == cs@[i as int]);
                                assert(counts_sum(cs@.take(i + 1)) == total + add);
                                lemma_counts_sum_prefix(cs@, i + 1);
                            }
                            return false;
                        },
                    }
                    i = i + 1;
                }
                assert(cs@.take(n as int) =~= cs@);
                true
            },
            None => true,
        }
    }
}

/// A prefix sums to no more than the whole.
proof fn lemma_counts_sum_prefix(cs: Seq<ItemCount>, i: int)
    requires
        0 <= i <= cs.len(),
    ensures
        counts_sum(cs.take(i)) <= counts_sum(cs),
    decreases cs.len() - i,
{
    if i < cs.len() {
        lemma_counts_sum_prefix(cs, i + 1);
        assert(cs.take(i + 1).drop_last() =~= cs.take(i));
    } else {
        assert(cs.take(i) =~= cs);
    }
}

// ── Names of deployed extensions ─────────────────────────────────────────────

/// The name the catalog gives `id`: that of the last catalog entry with
/// this id and a name (later entries replace earlier ones).
pub open spec fn catalog_name(exts: Seq<Extension>, id: Seq<char>) -> Option<Seq<char>>
    decreases exts.len(),
{
    if exts.len() == 0 {
        None
    } else {
        let e = exts.last();
        if e.id matches Some(i) && i@ == id && e.name is Some {
            Some(e.name->0@)
        } else {
            catalog_name(exts.drop_last(), id)
        }
    }
}

/// Looks up the name of a deployed extension in the catalog (the deployed
/// endpoint returns ids but no names).
pub fn resolve_name(catalog: &[Extension], id: &str) -> (r: Option<String>)
    ensures
        field_view(r) == catalog_name(catalog@, id@),
{
    let mut i = catalog.len();
    assert(catalog@.take(i as int) =~= catalog@);
    while i > 0
        invariant
            i <= catalog@.len(),
            catalog_name(catalog@, id@) == catalog_name(catalog@.take(i as int), id@),
        decreases i,
    {
        let e = &catalog[i - 1];
        assert(catalog@.take(i as int).last() == catalog@[i - 1]);
        assert(catalog@.take(i as int).drop_last() =~= catalog@.take(i - 1));
        if let (Some(eid), Some(name)) = (&e.id, &e.name) {
            if crate::text::chars_eq_str(&crate::text::chars_of(eid.as_str()), id) {
                return Some(crate::text::owned(name.as_str()));
            }
        }
        i = i - 1;
    }
    None
}

/// A list cell: the items joined with `", "`, or `-` when there are none.
pub fn list_display(items: &[String]) -> (r: String)
    ensures
        r@ == spec_join_or_dash(views(items@)),
{
    crate::infra::join_or_dash(items)
}

// ── Requests ─────────────────────────────────────────────────────────────────

pub struct ExtensionsApi<'a, C> {
    client: &'a C,
}

impl<'a, C> ExtensionsApi<'a, C> {
    pub fn new(client: &'a C) -> (r: Self)
        ensures
            r.client() == client,
    {
        Self { client }
    }

    pub closed spec fn client(&self) -> &'a C {
        self.client
    }

    /// The client requests are sent with.
    pub fn client_ref(&self) -> (r: &'a C)
        ensures
            r == self.client(),
    {
        self.client
    }

    /// `POST {EXTENSIONS_BASE}` with an empty object: the whole catalog.
    pub fn list_all_request(&self) -> (r: ApiRequest)
        ensures
            r.method == Method::Post,
            r.path@ == EXTENSIONS_BASE@,
            r.query@.len() == 0,
    {
        ApiRequest::at(Method::Post, EXTENSIONS_BASE)
    }

    /// `GET {EXTENSIONS_BASE}/catalog/{id}`.
    pub fn get_request(&self, id: &str) -> (r: ApiRequest)
        ensures
            r.method == Method::Get,
            r.path@ == EXTENSIONS_BASE@ + "/catalog/"@ + id@,
            r.query@.len() == 0,
    {
        let mut r = ApiRequest::new(Method::Get, EXTENSIONS_BASE, "/catalog/");
        r.path.append(id);
        r
    }

    /// `GET {EXTENSIONS_BASE}/deployed`.
    pub fn list_deployed_request(&self) -> (r: ApiRequest)
        ensures
            r.method == Method::Get,
            r.path@ == EXTENSIONS_BASE@ + "/deployed"@,
            r.query@.len() == 0,
    {
        ApiRequest::new(Method::Get, EXTENSIONS_BASE, "/deployed")
    }

    /// `POST {EXTENSIONS_BASE}/deploy`.
    pub fn deploy_request(&self) -> (r: ApiRequest)
        ensures
            r.method == Method::Post,
            r.path@ == EXTENSIONS_BASE@ + "/deploy"@,
            r.query@.len() == 0,
    {
        ApiRequest::new(Method::Post, EXTENSIONS_BASE, "/deploy")
    }

    /// `POST {EXTENSIONS_BASE}/update`.
    pub fn update_request(&self) -> (r: ApiRequest)
        ensures
            r.method == Method::Post,
            r.path@ == EXTENSIONS_BASE@ + "/update"@,
            r.query@.len() == 0,
    {
        ApiRequest::new(Method::Post, EXTENSIONS_BASE, "/update")
    }

    /// `POST {EXTENSIONS_BASE}/undeploy`.
    pub fn undeploy_request(&self) -> (r: ApiRequest)
        ensures
            r.method == Method::Post,
            r.path@ == EXTENSIONS_BASE@ + "/undeploy"@,
            r.query@.len() == 0,
    {
        ApiRequest::new(Method::Post, EXTENSIONS_BASE, "/undeploy")
    }
}

// ── JSON rows ────────────────────────────────────────────────────────────────

/// The JSON row of a catalog extension.
pub open spec fn extension_json(ext: Extension) -> serde_json::Value {
    json_object_of(
        seq![
            ("id"@, opt_field(ext.id)),
            ("name"@, opt_field(ext.name)),
            ("version"@, opt_field(ext.version)),
            ("deployed"@, json_opt_bool(ext.deployed)),
            ("updated"@, opt_field(ext.updated)),
        ],
    )
}

/// The JSON row of a catalog extension, tagged with its profile when asked.
pub fn extension_to_json(ext: &Extension, include_profile: bool, profile: &str) -> (r: serde_json::Value)
    ensures
        r == profile_tagged(extension_json(*ext), include_profile, profile@),
{
    let entries = vec![
        (owned("id"), opt_field_value(&ext.id)),
        (owned("name"), opt_field_value(&ext.name)),
        (owned("version"), opt_field_value(&ext.version)),
        (owned("deployed"), opt_bool_value(ext.deployed)),
        (owned("updated"), opt_field_value(&ext.updated)),
    ];
    assert(entry_views(entries@) =~= seq![
        ("id"@, opt_field(ext.id)),
        ("name"@, opt_field(ext.name)),
        ("version"@, opt_field(ext.version)),
        ("deployed"@, json_opt_bool(ext.deployed)),
        ("updated"@, opt_field(ext.updated)),
    ]);
    tag_profile(object_of(entries), include_profile, profile)
}

/// The JSON row of a deployed extension: its name from the catalog, its scope and the number of deployed items.
pub open spec fn deployed_extension_json(ext: DeployedExtension, name: Option<&str>) -> serde_json::Value {
    json_object_of(
        seq![
            ("id"@, opt_field(ext.id)),
            ("name"@, json_opt_string(match name { Some(n) => Some(n@), None => None })),
            ("version"@, opt_field(ext.version)),
            ("applications"@, json_array(json_strings(ext.applications@))),
            ("subsystems"@, json_array(json_strings(ext.subsystems@))),
            ("deployed_items"@, json_opt_count(spec_deployed_item_count(ext))),
        ],
    )
}

/// The JSON row of a deployed extension, tagged with its profile when asked.
pub fn deployed_extension_to_json(ext: &DeployedExtension, name: Option<&str>, include_profile: bool, profile: &str) -> (r: serde_json::Value)
    requires
        ext.item_counts matches Some(cs) ==> counts_sum(cs@) <= u64::MAX,
    ensures
        r == profile_tagged(deployed_extension_json(*ext, name), include_profile, profile@),
{
    let _ids_len = ext.item_ids.len();
    let count = ext.deployed_item_count();
    assert(match spec_deployed_item_count(*ext) {
        Some(n) => count == Some(n as u64) && n <= u64::MAX,
        None => count is None,
    });
    let entries = vec![
        (owned("id"), opt_field_value(&ext.id)),
        (owned("name"), opt_string_value(name)),
        (owned("version"), opt_field_value(&ext.version)),
        (owned("applications"), strings_value(&ext.applications)),
        (owned("subsystems"), strings_value(&ext.subsystems)),
        (owned("deployed_items"), opt_count_value(count)),
    ];
    assert(entry_views(entries@) =~= seq![
        ("id"@, opt_field(ext.id)),
        ("name"@, json_opt_string(match name { Some(n) => Some(n@), None => None })),
        ("version"@, opt_field(ext.version)),
        ("applications"@, json_array(json_strings(ext.applications@))),
        ("subsystems"@, json_array(json_strings(ext.subsystems@))),
        ("deployed_items"@, json_opt_count(spec_deployed_item_count(*ext))),
    ]);
    tag_profile(object_of(entries), include_profile, profile)
}


// ── Text rows of deployed extensions ─────────────────────────────────────────

/// An optional text, or nothing.
pub open spec fn text_or_nothing(s: Option<String>) -> Seq<char> {
    match s {
        Some(x) => x@,
        None => Seq::empty(),
    }
}

/// The count cell: the number of deployed items, or `-`.
pub open spec fn count_cell(n: Option<nat>) -> Seq<char> {
    match n {
        Some(k) => crate::text::decimal_nat(k),
        None => "-"@,
    }
}

/// The table row of a deployed extension: profile, id (empty when absent),
/// catalog name (`-` when unknown), version (empty when absent),
/// applications, subsystems, and the number of deployed items.
pub open spec fn deployed_row(profile: Seq<char>, e: DeployedExtension, name: Option<Seq<char>>) -> Seq<Seq<char>> {
    seq![
        profile,
        text_or_nothing(e.id),
        value_or_dash(name),
        text_or_nothing(e.version),
        spec_join_or_dash(views(e.applications@)),
        spec_join_or_dash(views(e.subsystems@)),
        count_cell(spec_deployed_item_count(e)),
    ]
}

/// The table row of a deployed extension, named from the catalog.
pub fn deployed_extension_row(profile: &str, ext: &DeployedExtension, name: &Option<String>) -> (r: Vec<String>)
    requires
        ext.item_counts matches Some(cs) ==> counts_sum(cs@) <= u64::MAX,
    ensures
        views(r@) == deployed_row(profile@, *ext, field_view(*name)),
{
    let id = match &ext.id {
        Some(x) => owned(x.as_str()),
        None => String::new(),
    };
    let version = match &ext.version {
        Some(x) => owned(x.as_str()),
        None => String::new(),
    };
    let ids_len = ext.item_ids.len();
    let count = match ext.deployed_item_count() {
        Some(n) => {
            proof {
                let k = spec_deployed_item_count(*ext)->0;
                assert(k <= u64::MAX) by {
                    assert(ids_len as nat == ext.item_ids@.len());
                }
                assert(n as nat == k);
            }
            crate::text::decimal_u64(n)
        },
        None => owned("-"),
    };
    let r = vec![
        owned(profile),
        id,
        owned(field_or_dash(name)),
        version,
        list_display(&ext.applications),
        list_display(&ext.subsystems),
        count,
    ];
    assert(views(r@) =~= deployed_row(profile@, *ext, field_view(*name)));
    r
}

} // verus!
