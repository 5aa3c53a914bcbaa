//! The deprecated `--name-filter` / `--scope` form of `list`, which still
//! requires a category and a type.

use vstd::prelude::*;
use crate::request::{ApiRequest, Method};
use crate::text::{
    chars_eq, chars_eq_str, chars_of, decimal, decimal_i64, split_once, split_once_chars,
    string_of, trim, trim_chars, views,
};
use super::{InfraError, PageWindow};
use super::api::BASE_PATH;

verus! {

/// Parameters of a legacy `list` request.
pub struct LegacyListParams<'p> {
    pub category: &'p str,
    pub resource_type: &'p str,
    pub name_filter: Option<&'p str>,
    pub scope_filters: &'p [(String, String)],
    pub start_row: Option<i64>,
    pub end_row: Option<i64>,
}

/// The scope keys the API accepts.
pub open spec fn allowed_scope_key(k: Seq<char>) -> bool {
    k == "service"@ || k == "environment"@ || k == "team"@
}

/// The key and value of a `key=value` scope entry, trimmed.
pub open spec fn scope_entry(e: Seq<char>) -> (Seq<char>, Seq<char>) {
    match split_once(e, '=') {
        Some((k, v)) => (trim(k), trim(v)),
        None => (seq![], seq![]),
    }
}

/// Index of the filter already holding key `k`, if any.
pub open spec fn scope_key_index(acc: Seq<(Seq<char>, Seq<char>)>, k: Seq<char>) -> Option<int>
    decreases acc.len(),
{
    if acc.len() == 0 {
        None
    } else if acc[0].0 == k {
        Some(0)
    } else {
        match scope_key_index(acc.drop_first(), k) {
            Some(i) => Some(i + 1),
            None => None,
        }
    }
}

/// The scope filters of a list of entries, or `None` when one is refused.
pub open spec fn spec_scope_filters(raw: Seq<Seq<char>>) -> Option<Seq<(Seq<char>, Seq<char>)>>
    decreases raw.len(),
{
    if raw.len() == 0 {
        Some(seq![])
    } else {
        match spec_scope_filters(raw.drop_last()) {
            None => None,
            Some(acc) => {
                let e = raw.last();
                let (k, v) = scope_entry(e);
                if split_once(e, '=') is None || !allowed_scope_key(k) || v.len() == 0
                    || scope_key_index(acc, k) is Some {
                    None
                } else {
                    Some(acc.push((k, v)))
                }
            },
        }
    }
}

/// The error for the entry `e` refused after the accepted filters `acc`.
pub open spec fn scope_error(err: InfraError, e: Seq<char>, acc: Seq<(Seq<char>, Seq<char>)>) -> bool {
    let (k, v) = scope_entry(e);
    if split_once(e, '=') is None {
        match err {
            InfraError::ScopeMissingEquals { raw } => raw@ == e,
            _ => false,
        }
    } else if !allowed_scope_key(k) {
        match err {
            InfraError::ScopeUnknownKey { key } => key@ == k,
            _ => false,
        }
    } else if v.len() == 0 {
        match err {
            InfraError::ScopeEmptyValue { raw } => raw@ == e,
            _ => false,
        }
    } else {
        match err {
            InfraError::ScopeRepeated { key, existing, value } => key@ == k && value@ == v && (
            scope_key_index(acc, k) matches Some(j) && existing@ == acc[j].1),
            _ => false,
        }
    }
}

/// The views of key/value pairs.
pub open spec fn pair_views(ps: Seq<(String, String)>) -> Seq<(Seq<char>, Seq<char>)> {
    ps.map_values(|p: (String, String)| (p.0@, p.1@))
}

proof fn lemma_scope_none_extends(raw: Seq<Seq<char>>, i: int)
    requires
        0 <= i <= raw.len(),
        spec_scope_filters(raw.take(i)) is None,
    ensures
        spec_scope_filters(raw) is None,
    decreases raw.len() - i,
{
    if i < raw.len() {
        assert(raw.take(i + 1).drop_last() =~= raw.take(i));
        lemma_scope_none_extends(raw, i + 1);
    } else {
        assert(raw.take(i) =~= raw);
    }
}

proof fn lemma_scope_key_index(acc: Seq<(Seq<char>, Seq<char>)>, k: Seq<char>, j: int)
    requires
        0 <= j < acc.len(),
        acc[j].0 == k,
        forall|i: int| 0 <= i < j ==> acc[i].0 != k,
    ensures
        scope_key_index(acc, k) == Some(j),
    decreases j,
{
    if j > 0 {
        assert forall|i: int| 0 <= i < j - 1 implies acc.drop_first()[i].0 != k by {
            assert(acc.drop_first()[i] == acc[i + 1]);
        }
        lemma_scope_key_index(acc.drop_first(), k, j - 1);
    }
}

proof fn lemma_scope_key_absent(acc: Seq<(Seq<char>, Seq<char>)>, k: Seq<char>)
    requires
        forall|i: int| 0 <= i < acc.len() ==> acc[i].0 != k,
    ensures
        scope_key_index(acc, k) is None,
    decreases acc.len(),
{
    if acc.len() > 0 {
        assert forall|i: int| 0 <= i < acc.len() - 1 implies acc.drop_first()[i].0 != k by {
            assert(acc.drop_first()[i] == acc[i + 1]);
        }
        lemma_scope_key_absent(acc.drop_first(), k);
    }
}

/// Whether `k` is one of the accepted scope keys.
fn is_allowed_scope_key(k: &[char]) -> (r: bool)
    ensures
        r == allowed_scope_key(k@),
{
    chars_eq_str(k, "service") || chars_eq_str(k, "environment") || chars_eq_str(k, "team")
}

/// Parses repeatable `--scope key=value` flags. Keys are checked against the
/// ones the API accepts (`service`, `environment`, `team`) so a typo fails
/// fast; the value must not be empty; a key given twice is refused, since
/// each scope field holds one value and distinct keys combine with AND.
pub fn parse_scope_filters(scope: &[String]) -> (r: Result<Vec<(String, String)>, InfraError>)
    ensures
        r is Ok <==> spec_scope_filters(views(scope@)) is Some,
        r matches Ok(fs) ==> spec_scope_filters(views(scope@)) == Some(pair_views(fs@)),
        r matches Err(err) ==> exists|i: int|
            0 <= i < scope@.len() && (spec_scope_filters(#[trigger] views(scope@).take(i)) matches Some(acc)
                && spec_scope_filters(views(scope@).take(i + 1)) is None && scope_error(
                err,
                scope@[i]@,
                acc,
            )),
{
    let ghost rv = views(scope@);
    let mut filters: Vec<(String, String)> = Vec::new();
    let n = scope.len();
    assert(rv.take(0) =~= Seq::<Seq<char>>::empty());
    assert(pair_views(filters@) =~= Seq::<(Seq<char>, Seq<char>)>::empty());
    for i in 0..n
        invariant
            n == scope@.len(),
            rv == views(scope@),
            spec_scope_filters(rv.take(i as int)) == Some(pair_views(filters@)),
    {
        let raw = chars_of(scope[i].as_str());
        let ghost acc = pair_views(filters@);
        assert(rv.take((i + 1) as int).drop_last() =~= rv.take(i as int));
        assert(rv.take((i + 1) as int).last() == scope@[i as int]@);
        match split_once_chars(&raw, '=') {
            None => {
                proof {
                    lemma_scope_none_extends(rv, i + 1);
                }
                return Err(InfraError::ScopeMissingEquals { raw: crate::text::owned(scope[i].as_str()) });
            },
            Some((k, v)) => {
                let key = trim_chars(&k);
                let value = trim_chars(&v);
                if !is_allowed_scope_key(&key) {
                    proof {
                        lemma_scope_none_extends(rv, i + 1);
                    }
                    return Err(InfraError::ScopeUnknownKey { key: string_of(&key) });
                }
                if value.len() == 0 {
                    proof {
                        lemma_scope_none_extends(rv, i + 1);
                    }
                    return Err(InfraError::ScopeEmptyValue { raw: crate::text::owned(scope[i].as_str()) });
                }
                let m = filters.len();
                let mut j: usize = 0;
                #[verifier::loop_isolation(false)]
                while j < m
                    invariant
                        m == filters@.len(),
                        acc == pair_views(filters@),
                        j <= m,
                        forall|t: int| 0 <= t < j ==> acc[t].0 != key@,
                    decreases m - j,
                {
                    let kj = chars_of(filters[j].0.as_str());
                    assert(acc[j as int] == (filters@[j as int].0@, filters@[j as int].1@));
                    if chars_eq(&kj, &key) {
                        proof {
                            lemma_scope_key_index(acc, key@, j as int);
                            lemma_scope_none_extends(rv, i + 1);
                        }
                        return Err(
                            InfraError::ScopeRepeated {
                                key: string_of(&key),
                                existing: crate::text::owned(filters[j].1.as_str()),
                                value: string_of(&value),
                            },
                        );
                    }
                    j = j + 1;
                }
                proof {
                    lemma_scope_key_absent(acc, key@);
                }
                let ghost before = filters@;
                filters.push((string_of(&key), string_of(&value)));
                assert(pair_views(filters@) =~= acc.push((key@, value@)));
            },
        }
    }
    assert(rv.take(n as int) =~= rv);
    Ok(filters)
}

/// The `POST` that lists resources the legacy way: one `scopeFilter.<key>`
/// query pair per scope filter, then `startRow` and `endRow` when given. The
/// body (category, type, optional name filter) travels separately.
pub fn legacy_list_request(params: &LegacyListParams) -> (r: ApiRequest)
    ensures
        r.method == Method::Post,
        r.path@ == BASE_PATH@,
        r.query@.len() == params.scope_filters@.len() + (if params.start_row is Some {
            1int
        } else {
            0
        }) + (if params.end_row is Some {
            1int
        } else {
            0
        }),
        forall|i: int|
            0 <= i < params.scope_filters@.len() ==> #[trigger] r.query@[i].0@ == "scopeFilter."@
                + params.scope_filters@[i].0@ && r.query@[i].1@ == params.scope_filters@[i].1@,
        params.start_row matches Some(s) ==> r.query@[params.scope_filters@.len() as int].0@
            == "startRow"@ && r.query@[params.scope_filters@.len() as int].1@ == decimal(s as int),
        params.end_row matches Some(e) ==> r.query@.last().0@ == "endRow"@ && r.query@.last().1@
            == decimal(e as int),
{
    proof {
        reveal_strlit("");
    }
    let mut r = ApiRequest::new(Method::Post, BASE_PATH, "");
    assert(r.path@ =~= BASE_PATH@);
    let n = params.scope_filters.len();
    let mut i: usize = 0;
    while i < n
        invariant
            i <= n,
            n == params.scope_filters@.len(),
            r.method == Method::Post,
            r.path@ == BASE_PATH@,
            r.query@.len() == i,
            forall|j: int|
                0 <= j < i ==> #[trigger] r.query@[j].0@ == "scopeFilter."@
                    + params.scope_filters@[j].0@ && r.query@[j].1@ == params.scope_filters@[j].1@,
        decreases n - i,
    {
        let mut key = crate::text::owned("scopeFilter.");
        key.append(params.scope_filters[i].0.as_str());
        let ghost before = r.query@;
        r.push_query(key.as_str(), params.scope_filters[i].1.as_str());
        proof {
            assert forall|j: int| 0 <= j < i + 1 implies #[trigger] r.query@[j].0@ == "scopeFilter."@
                + params.scope_filters@[j].0@ && r.query@[j].1@ == params.scope_filters@[j].1@ by {
                if j < i {
                    assert(r.query@[j] == before[j]);
                }
            }
        }
        i = i + 1;
    }
    let ghost q0 = r.query@;
    if let Some(start) = params.start_row {
        r.push_query("startRow", decimal_i64(start).as_str());
    }
    let ghost q1 = r.query@;
    if let Some(end) = params.end_row {
        r.push_query("endRow", decimal_i64(end).as_str());
    }
    proof {
        assert forall|i: int| 0 <= i < n implies #[trigger] r.query@[i] == q0[i] by {
            assert(q1[i] == q0[i]);
        }
        if params.start_row is Some {
            assert(r.query@[n as int] == q1[n as int]);
        }
    }
    r
}

/// The validated inputs of a legacy `list`.
pub struct LegacyListPlan {
    pub category: String,
    pub resource_type: String,
    pub name_filter: Option<String>,
    pub scope_filters: Vec<(String, String)>,
}

/// Validates the inputs of the legacy `list` form: both a category and a
/// type are required and must not be empty once trimmed, the name filter is
/// trimmed and dropped when empty, the scope flags are parsed, and the page
/// window is checked, in that order.
pub fn plan_list_legacy(
    category: Option<&str>,
    resource_type: Option<&str>,
    name_filter: Option<&str>,
    scope: &[String],
    window: PageWindow,
) -> (r: Result<LegacyListPlan, InfraError>)
    ensures
        (category is None || resource_type is None) ==> r matches Err(
            InfraError::LegacyNeedsCategoryAndType,
        ),
        r matches Ok(p) ==> {
            &&& category matches Some(c) && p.category@ == trim(c@) && p.category@.len() > 0
            &&& resource_type matches Some(t) && p.resource_type@ == trim(t@)
                && p.resource_type@.len() > 0
            &&& match name_filter {
                Some(nf) => if trim(nf@).len() > 0 {
                    p.name_filter matches Some(x) && x@ == trim(nf@)
                } else {
                    p.name_filter is None
                },
                None => p.name_filter is None,
            }
            &&& spec_scope_filters(views(scope@)) == Some(pair_views(p.scope_filters@))
            &&& window.spec_valid()
        },
        (category matches Some(c) && resource_type matches Some(t) && trim(c@).len() > 0 && trim(
            t@,
        ).len() > 0 && spec_scope_filters(views(scope@)) is Some && window.spec_valid())
            ==> r is Ok,
{
    let (category, resource_type) = match (category, resource_type) {
        (Some(c), Some(t)) => (c, t),
        _ => {
            return Err(InfraError::LegacyNeedsCategoryAndType);
        },
    };
    let category = super::require_non_empty(category, "--category")?;
    let resource_type = super::require_non_empty(resource_type, "--type")?;
    let name_filter = match name_filter {
        Some(nf) => {
            let t = crate::text::trim_str(nf);
            if t.unicode_len() > 0 {
                Some(t)
            } else {
                None
            }
        },
        None => None,
    };
    let scope_filters = parse_scope_filters(scope)?;
    window.validate()?;
    Ok(
        LegacyListPlan {
            category: crate::text::owned(category),
            resource_type: crate::text::owned(resource_type),
            name_filter,
            scope_filters,
        },
    )
}

// ── Laws ─────────────────────────────────────────────────────────────────────

proof fn lemma_scope_key_none(acc: Seq<(Seq<char>, Seq<char>)>, k: Seq<char>)
    requires
        scope_key_index(acc, k) is None,
    ensures
        forall|i: int| 0 <= i < acc.len() ==> acc[i].0 != k,
    decreases acc.len(),
{
    if acc.len() > 0 {
        lemma_scope_key_none(acc.drop_first(), k);
        assert forall|i: int| 0 <= i < acc.len() implies acc[i].0 != k by {
            if i > 0 {
                assert(acc[i] == acc.drop_first()[i - 1]);
            }
        }
    }
}

/// Accepted scope filters use only the keys the API knows, each once, with
/// a non-empty value: a key cannot be given twice to mean either value.
pub proof fn lemma_scope_filters_have_distinct_keys(raw: Seq<Seq<char>>)
    requires
        spec_scope_filters(raw) is Some,
    ensures
        ({
            let fs = spec_scope_filters(raw)->0;
            &&& forall|i: int, j: int| 0 <= i < j < fs.len() ==> fs[i].0 != fs[j].0
            &&& forall|i: int|
                0 <= i < fs.len() ==> allowed_scope_key(#[trigger] fs[i].0) && fs[i].1.len() > 0
        }),
    decreases raw.len(),
{
    if raw.len() > 0 {
        lemma_scope_filters_have_distinct_keys(raw.drop_last());
        let acc = spec_scope_filters(raw.drop_last())->0;
        let (k, v) = scope_entry(raw.last());
        let fs = spec_scope_filters(raw)->0;
        assert(fs == acc.push((k, v)));
        assert(scope_key_index(acc, k) is None);
        lemma_scope_key_none(acc, k);
        assert forall|i: int, j: int| 0 <= i < j < fs.len() implies fs[i].0 != fs[j].0 by {
            assert(fs[i] == acc[i]);
            if j < fs.len() - 1 {
                assert(fs[j] == acc[j]);
            }
        }
        assert forall|i: int| 0 <= i < fs.len() implies allowed_scope_key(#[trigger] fs[i].0)
            && fs[i].1.len() > 0 by {
            if i < fs.len() - 1 {
                assert(fs[i] == acc[i]);
            }
        }
    }
}

} // verus!
