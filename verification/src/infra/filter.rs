//! The attribute filter of `cx infra resources list`: `--match-all NAME=V1,V2`
//! requires every listed value, `--match-any NAME=V1,V2` accepts any of the
//! groups' alternatives.

use vstd::prelude::*;
use crate::text::{
    chars_of, eq_ignore_case, eq_ignore_case_chars, split, split_chars, split_once,
    split_once_chars, string_of, trim, trim_chars, views,
};
use super::InfraError;
use super::api::{BoolFilter, FieldMatch, Filter, Op};

verus! {

// ── Parsing `NAME=V1,V2` entries ─────────────────────────────────────────────

/// The non-empty trimmed pieces, each kept at its first occurrence only.
pub open spec fn distinct_values(pieces: Seq<Seq<char>>) -> Seq<Seq<char>>
    decreases pieces.len(),
{
    if pieces.len() == 0 {
        seq![]
    } else {
        let acc = distinct_values(pieces.drop_last());
        let v = trim(pieces.last());
        if v.len() > 0 && !acc.contains(v) {
            acc.push(v)
        } else {
            acc
        }
    }
}

/// The values of an entry: the comma-separated pieces after the `=`.
pub open spec fn entry_values(raw_values: Seq<char>) -> Seq<Seq<char>> {
    distinct_values(split(raw_values, ','))
}

/// Whether an entry is well formed: a `=`, a non-empty name before it and
/// at least one non-empty value after it.
pub open spec fn entry_ok(e: Seq<char>) -> bool {
    match split_once(e, '=') {
        Some((name, vals)) => trim(name).len() > 0 && entry_values(vals).len() > 0,
        None => false,
    }
}

/// The attribute name and values of a well-formed entry.
pub open spec fn entry_match(e: Seq<char>) -> (Seq<char>, Seq<Seq<char>>) {
    match split_once(e, '=') {
        Some((name, vals)) => (trim(name), entry_values(vals)),
        None => (seq![], seq![]),
    }
}

/// Whether an attribute name already occurs among the matches, ignoring
/// ASCII case.
pub open spec fn field_seen(acc: Seq<(Seq<char>, Seq<Seq<char>>)>, f: Seq<char>) -> bool {
    exists|j: int| 0 <= j < acc.len() && eq_ignore_case(#[trigger] acc[j].0, f)
}

/// The matches of a list of entries, or `None` when an entry is malformed or
/// repeats an earlier attribute.
pub open spec fn spec_matches(raw: Seq<Seq<char>>) -> Option<Seq<(Seq<char>, Seq<Seq<char>>)>>
    decreases raw.len(),
{
    if raw.len() == 0 {
        Some(seq![])
    } else {
        match spec_matches(raw.drop_last()) {
            None => None,
            Some(acc) => {
                let e = raw.last();
                if !entry_ok(e) || field_seen(acc, entry_match(e).0) {
                    None
                } else {
                    Some(acc.push(entry_match(e)))
                }
            },
        }
    }
}

/// The error `parse_matches` gives for the entry `e` that fails after the
/// well-formed `acc`.
pub open spec fn entry_error(err: InfraError, flag: Seq<char>, e: Seq<char>) -> bool {
    match split_once(e, '=') {
        None => match err {
            InfraError::MatchMissingEquals { flag: f, entry } => f@ == flag && entry@ == e,
            _ => false,
        },
        Some((name, vals)) => if trim(name).len() == 0 {
            match err {
                InfraError::MatchEmptyName { flag: f, entry } => f@ == flag && entry@ == e,
                _ => false,
            }
        } else if entry_values(vals).len() == 0 {
            match err {
                InfraError::MatchEmptyValue { flag: f, entry } => f@ == flag && entry@ == e,
                _ => false,
            }
        } else {
            match err {
                InfraError::MatchRepeated { flag: f, field } => f@ == flag && field@ == trim(name),
                _ => false,
            }
        },
    }
}

/// Entry `i` is the first that cannot be added: the entries before it
/// parse, and it does not.
pub open spec fn first_bad_entry(raw: Seq<Seq<char>>, i: int) -> bool {
    &&& spec_matches(raw.take(i)) is Some
    &&& spec_matches(raw.take(i + 1)) is None
}

/// The views of parsed matches.
pub open spec fn match_views(ms: Seq<FieldMatch>) -> Seq<(Seq<char>, Seq<Seq<char>>)> {
    ms.map_values(|m: FieldMatch| (m.field@, views(m.values@)))
}

proof fn lemma_matches_none_extends(raw: Seq<Seq<char>>, i: int)
    requires
        0 <= i <= raw.len(),
        spec_matches(raw.take(i)) is None,
    ensures
        spec_matches(raw) is None,
    decreases raw.len() - i,
{
    if i < raw.len() {
        assert(raw.take(i + 1).drop_last() =~= raw.take(i));
        lemma_matches_none_extends(raw, i + 1);
    } else {
        assert(raw.take(i) =~= raw);
    }
}

/// The distinct non-empty trimmed values of `raw_values`.
fn distinct_values_exec(raw_values: &[char]) -> (r: Vec<String>)
    ensures
        views(r@) == entry_values(raw_values@),
{
    let pieces = split_chars(raw_values, ',');
    let ghost ps = pieces@.map_values(|p: Vec<char>| p@);
    let mut out: Vec<String> = Vec::new();
    let n = pieces.len();
    for i in 0..n
        invariant
            n == pieces@.len(),
            ps == pieces@.map_values(|p: Vec<char>| p@),
            ps == split(raw_values@, ','),
            views(out@) == distinct_values(ps.take(i as int)),
    {
        let v = trim_chars(&pieces[i]);
        let ghost acc = distinct_values(ps.take(i as int));
        assert(ps.take((i + 1) as int).drop_last() =~= ps.take(i as int));
        assert(ps.take((i + 1) as int).last() == pieces@[i as int]@);
        if v.len() > 0 {
            // Is `v` already among the kept values?
            let mut seen = false;
            let m = out.len();
            for j in 0..m
                invariant
                    m == out@.len(),
                    views(out@) == acc,
                    seen <==> exists|k: int| 0 <= k < j && acc[k] == v@,
            {
                let eq = crate::text::chars_eq_str(&v, out[j].as_str());
                proof {
                    assert(acc[j as int] == out@[j as int]@);
                }
                if eq {
                    seen = true;
                }
            }
            assert(seen <==> acc.contains(v@));
            if !seen {
                let s = string_of(&v);
                out.push(s);
                assert(views(out@) =~= acc.push(v@));
            }
        }
    }
    assert(ps.take(n as int) =~= ps);
    out
}

/// Parses repeatable `NAME=V1,V2` entries of the flag `flag`: the name is
/// trimmed and must not be empty, the values are the trimmed, non-empty
/// comma-separated pieces (repeats dropped) and must not all be empty, and
/// a name may not repeat, ignoring ASCII case.
pub fn parse_matches(raw: &[String], flag: &str) -> (r: Result<Vec<FieldMatch>, InfraError>)
    ensures
        r is Ok <==> spec_matches(views(raw@)) is Some,
        r matches Ok(ms) ==> spec_matches(views(raw@)) == Some(match_views(ms@)),
        r matches Err(err) ==> exists|i: int|
            0 <= i < raw@.len() && first_bad_entry(views(raw@), i) && entry_error(err, flag@, raw@[i]@),
{
    let ghost rv = views(raw@);
    let mut out: Vec<FieldMatch> = Vec::new();
    let n = raw.len();
    assert(rv.take(0) =~= Seq::<Seq<char>>::empty());
    for i in 0..n
        invariant
            n == raw@.len(),
            rv == views(raw@),
            spec_matches(rv.take(i as int)) == Some(match_views(out@)),
    {
        let entry = chars_of(raw[i].as_str());
        let ghost acc = match_views(out@);
        assert(rv.take((i + 1) as int).drop_last() =~= rv.take(i as int));
        assert(rv.take((i + 1) as int).last() == raw@[i as int]@);
        let parts = split_once_chars(&entry, '=');
        match parts {
            None => {
                proof {
                    lemma_matches_none_extends(rv, i + 1);
                    assert(first_bad_entry(rv, i as int));
                }
                return Err(
                    InfraError::MatchMissingEquals {
                        flag: crate::text::owned(flag),
                        entry: crate::text::owned(raw[i].as_str()),
                    },
                );
            },
            Some((name, vals)) => {
                let field = trim_chars(&name);
                if field.len() == 0 {
                    proof {
                        lemma_matches_none_extends(rv, i + 1);
                        assert(first_bad_entry(rv, i as int));
                    }
                    return Err(
                        InfraError::MatchEmptyName {
                            flag: crate::text::owned(flag),
                            entry: crate::text::owned(raw[i].as_str()),
                        },
                    );
                }
                let values = distinct_values_exec(&vals);
                if values.len() == 0 {
                    proof {
                        lemma_matches_none_extends(rv, i + 1);
                        assert(first_bad_entry(rv, i as int));
                    }
                    return Err(
                        InfraError::MatchEmptyValue {
                            flag: crate::text::owned(flag),
                            entry: crate::text::owned(raw[i].as_str()),
                        },
                    );
                }
                let mut repeated = false;
                let m = out.len();
                for j in 0..m
                    invariant
                        m == out@.len(),
                        acc == match_views(out@),
                        repeated <==> exists|k: int|
                            0 <= k < j && eq_ignore_case(#[trigger] acc[k].0, field@),
                {
                    let fj = chars_of(out[j].field.as_str());
                    let same = eq_ignore_case_chars(&fj, &field);
                    proof {
                        assert(acc[j as int].0 == out@[j as int].field@);
                    }
                    if same {
                        repeated = true;
                    }
                }
                assert(repeated <==> field_seen(acc, field@));
                if repeated {
                    proof {
                        lemma_matches_none_extends(rv, i + 1);
                        assert(first_bad_entry(rv, i as int));
                    }
                    return Err(
                        InfraError::MatchRepeated {
                            flag: crate::text::owned(flag),
                            field: string_of(&field),
                        },
                    );
                }
                out.push(FieldMatch { field: string_of(&field), values });
                assert(match_views(out@) =~= acc.push(entry_match(raw@[i as int]@)));
            },
        }
    }
    assert(rv.take(n as int) =~= rv);
    Ok(out)
}

// ── Building the filter tree ─────────────────────────────────────────────────

/// Each `--match-all` attribute expanded into one single-value match per
/// value, in order: every value is required.
pub open spec fn expand(ms: Seq<(Seq<char>, Seq<Seq<char>>)>) -> Seq<(Seq<char>, Seq<Seq<char>>)>
    decreases ms.len(),
{
    if ms.len() == 0 {
        seq![]
    } else {
        let m = ms.last();
        expand(ms.drop_last()) + m.1.map_values(|v: Seq<char>| (m.0, seq![v]))
    }
}

/// `f` is the single match `m`.
pub open spec fn is_match(f: Filter, m: (Seq<char>, Seq<Seq<char>>)) -> bool {
    match f {
        Filter::Match(fm) => fm.field@ == m.0 && views(fm.values@) == m.1,
        _ => false,
    }
}

/// `f` combines exactly the matches `ms`, in order, with `op`.
pub open spec fn is_group(f: Filter, op: Op, ms: Seq<(Seq<char>, Seq<Seq<char>>)>) -> bool {
    match f {
        Filter::Bool(b) => b.op == op && b.operands@.len() == ms.len() && forall|i: int|
            0 <= i < ms.len() ==> is_match(#[trigger] b.operands@[i], ms[i]),
        _ => false,
    }
}

/// The filter built from the required single-value matches `ands` and the
/// alternatives `any`: the `--match-any` group is one OR node (or the match
/// itself when alone), every node is ANDed, and a lone node stands alone.
pub open spec fn filter_shape(
    r: Option<Filter>,
    ands: Seq<(Seq<char>, Seq<Seq<char>>)>,
    any: Seq<(Seq<char>, Seq<Seq<char>>)>,
) -> bool {
    if any.len() <= 1 {
        let ops = ands + any;
        if ops.len() == 0 {
            r is None
        } else if ops.len() == 1 {
            r matches Some(f) && is_match(f, ops[0])
        } else {
            r matches Some(f) && is_group(f, Op::And, ops)
        }
    } else if ands.len() == 0 {
        r matches Some(f) && is_group(f, Op::Or, any)
    } else {
        match r {
            Some(Filter::Bool(b)) => b.op == Op::And && b.operands@.len() == ands.len() + 1 && (
            forall|i: int| 0 <= i < ands.len() ==> is_match(#[trigger] b.operands@[i], ands[i]))
                && is_group(b.operands@[ands.len() as int], Op::Or, any),
            _ => false,
        }
    }
}

/// The first `--match-all` attribute that also appears, ignoring ASCII
/// case, among the `--match-any` attributes.
pub open spec fn first_conflict(
    all: Seq<(Seq<char>, Seq<Seq<char>>)>,
    any: Seq<(Seq<char>, Seq<Seq<char>>)>,
) -> Option<Seq<char>>
    decreases all.len(),
{
    if all.len() == 0 {
        None
    } else if field_seen(any, all[0].0) {
        Some(all[0].0)
    } else {
        first_conflict(all.drop_first(), any)
    }
}

/// `first_conflict` is the first `--match-all` attribute named among the
/// `--match-any` ones: there is one exactly when some attribute is in both
/// groups (ignoring ASCII case), and it is the earliest such in
/// `--match-all`.
pub proof fn lemma_first_conflict_is_first_shared(
    all: Seq<(Seq<char>, Seq<Seq<char>>)>,
    any: Seq<(Seq<char>, Seq<Seq<char>>)>,
)
    ensures
        first_conflict(all, any) is Some <==> exists|i: int| 0 <= i < all.len() && field_seen(any, #[trigger] all[i].0),
        first_conflict(all, any) matches Some(f) ==> exists|i: int|
            0 <= i < all.len() && all[i].0 == f && field_seen(any, f) && forall|k: int|
                0 <= k < i ==> !field_seen(any, #[trigger] all[k].0),
    decreases all.len(),
{
    if all.len() > 0 {
        lemma_first_conflict_is_first_shared(all.drop_first(), any);
        if field_seen(any, all[0].0) {
            assert(all[0].0 == all[0].0);
        } else {
            assert forall|i: int| 1 <= i < all.len() implies all[i].0 == #[trigger] all.drop_first()[i - 1].0 by {}
            if exists|i: int| 0 <= i < all.len() && field_seen(any, #[trigger] all[i].0) {
                let i = choose|i: int| 0 <= i < all.len() && field_seen(any, #[trigger] all[i].0);
                assert(all.drop_first()[i - 1].0 == all[i].0);
            }
            if first_conflict(all, any) is Some {
                let f = first_conflict(all, any)->0;
                let j = choose|j: int|
                    0 <= j < all.drop_first().len() && all.drop_first()[j].0 == f && field_seen(any, f)
                        && forall|k: int| 0 <= k < j ==> !field_seen(any, #[trigger] all.drop_first()[k].0);
                assert(all[j + 1].0 == f);
                assert forall|k: int| 0 <= k < j + 1 implies !field_seen(any, #[trigger] all[k].0) by {
                    if k > 0 {
                        assert(all[k].0 == all.drop_first()[k - 1].0);
                    }
                }
            }
        }
    }
}

proof fn lemma_expand_push(ms: Seq<(Seq<char>, Seq<Seq<char>>)>, m: (Seq<char>, Seq<Seq<char>>))
    ensures
        expand(ms.push(m)) == expand(ms) + m.1.map_values(|v: Seq<char>| (m.0, seq![v])),
{
    assert(ms.push(m).drop_last() =~= ms);
}

/// Builds the filter sent with `list` from the two flag groups, or `None`
/// when neither is given. An attribute in both groups is refused: it would
/// AND two nodes on one field, matching nothing or collapsing silently.
pub fn build_filter(match_all: &[String], match_any: &[String]) -> (r: Result<
    Option<Filter>,
    InfraError,
>)
    ensures
        ({
            let all = spec_matches(views(match_all@));
            let any = spec_matches(views(match_any@));
            match (all, any) {
                (Some(a), Some(b)) => match first_conflict(a, b) {
                    Some(f) => r matches Err(InfraError::MatchInBothGroups { field }) && field@
                        == f,
                    None => r matches Ok(filter) && filter_shape(filter, expand(a), b),
                },
                (None, _) => r matches Err(e) && exists|i: int|
                    0 <= i < match_all@.len() && first_bad_entry(views(match_all@), i) && entry_error(
                        e,
                        "--match-all"@,
                        match_all@[i]@,
                    ),
                (Some(_), None) => r matches Err(e) && exists|i: int|
                    0 <= i < match_any@.len() && first_bad_entry(views(match_any@), i) && entry_error(
                        e,
                        "--match-any"@,
                        match_any@[i]@,
                    ),
            }
        }),
{
    let all = parse_matches(match_all, "--match-all")?;
    let any_matches = parse_matches(match_any, "--match-any")?;
    let ghost a = match_views(all@);
    let ghost b = match_views(any_matches@);
    assert(a.len() == all@.len());
    assert(b.len() == any_matches@.len());
    assert(spec_matches(views(match_all@)) == Some(a));
    assert(spec_matches(views(match_any@)) == Some(b));

    // The first --match-all attribute also named in --match-any, if any.
    let na = all.len();
    let nb = any_matches.len();
    for i in 0..na
        invariant
            na == all@.len(),
            nb == any_matches@.len(),
            a == match_views(all@),
            a.len() == na,
            b.len() == nb,
            spec_matches(views(match_all@)) == Some(a),
            spec_matches(views(match_any@)) == Some(b),
            b == match_views(any_matches@),
            forall|k: int| 0 <= k < i ==> !field_seen(b, #[trigger] a[k].0),
    {
        let fi = chars_of(all[i].field.as_str());
        assert(a[i as int] == (all@[i as int].field@, views(all@[i as int].values@)));
        let mut hit = false;
        for j in 0..nb
            invariant
                nb == any_matches@.len(),
                b == match_views(any_matches@),
                b.len() == nb,
                0 <= i < a.len(),
                fi@ == a[i as int].0,
                hit <==> exists|k: int| 0 <= k < j && eq_ignore_case(#[trigger] b[k].0, fi@),
        {
            let fj = chars_of(any_matches[j].field.as_str());
            let same = eq_ignore_case_chars(&fj, &fi);
            proof {
                assert(b[j as int].0 == any_matches@[j as int].field@);
            }
            if same {
                hit = true;
            }
        }
        if hit {
            proof {
                let k = choose|k: int| 0 <= k < nb && eq_ignore_case(#[trigger] b[k].0, fi@);
                assert(eq_ignore_case(b[k].0, a[i as int].0));
                assert(field_seen(b, a[i as int].0));
                lemma_first_conflict_at(a, b, i as int);
            }
            let field = string_of(&fi);
            assert(first_conflict(a, b) == Some(field@));
            return Err(InfraError::MatchInBothGroups { field });
        }
    }
    proof {
        lemma_no_conflict(a, b);
    }

    // Every --match-all value becomes its own single-value match.
    let mut operands: Vec<Filter> = Vec::new();
    let mut all_iter = all;
    let ghost orig_all = all_iter@;
    let mut k: usize = 0;
    assert(orig_all.take(0) =~= Seq::<FieldMatch>::empty());
    assert(match_views(Seq::<FieldMatch>::empty()) =~= Seq::<(Seq<char>, Seq<Seq<char>>)>::empty());
    while k < na
        invariant
            na == orig_all.len(),
            a == match_views(orig_all),
            a.len() == na,
            k <= na,
            operands@.len() == expand(a.take(k as int)).len(),
            forall|i: int|
                0 <= i < operands@.len() ==> is_match(
                    #[trigger] operands@[i],
                    expand(a.take(k as int))[i],
                ),
            all_iter@ == orig_all,
        decreases na - k,
    {
        let m = &all_iter[k];
        let ghost before = operands@;
        let ghost mk = a[k as int];
        proof {
            assert(a.take((k + 1) as int) =~= a.take(k as int).push(mk));
            lemma_expand_push(a.take(k as int), mk);
        }
        let nv = m.values.len();
        let ghost base = expand(a.take(k as int));
        for j in 0..nv
            invariant
                nv == m.values@.len(),
                mk == (m.field@, views(m.values@)),
                operands@.len() == base.len() + j,
                forall|i: int| 0 <= i < base.len() ==> is_match(#[trigger] operands@[i], base[i]),
                forall|i: int|
                    base.len() <= i < base.len() + j ==> is_match(
                        #[trigger] operands@[i],
                        (mk.0, seq![mk.1[i - base.len()]]),
                    ),
        {
            let value = crate::text::owned(m.values[j].as_str());
            let fm = FieldMatch { field: crate::text::owned(m.field.as_str()), values: vec![value] };
            proof {
                assert(views(fm.values@) =~= seq![mk.1[j as int]]);
            }
            operands.push(Filter::Match(fm));
        }
        proof {
            let ext = mk.1.map_values(|v: Seq<char>| (mk.0, seq![v]));
            assert forall|i: int|
                0 <= i < operands@.len() implies is_match(
                #[trigger] operands@[i],
                expand(a.take((k + 1) as int))[i],
            ) by {
                if i >= base.len() {
                    assert(expand(a.take((k + 1) as int))[i] == ext[i - base.len()]);
                }
            }
        }
        k = k + 1;
    }
    assert(a.take(na as int) =~= a);
    let ghost ands = expand(a);

    // The --match-any group: the match itself when alone, an OR node otherwise.
    let mut any_nodes: Vec<Filter> = Vec::new();
    for j in 0..nb
        invariant
            nb == any_matches@.len(),
            b == match_views(any_matches@),
            b.len() == nb,
            any_nodes@.len() == j,
            forall|i: int| 0 <= i < j ==> is_match(#[trigger] any_nodes@[i], b[i]),
    {
        let m = &any_matches[j];
        let fm = FieldMatch {
            field: crate::text::owned(m.field.as_str()),
            values: clone_strings(&m.values),
        };
        any_nodes.push(Filter::Match(fm));
    }
    let n_and = operands.len();
    assert(operands@.len() == ands.len());
    assert(forall|i: int| 0 <= i < ands.len() ==> is_match(#[trigger] operands@[i], ands[i]));
    let ghost ops_before = operands@;
    if nb == 1 {
        let ghost nodes = any_nodes@;
        let node = any_nodes.pop().unwrap();
        assert(node == nodes[0]);
        assert(is_match(node, b[0]));
        operands.push(node);
        proof {
            assert forall|i: int| 0 <= i < operands@.len() implies is_match(
                #[trigger] operands@[i],
                (ands + b)[i],
            ) by {
                if i < ands.len() {
                    assert((ands + b)[i] == ands[i]);
                } else {
                    assert((ands + b)[i] == b[0]);
                }
            }
        }
    } else if nb > 1 {
        operands.push(Filter::Bool(BoolFilter { op: Op::Or, operands: any_nodes }));
    } else {
        proof {
            assert(ands + b =~= ands);
        }
    }
    proof {
        if nb > 1 {
            assert(is_group(operands@.last(), Op::Or, b));
            assert forall|i: int| 0 <= i < ands.len() implies is_match(
                #[trigger] operands@[i],
                ands[i],
            ) by {
                assert(operands@[i] == ops_before[i]);
            }
        }
    }
    if operands.len() == 1 {
        let f = operands.pop();
        return Ok(f);
    }
    if operands.len() == 0 {
        return Ok(None);
    }
    let ghost ops = operands@;
    let r = Filter::Bool(BoolFilter { op: Op::And, operands });
    proof {
        if nb <= 1 {
            assert forall|i: int| 0 <= i < ops.len() implies is_match(
                #[trigger] ops[i],
                (ands + b)[i],
            ) by {}
        }
    }
    Ok(Some(r))
}

/// A copy of a list of strings.
pub fn clone_strings(v: &[String]) -> (r: Vec<String>)
    ensures
        views(r@) == views(v@),
{
    let mut r: Vec<String> = Vec::new();
    let n = v.len();
    for i in 0..n
        invariant
            n == v@.len(),
            views(r@) == views(v@.take(i as int)),
    {
        let ghost before = r@;
        let x = crate::text::owned(v[i].as_str());
        r.push(x);
        proof {
            crate::text::lemma_views_push(before, x);
            assert(v@.take((i + 1) as int) =~= v@.take(i as int).push(v@[i as int]));
            crate::text::lemma_views_push(v@.take(i as int), v@[i as int]);
        }
    }
    assert(v@.take(n as int) =~= v@);
    r
}

proof fn lemma_first_conflict_at(
    a: Seq<(Seq<char>, Seq<Seq<char>>)>,
    b: Seq<(Seq<char>, Seq<Seq<char>>)>,
    i: int,
)
    requires
        0 <= i < a.len(),
        forall|k: int| 0 <= k < i ==> !field_seen(b, #[trigger] a[k].0),
        field_seen(b, a[i].0),
    ensures
        first_conflict(a, b) == Some(a[i].0),
    decreases i,
{
    if i > 0 {
        assert(!field_seen(b, a[0].0));
        assert forall|k: int| 0 <= k < i - 1 implies !field_seen(b, #[trigger] a.drop_first()[k].0) by {
            assert(a.drop_first()[k] == a[k + 1]);
        }
        lemma_first_conflict_at(a.drop_first(), b, i - 1);
    }
}

proof fn lemma_no_conflict(a: Seq<(Seq<char>, Seq<Seq<char>>)>, b: Seq<(Seq<char>, Seq<Seq<char>>)>)
    requires
        forall|k: int| 0 <= k < a.len() ==> !field_seen(b, #[trigger] a[k].0),
    ensures
        first_conflict(a, b) is None,
    decreases a.len(),
{
    if a.len() > 0 {
        assert forall|k: int| 0 <= k < a.len() - 1 implies !field_seen(b, #[trigger] a.drop_first()[k].0) by {
            assert(a.drop_first()[k] == a[k + 1]);
        }
        lemma_no_conflict(a.drop_first(), b);
    }
}

// ── Laws ─────────────────────────────────────────────────────────────────────

/// The values kept of a list of pieces are non-empty and each occurs once.
proof fn lemma_distinct_values(pieces: Seq<Seq<char>>)
    ensures
        forall|i: int|
            0 <= i < distinct_values(pieces).len() ==> #[trigger] distinct_values(pieces)[i].len()
                > 0,
        forall|i: int, j: int|
            0 <= i < j < distinct_values(pieces).len() ==> distinct_values(pieces)[i]
                != distinct_values(pieces)[j],
    decreases pieces.len(),
{
    if pieces.len() > 0 {
        lemma_distinct_values(pieces.drop_last());
        let acc = distinct_values(pieces.drop_last());
        let v = trim(pieces.last());
        let d = distinct_values(pieces);
        if v.len() > 0 && !acc.contains(v) {
            assert(d == acc.push(v));
            assert forall|i: int| 0 <= i < d.len() implies #[trigger] d[i].len() > 0 by {
                if i < acc.len() {
                    assert(d[i] == acc[i]);
                }
            }
            assert forall|i: int, j: int| 0 <= i < j < d.len() implies d[i] != d[j] by {
                assert(d[i] == acc[i]);
                if j < acc.len() {
                    assert(d[j] == acc[j]);
                } else {
                    assert(d[j] == v);
                    if d[i] == v {
                        assert(acc.contains(v));
                    }
                }
            }
        } else {
            assert(d == acc);
        }
    }
}

/// Parsed `NAME=V1,V2` entries name each attribute once, whatever its ASCII
/// case, and give each at least one value, none of them empty or repeated.
pub proof fn lemma_parsed_matches_are_distinct(raw: Seq<Seq<char>>)
    requires
        spec_matches(raw) is Some,
    ensures
        ({
            let ms = spec_matches(raw)->0;
            &&& forall|i: int, j: int|
                0 <= i < j < ms.len() ==> !eq_ignore_case(ms[i].0, ms[j].0)
            &&& forall|i: int| 0 <= i < ms.len() ==> (#[trigger] ms[i]).1.len() > 0
            &&& forall|i: int, k: int|
                0 <= i < ms.len() && 0 <= k < ms[i].1.len() ==> ms[i].1[k].len() > 0
            &&& forall|i: int, k: int, l: int|
                0 <= i < ms.len() && 0 <= k < l < ms[i].1.len() ==> ms[i].1[k] != ms[i].1[l]
        }),
    decreases raw.len(),
{
    if raw.len() > 0 {
        lemma_parsed_matches_are_distinct(raw.drop_last());
        let acc = spec_matches(raw.drop_last())->0;
        let e = raw.last();
        let m = entry_match(e);
        let ms = spec_matches(raw)->0;
        assert(ms == acc.push(m));
        match split_once(e, '=') {
            Some((name, vals)) => {
                lemma_distinct_values(split(vals, ','));
            },
            None => {},
        }
        assert forall|i: int, j: int| 0 <= i < j < ms.len() implies !eq_ignore_case(
            ms[i].0,
            ms[j].0,
        ) by {
            if j == ms.len() - 1 {
                assert(ms[i] == acc[i]);
                if eq_ignore_case(ms[i].0, ms[j].0) {
                    assert(eq_ignore_case(acc[i].0, m.0));
                    assert(field_seen(acc, m.0));
                }
            } else {
                assert(ms[i] == acc[i] && ms[j] == acc[j]);
            }
        }
        assert forall|i: int, k: int|
            0 <= i < ms.len() && 0 <= k < ms[i].1.len() implies ms[i].1[k].len() > 0 by {
            if i < ms.len() - 1 {
                assert(ms[i] == acc[i]);
            }
        }
        assert forall|i: int, k: int, l: int|
            0 <= i < ms.len() && 0 <= k < l < ms[i].1.len() implies ms[i].1[k] != ms[i].1[l] by {
            if i < ms.len() - 1 {
                assert(ms[i] == acc[i]);
            }
        }
    }
}

} // verus!
