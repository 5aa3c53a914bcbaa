//! `cx metrics`: label sets as text, the wildcard pattern of the name
//! search, and the flat rows range results are laid out in.

use vstd::prelude::*;
use crate::text::{
    chars_eq, chars_of, contains, ends_with, first_index_of, has_char, join, occurs_at, split, starts_with,
    strictly_sorted, views,
};
use crate::json::{entry_views, json_object_of, json_string, object_of, string_value};
use crate::timestamp::spec_epoch_to_rfc3339;

verus! {

// ── Label sets ───────────────────────────────────────────────────────────────

/// One label as text: `key="value"`.
pub open spec fn label_text(k: Seq<char>, v: Seq<char>) -> Seq<char> {
    k + "=\""@ + v + "\""@
}

/// The labels as text, in the order given.
pub open spec fn label_texts(pairs: Seq<(String, String)>) -> Seq<Seq<char>> {
    pairs.map_values(|p: (String, String)| label_text(p.0@, p.1@))
}

/// `{k1="v1", k2="v2"}`, in the order given.
pub open spec fn spec_format_labels(pairs: Seq<(String, String)>) -> Seq<char> {
    "{"@ + join(label_texts(pairs), ", "@) + "}"@
}

/// A label set as text: `{k1="v1", k2="v2"}`, the labels in the order
/// given (the order in which the caller's map is walked).
pub fn format_labels(metric: &[(String, String)]) -> (r: String)
    ensures
        r@ == spec_format_labels(metric@),
{
    let mut texts: Vec<String> = Vec::new();
    let n = metric.len();
    for i in 0..n
        invariant
            n == metric@.len(),
            views(texts@) == label_texts(metric@.take(i as int)),
    {
        let mut t = crate::text::owned(metric[i].0.as_str());
        t.append("=\"");
        t.append(metric[i].1.as_str());
        t.append("\"");
        let ghost before = texts@;
        texts.push(t);
        proof {
            crate::text::lemma_views_push(before, t);
        }
        assert(views(texts@) =~= label_texts(metric@.take((i + 1) as int)));
    }
    assert(metric@.take(n as int) =~= metric@);
    let mut r = crate::text::owned("{");
    r.append(crate::text::join_strings(&texts, ", ").as_str());
    r.append("}");
    r
}

// ── Name patterns ────────────────────────────────────────────────────────────

/// Index of the first occurrence of `p` in `s`.
pub open spec fn find_first(s: Seq<char>, p: Seq<char>) -> Option<int> {
    if contains(s, p) {
        Some(choose|i: int| occurs_at(s, p, i) && forall|j: int| 0 <= j < i ==> !occurs_at(s, p, j))
    } else {
        None
    }
}

/// How the pieces of a pattern between `*` match `name`, from piece `i` on,
/// with `name[pos..]` still to match: the first piece must start the name,
/// the last must end what is left, each piece between is found at its
/// first occurrence after the previous one; empty pieces match anything.
pub open spec fn glob_from(name: Seq<char>, parts: Seq<Seq<char>>, i: int, pos: int) -> bool
    decreases parts.len() - i,
{
    if i < 0 || i >= parts.len() {
        true
    } else if parts[i].len() == 0 {
        glob_from(name, parts, i + 1, pos)
    } else if i == 0 {
        starts_with(name, parts[0]) && glob_from(name, parts, 1, parts[0].len() as int)
    } else if i == parts.len() - 1 {
        ends_with(name.skip(pos), parts[i])
    } else {
        match find_first(name.skip(pos), parts[i]) {
            Some(idx) => glob_from(name, parts, i + 1, pos + idx + parts[i].len()),
            None => false,
        }
    }
}

/// `s` holds `ps` in order, each piece after the end of the one before
/// with any run of characters between, the last piece ending `s`.
pub open spec fn floating_match(s: Seq<char>, ps: Seq<Seq<char>>) -> bool
    decreases ps.len(),
{
    if ps.len() == 0 {
        true
    } else if ps.len() == 1 {
        ends_with(s, ps[0])
    } else {
        exists|k: int| occurs_at(s, ps[0], k) && floating_match(#[trigger] s.skip(k + ps[0].len()), ps.drop_first())
    }
}

/// The glob of the pieces a pattern splits into at `*`: `name` starts with
/// the first piece, and the others follow in order with any runs of
/// characters between them, the last ending the name.
pub open spec fn glob_matches(name: Seq<char>, parts: Seq<Seq<char>>) -> bool {
    starts_with(name, parts[0]) && floating_match(name.skip(parts[0].len() as int), parts.drop_first())
}

/// Putting characters in front of a text keeps every floating match of it.
proof fn lemma_floating_match_extends(u: Seq<char>, t: Seq<char>, ps: Seq<Seq<char>>)
    requires
        floating_match(t, ps),
    ensures
        floating_match(u + t, ps),
    decreases ps.len(),
{
    if ps.len() == 1 {
        assert((u + t).skip((u + t).len() - ps[0].len()) =~= t.skip(t.len() - ps[0].len()));
    } else if ps.len() > 1 {
        let k = choose|k: int| occurs_at(t, ps[0], k) && floating_match(#[trigger] t.skip(k + ps[0].len()), ps.drop_first());
        let k2 = k + u.len();
        assert((u + t).subrange(k2, k2 + ps[0].len()) =~= t.subrange(k, k + ps[0].len()));
        assert((u + t).skip(k2 + ps[0].len()) =~= t.skip(k + ps[0].len()));
        assert(occurs_at(u + t, ps[0], k2));
    }
}

/// An occurrence at `k` means there is a first one, at or before `k`.
proof fn lemma_first_occurrence(s: Seq<char>, p: Seq<char>, k: int)
    requires
        occurs_at(s, p, k),
    ensures
        exists|m: int| m <= k && occurs_at(s, p, m) && forall|j: int| 0 <= j < m ==> !occurs_at(s, p, j),
    decreases k,
{
    if exists|j: int| 0 <= j < k && occurs_at(s, p, j) {
        let j = choose|j: int| 0 <= j < k && occurs_at(s, p, j);
        lemma_first_occurrence(s, p, j);
    } else {
        assert(forall|j: int| 0 <= j < k ==> !occurs_at(s, p, j));
    }
}

/// An empty piece that is not the last matches at the very start.
proof fn lemma_empty_piece_floats(s: Seq<char>, ps: Seq<Seq<char>>)
    requires
        ps.len() >= 2,
        ps[0].len() == 0,
    ensures
        floating_match(s, ps) == floating_match(s, ps.drop_first()),
{
    assert(s.subrange(0, 0) =~= ps[0]);
    assert(occurs_at(s, ps[0], 0));
    assert(s.skip(0 + ps[0].len() as int) =~= s);
    if floating_match(s, ps) {
        let k = choose|k: int| occurs_at(s, ps[0], k) && floating_match(#[trigger] s.skip(k + ps[0].len()), ps.drop_first());
        assert(s.take(k) + s.skip(k) =~= s);
        assert(s.skip(k + ps[0].len()) == s.skip(k));
        lemma_floating_match_extends(s.take(k), s.skip(k), ps.drop_first());
    }
}

/// A piece that is not the last floats at its first occurrence when it
/// floats anywhere.
proof fn lemma_first_piece_floats(s: Seq<char>, ps: Seq<Seq<char>>, idx: int)
    requires
        ps.len() >= 2,
        find_first(s, ps[0]) == Some(idx),
    ensures
        0 <= idx && idx + ps[0].len() <= s.len(),
        floating_match(s, ps) == floating_match(s.skip(idx + ps[0].len()), ps.drop_first()),
{
    let p = ps[0];
    assert(contains(s, p));
    let k0 = choose|i: int| occurs_at(s, p, i);
    lemma_first_occurrence(s, p, k0);
    assert(occurs_at(s, p, idx) && forall|j: int| 0 <= j < idx ==> !occurs_at(s, p, j));
    if floating_match(s, ps) {
        let k = choose|k: int| occurs_at(s, p, k) && floating_match(#[trigger] s.skip(k + p.len()), ps.drop_first());
        assert(idx <= k);
        let u = s.subrange(idx + p.len(), k + p.len());
        assert(u + s.skip(k + p.len()) =~= s.skip(idx + p.len()));
        lemma_floating_match_extends(u, s.skip(k + p.len()), ps.drop_first());
    }
}

/// A piece that is not the last and does not occur floats nowhere.
proof fn lemma_missing_piece_sinks(s: Seq<char>, ps: Seq<Seq<char>>)
    requires
        ps.len() >= 2,
        find_first(s, ps[0]) is None,
    ensures
        !floating_match(s, ps),
{
    if floating_match(s, ps) {
        let k = choose|k: int| occurs_at(s, ps[0], k) && floating_match(#[trigger] s.skip(k + ps[0].len()), ps.drop_first());
        assert(contains(s, ps[0]));
    }
}

/// From piece `i` on, the greedy walk of `glob_from` succeeds exactly when
/// the remaining pieces float in what is left of the name.
proof fn lemma_glob_from_floats(name: Seq<char>, parts: Seq<Seq<char>>, i: int, pos: int)
    requires
        1 <= i <= parts.len(),
        0 <= pos <= name.len(),
    ensures
        glob_from(name, parts, i, pos) == floating_match(name.skip(pos), parts.subrange(i, parts.len() as int)),
    decreases parts.len() - i,
{
    let s = name.skip(pos);
    let rest = parts.subrange(i, parts.len() as int);
    if i < parts.len() {
        assert(rest[0] == parts[i]);
        assert(rest.drop_first() =~= parts.subrange(i + 1, parts.len() as int));
        if i == parts.len() - 1 {
            assert(rest.len() == 1);
            if parts[i].len() == 0 {
                assert(s.skip(s.len() - rest[0].len()) =~= rest[0]);
                assert(glob_from(name, parts, i + 1, pos));
                assert(ends_with(s, rest[0]));
            }
        } else if parts[i].len() == 0 {
            lemma_glob_from_floats(name, parts, i + 1, pos);
            lemma_empty_piece_floats(s, rest);
        } else {
            match find_first(s, parts[i]) {
                Some(idx) => {
                    lemma_first_piece_floats(s, rest, idx);
                    assert(name.skip(pos + idx + parts[i].len()) =~= s.skip(idx + parts[i].len()));
                    lemma_glob_from_floats(name, parts, i + 1, pos + idx + parts[i].len());
                },
                None => {
                    lemma_missing_piece_sinks(s, rest);
                },
            }
        }
    }
}

/// The greedy walk of `glob_from` decides exactly the glob of the pieces:
/// taking each piece at its first occurrence loses no match.
pub proof fn lemma_glob_from_is_glob(name: Seq<char>, parts: Seq<Seq<char>>)
    requires
        parts.len() >= 2,
    ensures
        glob_from(name, parts, 0, 0) == glob_matches(name, parts),
{
    assert(parts.drop_first() =~= parts.subrange(1, parts.len() as int));
    if parts[0].len() == 0 {
        lemma_glob_from_floats(name, parts, 1, 0);
        assert(name.take(0) =~= parts[0]);
        assert(name.skip(0) =~= name);
    } else if starts_with(name, parts[0]) {
        lemma_glob_from_floats(name, parts, 1, parts[0].len() as int);
    }
}

/// Whether a metric name matches a search pattern: without `*`, whether the
/// name contains the pattern; with it, `*` matches any run of characters
/// (case-sensitive).
pub open spec fn spec_matches_pattern(name: Seq<char>, pattern: Seq<char>) -> bool {
    if !has_char(pattern, '*') {
        contains(name, pattern)
    } else {
        glob_from(name, split(pattern, '*'), 0, 0)
    }
}

/// A pattern with `*` matches exactly the names that its pieces between `*`
/// glob: the first piece starts the name, the last ends it, and the others
/// come in order between, any run of characters standing for each `*`.
pub proof fn lemma_pattern_is_glob(name: Seq<char>, pattern: Seq<char>)
    requires
        has_char(pattern, '*'),
    ensures
        spec_matches_pattern(name, pattern) == glob_matches(name, split(pattern, '*')),
{
    crate::text::lemma_first_index_of(pattern, '*');
    let i = first_index_of(pattern, '*')->0;
    let rest = pattern.skip(i + 1);
    assert(split(rest, '*').len() >= 1) by {
        crate::text::lemma_first_index_of(rest, '*');
    }
    assert(split(pattern, '*') == seq![pattern.take(i)] + split(rest, '*'));
    lemma_glob_from_is_glob(name, split(pattern, '*'));
}

/// Whether `v` ends with `p`.
pub fn ends_with_chars(v: &[char], p: &[char]) -> (r: bool)
    ensures
        r == ends_with(v@, p@),
{
    if p.len() > v.len() {
        return false;
    }
    let tail = crate::text::slice_range(v, v.len() - p.len(), v.len());
    assert(tail@ =~= v@.skip(v@.len() - p@.len()));
    chars_eq(&tail, p)
}

/// Whether `v` starts with `p`.
fn starts_with_chars(v: &[char], p: &[char]) -> (r: bool)
    ensures
        r == starts_with(v@, p@),
{
    if p.len() > v.len() {
        return false;
    }
    let head = crate::text::slice_range(v, 0, p.len());
    assert(head@ =~= v@.take(p@.len() as int));
    chars_eq(&head, p)
}

/// Wildcard matching for the metric name search: `*` matches any run of
/// characters, including none; case-sensitive.
#[verifier::rlimit(30)]
pub fn matches_pattern(name: &str, pattern: &str) -> (r: bool)
    ensures
        r == spec_matches_pattern(name@, pattern@),
{
    let nv = chars_of(name);
    let pv = chars_of(pattern);
    if !crate::text::has_char_exec(&pv, '*') {
        return crate::text::contains_exec(&nv, pattern);
    }
    let parts = crate::text::split_chars(&pv, '*');
    let ghost ps = split(pattern@, '*');
    assert(parts@.map_values(|p: Vec<char>| p@) == ps);
    let n = parts.len();
    let mut pos: usize = 0;
    let mut i: usize = 0;
    while i < n
        invariant
            n == parts@.len(),
            ps.len() == n,
            forall|k: int| 0 <= k < n ==> #[trigger] parts@[k]@ == ps[k],
            nv@ == name@,
            i <= n,
            pos <= nv@.len(),
            glob_from(name@, ps, 0, 0) == glob_from(name@, ps, i as int, pos as int),
            spec_matches_pattern(name@, pattern@) == glob_from(name@, ps, 0, 0),
        decreases n - i,
    {
        assert(parts@[i as int]@ == ps[i as int]);
        let part = &parts[i];
        if part.len() == 0 {
            assert(glob_from(name@, ps, i as int, pos as int) == glob_from(
                name@,
                ps,
                i + 1,
                pos as int,
            ));
            i = i + 1;
        } else if i == 0 {
            assert(glob_from(name@, ps, 0, pos as int) == (starts_with(name@, ps[0])
                && glob_from(name@, ps, 1, ps[0].len() as int)));
            if !starts_with_chars(&nv, part) {
                return false;
            }
            pos = part.len();
            i = i + 1;
        } else if i == n - 1 {
            assert(glob_from(name@, ps, i as int, pos as int) == ends_with(
                name@.skip(pos as int),
                ps[i as int],
            ));
            let rest = crate::text::slice_range(&nv, pos, nv.len());
            assert(rest@ =~= name@.skip(pos as int));
            return ends_with_chars(&rest, part);
        } else {
            let rest = crate::text::slice_range(&nv, pos, nv.len());
            assert(rest@ =~= name@.skip(pos as int));
            let ghost unfolded = match find_first(name@.skip(pos as int), ps[i as int]) {
                Some(idx) => glob_from(name@, ps, i + 1, pos + idx + ps[i as int].len()),
                None => false,
            };
            assert(glob_from(name@, ps, i as int, pos as int) == unfolded);
            match crate::text::find_sub(&rest, part) {
                Some(idx) => {
                    proof {
                        assert(contains(rest@, part@));
                        let c = choose|j: int|
                            occurs_at(rest@, part@, j) && forall|k: int|
                                0 <= k < j ==> !occurs_at(rest@, part@, k);
                        assert(c == idx);
                        assert(find_first(name@.skip(pos as int), ps[i as int]) == Some(idx as int));
                    }
                    pos = pos + idx + part.len();
                },
                None => {
                    assert(find_first(name@.skip(pos as int), ps[i as int]) is None);
                    return false;
                },
            }
            i = i + 1;
        }
    }
    true
}

// ── Range results as rows ────────────────────────────────────────────────────

/// One series of a range query: its labels, its points (epoch seconds and
/// the value as sent), and the profile it came from.
#[derive(Debug)]
pub struct RangeSample {
    pub metric: Vec<(String, String)>,
    pub values: Vec<(i64, String)>,
    pub profile: Option<String>,
}

/// A sample that carries metric labels.
pub trait Labelled {
    /// The labels, as name/value pairs.
    spec fn label_pairs(&self) -> Seq<(String, String)>;

    /// The labels.
    fn labels(&self) -> (r: &Vec<(String, String)>)
        ensures
            r@ == self.label_pairs(),
    ;
}

impl Labelled for RangeSample {
    open spec fn label_pairs(&self) -> Seq<(String, String)> {
        self.metric@
    }

    fn labels(&self) -> (r: &Vec<(String, String)>) {
        &self.metric
    }
}

/// The label keys of all samples, as a set.
pub open spec fn label_key_set<T: Labelled>(samples: Seq<T>) -> Set<Seq<char>> {
    Set::new(
        |k: Seq<char>|
            exists|i: int, j: int|
                0 <= i < samples.len() && 0 <= j < samples[i].label_pairs().len() && (
                #[trigger] samples[i].label_pairs()[j]).0@ == k,
    )
}

/// The point times of all series, as a set.
pub open spec fn time_set(samples: Seq<RangeSample>) -> Set<i64> {
    Set::new(
        |t: i64|
            exists|i: int, j: int|
                0 <= i < samples.len() && 0 <= j < samples[i].values@.len() && (
                #[trigger] samples[i].values@[j]).0 == t,
    )
}

/// Whether `ts` is in strictly ascending order.
pub open spec fn times_sorted(ts: Seq<i64>) -> bool {
    forall|i: int, j: int| 0 <= i < j < ts.len() ==> ts[i] < ts[j]
}

/// The value of the first label named `k`, or empty.
pub open spec fn label_value(metric: Seq<(String, String)>, k: Seq<char>) -> Seq<char>
    decreases metric.len(),
{
    if metric.len() == 0 {
        seq![]
    } else if metric[0].0@ == k {
        metric[0].1@
    } else {
        label_value(metric.drop_first(), k)
    }
}

/// The value of the first point at time `t`, or empty.
pub open spec fn point_value(values: Seq<(i64, String)>, t: i64) -> Seq<char>
    decreases values.len(),
{
    if values.len() == 0 {
        seq![]
    } else if values[0].0 == t {
        values[0].1@
    } else {
        point_value(values.drop_first(), t)
    }
}

/// The column a point time is shown under: the time in RFC 3339 (UTC,
/// whole seconds), or its number when chrono cannot represent it.
pub open spec fn time_column(t: i64) -> Seq<char> {
    match spec_epoch_to_rfc3339(t) {
        Some(x) => x,
        None => crate::text::decimal(t as int),
    }
}

/// The row of one series: a column per label key (empty when the series
/// lacks it), the profile when asked for, then a column per point time
/// (empty when the series has no point then).
pub open spec fn range_row(
    s: RangeSample,
    keys: Seq<Seq<char>>,
    times: Seq<i64>,
    include_profile: bool,
) -> Seq<(Seq<char>, Seq<char>)> {
    let labels = keys.map_values(|k: Seq<char>| (k, label_value(s.metric@, k)));
    let profile = if include_profile {
        seq![
            ("profile"@, match s.profile {
                Some(p) => p@,
                None => seq![],
            }),
        ]
    } else {
        seq![]
    };
    let points = times.map_values(|t: i64| (time_column(t), point_value(s.values@, t)));
    labels + profile + points
}

/// The view of a row.
pub open spec fn row_view(row: Vec<(String, String)>) -> Seq<(Seq<char>, Seq<char>)> {
    row@.map_values(|c: (String, String)| (c.0@, c.1@))
}

fn lookup_label(metric: &[(String, String)], k: &str) -> (r: String)
    ensures
        r@ == label_value(metric@, k@),
{
    let n = metric.len();
    let mut i: usize = 0;
    assert(metric@.skip(0) =~= metric@);
    while i < n
        invariant
            n == metric@.len(),
            i <= n,
            label_value(metric@, k@) == label_value(metric@.skip(i as int), k@),
        decreases n - i,
    {
        assert(metric@.skip(i as int).drop_first() =~= metric@.skip(i + 1));
        if crate::text::chars_eq_str(&chars_of(metric[i].0.as_str()), k) {
            return crate::text::owned(metric[i].1.as_str());
        }
        i = i + 1;
    }
    String::new()
}

fn lookup_point(values: &[(i64, String)], t: i64) -> (r: String)
    ensures
        r@ == point_value(values@, t),
{
    let n = values.len();
    let mut i: usize = 0;
    assert(values@.skip(0) =~= values@);
    while i < n
        invariant
            n == values@.len(),
            i <= n,
            point_value(values@, t) == point_value(values@.skip(i as int), t),
        decreases n - i,
    {
        assert(values@.skip(i as int).drop_first() =~= values@.skip(i + 1));
        if values[i].0 == t {
            return crate::text::owned(values[i].1.as_str());
        }
        i = i + 1;
    }
    String::new()
}

/// Inserts `t` into a strictly ascending list, unless it is there.
fn insert_time(ts: &mut Vec<i64>, t: i64)
    requires
        times_sorted(old(ts)@),
    ensures
        times_sorted(final(ts)@),
        final(ts)@.to_set() == old(ts)@.to_set().insert(t),
{
    let n = ts.len();
    let mut i: usize = 0;
    while i < n && ts[i] < t
        invariant
            n == ts@.len(),
            i <= n,
            forall|k: int| 0 <= k < i ==> #[trigger] ts@[k] < t,
        decreases n - i,
    {
        i = i + 1;
    }
    let ghost before = ts@;
    if i < n && ts[i] == t {
        assert(before.to_set() =~= before.to_set().insert(t));
        return;
    }
    ts.insert(i, t);
    let ghost after = ts@;
    assert(after =~= before.insert(i as int, t));
    assert(after.to_set() =~= before.to_set().insert(t)) by {
        assert forall|x: i64| #[trigger] after.to_set().contains(x) <==> before.to_set().insert(
            t,
        ).contains(x) by {
            if after.to_set().contains(x) {
                let k = choose|k: int| 0 <= k < after.len() && after[k] == x;
                if k < i {
                    assert(before[k] == x);
                } else if k > i {
                    assert(before[k - 1] == x);
                }
            }
            if before.to_set().contains(x) {
                let k = choose|k: int| 0 <= k < before.len() && before[k] == x;
                if k < i {
                    assert(after[k] == x);
                } else {
                    assert(after[k + 1] == x);
                }
            }
            if x == t {
                assert(after[i as int] == x);
            }
        }
    }
}

/// The label keys of all samples, each once, ascending.
fn collect_keys<T: Labelled>(samples: &[T]) -> (r: Vec<String>)
    ensures
        strictly_sorted(views(r@)),
        views(r@).to_set() == label_key_set(samples@),
{
    let mut keys: Vec<String> = Vec::new();
    let n = samples.len();
    assert(views(keys@).to_set() =~= label_key_set(samples@.take(0)));
    for i in 0..n
        invariant
            n == samples@.len(),
            strictly_sorted(views(keys@)),
            views(keys@).to_set() == label_key_set(samples@.take(i as int)),
    {
        let m = samples[i].labels().len();
        let ghost start = views(keys@).to_set();
        for j in 0..m
            invariant
                n == samples@.len(),
                i < n,
                m == samples@[i as int].label_pairs().len(),
                strictly_sorted(views(keys@)),
                views(keys@).to_set() == start.union(
                    Set::new(
                        |k: Seq<char>|
                            exists|jj: int|
                                0 <= jj < j && (#[trigger] samples@[i as int].label_pairs()[jj]).0@ == k,
                    ),
                ),
        {
            let ghost prev = views(keys@).to_set();
            crate::text::insert_sorted(&mut keys, samples[i].labels()[j].0.as_str());
            assert(views(keys@).to_set() =~= start.union(
                Set::new(
                    |k: Seq<char>|
                        exists|jj: int|
                            0 <= jj < j + 1 && (#[trigger] samples@[i as int].label_pairs()[jj]).0@ == k,
                ),
            )) by {
                assert(samples@[i as int].label_pairs()[j as int].0@ == samples[i as int].label_pairs()[j as int].0@);
            }
        }
        assert(views(keys@).to_set() =~= label_key_set(samples@.take((i + 1) as int))) by {
            assert forall|k: Seq<char>| #[trigger] label_key_set(samples@.take((i + 1) as int)).contains(
                k,
            ) <==> views(keys@).to_set().contains(k) by {
                if label_key_set(samples@.take((i + 1) as int)).contains(k) {
                    let (a, b) = choose|a: int, b: int|
                        0 <= a < i + 1 && 0 <= b < samples@.take((i + 1) as int)[a].label_pairs().len()
                            && (#[trigger] samples@.take((i + 1) as int)[a].label_pairs()[b]).0@ == k;
                    if a < i {
                        assert(samples@.take(i as int)[a] == samples@.take((i + 1) as int)[a]);
                        assert(label_key_set(samples@.take(i as int)).contains(k));
                    } else {
                        assert(samples@.take((i + 1) as int)[a] == samples@[i as int]);
                    }
                }
                if start.contains(k) {
                    let (a, b) = choose|a: int, b: int|
                        0 <= a < i && 0 <= b < samples@.take(i as int)[a].label_pairs().len() && (
                        #[trigger] samples@.take(i as int)[a].label_pairs()[b]).0@ == k;
                    assert(samples@.take(i as int)[a] == samples@.take((i + 1) as int)[a]);
                }
                if views(keys@).to_set().contains(k) && !start.contains(k) {
                    let jj = choose|jj: int|
                        0 <= jj < m && (#[trigger] samples@[i as int].label_pairs()[jj]).0@ == k;
                    assert(samples@.take((i + 1) as int)[i as int] == samples@[i as int]);
                }
            }
        }
    }
    assert(samples@.take(n as int) =~= samples@);
    keys
}

/// The point times of all series, each once, ascending.
fn collect_times(samples: &[RangeSample]) -> (r: Vec<i64>)
    ensures
        times_sorted(r@),
        r@.to_set() == time_set(samples@),
{
    let mut ts: Vec<i64> = Vec::new();
    let n = samples.len();
    assert(ts@.to_set() =~= time_set(samples@.take(0)));
    for i in 0..n
        invariant
            n == samples@.len(),
            times_sorted(ts@),
            ts@.to_set() == time_set(samples@.take(i as int)),
    {
        let m = samples[i].values.len();
        let ghost start = ts@.to_set();
        for j in 0..m
            invariant
                n == samples@.len(),
                i < n,
                m == samples@[i as int].values@.len(),
                times_sorted(ts@),
                ts@.to_set() == start.union(
                    Set::new(
                        |t: i64|
                            exists|jj: int|
                                0 <= jj < j && (#[trigger] samples@[i as int].values@[jj]).0 == t,
                    ),
                ),
        {
            insert_time(&mut ts, samples[i].values[j].0);
            assert(ts@.to_set() =~= start.union(
                Set::new(
                    |t: i64|
                        exists|jj: int|
                            0 <= jj < j + 1 && (#[trigger] samples@[i as int].values@[jj]).0 == t,
                ),
            ));
        }
        assert(ts@.to_set() =~= time_set(samples@.take((i + 1) as int))) by {
            assert forall|t: i64| #[trigger] time_set(samples@.take((i + 1) as int)).contains(t)
                <==> ts@.to_set().contains(t) by {
                if time_set(samples@.take((i + 1) as int)).contains(t) {
                    let (a, b) = choose|a: int, b: int|
                        0 <= a < i + 1 && 0 <= b < samples@.take((i + 1) as int)[a].values@.len()
                            && (#[trigger] samples@.take((i + 1) as int)[a].values@[b]).0 == t;
                    if a < i {
                        assert(samples@.take(i as int)[a] == samples@.take((i + 1) as int)[a]);
                        assert(time_set(samples@.take(i as int)).contains(t));
                    } else {
                        assert(samples@.take((i + 1) as int)[a] == samples@[i as int]);
                    }
                }
                if start.contains(t) {
                    let (a, b) = choose|a: int, b: int|
                        0 <= a < i && 0 <= b < samples@.take(i as int)[a].values@.len() && (
                        #[trigger] samples@.take(i as int)[a].values@[b]).0 == t;
                    assert(samples@.take(i as int)[a] == samples@.take((i + 1) as int)[a]);
                }
                if ts@.to_set().contains(t) && !start.contains(t) {
                    let jj = choose|jj: int|
                        0 <= jj < m && (#[trigger] samples@[i as int].values@[jj]).0 == t;
                    assert(samples@.take((i + 1) as int)[i as int] == samples@[i as int]);
                }
            }
        }
    }
    assert(samples@.take(n as int) =~= samples@);
    ts
}

/// The column a point time is shown under.
fn time_column_exec(t: i64) -> (r: String)
    ensures
        r@ == time_column(t),
{
    match crate::timestamp::epoch_to_rfc3339(t) {
        Some(x) => x,
        None => crate::text::decimal_i64(t),
    }
}

/// Lays range series out as flat rows for tabular output: one row per
/// series, with the label keys of all series in ascending order (a missing
/// label left empty), the profile when `include_profile`, then one column
/// per point time of all series in ascending order, headed by the time in
/// RFC 3339 (a missing point left empty).
pub fn range_samples_to_toon_rows(samples: &[RangeSample], include_profile: bool) -> (r: Vec<
    Vec<(String, String)>,
>)
    ensures
        r@.len() == samples@.len(),
        samples@.len() > 0 ==> exists|keys: Seq<Seq<char>>, times: Seq<i64>|
            {
                &&& strictly_sorted(keys) && keys.to_set() == label_key_set(samples@)
                &&& times_sorted(times) && times.to_set() == time_set(samples@)
                &&& forall|i: int|
                    0 <= i < samples@.len() ==> row_view(#[trigger] r@[i]) == range_row(
                        samples@[i],
                        keys,
                        times,
                        include_profile,
                    )
            },
{
    let keys = collect_keys(samples);
    let times = collect_times(samples);
    let mut rows: Vec<Vec<(String, String)>> = Vec::new();
    let n = samples.len();
    for i in 0..n
        invariant
            n == samples@.len(),
            rows@.len() == i,
            forall|k: int|
                0 <= k < i ==> row_view(#[trigger] rows@[k]) == range_row(
                    samples@[k],
                    views(keys@),
                    times@,
                    include_profile,
                ),
    {
        let s = &samples[i];
        let mut row: Vec<(String, String)> = Vec::new();
        let nk = keys.len();
        for j in 0..nk
            invariant
                nk == keys@.len(),
                i < n,
                n == samples@.len(),
                *s == samples@[i as int],
                row_view(row) == views(keys@).take(j as int).map_values(
                    |k: Seq<char>| (k, label_value(s.metric@, k)),
                ),
        {
            let v = lookup_label(&s.metric, keys[j].as_str());
            let ghost before = row_view(row);
            let key = crate::text::owned(keys[j].as_str());
            row.push((key, v));
            assert(row_view(row) =~= before.push((keys@[j as int]@, v@)));
            assert(views(keys@).take((j + 1) as int) =~= views(keys@).take(j as int).push(
                keys@[j as int]@,
            ));
            assert(row_view(row) =~= views(keys@).take((j + 1) as int).map_values(
                |k: Seq<char>| (k, label_value(s.metric@, k)),
            ));
        }
        let ghost labels = views(keys@).map_values(|k: Seq<char>| (k, label_value(s.metric@, k)));
        assert(views(keys@).take(nk as int) =~= views(keys@));
        if include_profile {
            let p = match &s.profile {
                Some(p) => crate::text::owned(p.as_str()),
                None => String::new(),
            };
            row.push((crate::text::owned("profile"), p));
        }
        let ghost head = row_view(row);
        let nt = times.len();
        for j in 0..nt
            invariant
                nt == times@.len(),
                i < n,
                n == samples@.len(),
                *s == samples@[i as int],
                row_view(row) == head + times@.take(j as int).map_values(
                    |t: i64| (time_column(t), point_value(s.values@, t)),
                ),
        {
            let c = time_column_exec(times[j]);
            let v = lookup_point(&s.values, times[j]);
            let ghost before = row_view(row);
            row.push((c, v));
            assert(row_view(row) =~= before.push((c@, v@)));
            assert(times@.take((j + 1) as int) =~= times@.take(j as int).push(times@[j as int]));
            assert(row_view(row) =~= head + times@.take((j + 1) as int).map_values(
                |t: i64| (time_column(t), point_value(s.values@, t)),
            ));
        }
        assert(times@.take(nt as int) =~= times@);
        assert(row_view(row) =~= range_row(samples@[i as int], views(keys@), times@, include_profile));
        rows.push(row);
    }
    rows
}

// ── Instant results as rows ──────────────────────────────────────────────────

/// One sample of an instant query: its labels, its value as sent, and the
/// profile it came from.
#[derive(Debug)]
pub struct InstantSample {
    pub metric: Vec<(String, String)>,
    pub value: String,
    pub profile: Option<String>,
}

impl Labelled for InstantSample {
    open spec fn label_pairs(&self) -> Seq<(String, String)> {
        self.metric@
    }

    fn labels(&self) -> (r: &Vec<(String, String)>) {
        &self.metric
    }
}

/// The row of one instant sample: a column per label key (empty when the
/// sample lacks it), the profile when asked for, then the value.
pub open spec fn instant_row(s: InstantSample, keys: Seq<Seq<char>>, include_profile: bool) -> Seq<
    (Seq<char>, Seq<char>),
> {
    let labels = keys.map_values(|k: Seq<char>| (k, label_value(s.metric@, k)));
    let profile = if include_profile {
        seq![
            ("profile"@, match s.profile {
                Some(p) => p@,
                None => seq![],
            }),
        ]
    } else {
        seq![]
    };
    labels + profile + seq![("value"@, s.value@)]
}

/// Lays instant samples out as flat rows for tabular output: one row per
/// sample, with the label keys of all samples in ascending order (a missing
/// label left empty), the profile when `include_profile`, and the value
/// last.
pub fn instant_samples_to_toon_rows(samples: &[InstantSample], include_profile: bool) -> (r: Vec<
    Vec<(String, String)>,
>)
    ensures
        r@.len() == samples@.len(),
        samples@.len() > 0 ==> exists|keys: Seq<Seq<char>>|
            {
                &&& strictly_sorted(keys) && keys.to_set() == label_key_set(samples@)
                &&& forall|i: int|
                    0 <= i < samples@.len() ==> row_view(#[trigger] r@[i]) == instant_row(
                        samples@[i],
                        keys,
                        include_profile,
                    )
            },
{
    let keys = collect_keys(samples);
    let mut rows: Vec<Vec<(String, String)>> = Vec::new();
    let n = samples.len();
    for i in 0..n
        invariant
            n == samples@.len(),
            rows@.len() == i,
            forall|k: int|
                0 <= k < i ==> row_view(#[trigger] rows@[k]) == instant_row(
                    samples@[k],
                    views(keys@),
                    include_profile,
                ),
    {
        let s = &samples[i];
        let mut row: Vec<(String, String)> = Vec::new();
        let nk = keys.len();
        for j in 0..nk
            invariant
                nk == keys@.len(),
                i < n,
                n == samples@.len(),
                *s == samples@[i as int],
                row_view(row) == views(keys@).take(j as int).map_values(
                    |k: Seq<char>| (k, label_value(s.metric@, k)),
                ),
        {
            let v = lookup_label(&s.metric, keys[j].as_str());
            let ghost before = row_view(row);
            let key = crate::text::owned(keys[j].as_str());
            row.push((key, v));
            assert(row_view(row) =~= before.push((keys@[j as int]@, v@)));
            assert(views(keys@).take((j + 1) as int) =~= views(keys@).take(j as int).push(
                keys@[j as int]@,
            ));
            assert(row_view(row) =~= views(keys@).take((j + 1) as int).map_values(
                |k: Seq<char>| (k, label_value(s.metric@, k)),
            ));
        }
        assert(views(keys@).take(nk as int) =~= views(keys@));
        if include_profile {
            let p = match &s.profile {
                Some(p) => crate::text::owned(p.as_str()),
                None => String::new(),
            };
            row.push((crate::text::owned("profile"), p));
        }
        row.push((crate::text::owned("value"), crate::text::owned(s.value.as_str())));
        assert(row_view(row) =~= instant_row(samples@[i as int], views(keys@), include_profile));
        rows.push(row);
    }
    rows
}

// ── Laws ─────────────────────────────────────────────────────────────────────

/// The column names of a row, in order.
pub open spec fn column_names(row: Seq<(Seq<char>, Seq<char>)>) -> Seq<Seq<char>> {
    row.map_values(|c: (Seq<char>, Seq<char>)| c.0)
}

/// Rows laid out with the same label keys and point times have the same
/// columns in the same order, whatever labels or points each series lacks:
/// the rows of one result are uniform.
pub proof fn lemma_range_rows_share_columns(
    a: RangeSample,
    b: RangeSample,
    keys: Seq<Seq<char>>,
    times: Seq<i64>,
    include_profile: bool,
)
    ensures
        column_names(range_row(a, keys, times, include_profile)) == column_names(
            range_row(b, keys, times, include_profile),
        ),
        column_names(range_row(a, keys, times, include_profile)) == keys + (if include_profile {
            seq!["profile"@]
        } else {
            seq![]
        }) + times.map_values(|t: i64| time_column(t)),
{
    let ra = range_row(a, keys, times, include_profile);
    let rb = range_row(b, keys, times, include_profile);
    let expected = keys + (if include_profile {
        seq!["profile"@]
    } else {
        seq![]
    }) + times.map_values(|t: i64| time_column(t));
    assert(column_names(ra) =~= expected);
    assert(column_names(rb) =~= expected);
}

/// Instant rows laid out with the same label keys have the same columns in
/// the same order, the value always last: the rows of one result are
/// uniform.
pub proof fn lemma_instant_rows_share_columns(
    a: InstantSample,
    b: InstantSample,
    keys: Seq<Seq<char>>,
    include_profile: bool,
)
    ensures
        column_names(instant_row(a, keys, include_profile)) == column_names(
            instant_row(b, keys, include_profile),
        ),
        column_names(instant_row(a, keys, include_profile)) == keys + (if include_profile {
            seq!["profile"@]
        } else {
            seq![]
        }) + seq!["value"@],
{
    let expected = keys + (if include_profile {
        seq!["profile"@]
    } else {
        seq![]
    }) + seq!["value"@];
    assert(column_names(instant_row(a, keys, include_profile)) =~= expected);
    assert(column_names(instant_row(b, keys, include_profile)) =~= expected);
}

proof fn lemma_split_of_stars(p: Seq<char>)
    requires
        forall|i: int| 0 <= i < p.len() ==> p[i] == '*',
    ensures
        forall|k: int| 0 <= k < split(p, '*').len() ==> (#[trigger] split(p, '*')[k]).len() == 0,
    decreases p.len(),
{
    if p.len() > 0 {
        assert(first_index_of(p, '*') == Some(0int));
        let rest = p.skip(1);
        assert forall|i: int| 0 <= i < rest.len() implies rest[i] == '*' by {
            assert(rest[i] == p[i + 1]);
        }
        lemma_split_of_stars(rest);
        let whole = split(p, '*');
        assert(whole == seq![p.take(0)] + split(rest, '*'));
        assert forall|k: int| 0 <= k < whole.len() implies (#[trigger] whole[k]).len() == 0 by {
            if k > 0 {
                assert(whole[k] == split(rest, '*')[k - 1]);
            }
        }
    } else {
        assert(first_index_of(p, '*') is None);
        assert(split(p, '*') == seq![p]);
    }
}

proof fn lemma_glob_of_empty_parts(name: Seq<char>, parts: Seq<Seq<char>>, i: int, pos: int)
    requires
        forall|k: int| 0 <= k < parts.len() ==> (#[trigger] parts[k]).len() == 0,
    ensures
        glob_from(name, parts, i, pos),
    decreases parts.len() - i,
{
    if 0 <= i < parts.len() {
        lemma_glob_of_empty_parts(name, parts, i + 1, pos);
    }
}

/// A pattern made only of `*` matches every name: `*` matches any run of
/// characters, the empty one included.
pub proof fn lemma_stars_match_every_name(name: Seq<char>, pattern: Seq<char>)
    requires
        pattern.len() > 0,
        forall|i: int| 0 <= i < pattern.len() ==> pattern[i] == '*',
    ensures
        spec_matches_pattern(name, pattern),
{
    assert(pattern[0] == '*');
    assert(has_char(pattern, '*'));
    lemma_split_of_stars(pattern);
    lemma_glob_of_empty_parts(name, split(pattern, '*'), 0, 0);
}

/// A pattern without `*` matches every name that contains it, the pattern
/// itself among them.
pub proof fn lemma_plain_pattern_matches_itself(pattern: Seq<char>)
    requires
        !has_char(pattern, '*'),
    ensures
        spec_matches_pattern(pattern, pattern),
{
    assert(pattern.subrange(0, pattern.len() as int) =~= pattern);
    assert(occurs_at(pattern, pattern, 0));
}


// ── Name search ──────────────────────────────────────────────────────────────

/// Whether a metric name matches the search pattern.
pub open spec fn name_matches(pattern: Seq<char>) -> spec_fn(Seq<char>) -> bool {
    |n: Seq<char>| spec_matches_pattern(n, pattern)
}

/// The metric names that match `pattern`, in the order they were listed.
pub fn matching_names(names: &[String], pattern: &str) -> (r: Vec<String>)
    ensures
        views(r@) == views(names@).filter(name_matches(pattern@)),
{
    let mut out: Vec<String> = Vec::new();
    let n = names.len();
    for i in 0..n
        invariant
            n == names@.len(),
            views(out@) == views(names@).take(i as int).filter(name_matches(pattern@)),
    {
        let ghost before = out@;
        proof {
            let t = views(names@).take(i + 1);
            assert(t.drop_last() =~= views(names@).take(i as int));
            assert(t.last() == names@[i as int]@);
            reveal(Seq::filter);
        }
        if matches_pattern(names[i].as_str(), pattern) {
            let name = crate::text::owned(names[i].as_str());
            proof {
                crate::text::lemma_views_push(out@, name);
            }
            out.push(name);
        }
    }
    assert(views(names@).take(n as int) =~= views(names@));
    out
}

/// A search by a pattern made only of `*` lists every name, in order.
pub proof fn lemma_star_search_keeps_every_name(names: Seq<Seq<char>>, pattern: Seq<char>)
    requires
        pattern.len() > 0,
        forall|i: int| 0 <= i < pattern.len() ==> pattern[i] == '*',
    ensures
        names.filter(name_matches(pattern)) == names,
    decreases names.len(),
{
    reveal(Seq::filter);
    if names.len() > 0 {
        lemma_star_search_keeps_every_name(names.drop_last(), pattern);
        lemma_stars_match_every_name(names.last(), pattern);
        assert(names.drop_last().push(names.last()) =~= names);
    }
}

/// A matched name as a row of the agents output: `{"profile", "name"}` when
/// profiles are shown, else `{"name"}`.
pub open spec fn name_row(profile: Seq<char>, name: Seq<char>, include_profile: bool) -> serde_json::Value {
    if include_profile {
        json_object_of(seq![("profile"@, json_string(profile)), ("name"@, json_string(name))])
    } else {
        json_object_of(seq![("name"@, json_string(name))])
    }
}

/// The agents rows of the names that matched, each behind its profile.
pub fn name_rows(matches: &[(String, String)], include_profile: bool) -> (r: Vec<serde_json::Value>)
    ensures
        r@ == matches@.map_values(|m: (String, String)| name_row(m.0@, m.1@, include_profile)),
{
    let mut out: Vec<serde_json::Value> = Vec::new();
    let n = matches.len();
    for i in 0..n
        invariant
            n == matches@.len(),
            out@ == matches@.take(i as int).map_values(
                |m: (String, String)| name_row(m.0@, m.1@, include_profile),
            ),
    {
        let (profile, name) = &matches[i];
        let mut entries: Vec<(String, serde_json::Value)> = Vec::new();
        if include_profile {
            entries.push((crate::text::owned("profile"), string_value(profile.as_str())));
        }
        entries.push((crate::text::owned("name"), string_value(name.as_str())));
        proof {
            reveal_strlit("profile");
            reveal_strlit("name");
            if include_profile {
                assert(entry_views(entries@) =~= seq![("profile"@, json_string(profile@)), ("name"@, json_string(name@))]);
            } else {
                assert(entry_views(entries@) =~= seq![("name"@, json_string(name@))]);
            }
        }
        let row = object_of(entries);
        proof {
            assert(matches@.take(i + 1) =~= matches@.take(i as int).push(matches@[i as int]));
        }
        out.push(row);
        assert(out@ =~= matches@.take(i + 1).map_values(
            |m: (String, String)| name_row(m.0@, m.1@, include_profile),
        ));
    }
    assert(matches@.take(n as int) =~= matches@);
    out
}

/// The names that matched, as JSON strings, without their profiles.
pub fn name_values(matches: &[(String, String)]) -> (r: Vec<serde_json::Value>)
    ensures
        r@ == matches@.map_values(|m: (String, String)| json_string(m.1@)),
{
    let mut out: Vec<serde_json::Value> = Vec::new();
    let n = matches.len();
    for i in 0..n
        invariant
            n == matches@.len(),
            out@ == matches@.take(i as int).map_values(|m: (String, String)| json_string(m.1@)),
    {
        out.push(string_value(matches[i].1.as_str()));
        assert(matches@.take(i + 1) =~= matches@.take(i as int).push(matches@[i as int]));
        assert(out@ =~= matches@.take(i + 1).map_values(|m: (String, String)| json_string(m.1@)));
    }
    assert(matches@.take(n as int) =~= matches@);
    out
}


// ── Search and status decisions ──────────────────────────────────────────────

/// Why a metrics command was refused.
#[derive(Debug, PartialEq, Eq)]
pub enum MetricsError {
    /// `search` was given neither `--name` nor `--description`.
    NothingToSearch,
    /// A query answered with a status other than `success`.
    QueryFailed { status: String },
    /// A listing request answered with a status other than `success`.
    RequestFailed { status: String },
}

impl MetricsError {
    pub open spec fn spec_message(&self) -> Seq<char> {
        match self {
            MetricsError::NothingToSearch => "Provide at least one of --name or --description."@,
            MetricsError::QueryFailed { status } => "Query returned non-success status: "@ + status@,
            MetricsError::RequestFailed { status } => "Request returned non-success status: "@ + status@,
        }
    }

    /// The message shown for the refusal.
    pub fn message(&self) -> (r: String)
        ensures
            r@ == self.spec_message(),
    {
        match self {
            MetricsError::NothingToSearch => crate::text::owned("Provide at least one of --name or --description."),
            MetricsError::QueryFailed { status } => {
                let mut m = crate::text::owned("Query returned non-success status: ");
                crate::text::push_str(&mut m, status.as_str());
                m
            },
            MetricsError::RequestFailed { status } => {
                let mut m = crate::text::owned("Request returned non-success status: ");
                crate::text::push_str(&mut m, status.as_str());
                m
            },
        }
    }
}

/// Which search `metrics search` runs.
#[derive(Debug, PartialEq, Eq)]
pub enum MetricSearch {
    /// A semantic search by description.
    Description(String),
    /// A name search by wildcard pattern.
    Name(String),
}

/// The search to run: by description when one is given (it wins over a
/// name), else by name pattern; refused when neither is given.
pub fn metric_search(name_pattern: Option<&str>, description: Option<&str>) -> (r: Result<MetricSearch, MetricsError>)
    ensures
        description matches Some(d) ==> (r matches Ok(MetricSearch::Description(x)) && x@ == d@),
        description is None ==> (name_pattern matches Some(p) ==> (r matches Ok(MetricSearch::Name(x)) && x@ == p@)),
        description is None && name_pattern is None ==> r == Err::<MetricSearch, MetricsError>(
            MetricsError::NothingToSearch,
        ),
{
    match description {
        Some(d) => Ok(MetricSearch::Description(crate::text::owned(d))),
        None => match name_pattern {
            Some(p) => Ok(MetricSearch::Name(crate::text::owned(p))),
            None => Err(MetricsError::NothingToSearch),
        },
    }
}

/// Whether an answer's status is `success`.
fn is_success(status: &str) -> (r: bool)
    ensures
        r == (status@ == "success"@),
{
    proof {
        reveal_strlit("success");
    }
    chars_eq(&chars_of(status), &chars_of("success"))
}

/// A query answer is used only when its status is `success`.
pub fn check_query_status(status: &str) -> (r: Result<(), MetricsError>)
    ensures
        status@ == "success"@ ==> r is Ok,
        status@ != "success"@ ==> (r matches Err(MetricsError::QueryFailed { status: s }) && s@ == status@),
{
    if is_success(status) {
        Ok(())
    } else {
        Err(MetricsError::QueryFailed { status: crate::text::owned(status) })
    }
}

/// A listing answer (names, labels) is used only when its status is
/// `success`.
pub fn check_request_status(status: &str) -> (r: Result<(), MetricsError>)
    ensures
        status@ == "success"@ ==> r is Ok,
        status@ != "success"@ ==> (r matches Err(MetricsError::RequestFailed { status: s }) && s@ == status@),
{
    if is_success(status) {
        Ok(())
    } else {
        Err(MetricsError::RequestFailed { status: crate::text::owned(status) })
    }
}

} // verus!
