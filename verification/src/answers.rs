//! The answers of several profiles to one request, gathered into one list.

use crate::text::{owned, push_str, views};
use vstd::prelude::*;

verus! {

/// What the profiles that answered sent, each item behind its profile's
/// name, and a line for each profile that failed.
pub struct Gathered<T> {
    pub items: Vec<(String, T)>,
    pub errors: Vec<String>,
}

/// `error from profile 'profile': message`.
pub open spec fn failure_line(profile: Seq<char>, message: Seq<char>) -> Seq<char> {
    "error from profile '"@ + profile + "': "@ + message
}

/// An item behind its profile's name, by view.
pub open spec fn item_view<T>(item: (String, T)) -> (Seq<char>, T) {
    (item.0@, item.1)
}

/// The items of `answers`, in profile order and, within a profile, in the
/// order it sent them.
pub open spec fn gathered_items<T>(answers: Seq<(String, Result<Vec<T>, String>)>) -> Seq<(Seq<char>, T)>
    decreases answers.len(),
{
    if answers.len() == 0 {
        seq![]
    } else {
        let (profile, answer) = answers.last();
        gathered_items(answers.drop_last()) + match answer {
            Ok(items) => items@.map_values(|x: T| (profile@, x)),
            Err(_) => seq![],
        }
    }
}

/// The failure lines of `answers`, in profile order.
pub open spec fn gathered_errors<T>(answers: Seq<(String, Result<Vec<T>, String>)>) -> Seq<Seq<char>>
    decreases answers.len(),
{
    if answers.len() == 0 {
        seq![]
    } else {
        let (profile, answer) = answers.last();
        gathered_errors(answers.drop_last()) + match answer {
            Ok(_) => seq![],
            Err(e) => seq![failure_line(profile@, e@)],
        }
    }
}

/// How many items the profiles that answered sent, all together.
pub open spec fn answered_count<T>(answers: Seq<(String, Result<Vec<T>, String>)>) -> nat
    decreases answers.len(),
{
    if answers.len() == 0 {
        0
    } else {
        answered_count(answers.drop_last()) + match answers.last().1 {
            Ok(items) => items@.len(),
            Err(_) => 0,
        }
    }
}

/// How many profiles failed.
pub open spec fn failed_count<T>(answers: Seq<(String, Result<Vec<T>, String>)>) -> nat
    decreases answers.len(),
{
    if answers.len() == 0 {
        0
    } else {
        failed_count(answers.drop_last()) + match answers.last().1 {
            Ok(_) => 0nat,
            Err(_) => 1nat,
        }
    }
}

/// Gathering loses nothing and makes nothing up: there are as many items as
/// the profiles that answered sent, and one failure line per profile that
/// failed.
pub proof fn lemma_gathering_keeps_every_item<T>(answers: Seq<(String, Result<Vec<T>, String>)>)
    ensures
        gathered_items(answers).len() == answered_count(answers),
        gathered_errors(answers).len() == failed_count(answers),
    decreases answers.len(),
{
    if answers.len() > 0 {
        lemma_gathering_keeps_every_item(answers.drop_last());
    }
}

/// The items of one profile, each behind its name.
pub fn behind_profile<T>(items: Vec<T>, profile: &String) -> (r: Vec<(String, T)>)
    ensures
        r@.map_values(|p: (String, T)| item_view(p)) == items@.map_values(|x: T| (profile@, x)),
{
    let ghost all = items@;
    let n = items.len();
    let mut rest = items;
    let mut out: Vec<(String, T)> = Vec::new();
    let mut k: usize = 0;
    while k < n
        invariant
            n == all.len(),
            k <= n,
            rest@ == all.subrange(k as int, n as int),
            out@.map_values(|p: (String, T)| item_view(p)) == all.subrange(0, k as int).map_values(
                |x: T| (profile@, x),
            ),
        decreases n - k,
    {
        let x = rest.remove(0);
        let name = owned(profile.as_str());
        let ghost before = out@;
        out.push((name, x));
        proof {
            assert(rest@ =~= all.subrange(k + 1, n as int));
            assert(out@ =~= before.push((name, x)));
            assert(out@.map_values(|p: (String, T)| item_view(p)) =~= before.map_values(
                |p: (String, T)| item_view(p),
            ).push((profile@, x)));
            assert(all.subrange(0, k + 1) =~= all.subrange(0, k as int).push(all[k as int]));
            assert(all.subrange(0, k + 1).map_values(|x: T| (profile@, x)) =~= all.subrange(
                0,
                k as int,
            ).map_values(|x: T| (profile@, x)).push((profile@, x)));
        }
        k = k + 1;
    }
    assert(all.subrange(0, n as int) =~= all);
    out
}

/// Gathers the answers of several profiles, in their order: the items of
/// each profile that answered, behind its name, and for each that failed
/// the line `error from profile '<profile>': <message>`.
pub fn gather<T>(per_profile: Vec<(String, Result<Vec<T>, String>)>) -> (g: Gathered<T>)
    ensures
        g.items@.map_values(|p: (String, T)| item_view(p)) == gathered_items(per_profile@),
        views(g.errors@) == gathered_errors(per_profile@),
{
    let ghost all = per_profile@;
    let n = per_profile.len();
    let mut rest = per_profile;
    let mut items: Vec<(String, T)> = Vec::new();
    let mut errors: Vec<String> = Vec::new();
    let mut k: usize = 0;
    while k < n
        invariant
            n == all.len(),
            k <= n,
            rest@ == all.subrange(k as int, n as int),
            items@.map_values(|p: (String, T)| item_view(p)) == gathered_items(all.subrange(0, k as int)),
            views(errors@) == gathered_errors(all.subrange(0, k as int)),
        decreases n - k,
    {
        let (profile, answer) = rest.remove(0);
        proof {
            let pre = all.subrange(0, k + 1);
            assert(pre.drop_last() =~= all.subrange(0, k as int));
            assert(pre.last() == all[k as int]);
            assert(rest@ =~= all.subrange(k + 1, n as int));
        }
        match answer {
            Ok(found) => {
                let mut tagged = behind_profile(found, &profile);
                let ghost before = items@;
                let ghost added = tagged@;
                items.append(&mut tagged);
                assert(items@ =~= before + added);
                assert(items@.map_values(|p: (String, T)| item_view(p)) =~= before.map_values(
                    |p: (String, T)| item_view(p),
                ) + added.map_values(|p: (String, T)| item_view(p)));
            },
            Err(e) => {
                let mut line = owned("error from profile '");
                push_str(&mut line, profile.as_str());
                push_str(&mut line, "': ");
                push_str(&mut line, e.as_str());
                proof {
                    crate::text::lemma_views_push(errors@, line);
                }
                errors.push(line);
            },
        }
        k = k + 1;
    }
    assert(all.subrange(0, n as int) =~= all);
    Gathered { items, errors }
}

/// Whether there were profiles to ask and every one of them failed.
pub fn all_failed<T>(per_profile: &[(String, Result<Vec<T>, String>)]) -> (r: bool)
    ensures
        r == (per_profile@.len() > 0 && failed_count(per_profile@) == per_profile@.len()),
{
    let n = per_profile.len();
    let mut failed: usize = 0;
    let mut i: usize = 0;
    while i < n
        invariant
            n == per_profile@.len(),
            i <= n,
            failed as nat == failed_count(per_profile@.take(i as int)),
            failed <= i,
        decreases n - i,
    {
        proof {
            let t = per_profile@.take(i + 1);
            assert(t.drop_last() =~= per_profile@.take(i as int));
            assert(t.last() == per_profile@[i as int]);
        }
        if per_profile[i].1.is_err() {
            failed = failed + 1;
        }
        i = i + 1;
    }
    assert(per_profile@.take(n as int) =~= per_profile@);
    n > 0 && failed == n
}

} // verus!
