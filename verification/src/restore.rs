//! The rules of a restore run: which routes are restored, where from and
//! where to, and which answers confirm it.

use vstd::prelude::*;
use crate::backup::{Transfer, backup_plan, transfers_view};
use crate::config::{Config, destination_path};
use crate::platform::Platform;
use crate::text::{
    ascii_lowercase, chars_of, contains, contains_text, occurs_at, str_equals, string_of,
    to_ascii_lowercase, trim_chars, trimmed, is_white_space, ascii_lower,
};

verus! {

/// Whether a route whose relative destination is `destino` is restored
/// under the optional filter: with no filter every route is, with a filter
/// only those whose destination contains it.
pub open spec fn selected_by(destino: Seq<char>, filter: Option<Seq<char>>) -> bool {
    match filter {
        None => true,
        Some(f) => contains_text(destino, f),
    }
}

/// The copies of a restore: for each selected route, in order, its place
/// on the backup disk goes back to its source.
pub open spec fn restore_plan(
    routes: Seq<(Seq<char>, Seq<char>)>,
    destino_final: Seq<char>,
    p: Platform,
    filter: Option<Seq<char>>,
) -> Seq<(Seq<char>, Seq<char>)>
    decreases routes.len(),
{
    if routes.len() == 0 {
        seq![]
    } else {
        let rest = restore_plan(routes.drop_last(), destino_final, p, filter);
        let r = routes.last();
        if selected_by(r.1, filter) {
            rest.push((destination_path(destino_final, r.1, p), r.0))
        } else {
            rest
        }
    }
}

/// The text of an optional filter.
pub open spec fn filter_view(filter: Option<&str>) -> Option<Seq<char>> {
    match filter {
        Some(f) => Some(f@),
        None => None,
    }
}

/// The copies that a restore with `config` runs on `platform`, restricted
/// to the routes whose destination contains `filter` when one is given.
pub fn restore_transfers(config: &Config, platform: &Platform, filter: Option<&str>) -> (res:
    Vec<Transfer>)
    ensures
        transfers_view(res@) == restore_plan(
            config@.routes,
            config@.destino_final,
            *platform,
            filter_view(filter),
        ),
{
    let ghost routes = config@.routes;
    let ghost fv = filter_view(filter);
    let mut out: Vec<Transfer> = Vec::new();
    let n = config.rutas_origen_destino.len();
    let mut i: usize = 0;
    assert(routes.take(0) =~= Seq::<(Seq<char>, Seq<char>)>::empty());
    while i < n
        invariant
            n == routes.len(),
            routes == config@.routes,
            fv == filter_view(filter),
            i <= n,
            transfers_view(out@) == restore_plan(
                routes.take(i as int),
                config@.destino_final,
                *platform,
                fv,
            ),
        decreases n - i,
    {
        assert(routes.take(i + 1).drop_last() =~= routes.take(i as int));
        assert(routes.take(i + 1).last() == routes[i as int]);
        let destino = config.rutas_origen_destino[i].1.as_str();
        let keep = match filter {
            None => true,
            Some(f) => contains(destino, f),
        };
        let ghost before = transfers_view(out@);
        if keep {
            let origen = config.build_destination_path(destino, platform);
            let target = config.rutas_origen_destino[i].0.clone();
            let t = Transfer { origen, destino: target };
            out.push(t);
            assert(transfers_view(out@) =~= before.push(t@));
        }
        i = i + 1;
    }
    assert(routes.take(n as int) =~= routes);
    out
}

/// Whether the answer of the user confirms a restore: once trimmed and in
/// lower case it is `s`, `si`, `y` or `yes`. Only ASCII letters lowercase to
/// these ASCII answers, so comparing the ASCII-lowercased answer is the same
/// as comparing the fully lowercased one.
pub open spec fn confirms_restore(answer: Seq<char>) -> bool {
    let a = ascii_lowercase(trimmed(answer));
    a == "s"@ || a == "si"@ || a == "y"@ || a == "yes"@
}

/// Whether the answer of the user confirms a restore.
pub fn restore_confirmed(answer: &str) -> (res: bool)
    ensures
        res == confirms_restore(answer@),
{
    let a = string_of(&to_ascii_lowercase(&trim_chars(&chars_of(answer))));
    let s = a.as_str();
    str_equals(s, "s") || str_equals(s, "si") || str_equals(s, "y") || str_equals(s, "yes")
}

/// A restore with no filter undoes the backup: it runs the same copies, in
/// the same order, each in the other direction. The backup copies the
/// source of every route to its destination, one copy per route, in the
/// order of the routes.
pub proof fn lemma_restore_inverts_backup(
    routes: Seq<(Seq<char>, Seq<char>)>,
    destino_final: Seq<char>,
    p: Platform,
)
    ensures
        restore_plan(routes, destino_final, p, None) == backup_plan(
            routes,
            destino_final,
            p,
        ).map_values(|t: (Seq<char>, Seq<char>)| (t.1, t.0)),
        backup_plan(routes, destino_final, p).len() == routes.len(),
        restore_plan(routes, destino_final, p, None).len() == routes.len(),
        forall|i: int|
            0 <= i < routes.len() ==> #[trigger] backup_plan(routes, destino_final, p)[i] == (
                routes[i].0,
                destination_path(destino_final, routes[i].1, p),
            ) && restore_plan(routes, destino_final, p, None)[i] == (
                destination_path(destino_final, routes[i].1, p),
                routes[i].0,
            ),
    decreases routes.len(),
{
    if routes.len() > 0 {
        lemma_restore_inverts_backup(routes.drop_last(), destino_final, p);
        assert(backup_plan(routes, destino_final, p).map_values(
            |t: (Seq<char>, Seq<char>)| (t.1, t.0),
        ) =~= backup_plan(routes.drop_last(), destino_final, p).map_values(
            |t: (Seq<char>, Seq<char>)| (t.1, t.0),
        ).push((destination_path(destino_final, routes.last().1, p), routes.last().0)));
    } else {
        assert(backup_plan(routes, destino_final, p).map_values(
            |t: (Seq<char>, Seq<char>)| (t.1, t.0),
        ) =~= Seq::<(Seq<char>, Seq<char>)>::empty());
    }
}

/// A filter that every destination contains, such as the empty filter or
/// a directory that all destinations share, restores every route.
pub proof fn lemma_filter_common_to_all_restores_all(
    routes: Seq<(Seq<char>, Seq<char>)>,
    destino_final: Seq<char>,
    p: Platform,
    f: Seq<char>,
)
    requires
        forall|i: int| 0 <= i < routes.len() ==> contains_text(#[trigger] routes[i].1, f),
    ensures
        restore_plan(routes, destino_final, p, Some(f)) == restore_plan(
            routes,
            destino_final,
            p,
            None,
        ),
    decreases routes.len(),
{
    if routes.len() > 0 {
        let shorter = routes.drop_last();
        assert forall|i: int| 0 <= i < shorter.len() implies contains_text(
            #[trigger] shorter[i].1,
            f,
        ) by {
            assert(shorter[i] == routes[i]);
        }
        lemma_filter_common_to_all_restores_all(shorter, destino_final, p, f);
        assert(contains_text(routes[routes.len() - 1].1, f));
    }
}

/// The empty text occurs in every destination, so the empty filter
/// restores every route.
pub proof fn lemma_empty_filter_restores_all(
    routes: Seq<(Seq<char>, Seq<char>)>,
    destino_final: Seq<char>,
    p: Platform,
)
    ensures
        restore_plan(routes, destino_final, p, Some(Seq::empty())) == restore_plan(
            routes,
            destino_final,
            p,
            None,
        ),
{
    assert forall|i: int| 0 <= i < routes.len() implies contains_text(
        #[trigger] routes[i].1,
        Seq::<char>::empty(),
    ) by {
        assert(routes[i].1.subrange(0, 0) =~= Seq::<char>::empty());
        assert(occurs_at(routes[i].1, Seq::<char>::empty(), 0));
    }
    lemma_filter_common_to_all_restores_all(routes, destino_final, p, Seq::empty());
}

/// The routes whose destination contains `f`, in order.
pub open spec fn routes_matching(routes: Seq<(Seq<char>, Seq<char>)>, f: Seq<char>) -> Seq<
    (Seq<char>, Seq<char>),
>
    decreases routes.len(),
{
    if routes.len() == 0 {
        routes
    } else if contains_text(routes.last().1, f) {
        routes_matching(routes.drop_last(), f).push(routes.last())
    } else {
        routes_matching(routes.drop_last(), f)
    }
}

/// A restore filtered by `f` is the unfiltered restore of just the routes
/// whose destination contains `f`; there are no more of them than routes,
/// and each of them does contain `f`.
pub proof fn lemma_filtered_restore_is_restore_of_matching_routes(
    routes: Seq<(Seq<char>, Seq<char>)>,
    destino_final: Seq<char>,
    p: Platform,
    f: Seq<char>,
)
    ensures
        restore_plan(routes, destino_final, p, Some(f)) == restore_plan(
            routes_matching(routes, f),
            destino_final,
            p,
            None,
        ),
        routes_matching(routes, f).len() <= routes.len(),
        forall|i: int|
            0 <= i < routes_matching(routes, f).len() ==> contains_text(
                (#[trigger] routes_matching(routes, f)[i]).1,
                f,
            ),
    decreases routes.len(),
{
    if routes.len() > 0 {
        let shorter = routes.drop_last();
        lemma_filtered_restore_is_restore_of_matching_routes(shorter, destino_final, p, f);
        let m = routes_matching(shorter, f);
        if contains_text(routes.last().1, f) {
            let m2 = m.push(routes.last());
            assert(m2.drop_last() =~= m);
            assert forall|i: int| 0 <= i < m2.len() implies contains_text(
                (#[trigger] m2[i]).1,
                f,
            ) by {
                if i < m.len() {
                    assert(m2[i] == m[i]);
                }
            }
        }
    }
}

} // verus!

verus! {

/// Whether a restore is confirmed depends on the answer only through its
/// trimmed, ASCII-lowercased text: answers that differ only in white space
/// around them or in the case of their letters are taken alike.
pub proof fn lemma_confirmation_ignores_case_and_surrounding_space(a: Seq<char>, b: Seq<char>)
    requires
        ascii_lowercase(trimmed(a)) == ascii_lowercase(trimmed(b)),
    ensures
        confirms_restore(a) == confirms_restore(b),
{
}

/// `s`, `si`, `y` and `yes`, in any case of letters and with any white
/// space before or after them (such as the line feed the user types),
/// confirm a restore.
pub proof fn lemma_affirmative_answers_confirm(pre: Seq<char>, w: Seq<char>, post: Seq<char>)
    requires
        forall|i: int| 0 <= i < pre.len() ==> is_white_space(#[trigger] pre[i]),
        forall|i: int| 0 <= i < post.len() ==> is_white_space(#[trigger] post[i]),
        ascii_lowercase(w) == "s"@ || ascii_lowercase(w) == "si"@ || ascii_lowercase(w) == "y"@
            || ascii_lowercase(w) == "yes"@,
    ensures
        confirms_restore(pre + w + post),
{
    reveal_strlit("s");
    reveal_strlit("si");
    reveal_strlit("y");
    reveal_strlit("yes");
    let l = ascii_lowercase(w);
    assert(w.len() == l.len());
    assert(w.len() > 0);
    let s = pre + w + post;
    let i = pre.len() as int;
    let j = pre.len() + w.len() - 1;
    crate::text::lemma_ascii_case_maps(w[0]);
    crate::text::lemma_ascii_case_maps(w[w.len() - 1]);
    assert(l[0] == ascii_lower(w[0]));
    assert(l[l.len() - 1] == ascii_lower(w[w.len() - 1]));
    assert(s[i] == w[0]);
    assert(s[j] == w[w.len() - 1]);
    assert forall|k: int| 0 <= k < i implies is_white_space(#[trigger] s[k]) by {
        assert(s[k] == pre[k]);
    }
    assert forall|k: int| j < k < s.len() implies is_white_space(#[trigger] s[k]) by {
        assert(s[k] == post[k - i - w.len()]);
    }
    crate::text::lemma_trimmed_is_between_visible_ends(s, i, j);
    assert(s.subrange(i, j + 1) =~= w);
}

} // verus!
