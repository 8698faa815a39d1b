//! The list of recently opened workspaces: kept most recent first, without
//! repetitions, ten at most, and offered in the menu under their
//! home-relative names.
use vstd::prelude::*;

use crate::menu::{recent_item_id, recent_item_id_spec};
use crate::paths::{abbreviate_path_spec, abbreviate_path_with};
use crate::text::{opt_text, str_eq};

verus! {

/// How many recent workspaces are kept and offered.
pub const RECENT_LIMIT: usize = 10;

/// `l` without the occurrences of `p`.
pub open spec fn remove_all(l: Seq<Seq<char>>, p: Seq<char>) -> Seq<Seq<char>>
    decreases l.len(),
{
    if l.len() == 0 {
        l
    } else {
        let rest = remove_all(l.drop_last(), p);
        if l.last() == p {
            rest
        } else {
            rest.push(l.last())
        }
    }
}

/// The first `n` items of `l`, or all of them.
pub open spec fn take_at_most(l: Seq<Seq<char>>, n: nat) -> Seq<Seq<char>> {
    if l.len() <= n {
        l
    } else {
        l.subrange(0, n as int)
    }
}

/// The recent workspaces after `p` is opened: `p` first, then the others as
/// they were, ten at most.
pub open spec fn recent_after_open(l: Seq<Seq<char>>, p: Seq<char>) -> Seq<Seq<char>> {
    take_at_most(seq![p] + remove_all(l, p), RECENT_LIMIT as nat)
}

/// Records that the workspace at `workspace_path` was opened.
pub fn update_recent_workspaces(recent: &Vec<String>, workspace_path: &str) -> (r: Vec<String>)
    ensures
        r@.map_values(|s: String| s@) == recent_after_open(
            recent@.map_values(|s: String| s@),
            workspace_path@,
        ),
{
    let ghost l = recent@.map_values(|s: String| s@);
    let mut out: Vec<String> = Vec::new();
    out.push(String::from_str(workspace_path));
    let mut i: usize = 0;
    assert(l.subrange(0, 0) =~= Seq::<Seq<char>>::empty());
    assert(out@.map_values(|s: String| s@) =~= seq![workspace_path@] + remove_all(
        l.subrange(0, 0),
        workspace_path@,
    ));
    while i < recent.len()
        invariant
            i <= recent@.len(),
            l == recent@.map_values(|s: String| s@),
            out@.map_values(|s: String| s@) == seq![workspace_path@] + remove_all(
                l.subrange(0, i as int),
                workspace_path@,
            ),
        decreases recent@.len() - i,
    {
        assert(l.subrange(0, i + 1).drop_last() == l.subrange(0, i as int));
        assert(l.subrange(0, i + 1).last() == recent@[i as int]@);
        if !str_eq(recent[i].as_str(), workspace_path) {
            let ghost before = out@;
            out.push(String::from_str(recent[i].as_str()));
            assert(out@.map_values(|s: String| s@) =~= before.map_values(|s: String| s@).push(
                recent@[i as int]@,
            ));
        }
        i = i + 1;
    }
    assert(l.subrange(0, recent@.len() as int) =~= l);
    out.truncate(RECENT_LIMIT);
    assert(out@.map_values(|s: String| s@) =~= recent_after_open(l, workspace_path@));
    out
}

/// Removing `p` leaves no `p`, and leaves a list without `p` as it was.
proof fn lemma_remove_all(l: Seq<Seq<char>>, p: Seq<char>)
    ensures
        forall|i: int| 0 <= i < remove_all(l, p).len() ==> #[trigger] remove_all(l, p)[i] != p,
        (forall|i: int| 0 <= i < l.len() ==> #[trigger] l[i] != p) ==> remove_all(l, p) == l,
        remove_all(l, p).len() <= l.len(),
    decreases l.len(),
{
    if l.len() > 0 {
        lemma_remove_all(l.drop_last(), p);
        if forall|i: int| 0 <= i < l.len() ==> #[trigger] l[i] != p {
            assert forall|i: int| 0 <= i < l.drop_last().len() implies #[trigger] l.drop_last()[i] != p by {
                assert(l.drop_last()[i] == l[i]);
            }
            assert(l.last() == l[l.len() - 1]);
            assert(l.drop_last().push(l.last()) =~= l);
        }
    }
}

/// Opening the workspace that was opened last leaves the list as it is.
pub proof fn law_reopening_keeps_list(l: Seq<Seq<char>>, p: Seq<char>)
    ensures
        recent_after_open(recent_after_open(l, p), p) == recent_after_open(l, p),
{
    let once = recent_after_open(l, p);
    let rest = remove_all(l, p);
    lemma_remove_all(l, p);
    let tail = once.subrange(1, once.len() as int);
    assert forall|i: int| 0 <= i < tail.len() implies #[trigger] tail[i] != p by {
        assert(tail[i] == (seq![p] + rest)[i + 1]);
        assert((seq![p] + rest)[i + 1] == rest[i]);
    }
    lemma_remove_all(tail, p);
    // removing p from `once` drops its first item only
    lemma_remove_all_front(p, tail);
    assert(seq![p] + tail =~= once);
}

/// Removing `p` from `p` followed by a list without `p` gives that list.
proof fn lemma_remove_all_front(p: Seq<char>, tail: Seq<Seq<char>>)
    requires
        forall|i: int| 0 <= i < tail.len() ==> #[trigger] tail[i] != p,
    ensures
        remove_all(seq![p] + tail, p) == tail,
    decreases tail.len(),
{
    if tail.len() == 0 {
        assert(seq![p] + tail =~= seq![p]);
        assert(seq![p].drop_last() =~= Seq::<Seq<char>>::empty());
        assert(remove_all(Seq::<Seq<char>>::empty(), p) =~= Seq::<Seq<char>>::empty());
        assert(tail =~= Seq::<Seq<char>>::empty());
    } else {
        let whole = seq![p] + tail;
        assert(whole.drop_last() =~= seq![p] + tail.drop_last());
        assert forall|i: int| 0 <= i < tail.drop_last().len() implies #[trigger] tail.drop_last()[i] != p by {
            assert(tail.drop_last()[i] == tail[i]);
        }
        lemma_remove_all_front(p, tail.drop_last());
        assert(whole.last() == tail.last());
        assert(tail.last() == tail[tail.len() - 1]);
        assert(tail.drop_last().push(tail.last()) =~= tail);
        assert(tail.last() != p);
        assert(remove_all(whole, p) == remove_all(whole.drop_last(), p).push(whole.last()));
    }
}

/// The entries of the "Open Recent" menu: for each of the first ten
/// workspaces, its item id and its label.
pub open spec fn recent_menu_spec(recent: Seq<Seq<char>>, home: Option<Seq<char>>) -> Seq<(Seq<char>, Seq<char>)> {
    take_at_most(recent, RECENT_LIMIT as nat).map_values(
        |p: Seq<char>| (recent_item_id_spec(p), abbreviate_path_spec(p, home)),
    )
}

/// Builds the entries of the "Open Recent" menu.
pub fn recent_menu_entries(recent: &Vec<String>, home: Option<&str>) -> (r: Vec<(String, String)>)
    ensures
        r@.map_values(|e: (String, String)| (e.0@, e.1@)) == recent_menu_spec(
            recent@.map_values(|s: String| s@),
            opt_text(home),
        ),
{
    let ghost l = recent@.map_values(|s: String| s@);
    let n = if recent.len() <= RECENT_LIMIT { recent.len() } else { RECENT_LIMIT };
    let ghost shown = take_at_most(l, RECENT_LIMIT as nat);
    assert(shown.len() == n);
    let mut out: Vec<(String, String)> = Vec::new();
    let mut i: usize = 0;
    while i < n
        invariant
            i <= n <= recent@.len(),
            n == shown.len(),
            l == recent@.map_values(|s: String| s@),
            shown == take_at_most(l, RECENT_LIMIT as nat),
            out@.map_values(|e: (String, String)| (e.0@, e.1@)) == shown.subrange(0, i as int).map_values(
                |p: Seq<char>| (recent_item_id_spec(p), abbreviate_path_spec(p, opt_text(home))),
            ),
        decreases n - i,
    {
        assert(shown[i as int] == recent@[i as int]@);
        let id = recent_item_id(recent[i].as_str());
        let label = abbreviate_path_with(recent[i].as_str(), home);
        let ghost before = out@;
        out.push((id, label));
        assert(shown.subrange(0, i + 1) =~= shown.subrange(0, i as int).push(shown[i as int]));
        assert(out@.map_values(|e: (String, String)| (e.0@, e.1@)) =~= before.map_values(
            |e: (String, String)| (e.0@, e.1@),
        ).push((recent_item_id_spec(shown[i as int]), abbreviate_path_spec(shown[i as int], opt_text(home)))));
        i = i + 1;
    }
    assert(shown.subrange(0, n as int) =~= shown);
    out
}

/// No item occurs twice in `l`.
pub open spec fn no_repetitions(l: Seq<Seq<char>>) -> bool {
    forall|i: int, j: int| 0 <= i < j < l.len() ==> #[trigger] l[i] != #[trigger] l[j]
}

/// What `remove_all` keeps was in the list, and it keeps no repetition.
proof fn lemma_remove_all_keeps(l: Seq<Seq<char>>, p: Seq<char>)
    ensures
        forall|i: int| 0 <= i < remove_all(l, p).len() ==> l.contains(#[trigger] remove_all(l, p)[i]),
        no_repetitions(l) ==> no_repetitions(remove_all(l, p)),
    decreases l.len(),
{
    if l.len() > 0 {
        let init = l.drop_last();
        lemma_remove_all_keeps(init, p);
        let r = remove_all(init, p);
        assert forall|i: int| 0 <= i < r.len() implies l.contains(#[trigger] r[i]) by {
            assert(init.contains(r[i]));
            let k = choose|k: int| 0 <= k < init.len() && init[k] == r[i];
            assert(l[k] == init[k]);
        }
        assert(l[l.len() - 1] == l.last());
        if no_repetitions(l) {
            assert(no_repetitions(init)) by {
                assert forall|a: int, b: int| 0 <= a < b < init.len() implies #[trigger] init[a] != #[trigger] init[b] by {
                    assert(init[a] == l[a] && init[b] == l[b]);
                }
            }
            if l.last() != p {
                assert forall|a: int| 0 <= a < r.len() implies #[trigger] r[a] != l.last() by {
                    assert(init.contains(r[a]));
                    let k = choose|k: int| 0 <= k < init.len() && init[k] == r[a];
                    assert(l[k] == init[k]);
                }
                assert(no_repetitions(r.push(l.last()))) by {
                    let q = r.push(l.last());
                    assert forall|a: int, b: int| 0 <= a < b < q.len() implies #[trigger] q[a] != #[trigger] q[b] by {
                        if b == r.len() {
                            assert(q[a] == r[a]);
                        } else {
                            assert(q[a] == r[a] && q[b] == r[b]);
                        }
                    }
                }
            }
        }
    }
}

/// The recent workspaces never hold a workspace twice, provided they did not
/// before.
pub proof fn law_no_repetitions(l: Seq<Seq<char>>, p: Seq<char>)
    requires
        no_repetitions(l),
    ensures
        no_repetitions(recent_after_open(l, p)),
        recent_after_open(l, p)[0] == p,
        recent_after_open(l, p).len() <= RECENT_LIMIT,
{
    lemma_remove_all(l, p);
    lemma_remove_all_keeps(l, p);
    let rest = remove_all(l, p);
    let all = seq![p] + rest;
    assert forall|a: int, b: int| 0 <= a < b < all.len() implies #[trigger] all[a] != #[trigger] all[b] by {
        if a == 0 {
            assert(all[b] == rest[b - 1]);
        } else {
            assert(all[a] == rest[a - 1] && all[b] == rest[b - 1]);
        }
    }
    let r = recent_after_open(l, p);
    assert forall|a: int, b: int| 0 <= a < b < r.len() implies #[trigger] r[a] != #[trigger] r[b] by {
        assert(r[a] == all[a] && r[b] == all[b]);
    }
}

}
