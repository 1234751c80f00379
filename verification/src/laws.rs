//! Properties of the client that span several reports or several functions.

use vstd::prelude::*;
use crate::client::{
    as_client_updates, converts_all, event_applied, layout_after, layout_announcement, layout_change,
    same_layout, spec_workspace_snapshot, state_applied, unchanged, Client, ClientUpdateView, EventMessage,
};
use crate::keyboard::{KeyboardLayoutUpdate, RawState};
use crate::decimal::{is_digit, law_decimal_spells_value, numeral_value};
use crate::updates::{
    changes, find_by_id, find_focused, has_id, is_first_focused, is_first_with_id, plain_workspaces, removals,
    spec_workspace_updates, updates_for, UpdateView,
};
use crate::workspace::{RawWorkspace, TriadWorkspace, Visibility, Workspace};

verus! {

/// Reporting again the keyboard layout that was just reported announces nothing and
/// leaves the known layout as it is.
pub proof fn law_repeated_layout_is_quiet(
    current: Option<KeyboardLayoutUpdate>,
    incoming: Option<KeyboardLayoutUpdate>,
)
    ensures
        layout_change(layout_after(current, incoming), incoming) is None,
        layout_after(layout_after(current, incoming), incoming) == layout_after(current, incoming),
{
    assert(same_layout(incoming, incoming));
}

/// A layout that is announced is the layout the client then knows, so a subscriber that
/// joins afterwards starts from the layout last announced; when nothing is announced the
/// known layout either stays as it was or is cleared.
pub proof fn law_announced_layout_is_known(
    current: Option<KeyboardLayoutUpdate>,
    incoming: Option<KeyboardLayoutUpdate>,
)
    ensures
        layout_change(current, incoming) matches Some(l) ==> layout_after(current, incoming) == Some(l),
        layout_change(current, incoming) is None ==> (layout_after(current, incoming) == current || layout_after(current, incoming) is None),
{
}

/// Triad reports each tag once.
pub open spec fn tags_distinct(raw: Seq<RawWorkspace>) -> bool {
    forall|i: int, j: int| 0 <= i < raw.len() && 0 <= j < raw.len() && i != j ==> raw[i].tag_id != raw[j].tag_id
}

proof fn lemma_first_of_own_id(a: Seq<TriadWorkspace>, raw: Seq<RawWorkspace>, k: int)
    requires
        converts_all(a, raw),
        tags_distinct(raw),
        0 <= k < a.len(),
    ensures
        is_first_with_id(a, a[k].workspace.id, k),
        find_by_id(a, a[k].workspace.id) == Some(a[k]),
{
    assert forall|j: int| 0 <= j < k implies a[j].workspace.id != a[k].workspace.id by {
        assert(a[j].converted_from(raw[j]));
        assert(a[k].converted_from(raw[k]));
        let x = raw[j].tag_id;
        let y = raw[k].tag_id;
        assert(x != y);
        assert(x != y ==> x as i64 != y as i64) by (bit_vector);
    }
    let c = choose|c: int| is_first_with_id(a, a[k].workspace.id, c);
    assert(is_first_with_id(a, a[k].workspace.id, k));
    if c != k {
        assert(is_first_with_id(a, a[k].workspace.id, c));
        assert(false);
    }
}

proof fn lemma_changes_quiet(a: Seq<TriadWorkspace>, b: Seq<TriadWorkspace>, raw: Seq<RawWorkspace>, k: int)
    requires
        converts_all(a, raw),
        converts_all(b, raw),
        tags_distinct(raw),
        0 <= k <= b.len(),
    ensures
        changes(a, b.take(k)) == Seq::<UpdateView>::empty(),
    decreases k,
{
    if k == 0 {
        assert(b.take(0).len() == 0);
    } else {
        lemma_changes_quiet(a, b, raw, k - 1);
        assert(b.take(k).drop_last() =~= b.take(k - 1));
        let n = b[k - 1];
        assert(b.take(k).last() == n);
        assert(a[k - 1].converted_from(raw[k - 1]));
        assert(n.converted_from(raw[k - 1]));
        lemma_first_of_own_id(a, raw, k - 1);
        assert(n.workspace.id == a[k - 1].workspace.id);
        assert(updates_for(a, n) =~= Seq::<UpdateView>::empty());
    }
}

proof fn lemma_removals_quiet(a: Seq<TriadWorkspace>, b: Seq<TriadWorkspace>, raw: Seq<RawWorkspace>, k: int)
    requires
        converts_all(a, raw),
        converts_all(b, raw),
        0 <= k <= a.len(),
    ensures
        removals(a.take(k), b) == Seq::<UpdateView>::empty(),
    decreases k,
{
    if k == 0 {
        assert(a.take(0).len() == 0);
    } else {
        lemma_removals_quiet(a, b, raw, k - 1);
        assert(a.take(k).drop_last() =~= a.take(k - 1));
        assert(a.take(k).last() == a[k - 1]);
        assert(a[k - 1].converted_from(raw[k - 1]));
        assert(b[k - 1].converted_from(raw[k - 1]));
        assert(has_id(b, a[k - 1].workspace.id));
    }
}

/// Reporting the same workspaces twice in a row announces nothing the second time,
/// provided that the report is not empty and names each tag once.
pub proof fn law_repeated_workspaces_are_quiet(
    first: Seq<TriadWorkspace>,
    second: Seq<TriadWorkspace>,
    raw: Seq<RawWorkspace>,
)
    requires
        converts_all(first, raw),
        converts_all(second, raw),
        raw.len() > 0,
        tags_distinct(raw),
    ensures
        spec_workspace_updates(first, second) == Seq::<UpdateView>::empty(),
{
    lemma_changes_quiet(first, second, raw, second.len() as int);
    lemma_removals_quiet(first, second, raw, first.len() as int);
    assert(second.take(second.len() as int) =~= second);
    assert(first.take(first.len() as int) =~= first);
    assert(spec_workspace_updates(first, second) =~= Seq::<UpdateView>::empty());
}

/// A new workspace subscriber receives exactly the workspaces of the last report, in
/// its order, once that report named any.
pub proof fn law_subscriber_sees_last_report(known: Seq<TriadWorkspace>, raw: Seq<RawWorkspace>)
    requires
        converts_all(known, raw),
        raw.len() > 0,
    ensures
        spec_workspace_snapshot(known) matches Some(UpdateView::Init(list)) && list.len() == raw.len()
            && forall|i: int| 0 <= i < raw.len() ==> #[trigger] list[i].converted_from(raw[i]),
{
    let list = plain_workspaces(known);
    assert forall|i: int| 0 <= i < raw.len() implies #[trigger] list[i].converted_from(raw[i]) by {
        assert(known[i].converted_from(raw[i]));
    }
}

proof fn lemma_concat_contains<A>(s: Seq<A>, t: Seq<A>, x: A)
    ensures
        (s + t).contains(x) <==> s.contains(x) || t.contains(x),
{
    if s.contains(x) {
        let i = choose|i: int| 0 <= i < s.len() && s[i] == x;
        assert((s + t)[i] == x);
    }
    if t.contains(x) {
        let i = choose|i: int| 0 <= i < t.len() && t[i] == x;
        assert((s + t)[s.len() + i] == x);
    }
    if (s + t).contains(x) {
        let i = choose|i: int| 0 <= i < (s + t).len() && (s + t)[i] == x;
        if i < s.len() {
            assert(s[i] == x);
        } else {
            assert(t[i - s.len()] == x);
        }
    }
}

proof fn lemma_has_id_has_first(s: Seq<TriadWorkspace>, id: i64)
    requires
        has_id(s, id),
    ensures
        exists|k: int| is_first_with_id(s, id, k),
    decreases s.len(),
{
    let d = s.drop_last();
    if has_id(d, id) {
        lemma_has_id_has_first(d, id);
        let k = choose|k: int| is_first_with_id(d, id, k);
        assert forall|j: int| 0 <= j < k implies s[j].workspace.id != id by {
            assert(s[j] == d[j]);
        }
        assert(s[k] == d[k]);
        assert(is_first_with_id(s, id, k));
    } else {
        let j = choose|j: int| 0 <= j < s.len() && s[j].workspace.id == id;
        if j < s.len() - 1 {
            assert(d[j].workspace.id == id);
        }
        assert forall|i: int| 0 <= i < s.len() - 1 implies s[i].workspace.id != id by {
            if s[i].workspace.id == id {
                assert(d[i].workspace.id == id);
            }
        }
        assert(is_first_with_id(s, id, s.len() - 1));
    }
}

proof fn lemma_updates_for_kinds(old: Seq<TriadWorkspace>, n: TriadWorkspace, id: i64, w: crate::workspace::Workspace)
    ensures
        !updates_for(old, n).contains(UpdateView::Remove(id)),
        updates_for(old, n).contains(UpdateView::Add(w)) <==> (!has_id(old, n.workspace.id) && n.workspace == w),
{
    let u = updates_for(old, n);
    if has_id(old, n.workspace.id) {
        lemma_has_id_has_first(old, n.workspace.id);
    } else {
        assert(!exists|k: int| is_first_with_id(old, n.workspace.id, k));
    }
    assert forall|i: int| 0 <= i < u.len() implies !(u[i] is Remove) && (u[i] is Add ==> (!has_id(old, n.workspace.id) && u[i] == UpdateView::Add(n.workspace))) by {
    }
    if u.contains(UpdateView::Add(w)) {
        let i = choose|i: int| 0 <= i < u.len() && u[i] == UpdateView::Add(w);
        assert(u[i] is Add);
    }
    if !has_id(old, n.workspace.id) && n.workspace == w {
        assert(u[0] == UpdateView::Add(w));
    }
}

proof fn lemma_changes_kinds(old: Seq<TriadWorkspace>, new: Seq<TriadWorkspace>, id: i64, w: crate::workspace::Workspace)
    ensures
        !changes(old, new).contains(UpdateView::Remove(id)),
        changes(old, new).contains(UpdateView::Add(w)) <==> (!has_id(old, w.id) && exists|i: int|
            0 <= i < new.len() && #[trigger] new[i].workspace == w),
    decreases new.len(),
{
    if new.len() == 0 {
    } else {
        let d = new.drop_last();
        lemma_changes_kinds(old, d, id, w);
        lemma_updates_for_kinds(old, new.last(), id, w);
        lemma_concat_contains(changes(old, d), updates_for(old, new.last()), UpdateView::Remove(id));
        lemma_concat_contains(changes(old, d), updates_for(old, new.last()), UpdateView::Add(w));
        if exists|i: int| 0 <= i < new.len() && #[trigger] new[i].workspace == w {
            let i = choose|i: int| 0 <= i < new.len() && #[trigger] new[i].workspace == w;
            if i < new.len() - 1 {
                assert(d[i].workspace == w);
            }
        }
        if exists|i: int| 0 <= i < d.len() && #[trigger] d[i].workspace == w {
            let i = choose|i: int| 0 <= i < d.len() && #[trigger] d[i].workspace == w;
            assert(new[i].workspace == w);
        }
    }
}

proof fn lemma_removals_kinds(old: Seq<TriadWorkspace>, new: Seq<TriadWorkspace>, id: i64, w: crate::workspace::Workspace)
    ensures
        !removals(old, new).contains(UpdateView::Add(w)),
        removals(old, new).contains(UpdateView::Remove(id)) <==> (has_id(old, id) && !has_id(new, id)),
    decreases old.len(),
{
    if old.len() == 0 {
    } else {
        let d = old.drop_last();
        let last = old.last();
        lemma_removals_kinds(d, new, id, w);
        let tail = if has_id(new, last.workspace.id) {
            Seq::<UpdateView>::empty()
        } else {
            seq![UpdateView::Remove(last.workspace.id)]
        };
        lemma_concat_contains(removals(d, new), tail, UpdateView::Remove(id));
        lemma_concat_contains(removals(d, new), tail, UpdateView::Add(w));
        if has_id(old, id) {
            let j = choose|j: int| 0 <= j < old.len() && old[j].workspace.id == id;
            if j < old.len() - 1 {
                assert(d[j].workspace.id == id);
            }
        }
        if has_id(d, id) {
            let j = choose|j: int| 0 <= j < d.len() && d[j].workspace.id == id;
            assert(old[j].workspace.id == id);
        }
        if tail.len() > 0 {
            assert(tail.contains(UpdateView::Remove(id)) <==> id == last.workspace.id) by {
                if id == last.workspace.id {
                    assert(tail[0] == UpdateView::Remove(id));
                }
            }
        }
    }
}

/// Once some workspace was known, a workspace's removal is announced exactly when its
/// id was known and the new report has no workspace with that id.
pub proof fn law_removal_announced_iff_gone(old: Seq<TriadWorkspace>, new: Seq<TriadWorkspace>, id: i64)
    requires
        old.len() > 0,
    ensures
        spec_workspace_updates(old, new).contains(UpdateView::Remove(id)) <==> ((exists|k: int|
            0 <= k < old.len() && #[trigger] old[k].workspace.id == id) && !(exists|k: int|
            0 <= k < new.len() && #[trigger] new[k].workspace.id == id)),
{
    let w = arbitrary_workspace();
    lemma_changes_kinds(old, new, id, w);
    lemma_removals_kinds(old, new, id, w);
    lemma_concat_contains(changes(old, new), removals(old, new), UpdateView::Remove(id));
}

/// Once some workspace was known, an addition is announced exactly for the workspaces
/// of the new report whose id was not known.
pub proof fn law_addition_announced_iff_new(
    old: Seq<TriadWorkspace>,
    new: Seq<TriadWorkspace>,
    w: crate::workspace::Workspace,
)
    requires
        old.len() > 0,
    ensures
        spec_workspace_updates(old, new).contains(UpdateView::Add(w)) <==> (!(exists|k: int|
            0 <= k < old.len() && #[trigger] old[k].workspace.id == w.id) && exists|i: int|
            0 <= i < new.len() && #[trigger] new[i].workspace == w),
{
    lemma_changes_kinds(old, new, 0, w);
    lemma_removals_kinds(old, new, 0, w);
    lemma_concat_contains(changes(old, new), removals(old, new), UpdateView::Add(w));
}

spec fn arbitrary_workspace() -> crate::workspace::Workspace {
    vstd::pervasive::arbitrary()
}

proof fn lemma_singleton_contains<A>(a: A, x: A)
    ensures
        seq![a].contains(x) <==> x == a,
{
    if x == a {
        assert(seq![a][0] == x);
    }
}

proof fn lemma_first_is_found(old: Seq<TriadWorkspace>, id: i64, k: int)
    requires
        is_first_with_id(old, id, k),
    ensures
        find_by_id(old, id) == Some(old[k]),
{
    let c = choose|c: int| is_first_with_id(old, id, c);
    if c != k {
        assert(is_first_with_id(old, id, c));
        assert(false);
    }
}

proof fn lemma_updates_for_cases(old: Seq<TriadWorkspace>, n: TriadWorkspace, x: UpdateView)
    ensures
        updates_for(old, n).contains(x) <==> match find_by_id(old, n.workspace.id) {
            None => x == UpdateView::Add(n.workspace),
            Some(o) => {
                ||| (x == UpdateView::Rename { id: n.workspace.id, name: n.workspace.name@ }
                    && n.workspace.name@ != o.workspace.name@)
                ||| (x == UpdateView::Move(n.workspace) && (n.workspace.monitor@
                    != o.workspace.monitor@ || n.workspace.index != o.workspace.index))
                ||| (x == UpdateView::Focus { old: find_focused(old), new: n.workspace }
                    && n.workspace.visibility.is_focused()
                    && !o.workspace.visibility.is_focused())
                ||| (x == UpdateView::Urgent { id: n.workspace.id, urgent: n.urgent } && n.urgent
                    != o.urgent)
            },
        },
{
    let w = n.workspace;
    match find_by_id(old, w.id) {
        None => {
            lemma_singleton_contains(UpdateView::Add(w), x);
        },
        Some(o) => {
            let prev = o.workspace;
            let r1 = UpdateView::Rename { id: w.id, name: w.name@ };
            let r2 = UpdateView::Move(w);
            let r3 = UpdateView::Focus { old: find_focused(old), new: w };
            let r4 = UpdateView::Urgent { id: w.id, urgent: n.urgent };
            let s1 = if w.name@ != prev.name@ { seq![r1] } else { Seq::empty() };
            let s2 = if w.monitor@ != prev.monitor@ || w.index != prev.index { seq![r2] } else { Seq::empty() };
            let s3 = if w.visibility.is_focused() && !prev.visibility.is_focused() { seq![r3] } else { Seq::empty() };
            let s4 = if n.urgent != o.urgent { seq![r4] } else { Seq::empty() };
            assert(updates_for(old, n) == s1 + s2 + s3 + s4);
            lemma_concat_contains(s1 + s2 + s3, s4, x);
            lemma_concat_contains(s1 + s2, s3, x);
            lemma_concat_contains(s1, s2, x);
            lemma_singleton_contains(r1, x);
            lemma_singleton_contains(r2, x);
            lemma_singleton_contains(r3, x);
            lemma_singleton_contains(r4, x);
        },
    }
}

proof fn lemma_changes_contains(old: Seq<TriadWorkspace>, new: Seq<TriadWorkspace>, x: UpdateView)
    ensures
        changes(old, new).contains(x) <==> exists|i: int| 0 <= i < new.len() && #[trigger] updates_for(old, new[i]).contains(x),
    decreases new.len(),
{
    if new.len() > 0 {
        let d = new.drop_last();
        lemma_changes_contains(old, d, x);
        lemma_concat_contains(changes(old, d), updates_for(old, new.last()), x);
        if exists|i: int| 0 <= i < d.len() && #[trigger] updates_for(old, d[i]).contains(x) {
            let i = choose|i: int| 0 <= i < d.len() && #[trigger] updates_for(old, d[i]).contains(x);
            assert(new[i] == d[i]);
            assert(updates_for(old, new[i]).contains(x));
        }
        if exists|i: int| 0 <= i < new.len() && #[trigger] updates_for(old, new[i]).contains(x) {
            let i = choose|i: int| 0 <= i < new.len() && #[trigger] updates_for(old, new[i]).contains(x);
            if i < new.len() - 1 {
                assert(d[i] == new[i]);
                assert(updates_for(old, d[i]).contains(x));
            }
        }
    }
}

proof fn lemma_removals_only_removals(old: Seq<TriadWorkspace>, new: Seq<TriadWorkspace>)
    ensures
        forall|j: int| 0 <= j < removals(old, new).len() ==> #[trigger] removals(old, new)[j] is Remove,
    decreases old.len(),
{
    if old.len() > 0 {
        lemma_removals_only_removals(old.drop_last(), new);
    }
}

proof fn lemma_updates_for_not_remove(old: Seq<TriadWorkspace>, n: TriadWorkspace, x: UpdateView)
    requires
        x is Remove,
    ensures
        !updates_for(old, n).contains(x),
{
    lemma_updates_for_cases(old, n, x);
}

/// With some workspace known, an update other than a removal is announced exactly
/// when one workspace of the new report gives rise to it.
proof fn lemma_diff_contains(old: Seq<TriadWorkspace>, new: Seq<TriadWorkspace>, x: UpdateView)
    requires
        old.len() > 0,
        !(x is Remove),
    ensures
        spec_workspace_updates(old, new).contains(x) <==> exists|i: int| 0 <= i < new.len() && #[trigger] updates_for(old, new[i]).contains(x),
{
    lemma_changes_contains(old, new, x);
    lemma_removals_only_removals(old, new);
    lemma_concat_contains(changes(old, new), removals(old, new), x);
    if removals(old, new).contains(x) {
        let j = choose|j: int| 0 <= j < removals(old, new).len() && removals(old, new)[j] == x;
        assert(removals(old, new)[j] is Remove);
    }
}

/// `k` is the position of the first workspace of `old` whose id is `id`.
pub open spec fn first_of_id(old: Seq<TriadWorkspace>, id: i64, k: int) -> bool {
    &&& 0 <= k < old.len()
    &&& old[k].workspace.id == id
    &&& forall|j: int| 0 <= j < k ==> old[j].workspace.id != id
}

proof fn lemma_found_is_first(old: Seq<TriadWorkspace>, id: i64) -> (k: int)
    requires
        find_by_id(old, id) is Some,
    ensures
        first_of_id(old, id, k),
        find_by_id(old, id) == Some(old[k]),
{
    let k = choose|k: int| is_first_with_id(old, id, k);
    k
}

/// Once some workspace was known, an urgency update `Urgent { id, urgent: u }` is
/// announced exactly when a workspace of the new report has the id `id` and urgency
/// `u`, and the first known workspace with that id had the other urgency: urgency
/// being set and urgency being cleared are both announced.
pub proof fn law_urgency_announced_iff_changed(
    old: Seq<TriadWorkspace>,
    new: Seq<TriadWorkspace>,
    id: i64,
    u: bool,
)
    requires
        old.len() > 0,
    ensures
        spec_workspace_updates(old, new).contains(UpdateView::Urgent { id, urgent: u }) <==> exists|i: int, k: int|
            #![trigger new[i], old[k]]
            0 <= i < new.len() && new[i].workspace.id == id && new[i].urgent == u && first_of_id(old, id, k)
                && old[k].urgent != u,
{
    let x = UpdateView::Urgent { id, urgent: u };
    lemma_diff_contains(old, new, x);
    if spec_workspace_updates(old, new).contains(x) {
        let i = choose|i: int| 0 <= i < new.len() && #[trigger] updates_for(old, new[i]).contains(x);
        lemma_updates_for_cases(old, new[i], x);
        let k = lemma_found_is_first(old, new[i].workspace.id);
        assert(new[i] == new[i] && old[k] == old[k]);
    }
    if exists|i: int, k: int|
        #![trigger new[i], old[k]]
        0 <= i < new.len() && new[i].workspace.id == id && new[i].urgent == u && first_of_id(old, id, k)
            && old[k].urgent != u {
        let (i, k) = choose|i: int, k: int|
            #![trigger new[i], old[k]]
            0 <= i < new.len() && new[i].workspace.id == id && new[i].urgent == u && first_of_id(old, id, k)
                && old[k].urgent != u;
        lemma_first_is_found(old, id, k);
        lemma_updates_for_cases(old, new[i], x);
        assert(updates_for(old, new[i]).contains(x));
    }
}

/// Once some workspace was known, a rename `Rename { id, name }` is announced exactly
/// when a workspace of the new report has the id `id` and the name `name`, and the
/// first known workspace with that id had another name.
pub proof fn law_rename_announced_iff_renamed(
    old: Seq<TriadWorkspace>,
    new: Seq<TriadWorkspace>,
    id: i64,
    name: Seq<char>,
)
    requires
        old.len() > 0,
    ensures
        spec_workspace_updates(old, new).contains(UpdateView::Rename { id, name }) <==> exists|i: int, k: int|
            #![trigger new[i], old[k]]
            0 <= i < new.len() && new[i].workspace.id == id && new[i].workspace.name@ == name
                && first_of_id(old, id, k) && old[k].workspace.name@ != name,
{
    let x = UpdateView::Rename { id, name };
    lemma_diff_contains(old, new, x);
    if spec_workspace_updates(old, new).contains(x) {
        let i = choose|i: int| 0 <= i < new.len() && #[trigger] updates_for(old, new[i]).contains(x);
        lemma_updates_for_cases(old, new[i], x);
        let k = lemma_found_is_first(old, new[i].workspace.id);
        assert(new[i] == new[i] && old[k] == old[k]);
    }
    if exists|i: int, k: int|
        #![trigger new[i], old[k]]
        0 <= i < new.len() && new[i].workspace.id == id && new[i].workspace.name@ == name
            && first_of_id(old, id, k) && old[k].workspace.name@ != name {
        let (i, k) = choose|i: int, k: int|
            #![trigger new[i], old[k]]
            0 <= i < new.len() && new[i].workspace.id == id && new[i].workspace.name@ == name
                && first_of_id(old, id, k) && old[k].workspace.name@ != name;
        lemma_first_is_found(old, id, k);
        lemma_updates_for_cases(old, new[i], x);
        assert(updates_for(old, new[i]).contains(x));
    }
}

/// Once some workspace was known, a move `Move(w)` is announced exactly when `w` is a
/// workspace of the new report and the first known workspace with its id was on another
/// monitor or at another index.
pub proof fn law_move_announced_iff_moved(
    old: Seq<TriadWorkspace>,
    new: Seq<TriadWorkspace>,
    w: Workspace,
)
    requires
        old.len() > 0,
    ensures
        spec_workspace_updates(old, new).contains(UpdateView::Move(w)) <==> exists|i: int, k: int|
            #![trigger new[i], old[k]]
            0 <= i < new.len() && new[i].workspace == w && first_of_id(old, w.id, k) && (
            old[k].workspace.monitor@ != w.monitor@ || old[k].workspace.index != w.index),
{
    let x = UpdateView::Move(w);
    lemma_diff_contains(old, new, x);
    if spec_workspace_updates(old, new).contains(x) {
        let i = choose|i: int| 0 <= i < new.len() && #[trigger] updates_for(old, new[i]).contains(x);
        lemma_updates_for_cases(old, new[i], x);
        let k = lemma_found_is_first(old, new[i].workspace.id);
        assert(new[i] == new[i] && old[k] == old[k]);
    }
    if exists|i: int, k: int|
        #![trigger new[i], old[k]]
        0 <= i < new.len() && new[i].workspace == w && first_of_id(old, w.id, k) && (
        old[k].workspace.monitor@ != w.monitor@ || old[k].workspace.index != w.index) {
        let (i, k) = choose|i: int, k: int|
            #![trigger new[i], old[k]]
            0 <= i < new.len() && new[i].workspace == w && first_of_id(old, w.id, k) && (
            old[k].workspace.monitor@ != w.monitor@ || old[k].workspace.index != w.index);
        lemma_first_is_found(old, w.id, k);
        lemma_updates_for_cases(old, new[i], x);
        assert(updates_for(old, new[i]).contains(x));
    }
}

/// The visibility of a focused workspace.
pub open spec fn has_focus(v: Visibility) -> bool {
    v == (Visibility::Visible { focused: true })
}

/// `before` is the workspace that held focus among `old`: the first focused one, or
/// none when no workspace was focused.
pub open spec fn focus_holder(old: Seq<TriadWorkspace>, before: Option<Workspace>) -> bool {
    match before {
        None => forall|j: int| 0 <= j < old.len() ==> !has_focus(#[trigger] old[j].workspace.visibility),
        Some(f) => exists|j: int|
            0 <= j < old.len() && #[trigger] old[j].workspace == f && has_focus(f.visibility) && forall|
                m: int,
            | 0 <= m < j ==> !has_focus(#[trigger] old[m].workspace.visibility),
    }
}

proof fn lemma_focus_holder(old: Seq<TriadWorkspace>, before: Option<Workspace>)
    ensures
        focus_holder(old, before) <==> before == find_focused(old),
{
    assert forall|v: Visibility| has_focus(v) <==> v.is_focused() by {}
    if exists|k: int| is_first_focused(old, k) {
        let c = choose|k: int| is_first_focused(old, k);
        if focus_holder(old, before) {
            match before {
                None => {
                    assert(!has_focus(old[c].workspace.visibility));
                },
                Some(f) => {
                    let j = choose|j: int|
                        0 <= j < old.len() && #[trigger] old[j].workspace == f && has_focus(f.visibility)
                            && forall|m: int| 0 <= m < j ==> !has_focus(#[trigger] old[m].workspace.visibility);
                    if j < c {
                        assert(!old[j].workspace.visibility.is_focused());
                    } else if c < j {
                        assert(!has_focus(old[c].workspace.visibility));
                    }
                },
            }
        }
        if before == find_focused(old) {
            assert(old[c].workspace == old[c].workspace);
        }
    } else {
        if before == find_focused(old) {
            assert forall|j: int| 0 <= j < old.len() implies !has_focus(#[trigger] old[j].workspace.visibility) by {
                if has_focus(old[j].workspace.visibility) {
                    lemma_some_focused_has_first(old, j);
                }
            }
        }
        if focus_holder(old, before) {
            if let Some(f) = before {
                let j = choose|j: int|
                    0 <= j < old.len() && #[trigger] old[j].workspace == f && has_focus(f.visibility)
                        && forall|m: int| 0 <= m < j ==> !has_focus(#[trigger] old[m].workspace.visibility);
                assert(is_first_focused(old, j));
            }
        }
    }
}

proof fn lemma_some_focused_has_first(old: Seq<TriadWorkspace>, j: int)
    requires
        0 <= j < old.len(),
        old[j].workspace.visibility.is_focused(),
    ensures
        exists|k: int| is_first_focused(old, k),
    decreases j,
{
    if forall|m: int| 0 <= m < j ==> !old[m].workspace.visibility.is_focused() {
        assert(is_first_focused(old, j));
    } else {
        let m = choose|m: int| 0 <= m < j && old[m].workspace.visibility.is_focused();
        lemma_some_focused_has_first(old, m);
    }
}

/// Once some workspace was known, a focus change `Focus { old: before, new: w }` is
/// announced exactly when `w` is a focused workspace of the new report, the first known
/// workspace with its id was not focused, and `before` is the workspace that held focus
/// among the known ones (none if none did).
pub proof fn law_focus_announced_iff_gained(
    old: Seq<TriadWorkspace>,
    new: Seq<TriadWorkspace>,
    before: Option<Workspace>,
    w: Workspace,
)
    requires
        old.len() > 0,
    ensures
        spec_workspace_updates(old, new).contains(UpdateView::Focus { old: before, new: w }) <==> exists|i: int, k: int|
            #![trigger new[i], old[k]]
            0 <= i < new.len() && new[i].workspace == w && has_focus(w.visibility) && first_of_id(old, w.id, k)
                && !has_focus(old[k].workspace.visibility) && focus_holder(old, before),
{
    let x = UpdateView::Focus { old: before, new: w };
    lemma_diff_contains(old, new, x);
    lemma_focus_holder(old, before);
    assert forall|v: Visibility| has_focus(v) <==> v.is_focused() by {}
    if spec_workspace_updates(old, new).contains(x) {
        let i = choose|i: int| 0 <= i < new.len() && #[trigger] updates_for(old, new[i]).contains(x);
        lemma_updates_for_cases(old, new[i], x);
        let k = lemma_found_is_first(old, new[i].workspace.id);
        assert(new[i] == new[i] && old[k] == old[k]);
    }
    if exists|i: int, k: int|
        #![trigger new[i], old[k]]
        0 <= i < new.len() && new[i].workspace == w && has_focus(w.visibility) && first_of_id(old, w.id, k)
            && !has_focus(old[k].workspace.visibility) && focus_holder(old, before) {
        let (i, k) = choose|i: int, k: int|
            #![trigger new[i], old[k]]
            0 <= i < new.len() && new[i].workspace == w && has_focus(w.visibility) && first_of_id(old, w.id, k)
                && !has_focus(old[k].workspace.visibility) && focus_holder(old, before);
        lemma_first_is_found(old, w.id, k);
        lemma_updates_for_cases(old, new[i], x);
        assert(updates_for(old, new[i]).contains(x));
    }
}

/// With nothing known before, the only update is the full new list, in its order.
pub proof fn law_first_report_is_announced_whole(old: Seq<TriadWorkspace>, new: Seq<TriadWorkspace>)
    requires
        old.len() == 0,
    ensures
        spec_workspace_updates(old, new).len() == 1,
        spec_workspace_updates(old, new)[0] matches UpdateView::Init(list) && list.len() == new.len()
            && forall|i: int| 0 <= i < new.len() ==> #[trigger] list[i] == new[i].workspace,
{
}

/// Once some workspace was known, the full list is never announced again, and every
/// removal comes after every other update.
pub proof fn law_removals_come_last(old: Seq<TriadWorkspace>, new: Seq<TriadWorkspace>)
    requires
        old.len() > 0,
    ensures
        forall|a: int| 0 <= a < spec_workspace_updates(old, new).len() ==> !(
        #[trigger] spec_workspace_updates(old, new)[a] is Init),
        forall|a: int, b: int|
            0 <= a < b < spec_workspace_updates(old, new).len() && (
            #[trigger] spec_workspace_updates(old, new)[a] is Remove) ==> (
            #[trigger] spec_workspace_updates(old, new)[b] is Remove),
{
    let c = changes(old, new);
    let r = removals(old, new);
    let all = spec_workspace_updates(old, new);
    lemma_removals_only_removals(old, new);
    assert forall|a: int| 0 <= a < c.len() implies !(#[trigger] c[a] is Remove) && !(c[a] is Init) by {
        assert(c.contains(c[a]));
        lemma_changes_contains(old, new, c[a]);
        let i = choose|i: int| 0 <= i < new.len() && #[trigger] updates_for(old, new[i]).contains(c[a]);
        lemma_updates_for_cases(old, new[i], c[a]);
    }
    assert forall|a: int| 0 <= a < all.len() implies !(#[trigger] all[a] is Init) by {
        if a < c.len() {
            assert(all[a] == c[a]);
        } else {
            assert(all[a] == r[a - c.len()]);
        }
    }
    assert forall|a: int, b: int|
        0 <= a < b < all.len() && (#[trigger] all[a] is Remove) implies (#[trigger] all[b] is Remove) by {
        if a < c.len() {
            assert(all[a] == c[a]);
        }
        assert(all[b] == r[b - c.len()]);
    }
}

/// How a reported keyboard layout is taken in: a layout whose name differs from the
/// known one (or reported while none is known) is announced and becomes the known one;
/// a layout with the known one's name is not announced and changes nothing; a report of
/// no layout clears the known one without an announcement.
pub proof fn law_layout_switch_announced(
    current: Option<KeyboardLayoutUpdate>,
    incoming: Option<KeyboardLayoutUpdate>,
)
    ensures
        (incoming is Some && (current is Some ==> (current->0).0@ != (incoming->0).0@)) ==> (
        layout_change(current, incoming) == incoming && layout_after(current, incoming) == incoming),
        (incoming is Some && current is Some && (current->0).0@ == (incoming->0).0@) ==> (layout_change(
            current,
            incoming,
        ) is None && layout_after(current, incoming) == current),
        incoming is None ==> (layout_change(current, incoming) is None && layout_after(
            current,
            incoming,
        ) is None),
{
}

/// The layout a state report names: the name at the explicit index when the report has
/// one, else at the index inside the layout list; none when that position is past the
/// end of the list.
pub proof fn law_selected_layout(state: RawState)
    ensures
        state.current_keyboard_layout_idx is Some ==> {
            let i = state.current_keyboard_layout_idx->0 as int;
            &&& i < state.keyboard_layouts.names@.len() ==> state.spec_keyboard_layout() == Some(
                KeyboardLayoutUpdate(state.keyboard_layouts.names@[i]),
            )
            &&& i >= state.keyboard_layouts.names@.len() ==> state.spec_keyboard_layout() is None
        },
        state.current_keyboard_layout_idx is None ==> {
            let i = state.keyboard_layouts.current_idx as int;
            &&& i < state.keyboard_layouts.names@.len() ==> state.spec_keyboard_layout() == Some(
                KeyboardLayoutUpdate(state.keyboard_layouts.names@[i]),
            )
            &&& i >= state.keyboard_layouts.names@.len() ==> state.spec_keyboard_layout() is None
        },
{
}

/// What a converted workspace holds: the index; the tag id reinterpreted as signed (so
/// equal to it when it fits); the workspace's own name, or else the base-ten spelling of
/// its index; its output, or else the empty name; focused when active, else visible when
/// shown on its output, else hidden; and the urgency flag.
pub proof fn law_conversion(t: TriadWorkspace, raw: RawWorkspace)
    requires
        t.converted_from(raw),
    ensures
        t.workspace.index == raw.workspace_idx,
        t.workspace.id as u64 == raw.tag_id,
        raw.tag_id <= 0x7fff_ffff_ffff_ffff ==> t.workspace.id == raw.tag_id,
        raw.name is Some ==> t.workspace.name@ == raw.name->0@,
        raw.name is None ==> {
            &&& numeral_value(t.workspace.name@) == raw.workspace_idx
            &&& t.workspace.name@.len() > 0
            &&& forall|i: int| 0 <= i < t.workspace.name@.len() ==> is_digit(#[trigger] t.workspace.name@[i])
            &&& t.workspace.name@.len() > 1 ==> t.workspace.name@[0] != '0'
        },
        raw.output is Some ==> t.workspace.monitor@ == raw.output->0@,
        raw.output is None ==> t.workspace.monitor@.len() == 0,
        raw.is_active ==> t.workspace.visibility == (Visibility::Visible { focused: true }),
        !raw.is_active && raw.is_output_visible ==> t.workspace.visibility == (Visibility::Visible {
            focused: false,
        }),
        !raw.is_active && !raw.is_output_visible ==> t.workspace.visibility == Visibility::Hidden,
        t.urgent == raw.is_urgent,
{
    let x = raw.tag_id;
    assert((x as i64) as u64 == x) by (bit_vector);
    assert(x <= 0x7fff_ffff_ffff_ffff ==> (x as i64) as int == x as int) by (bit_vector);
    law_decimal_spells_value(raw.workspace_idx as nat);
}

/// What `is_focused` and `is_visible` report: focus only for a focused visible workspace,
/// visibility for every workspace that is not hidden.
pub proof fn law_visibility_queries(v: Visibility)
    ensures
        v.is_focused() <==> v == (Visibility::Visible { focused: true }),
        v.is_visible() <==> v != Visibility::Hidden,
{
}

/// What a state report announces and leaves known: first the new layout, when it has a
/// name other than the known layout's (or none was known), then every workspace update
/// of the report, in order, and nothing else; afterwards the client knows exactly the
/// reported workspaces, converted.
pub proof fn law_state_report_announcements(
    before: Client,
    after: Client,
    state: RawState,
    ups: Seq<ClientUpdateView>,
)
    requires
        state_applied(before, after, state, ups),
    ensures
        ({
            let incoming = state.spec_keyboard_layout();
            let ws = spec_workspace_updates(before.known_workspaces(), after.known_workspaces());
            let switched = incoming is Some && (before.current_layout() is Some ==> (
            before.current_layout()->0).0@ != (incoming->0).0@);
            let offset: int = if switched { 1 } else { 0 };
            &&& ups.len() == ws.len() + offset
            &&& switched ==> ups[0] == ClientUpdateView::KeyboardLayout(incoming->0)
            &&& forall|j: int| 0 <= j < ws.len() ==> #[trigger] ups[j + offset] == ClientUpdateView::Workspace(ws[j])
            &&& after.known_workspaces().len() == state.layout.workspaces@.len()
            &&& forall|i: int|
                0 <= i < after.known_workspaces().len() ==> #[trigger] after.known_workspaces()[i].converted_from(
                    state.layout.workspaces@[i],
                )
        }),
{
    let incoming = state.spec_keyboard_layout();
    let ws = spec_workspace_updates(before.known_workspaces(), after.known_workspaces());
    let head = layout_announcement(layout_change(before.current_layout(), incoming));
    let tail = as_client_updates(ws);
    assert(ups == head + tail);
    let switched = incoming is Some && (before.current_layout() is Some ==> (
    before.current_layout()->0).0@ != (incoming->0).0@);
    if switched {
        assert(head.len() == 1);
    } else {
        assert(head.len() == 0);
    }
    assert forall|j: int| 0 <= j < ws.len() implies #[trigger] ups[j + head.len()] == ClientUpdateView::Workspace(ws[j]) by {
        assert(tail[j] == ClientUpdateView::Workspace(ws[j]));
    }
}

/// What the other event-stream reports do: a workspace report announces every
/// workspace update, in order, and nothing else, keeps the known layout and leaves the
/// reported workspaces known; an event the client does not handle announces and changes
/// nothing.
pub proof fn law_event_announcements(
    before: Client,
    after: Client,
    message: EventMessage,
    ups: Seq<ClientUpdateView>,
)
    requires
        event_applied(before, after, message, ups),
    ensures
        message is Layout ==> {
            let ws = spec_workspace_updates(before.known_workspaces(), after.known_workspaces());
            let raw = (message->Layout_0).workspaces@;
            &&& ups.len() == ws.len()
            &&& forall|j: int| 0 <= j < ws.len() ==> #[trigger] ups[j] == ClientUpdateView::Workspace(ws[j])
            &&& after.current_layout() == before.current_layout()
            &&& after.known_workspaces().len() == raw.len()
            &&& forall|i: int|
                0 <= i < raw.len() ==> #[trigger] after.known_workspaces()[i].converted_from(raw[i])
        },
        message is Unknown ==> {
            &&& ups.len() == 0
            &&& after.known_workspaces() == before.known_workspaces()
            &&& after.current_layout() == before.current_layout()
        },
{
}

/// A subscriber that joins before any workspace is known receives nothing first.
pub proof fn law_subscriber_of_empty_client(known: Seq<TriadWorkspace>)
    requires
        known.len() == 0,
    ensures
        spec_workspace_snapshot(known) is None,
{
}

/// A client left unchanged knows the same workspaces and the same layout as before.
pub proof fn law_unchanged_means_same(before: Client, after: Client)
    requires
        unchanged(before, after),
    ensures
        after.known_workspaces() == before.known_workspaces(),
        after.current_layout() == before.current_layout(),
{
}

/// The id an update concerns; the full list concerns none.
pub open spec fn update_id(u: UpdateView) -> Option<i64> {
    match u {
        UpdateView::Init(_) => None,
        UpdateView::Add(w) => Some(w.id),
        UpdateView::Remove(id) => Some(id),
        UpdateView::Move(w) => Some(w.id),
        UpdateView::Focus { new, .. } => Some(new.id),
        UpdateView::Rename { id, .. } => Some(id),
        UpdateView::Urgent { id, .. } => Some(id),
    }
}

/// The place of an update among those about one workspace: an addition; or a rename,
/// then a move, then a focus change, then an urgency update; removals and the full list
/// stand apart.
pub open spec fn update_rank(u: UpdateView) -> int {
    match u {
        UpdateView::Add(_) => 0,
        UpdateView::Rename { .. } => 1,
        UpdateView::Move(_) => 2,
        UpdateView::Focus { .. } => 3,
        UpdateView::Urgent { .. } => 4,
        UpdateView::Remove(_) => 5,
        UpdateView::Init(_) => 6,
    }
}

/// No two workspaces of `s` share an id.
pub open spec fn ids_distinct(s: Seq<TriadWorkspace>) -> bool {
    forall|i: int, j: int|
        0 <= i < s.len() && 0 <= j < s.len() && i != j ==> #[trigger] s[i].workspace.id != #[trigger] s[j].workspace.id
}

spec fn rank_sorted(s: Seq<UpdateView>) -> bool {
    forall|a: int, b: int| 0 <= a < b < s.len() ==> update_rank(#[trigger] s[a]) < update_rank(#[trigger] s[b])
}

proof fn lemma_sorted_concat(s: Seq<UpdateView>, t: Seq<UpdateView>)
    requires
        rank_sorted(s),
        rank_sorted(t),
        forall|a: int, b: int| 0 <= a < s.len() && 0 <= b < t.len() ==> update_rank(#[trigger] s[a]) < update_rank(#[trigger] t[b]),
    ensures
        rank_sorted(s + t),
{
    assert forall|a: int, b: int| 0 <= a < b < (s + t).len() implies update_rank(#[trigger] (s + t)[a]) < update_rank(#[trigger] (s + t)[b]) by {
        if b < s.len() {
        } else if a < s.len() {
            assert((s + t)[a] == s[a]);
            assert((s + t)[b] == t[b - s.len()]);
        } else {
            assert((s + t)[a] == t[a - s.len()]);
            assert((s + t)[b] == t[b - s.len()]);
        }
    }
}

/// The updates one new workspace gives rise to all concern its id, are neither removals
/// nor full lists, and come in rank order.
proof fn lemma_block(old: Seq<TriadWorkspace>, n: TriadWorkspace)
    ensures
        forall|a: int| 0 <= a < updates_for(old, n).len() ==> update_id(#[trigger] updates_for(old, n)[a]) == Some(n.workspace.id)
            && !(updates_for(old, n)[a] is Remove) && !(updates_for(old, n)[a] is Init),
        rank_sorted(updates_for(old, n)),
{
    let w = n.workspace;
    match find_by_id(old, w.id) {
        None => {},
        Some(o) => {
            let prev = o.workspace;
            let s1 = if w.name@ != prev.name@ { seq![UpdateView::Rename { id: w.id, name: w.name@ }] } else { Seq::empty() };
            let s2 = if w.monitor@ != prev.monitor@ || w.index != prev.index { seq![UpdateView::Move(w)] } else { Seq::empty() };
            let s3 = if w.visibility.is_focused() && !prev.visibility.is_focused() {
                seq![UpdateView::Focus { old: find_focused(old), new: w }]
            } else {
                Seq::empty()
            };
            let s4 = if n.urgent != o.urgent { seq![UpdateView::Urgent { id: w.id, urgent: n.urgent }] } else { Seq::empty() };
            assert(updates_for(old, n) == s1 + s2 + s3 + s4);
            lemma_sorted_concat(s1, s2);
            lemma_sorted_concat(s1 + s2, s3);
            lemma_sorted_concat(s1 + s2 + s3, s4);
            let u = s1 + s2 + s3 + s4;
            assert forall|a: int| 0 <= a < u.len() implies update_id(#[trigger] u[a]) == Some(w.id) && !(u[a] is Remove) && !(u[a] is Init) by {
                assert(u.contains(u[a]));
                lemma_updates_for_cases(old, n, u[a]);
            }
        },
    }
}

/// The order of the updates for the workspaces of `new`: each concerns the id of some
/// workspace of `new`; those about earlier workspaces come first, and those about one
/// workspace come in rank order.
spec fn changes_ordered(c: Seq<UpdateView>, new: Seq<TriadWorkspace>) -> bool {
    &&& forall|a: int| 0 <= a < c.len() ==> !(#[trigger] c[a] is Remove) && !(c[a] is Init) && exists|i: int|
        0 <= i < new.len() && update_id(c[a]) == Some(#[trigger] new[i].workspace.id)
    &&& forall|a: int, b: int, i: int, j: int|
        #![trigger c[a], c[b], new[i], new[j]]
        0 <= a < b < c.len() && 0 <= i < new.len() && 0 <= j < new.len() && update_id(c[a]) == Some(
            new[i].workspace.id,
        ) && update_id(c[b]) == Some(new[j].workspace.id) ==> i <= j && (i == j ==> update_rank(c[a])
            < update_rank(c[b]))
}

proof fn lemma_changes_ordered(old: Seq<TriadWorkspace>, new: Seq<TriadWorkspace>)
    requires
        ids_distinct(new),
    ensures
        changes_ordered(changes(old, new), new),
    decreases new.len(),
{
    if new.len() == 0 {
        return;
    }
    let d = new.drop_last();
    let n = new.last();
    let last = new.len() - 1;
    assert(ids_distinct(d)) by {
        assert forall|i: int, j: int| 0 <= i < d.len() && 0 <= j < d.len() && i != j implies #[trigger] d[i].workspace.id != #[trigger] d[j].workspace.id by {
            assert(d[i] == new[i] && d[j] == new[j]);
        }
    }
    lemma_changes_ordered(old, d);
    lemma_block(old, n);
    let c1 = changes(old, d);
    let u = updates_for(old, n);
    let c = changes(old, new);
    assert(c == c1 + u);
    assert forall|a: int| 0 <= a < c.len() implies !(#[trigger] c[a] is Remove) && !(c[a] is Init) && exists|i: int|
        0 <= i < new.len() && update_id(c[a]) == Some(#[trigger] new[i].workspace.id) by {
        if a < c1.len() {
            assert(c[a] == c1[a]);
            let i = choose|i: int| 0 <= i < d.len() && update_id(c1[a]) == Some(#[trigger] d[i].workspace.id);
            assert(new[i] == d[i]);
        } else {
            assert(c[a] == u[a - c1.len()]);
            assert(new[last] == n);
        }
    }
    // the source of an update of c1 is a workspace of d
    assert forall|a: int, i: int|
        0 <= a < c1.len() && 0 <= i < new.len() && update_id(#[trigger] c1[a]) == Some(#[trigger] new[i].workspace.id) implies i < last by {
        let i2 = choose|i2: int| 0 <= i2 < d.len() && update_id(c1[a]) == Some(#[trigger] d[i2].workspace.id);
        assert(new[i2] == d[i2]);
        if i != i2 {
            assert(new[i].workspace.id != new[i2].workspace.id);
        }
    }
    assert forall|a: int, b: int, i: int, j: int|
        #![trigger c[a], c[b], new[i], new[j]]
        0 <= a < b < c.len() && 0 <= i < new.len() && 0 <= j < new.len() && update_id(c[a]) == Some(
            new[i].workspace.id,
        ) && update_id(c[b]) == Some(new[j].workspace.id) implies i <= j && (i == j ==> update_rank(c[a])
            < update_rank(c[b])) by {
        if b < c1.len() {
            assert(c[a] == c1[a] && c[b] == c1[b]);
            assert(i < last);
            assert(j < last);
            assert(new[i] == d[i] && new[j] == d[j]);
            assert(c1[a] == c1[a] && c1[b] == c1[b] && d[i] == d[i] && d[j] == d[j]);
        } else if a < c1.len() {
            assert(c[a] == c1[a]);
            assert(c[b] == u[b - c1.len()]);
            assert(i < last);
            if j != last {
                assert(new[j].workspace.id != new[last].workspace.id);
            }
        } else {
            assert(c[a] == u[a - c1.len()]);
            assert(c[b] == u[b - c1.len()]);
            if i != last {
                assert(new[i].workspace.id != new[last].workspace.id);
            }
            if j != last {
                assert(new[j].workspace.id != new[last].workspace.id);
            }
        }
    }
}

proof fn lemma_removals_distinct(old: Seq<TriadWorkspace>, new: Seq<TriadWorkspace>)
    requires
        ids_distinct(old),
    ensures
        forall|a: int, b: int| 0 <= a < b < removals(old, new).len() ==> #[trigger] removals(old, new)[a] != #[trigger] removals(old, new)[b],
    decreases old.len(),
{
    if old.len() == 0 {
        return;
    }
    let d = old.drop_last();
    let last = old.last();
    assert(ids_distinct(d)) by {
        assert forall|i: int, j: int| 0 <= i < d.len() && 0 <= j < d.len() && i != j implies #[trigger] d[i].workspace.id != #[trigger] d[j].workspace.id by {
            assert(d[i] == old[i] && d[j] == old[j]);
        }
    }
    lemma_removals_distinct(d, new);
    let r1 = removals(d, new);
    let r = removals(old, new);
    if !has_id(new, last.workspace.id) {
        assert(r == r1.push(UpdateView::Remove(last.workspace.id)));
        assert forall|a: int| 0 <= a < r1.len() implies #[trigger] r1[a] != UpdateView::Remove(last.workspace.id) by {
            let w = arbitrary_workspace();
            lemma_removals_kinds(d, new, last.workspace.id, w);
            if r1[a] == UpdateView::Remove(last.workspace.id) {
                assert(r1.contains(UpdateView::Remove(last.workspace.id)));
                let k = choose|k: int| 0 <= k < d.len() && d[k].workspace.id == last.workspace.id;
                assert(old[k] == d[k]);
                assert(old[k].workspace.id != old[old.len() - 1].workspace.id);
            }
        }
        assert forall|a: int, b: int| 0 <= a < b < r.len() implies #[trigger] r[a] != #[trigger] r[b] by {
            assert(r[a] == r1[a]);
            if b < r1.len() {
                assert(r[b] == r1[b]);
            }
        }
    } else {
        assert(r =~= r1);
    }
}

/// When the known and the reported workspaces each name every id once, the updates come
/// in a fixed order: those about earlier workspaces of the report come first; those about
/// one workspace come as an addition, or as a rename, a move, a focus change and an
/// urgency update in that order; no update is announced twice; and every removal comes
/// after them.
pub proof fn law_update_order(old: Seq<TriadWorkspace>, new: Seq<TriadWorkspace>)
    requires
        old.len() > 0,
        ids_distinct(old),
        ids_distinct(new),
    ensures
        ({
            let r = spec_workspace_updates(old, new);
            &&& forall|a: int, b: int|
                0 <= a < b < r.len() && update_id(#[trigger] r[a]) == update_id(#[trigger] r[b]) ==> update_rank(r[a])
                    < update_rank(r[b]) || (r[a] is Remove && r[b] is Remove && r[a] != r[b])
            &&& forall|a: int, b: int, i: int, j: int|
                #![trigger r[a], r[b], new[i], new[j]]
                0 <= a < b < r.len() && 0 <= i < new.len() && 0 <= j < new.len() && !(r[b] is Remove)
                    && update_id(r[a]) == Some(new[i].workspace.id) && update_id(r[b]) == Some(
                    new[j].workspace.id,
                ) ==> i <= j
        }),
{
    let c = changes(old, new);
    let rm = removals(old, new);
    let r = spec_workspace_updates(old, new);
    assert(r == c + rm);
    lemma_changes_ordered(old, new);
    lemma_removals_only_removals(old, new);
    lemma_removals_distinct(old, new);
    assert forall|a: int, b: int|
        0 <= a < b < r.len() && update_id(#[trigger] r[a]) == update_id(#[trigger] r[b]) implies update_rank(r[a])
            < update_rank(r[b]) || (r[a] is Remove && r[b] is Remove && r[a] != r[b]) by {
        if b < c.len() {
            assert(r[a] == c[a] && r[b] == c[b]);
            let i = choose|i: int| 0 <= i < new.len() && update_id(c[a]) == Some(#[trigger] new[i].workspace.id);
            assert(c[a] == c[a] && c[b] == c[b] && new[i] == new[i]);
        } else if a < c.len() {
            assert(r[a] == c[a]);
            assert(r[b] == rm[b - c.len()]);
            let i = choose|i: int| 0 <= i < new.len() && update_id(c[a]) == Some(#[trigger] new[i].workspace.id);
            let x = rm[b - c.len()];
            assert(rm.contains(x));
            let w = arbitrary_workspace();
            lemma_removals_kinds(old, new, x->Remove_0, w);
            assert(x == UpdateView::Remove(x->Remove_0));
            assert(has_id(new, new[i].workspace.id));
        } else {
            assert(r[a] == rm[a - c.len()]);
            assert(r[b] == rm[b - c.len()]);
        }
    }
    assert forall|a: int, b: int, i: int, j: int|
        #![trigger r[a], r[b], new[i], new[j]]
        0 <= a < b < r.len() && 0 <= i < new.len() && 0 <= j < new.len() && !(r[b] is Remove)
            && update_id(r[a]) == Some(new[i].workspace.id) && update_id(r[b]) == Some(new[j].workspace.id) implies i <= j by {
        if b >= c.len() {
            assert(r[b] == rm[b - c.len()]);
        }
        assert(r[a] == c[a] && r[b] == c[b]);
        assert(c[a] == c[a] && c[b] == c[b] && new[i] == new[i] && new[j] == new[j]);
    }
}

} // verus!
