//! The difference between two workspace snapshots, as the events a bar consumes.

use vstd::prelude::*;
use crate::workspace::{TriadWorkspace, Workspace};

verus! {

/// A change to the set of workspaces, as announced to subscribers.
#[derive(Debug, Clone)]
pub enum WorkspaceUpdate {
    /// The full list of workspaces; sent first, or when nothing was known before.
    Init(Vec<Workspace>),
    /// A workspace that was not there before.
    Add(Workspace),
    /// The id of a workspace that is gone.
    Remove(i64),
    /// A workspace whose monitor or index changed.
    Move(Workspace),
    /// Focus moved to `new`; `old` is the workspace that held it before, if any.
    Focus { old: Option<Workspace>, new: Workspace },
    /// A workspace was renamed.
    Rename { id: i64, name: String },
    /// A workspace's urgency changed.
    Urgent { id: i64, urgent: bool },
}

/// The mathematical value of a `WorkspaceUpdate`: lists become sequences and
/// names become sequences of characters.
pub enum UpdateView {
    Init(Seq<Workspace>),
    Add(Workspace),
    Remove(i64),
    Move(Workspace),
    Focus { old: Option<Workspace>, new: Workspace },
    Rename { id: i64, name: Seq<char> },
    Urgent { id: i64, urgent: bool },
}

impl View for WorkspaceUpdate {
    type V = UpdateView;

    open spec fn view(&self) -> UpdateView {
        match self {
            WorkspaceUpdate::Init(list) => UpdateView::Init(list@),
            WorkspaceUpdate::Add(w) => UpdateView::Add(*w),
            WorkspaceUpdate::Remove(id) => UpdateView::Remove(*id),
            WorkspaceUpdate::Move(w) => UpdateView::Move(*w),
            WorkspaceUpdate::Focus { old, new } => UpdateView::Focus { old: *old, new: *new },
            WorkspaceUpdate::Rename { id, name } => UpdateView::Rename { id: *id, name: name@ },
            WorkspaceUpdate::Urgent { id, urgent } => UpdateView::Urgent { id: *id, urgent: *urgent },
        }
    }
}

/// The values of a sequence of updates.
pub open spec fn update_views(s: Seq<WorkspaceUpdate>) -> Seq<UpdateView> {
    s.map_values(|u: WorkspaceUpdate| u@)
}

/// The workspaces of a sequence of Triad workspaces, urgency dropped.
pub open spec fn plain_workspaces(s: Seq<TriadWorkspace>) -> Seq<Workspace> {
    s.map_values(|t: TriadWorkspace| t.workspace)
}

/// `k` is the position of the first workspace in `s` whose id is `id`.
pub open spec fn is_first_with_id(s: Seq<TriadWorkspace>, id: i64, k: int) -> bool {
    &&& 0 <= k < s.len()
    &&& s[k].workspace.id == id
    &&& forall|j: int| 0 <= j < k ==> s[j].workspace.id != id
}

/// Some workspace in `s` has the id `id`.
pub open spec fn has_id(s: Seq<TriadWorkspace>, id: i64) -> bool {
    exists|k: int| 0 <= k < s.len() && s[k].workspace.id == id
}

/// The first workspace in `s` whose id is `id`, if there is one.
pub open spec fn find_by_id(s: Seq<TriadWorkspace>, id: i64) -> Option<TriadWorkspace> {
    if exists|k: int| is_first_with_id(s, id, k) {
        Some(s[choose|k: int| is_first_with_id(s, id, k)])
    } else {
        None
    }
}

/// `k` is the position of the first focused workspace in `s`.
pub open spec fn is_first_focused(s: Seq<TriadWorkspace>, k: int) -> bool {
    &&& 0 <= k < s.len()
    &&& s[k].workspace.visibility.is_focused()
    &&& forall|j: int| 0 <= j < k ==> !s[j].workspace.visibility.is_focused()
}

/// The first focused workspace in `s`, if there is one.
pub open spec fn find_focused(s: Seq<TriadWorkspace>) -> Option<Workspace> {
    if exists|k: int| is_first_focused(s, k) {
        Some(s[choose|k: int| is_first_focused(s, k)].workspace)
    } else {
        None
    }
}

/// The updates that one workspace of the new snapshot gives rise to, in the order they
/// are announced: it is added if no old workspace has its id; otherwise, compared with
/// the first old workspace of that id, a new name gives a rename, a new monitor or index
/// a move, gaining focus a focus change (from the first focused old workspace), and a
/// changed urgency an urgency update.
pub open spec fn updates_for(old: Seq<TriadWorkspace>, n: TriadWorkspace) -> Seq<UpdateView> {
    let w = n.workspace;
    match find_by_id(old, w.id) {
        None => seq![UpdateView::Add(w)],
        Some(o) => {
            let prev = o.workspace;
            (if w.name@ != prev.name@ {
                seq![UpdateView::Rename { id: w.id, name: w.name@ }]
            } else {
                Seq::empty()
            }) + (if w.monitor@ != prev.monitor@ || w.index != prev.index {
                seq![UpdateView::Move(w)]
            } else {
                Seq::empty()
            }) + (if w.visibility.is_focused() && !prev.visibility.is_focused() {
                seq![UpdateView::Focus { old: find_focused(old), new: w }]
            } else {
                Seq::empty()
            }) + (if n.urgent != o.urgent {
                seq![UpdateView::Urgent { id: w.id, urgent: n.urgent }]
            } else {
                Seq::empty()
            })
        },
    }
}

/// The updates for every workspace of `new`, in order.
pub open spec fn changes(old: Seq<TriadWorkspace>, new: Seq<TriadWorkspace>) -> Seq<UpdateView>
    decreases new.len(),
{
    if new.len() == 0 {
        Seq::empty()
    } else {
        changes(old, new.drop_last()) + updates_for(old, new.last())
    }
}

/// A removal for every workspace of `old` whose id no workspace of `new` has, in order.
pub open spec fn removals(old: Seq<TriadWorkspace>, new: Seq<TriadWorkspace>) -> Seq<UpdateView>
    decreases old.len(),
{
    if old.len() == 0 {
        Seq::empty()
    } else {
        removals(old.drop_last(), new) + (if has_id(new, old.last().workspace.id) {
            Seq::empty()
        } else {
            seq![UpdateView::Remove(old.last().workspace.id)]
        })
    }
}

/// What moving from the snapshot `old` to the snapshot `new` announces: with nothing
/// known before, the whole new list; otherwise the changes of each new workspace,
/// followed by the removals.
pub open spec fn spec_workspace_updates(
    old: Seq<TriadWorkspace>,
    new: Seq<TriadWorkspace>,
) -> Seq<UpdateView> {
    if old.len() == 0 {
        seq![UpdateView::Init(plain_workspaces(new))]
    } else {
        changes(old, new) + removals(old, new)
    }
}

proof fn lemma_first_with_id_unique(s: Seq<TriadWorkspace>, id: i64, a: int, b: int)
    requires
        is_first_with_id(s, id, a),
        is_first_with_id(s, id, b),
    ensures
        a == b,
{
}

proof fn lemma_first_focused_unique(s: Seq<TriadWorkspace>, a: int, b: int)
    requires
        is_first_focused(s, a),
        is_first_focused(s, b),
    ensures
        a == b,
{
}

proof fn lemma_views_push(s: Seq<WorkspaceUpdate>, u: WorkspaceUpdate)
    ensures
        update_views(s.push(u)) == update_views(s).push(u@),
{
    assert(update_views(s.push(u)) =~= update_views(s).push(u@));
}

/// The position of the first workspace in `s` with the id `id`, if any.
fn position_of_id(s: &[TriadWorkspace], id: i64) -> (r: Option<usize>)
    ensures
        match r {
            Some(k) => is_first_with_id(s@, id, k as int),
            None => !has_id(s@, id),
        },
{
    let mut j: usize = 0;
    while j < s.len()
        invariant
            j <= s@.len(),
            forall|i: int| 0 <= i < j ==> s@[i].workspace.id != id,
        decreases s@.len() - j,
    {
        if s[j].workspace.id == id {
            return Some(j);
        }
        j = j + 1;
    }
    None
}

/// The position of the first focused workspace in `s`, if any.
fn position_of_focused(s: &[TriadWorkspace]) -> (r: Option<usize>)
    ensures
        match r {
            Some(k) => is_first_focused(s@, k as int),
            None => forall|i: int| 0 <= i < s@.len() ==> !s@[i].workspace.visibility.is_focused(),
        },
{
    let mut j: usize = 0;
    while j < s.len()
        invariant
            j <= s@.len(),
            forall|i: int| 0 <= i < j ==> !s@[i].workspace.visibility.is_focused(),
        decreases s@.len() - j,
    {
        if s[j].workspace.visibility.is_focused() {
            return Some(j);
        }
        j = j + 1;
    }
    None
}

/// The first focused workspace of `s`, copied.
fn focused_workspace(s: &[TriadWorkspace]) -> (r: Option<Workspace>)
    ensures
        r == find_focused(s@),
{
    match position_of_focused(s) {
        Some(k) => {
            proof {
                let c = choose|c: int| is_first_focused(s@, c);
                lemma_first_focused_unique(s@, c, k as int);
            }
            Some(s[k].workspace.duplicate())
        },
        None => {
            assert(!exists|c: int| is_first_focused(s@, c));
            None
        },
    }
}

/// Some workspace of `s` has the id `id`.
fn contains_id(s: &[TriadWorkspace], id: i64) -> (b: bool)
    ensures
        b == has_id(s@, id),
{
    position_of_id(s, id).is_some()
}

/// Appends the updates that the new workspace `n` gives rise to.
fn push_updates_for(before: &[TriadWorkspace], n: &TriadWorkspace, updates: &mut Vec<WorkspaceUpdate>)
    ensures
        update_views(final(updates)@) == update_views(old(updates)@) + updates_for(before@, *n),
{
    let ghost start = update_views(updates@);
    let w = &n.workspace;
    match position_of_id(before, w.id) {
        None => {
            assert(!exists|c: int| is_first_with_id(before@, w.id, c));
            proof { lemma_views_push(updates@, WorkspaceUpdate::Add(*w)); }
            updates.push(WorkspaceUpdate::Add(w.duplicate()));
            assert(update_views(updates@) =~= start + updates_for(before@, *n));
        },
        Some(k) => {
            proof {
                let c = choose|c: int| is_first_with_id(before@, w.id, c);
                lemma_first_with_id_unique(before@, w.id, c, k as int);
            }
            let o = &before[k];
            let prev = &o.workspace;
            let ghost o_spec = before@[k as int];
            assert(find_by_id(before@, w.id) == Some(o_spec));
            let ghost s1 = if w.name@ != prev.name@ {
                seq![UpdateView::Rename { id: w.id, name: w.name@ }]
            } else {
                Seq::empty()
            };
            let ghost s2 = if w.monitor@ != prev.monitor@ || w.index != prev.index {
                seq![UpdateView::Move(*w)]
            } else {
                Seq::empty()
            };
            let ghost s3 = if w.visibility.is_focused() && !prev.visibility.is_focused() {
                seq![UpdateView::Focus { old: find_focused(before@), new: *w }]
            } else {
                Seq::empty()
            };
            let ghost s4 = if n.urgent != o.urgent {
                seq![UpdateView::Urgent { id: w.id, urgent: n.urgent }]
            } else {
                Seq::empty()
            };
            if !(w.name == prev.name) {
                let u = WorkspaceUpdate::Rename { id: w.id, name: w.name.clone() };
                proof { lemma_views_push(updates@, u); }
                updates.push(u);
            }
            assert(update_views(updates@) =~= start + s1);
            if !(w.monitor == prev.monitor) || w.index != prev.index {
                let u = WorkspaceUpdate::Move(w.duplicate());
                proof { lemma_views_push(updates@, u); }
                updates.push(u);
            }
            assert(update_views(updates@) =~= start + s1 + s2);
            if w.visibility.is_focused() && !prev.visibility.is_focused() {
                let u = WorkspaceUpdate::Focus { old: focused_workspace(before), new: w.duplicate() };
                proof { lemma_views_push(updates@, u); }
                updates.push(u);
            }
            assert(update_views(updates@) =~= start + s1 + s2 + s3);
            if n.urgent != o.urgent {
                let u = WorkspaceUpdate::Urgent { id: w.id, urgent: n.urgent };
                proof { lemma_views_push(updates@, u); }
                updates.push(u);
            }
            assert(update_views(updates@) =~= start + s1 + s2 + s3 + s4);
            assert(updates_for(before@, *n) =~= s1 + s2 + s3 + s4);
        },
    }
}

/// Computes the updates that announce the move from the snapshot `old_workspaces` to
/// the snapshot `new_workspaces`.
pub fn workspace_updates(
    old_workspaces: &[TriadWorkspace],
    new_workspaces: &[TriadWorkspace],
) -> (updates: Vec<WorkspaceUpdate>)
    ensures
        update_views(updates@) == spec_workspace_updates(old_workspaces@, new_workspaces@),
{
    let mut updates: Vec<WorkspaceUpdate> = Vec::new();
    if old_workspaces.len() == 0 {
        let mut all: Vec<Workspace> = Vec::new();
        let mut i: usize = 0;
        while i < new_workspaces.len()
            invariant
                i <= new_workspaces@.len(),
                all@ =~= plain_workspaces(new_workspaces@.take(i as int)),
            decreases new_workspaces@.len() - i,
        {
            all.push(new_workspaces[i].workspace.duplicate());
            i = i + 1;
            assert(all@ =~= plain_workspaces(new_workspaces@.take(i as int)));
        }
        assert(new_workspaces@.take(i as int) =~= new_workspaces@);
        let u = WorkspaceUpdate::Init(all);
        proof { lemma_views_push(updates@, u); }
        updates.push(u);
        assert(update_views(updates@) =~= spec_workspace_updates(old_workspaces@, new_workspaces@));
        return updates;
    }
    let mut i: usize = 0;
    assert(update_views(updates@) =~= changes(old_workspaces@, new_workspaces@.take(0)));
    while i < new_workspaces.len()
        invariant
            i <= new_workspaces@.len(),
            update_views(updates@) == changes(old_workspaces@, new_workspaces@.take(i as int)),
        decreases new_workspaces@.len() - i,
    {
        push_updates_for(old_workspaces, &new_workspaces[i], &mut updates);
        assert(new_workspaces@.take(i + 1).drop_last() =~= new_workspaces@.take(i as int));
        i = i + 1;
    }
    assert(new_workspaces@.take(i as int) =~= new_workspaces@);
    let ghost changed = update_views(updates@);
    let mut j: usize = 0;
    assert(update_views(updates@) =~= changed + removals(old_workspaces@.take(0), new_workspaces@));
    while j < old_workspaces.len()
        invariant
            j <= old_workspaces@.len(),
            update_views(updates@) == changed + removals(old_workspaces@.take(j as int), new_workspaces@),
        decreases old_workspaces@.len() - j,
    {
        let id = old_workspaces[j].workspace.id;
        assert(old_workspaces@.take(j + 1).drop_last() =~= old_workspaces@.take(j as int));
        if !contains_id(new_workspaces, id) {
            let u = WorkspaceUpdate::Remove(id);
            proof { lemma_views_push(updates@, u); }
            updates.push(u);
        }
        j = j + 1;
        assert(update_views(updates@) =~= changed + removals(old_workspaces@.take(j as int), new_workspaces@));
    }
    assert(old_workspaces@.take(j as int) =~= old_workspaces@);
    updates
}

} // verus!
