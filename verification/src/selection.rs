//! Selection state for the unified project/spec tree: a flattened row list
//! rebuilt from the projects on every refresh or fold toggle, and a cursor
//! that survives rebuilds by position, clamped rather than ever dangling.

use vstd::prelude::*;

use crate::project::Project;
use crate::project::ProjectView;

verus! {

/// One selectable row of the flattened tree: a project header, or one sync
/// spec of an unfolded project.
#[derive(Debug, Clone, Copy, PartialEq, Eq, Structural)]
pub enum SelectableItem {
    /// A project header (can be folded/unfolded).
    Project { index: usize },
    /// A sync spec within a project.
    Spec { project_index: usize, spec_index: usize },
}

/// The rows one project contributes: its header, then one row per spec
/// unless the project is folded.
pub open spec fn project_rows(p: ProjectView, idx: int) -> Seq<SelectableItem> {
    seq![SelectableItem::Project { index: idx as usize }] + if p.folded {
        Seq::empty()
    } else {
        Seq::new(
            p.specs.len(),
            |j: int| SelectableItem::Spec { project_index: idx as usize, spec_index: j as usize },
        )
    }
}

/// The rows of the first `n` projects, in order.
pub open spec fn rows_up_to(projects: Seq<ProjectView>, n: int) -> Seq<SelectableItem>
    decreases n,
{
    if n <= 0 {
        Seq::empty()
    } else {
        rows_up_to(projects, n - 1) + project_rows(projects[n - 1], n - 1)
    }
}

/// The flattened row list of the whole project tree.
pub open spec fn rows_rep(projects: Seq<ProjectView>) -> Seq<SelectableItem> {
    rows_up_to(projects, projects.len() as int)
}

/// The cursor after a rebuild: clamped to the new row count, reset to zero
/// over an empty list, kept as it was otherwise.
pub open spec fn clamped_index(idx: int, len: int) -> int {
    if len == 0 {
        0
    } else if idx >= len {
        len - 1
    } else {
        idx
    }
}

/// Mathematical model of a `SelectionManager`.
pub struct SelectionView {
    pub items: Seq<SelectableItem>,
    pub selected: int,
}

/// What `rebuild_from_projects` produces from a prior state and a project
/// tree.
pub open spec fn rebuild_rep(v: SelectionView, projects: Seq<ProjectView>) -> SelectionView {
    SelectionView {
        items: rows_rep(projects),
        selected: clamped_index(v.selected, rows_rep(projects).len() as int),
    }
}

/// The cursor after `select_next`: one step down with wraparound, in place
/// on an empty list.
pub open spec fn next_index_rep(v: SelectionView) -> int {
    if v.items.len() == 0 {
        v.selected
    } else {
        (v.selected + 1) % (v.items.len() as int)
    }
}

/// The cursor after `select_previous`: one step up with wraparound, in
/// place on an empty list.
pub open spec fn prev_index_rep(v: SelectionView) -> int {
    if v.items.len() == 0 {
        v.selected
    } else if v.selected == 0 {
        v.items.len() - 1
    } else {
        v.selected - 1
    }
}

/// The project index the cursor addresses: a header's own index, or the
/// owning project of a spec row.
pub open spec fn selected_project_rep(v: SelectionView) -> Option<int> {
    if 0 <= v.selected < v.items.len() {
        match v.items[v.selected] {
            SelectableItem::Project { index } => Some(index as int),
            SelectableItem::Spec { project_index, .. } => Some(project_index as int),
        }
    } else {
        None
    }
}

/// The spec the cursor addresses, if it stands on a spec row.
pub open spec fn selected_spec_rep(v: SelectionView) -> Option<(int, int)> {
    if 0 <= v.selected < v.items.len() {
        match v.items[v.selected] {
            SelectableItem::Spec { project_index, spec_index } => Some(
                (project_index as int, spec_index as int),
            ),
            SelectableItem::Project { .. } => None,
        }
    } else {
        None
    }
}

/// Manages selection state in the unified project/spec tree: the flattened
/// row list and the cursor into it.
#[derive(Debug, Clone)]
pub struct SelectionManager {
    items: Vec<SelectableItem>,
    selected_index: usize,
}

impl View for SelectionManager {
    type V = SelectionView;

    closed spec fn view(&self) -> SelectionView {
        SelectionView { items: self.items@, selected: self.selected_index as int }
    }
}

impl SelectionManager {
    /// The cursor addresses a row, or the list is empty and the cursor
    /// rests at zero.
    pub open spec fn wf(self) -> bool {
        self@.selected < self@.items.len() || (self@.items.len() == 0 && self@.selected == 0)
    }

    /// A manager with no rows and the cursor at zero.
    pub fn new() -> (r: Self)
        ensures
            r@.items == Seq::<SelectableItem>::empty(),
            r@.selected == 0,
            r.wf(),
    {
        let r = SelectionManager { items: Vec::new(), selected_index: 0 };
        proof {
            assert(r@.items =~= Seq::<SelectableItem>::empty());
        }
        r
    }

    /// Rebuild the row list from the projects and clamp the cursor into the
    /// new list.
    pub fn rebuild_from_projects(&mut self, projects: &[Project])
        ensures
            final(self)@ == rebuild_rep(old(self)@, projects.deep_view()),
            final(self).wf(),
    {
        let ghost ps = projects.deep_view();
        self.items.clear();
        proof {
            assert(self.items@ =~= rows_up_to(ps, 0));
        }
        let n = projects.len();
        let mut i: usize = 0;
        while i < n
            invariant
                n == ps.len(),
                ps == projects.deep_view(),
                i <= n,
                self.items@ == rows_up_to(ps, i as int),
                self.selected_index == old(self).selected_index,
            decreases n - i,
        {
            self.items.push(SelectableItem::Project { index: i });
            let project = &projects[i];
            proof {
                assert(project@ == ps[i as int]);
            }
            if !project.folded {
                let m = project.specs.len();
                let mut j: usize = 0;
                while j < m
                    invariant
                        n == ps.len(),
                        ps == projects.deep_view(),
                        i < n,
                        project == &projects[i as int],
                        project@ == ps[i as int],
                        !ps[i as int].folded,
                        m == ps[i as int].specs.len(),
                        j <= m,
                        self.items@ == rows_up_to(ps, i as int) + seq![
                            SelectableItem::Project { index: i },
                        ] + Seq::new(
                            j as nat,
                            |k: int|
                                SelectableItem::Spec { project_index: i, spec_index: k as usize },
                        ),
                        self.selected_index == old(self).selected_index,
                    decreases m - j,
                {
                    self.items.push(SelectableItem::Spec { project_index: i, spec_index: j });
                    proof {
                        assert(self.items@ =~= rows_up_to(ps, i as int) + seq![
                            SelectableItem::Project { index: i },
                        ] + Seq::new(
                            (j + 1) as nat,
                            |k: int|
                                SelectableItem::Spec { project_index: i, spec_index: k as usize },
                        ));
                    }
                    j = j + 1;
                }
                proof {
                    assert(self.items@ =~= rows_up_to(ps, i + 1));
                }
            } else {
                proof {
                    assert(self.items@ =~= rows_up_to(ps, i + 1));
                }
            }
            i = i + 1;
        }
        proof {
            assert(self.items@ == rows_rep(ps));
        }
        if !self.items.is_empty() && self.selected_index >= self.items.len() {
            self.selected_index = self.items.len() - 1;
        } else if self.items.is_empty() {
            self.selected_index = 0;
        }
    }

    /// The total number of rows.
    pub fn total_items(&self) -> (r: usize)
        ensures
            r == self@.items.len(),
    {
        self.items.len()
    }

    /// The raw cursor position.
    pub fn raw_index(&self) -> (r: usize)
        ensures
            r == self@.selected,
    {
        self.selected_index
    }

    /// All rows, in display order.
    pub fn items(&self) -> (r: &Vec<SelectableItem>)
        ensures
            r@ == self@.items,
    {
        &self.items
    }

    /// The row the cursor addresses, none when the list is empty.
    pub fn selected_item(&self) -> (r: Option<&SelectableItem>)
        ensures
            match r {
                Some(item) => self@.selected < self@.items.len() && *item == self@.items[self@.selected],
                None => self@.selected >= self@.items.len(),
            },
    {
        self.items.get(self.selected_index)
    }

    /// The selected project index: a header's own, or a spec row's owner.
    pub fn selected_project_index(&self) -> (r: Option<usize>)
        ensures
            match r {
                Some(i) => selected_project_rep(self@) == Some(i as int),
                None => selected_project_rep(self@) is None,
            },
    {
        match self.selected_item() {
            Some(SelectableItem::Project { index }) => Some(*index),
            Some(SelectableItem::Spec { project_index, .. }) => Some(*project_index),
            None => None,
        }
    }

    /// The selected spec as `(project_index, spec_index)`, if the cursor
    /// stands on a spec row.
    pub fn selected_spec(&self) -> (r: Option<(usize, usize)>)
        ensures
            match r {
                Some(p) => selected_spec_rep(self@) == Some((p.0 as int, p.1 as int)),
                None => selected_spec_rep(self@) is None,
            },
    {
        match self.selected_item() {
            Some(SelectableItem::Spec { project_index, spec_index }) => Some(
                (*project_index, *spec_index),
            ),
            _ => None,
        }
    }

    /// Whether the cursor stands on a project header.
    pub fn is_project_selected(&self) -> (r: bool)
        ensures
            r == (self@.selected < self@.items.len() && self@.items[self@.selected] matches SelectableItem::Project { .. }),
    {
        match self.selected_item() {
            Some(SelectableItem::Project { .. }) => true,
            _ => false,
        }
    }

    /// Whether the cursor stands on a spec row.
    pub fn is_spec_selected(&self) -> (r: bool)
        ensures
            r == (self@.selected < self@.items.len() && self@.items[self@.selected] matches SelectableItem::Spec { .. }),
    {
        match self.selected_item() {
            Some(SelectableItem::Spec { .. }) => true,
            _ => false,
        }
    }

    /// Move the cursor to the next row, wrapping past the end; a no-op on
    /// an empty list.
    pub fn select_next(&mut self)
        requires
            old(self).wf(),
        ensures
            final(self)@.items == old(self)@.items,
            final(self)@.selected == next_index_rep(old(self)@),
            final(self).wf(),
    {
        let total = self.total_items();
        if total > 0 {
            self.selected_index = (self.selected_index + 1) % total;
        }
    }

    /// Move the cursor to the previous row, wrapping past the start; a
    /// no-op on an empty list.
    pub fn select_previous(&mut self)
        requires
            old(self).wf(),
        ensures
            final(self)@.items == old(self)@.items,
            final(self)@.selected == prev_index_rep(old(self)@),
            final(self).wf(),
    {
        let total = self.total_items();
        if total > 0 {
            if self.selected_index == 0 {
                self.selected_index = total - 1;
            } else {
                self.selected_index = self.selected_index - 1;
            }
        }
    }

    /// Place the cursor at `index`, clamped into the current list; a no-op
    /// on an empty list.
    pub fn set_index(&mut self, index: usize)
        ensures
            final(self)@.items == old(self)@.items,
            final(self)@.selected == if old(self)@.items.len() == 0 {
                old(self)@.selected
            } else if index < old(self)@.items.len() {
                index as int
            } else {
                old(self)@.items.len() - 1
            },
    {
        let total = self.total_items();
        if total > 0 {
            if index < total {
                self.selected_index = index;
            } else {
                self.selected_index = total - 1;
            }
        }
    }
}

/// Flip one project's fold flag and rebuild the rows at once, so spec rows
/// appear or disappear without waiting for the next refresh; out-of-range
/// indices change nothing but still rebuild.
pub fn toggle_project_fold(
    projects: &mut Vec<Project>,
    project_index: usize,
    selection: &mut SelectionManager,
)
    ensures
        final(projects).deep_view() == if project_index < old(projects).deep_view().len() {
            old(projects).deep_view().update(
                project_index as int,
                ProjectView {
                    folded: !old(projects).deep_view()[project_index as int].folded,
                    ..old(projects).deep_view()[project_index as int]
                },
            )
        } else {
            old(projects).deep_view()
        },
        final(selection)@ == rebuild_rep(old(selection)@, final(projects).deep_view()),
        final(selection).wf(),
{
    let ghost orig = projects.deep_view();
    if project_index < projects.len() {
        let mut p = projects.remove(project_index);
        p.folded = !p.folded;
        projects.insert(project_index, p);
        proof {
            assert forall|k: int| 0 <= k < projects@.len() implies projects.deep_view()[k]
                == orig.update(
                project_index as int,
                ProjectView { folded: !orig[project_index as int].folded, ..orig[project_index as int] },
            )[k] by {
                if k < project_index {
                    assert(projects@[k] == old(projects)@[k]);
                } else if k == project_index {
                } else {
                    assert(projects@[k] == old(projects)@[k]);
                }
            }
            assert(projects.deep_view() =~= orig.update(
                project_index as int,
                ProjectView { folded: !orig[project_index as int].folded, ..orig[project_index as int] },
            ));
        }
    }
    let current = projects.as_slice();
    selection.rebuild_from_projects(current);
    proof {
        assert(current.deep_view() =~= projects.deep_view());
    }
}

/// Rebuilding twice from the same projects gives the same rows and leaves
/// the cursor where the first rebuild put it.
pub proof fn lemma_rebuild_idempotent(v: SelectionView, projects: Seq<ProjectView>)
    ensures
        rebuild_rep(rebuild_rep(v, projects), projects) == rebuild_rep(v, projects),
{
}

/// A clamped cursor addresses a row of any non-empty list: it never
/// exceeds the last index.
pub proof fn lemma_clamped_index_in_range(idx: int, len: int)
    requires
        0 <= idx,
        0 < len,
    ensures
        0 <= clamped_index(idx, len) < len,
{
}

/// Folding a project removes exactly its spec rows: the row count drops by
/// that project's spec count.
pub proof fn lemma_fold_removes_spec_rows(projects: Seq<ProjectView>, k: int)
    requires
        0 <= k < projects.len(),
        !projects[k].folded,
    ensures
        rows_rep(
            projects.update(k, ProjectView { folded: true, ..projects[k] }),
        ).len() == rows_rep(projects).len() - projects[k].specs.len(),
{
    let folded = projects.update(k, ProjectView { folded: true, ..projects[k] });
    lemma_fold_rows_up_to(projects, folded, k, projects.len() as int);
}

proof fn lemma_fold_rows_up_to(
    projects: Seq<ProjectView>,
    folded: Seq<ProjectView>,
    k: int,
    n: int,
)
    requires
        0 <= k < projects.len(),
        !projects[k].folded,
        n <= projects.len(),
        folded == projects.update(k, ProjectView { folded: true, ..projects[k] }),
    ensures
        rows_up_to(folded, n).len() == rows_up_to(projects, n).len() - (if k < n {
            projects[k].specs.len() as int
        } else {
            0
        }),
    decreases n,
{
    if n > 0 {
        lemma_fold_rows_up_to(projects, folded, k, n - 1);
    }
}

/// `select_next` from the last row wraps to row zero, and `select_previous`
/// from row zero wraps to the last row.
pub proof fn lemma_navigation_wraps(v: SelectionView)
    requires
        v.items.len() > 0,
        0 <= v.selected < v.items.len(),
    ensures
        v.selected == v.items.len() - 1 ==> next_index_rep(v) == 0,
        v.selected == 0 ==> prev_index_rep(v) == v.items.len() - 1,
{
    let n = v.items.len() as int;
    assert(n % n == 0) by (nonlinear_arith)
        requires
            n > 0,
    ;
}

/// On an empty list neither navigation call moves the cursor.
pub proof fn lemma_navigation_empty_noop(v: SelectionView)
    requires
        v.items.len() == 0,
    ensures
        next_index_rep(v) == v.selected,
        prev_index_rep(v) == v.selected,
{
}

} // verus!
