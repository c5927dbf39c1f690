use vstd::prelude::*;
use crate::errors::TrackerError;
use crate::filter::bug_matches;
use crate::filter::bug_satisfies;
use crate::models::Bug;
use crate::models::BugView;
use crate::models::Project;
use crate::models::ProjectView;
use crate::models::clone_opt;

verus! {

// ---------------------------------------------------------------------------
// Row-set abstractions
// ---------------------------------------------------------------------------

/// Whether some bug row carries this identifier.
pub open spec fn has_bug(bugs: Seq<BugView>, id: Seq<char>) -> bool {
    exists|i: int| 0 <= i < bugs.len() && (#[trigger] bugs[i]).bug_id == id
}

/// No two bug rows share an identifier.
pub open spec fn unique_bug_ids(bugs: Seq<BugView>) -> bool {
    forall|i: int, j: int|
        0 <= i < j < bugs.len() ==> (#[trigger] bugs[i]).bug_id != (#[trigger] bugs[j]).bug_id
}

/// The bug row carrying this identifier; meaningful when identifiers are
/// unique and some row carries it.
pub open spec fn bug_row(bugs: Seq<BugView>, id: Seq<char>) -> BugView {
    bugs[choose|i: int| 0 <= i < bugs.len() && (#[trigger] bugs[i]).bug_id == id]
}

/// Whether some project row carries this identifier.
pub open spec fn has_project(projects: Seq<ProjectView>, id: Seq<char>) -> bool {
    exists|i: int| 0 <= i < projects.len() && (#[trigger] projects[i]).project_id == id
}

/// No two project rows share an identifier.
pub open spec fn unique_project_ids(projects: Seq<ProjectView>) -> bool {
    forall|i: int, j: int|
        0 <= i < j < projects.len() ==> (#[trigger] projects[i]).project_id != (
        #[trigger] projects[j]).project_id
}

/// The bug rows left after deleting every row with this identifier.
pub open spec fn rows_without(bugs: Seq<BugView>, id: Seq<char>) -> Seq<BugView> {
    bugs.filter(|b: BugView| b.bug_id != id)
}

/// The bug rows after writing every column but the identifier, the reporter
/// and the creation timestamp of each row with this identifier from `row`.
pub open spec fn updated_rows(bugs: Seq<BugView>, id: Seq<char>, row: BugView) -> Seq<BugView> {
    Seq::new(
        bugs.len(),
        |j: int|
            if bugs[j].bug_id == id {
                BugView {
                    bug_id: bugs[j].bug_id,
                    reported_by: bugs[j].reported_by,
                    created_at: bugs[j].created_at,
                    ..row
                }
            } else {
                bugs[j]
            },
    )
}

/// The bug rows after setting the assignee of each row with this identifier.
pub open spec fn assigned_rows(bugs: Seq<BugView>, id: Seq<char>, dev: Seq<char>) -> Seq<
    BugView,
> {
    Seq::new(
        bugs.len(),
        |j: int|
            if bugs[j].bug_id == id {
                BugView { assigned_to: Some(dev), ..bugs[j] }
            } else {
                bugs[j]
            },
    )
}

/// The bug rows matching a criteria sequence, in row order.
pub open spec fn matching_bugs(bugs: Seq<BugView>, c: Seq<(Seq<char>, Seq<char>)>) -> Seq<
    BugView,
> {
    bugs.filter(|b: BugView| bug_matches(b, c))
}

// ---------------------------------------------------------------------------
// The storage gateway
// ---------------------------------------------------------------------------

/// Abstract state of the durable store: the two row sets and whether the
/// store is reachable and answering.
pub struct StoreView {
    pub bugs: Seq<BugView>,
    pub projects: Seq<ProjectView>,
    pub healthy: bool,
}

/// The durable store behind the gateway: two record sets keyed by opaque
/// string identifiers. Every operation on an unhealthy store fails with a
/// storage error and changes nothing; a row lookup that finds nothing is a
/// distinct outcome, never a storage error.
pub struct Store {
    bugs: Vec<Bug>,
    projects: Vec<Project>,
    healthy: bool,
}

impl View for Store {
    type V = StoreView;

    closed spec fn view(&self) -> StoreView {
        StoreView {
            bugs: self.bugs.deep_view(),
            projects: self.projects.deep_view(),
            healthy: self.healthy,
        }
    }
}

impl Store {
    /// Both record sets keep identifiers unique, as the durable store's
    /// uniqueness constraint guarantees.
    pub open spec fn wf(self) -> bool {
        unique_bug_ids(self@.bugs) && unique_project_ids(self@.projects)
    }

    /// An empty, reachable store.
    pub fn new() -> (s: Store)
        ensures
            s@.bugs == Seq::<BugView>::empty(),
            s@.projects == Seq::<ProjectView>::empty(),
            s@.healthy,
            s.wf(),
    {
        let s = Store { bugs: Vec::new(), projects: Vec::new(), healthy: true };
        proof {
            assert(s@.bugs =~= Seq::<BugView>::empty());
            assert(s@.projects =~= Seq::<ProjectView>::empty());
        }
        s
    }

    /// Marks the store as reachable or as faulted. A faulted store models
    /// any underlying fault: connectivity loss, constraint machinery down,
    /// and lets callers exercise every storage-error path.
    pub fn set_healthy(&mut self, healthy: bool)
        ensures
            final(self)@.bugs == old(self)@.bugs,
            final(self)@.projects == old(self)@.projects,
            final(self)@.healthy == healthy,
            old(self).wf() ==> final(self).wf(),
    {
        self.healthy = healthy;
    }

    fn find_bug_index(&self, id: &String) -> (r: Option<usize>)
        ensures
            match r {
                Some(i) => i < self@.bugs.len() && self@.bugs[i as int].bug_id == id@,
                None => !has_bug(self@.bugs, id@),
            },
    {
        let mut i: usize = 0;
        while i < self.bugs.len()
            invariant
                i <= self@.bugs.len(),
                self@.bugs.len() == self.bugs.len(),
                forall|j: int| 0 <= j < i ==> (#[trigger] self@.bugs[j]).bug_id != id@,
            decreases self.bugs.len() - i,
        {
            proof {
                assert(self@.bugs[i as int] == self.bugs@[i as int].deep_view());
            }
            if self.bugs[i].bug_id == *id {
                return Some(i);
            }
            i = i + 1;
        }
        None
    }

    /// Persists a freshly created bug row. An identifier already present
    /// violates the store's uniqueness constraint and is a storage error,
    /// as is an unreachable store.
    pub fn insert_bug(&mut self, bug: Bug) -> (r: Result<(), TrackerError>)
        ensures
            final(self)@.projects == old(self)@.projects,
            final(self)@.healthy == old(self)@.healthy,
            old(self).wf() ==> final(self).wf(),
            match r {
                Ok(()) => {
                    &&& old(self)@.healthy
                    &&& !has_bug(old(self)@.bugs, bug@.bug_id)
                    &&& final(self)@.bugs == old(self)@.bugs.push(bug@)
                },
                Err(e) => {
                    &&& e == TrackerError::StorageError
                    &&& (!old(self)@.healthy || has_bug(old(self)@.bugs, bug@.bug_id))
                    &&& final(self)@.bugs == old(self)@.bugs
                },
            },
    {
        if !self.healthy {
            return Err(TrackerError::StorageError);
        }
        if let Some(_i) = self.find_bug_index(&bug.bug_id) {
            return Err(TrackerError::StorageError);
        }
        let ghost before: Seq<BugView> = self@.bugs;
        let ghost bv: BugView = bug@;
        self.bugs.push(bug);
        proof {
            assert(self@.bugs =~= before.push(bv));
            if unique_bug_ids(before) {
                assert forall|i: int, j: int| 0 <= i < j < self@.bugs.len() implies (
                #[trigger] self@.bugs[i]).bug_id != (#[trigger] self@.bugs[j]).bug_id by {
                    if j < before.len() as int {
                    } else {
                        assert(self@.bugs[j] == bv);
                        assert(!has_bug(before, bv.bug_id));
                    }
                }
            }
        }
        Ok(())
    }

    /// Point lookup by identifier: the matching row, a not-found outcome
    /// when no row matches, a storage error only when the store is faulted.
    pub fn fetch_bug(&self, id: &String) -> (r: Result<Bug, TrackerError>)
        requires
            self.wf(),
        ensures
            match r {
                Ok(b) => {
                    &&& self@.healthy
                    &&& has_bug(self@.bugs, id@)
                    &&& b@ == bug_row(self@.bugs, id@)
                },
                Err(e) => {
                    &&& !(self@.healthy && has_bug(self@.bugs, id@))
                    &&& e == (if self@.healthy {
                        TrackerError::NotFound
                    } else {
                        TrackerError::StorageError
                    })
                },
            },
    {
        if !self.healthy {
            return Err(TrackerError::StorageError);
        }
        match self.find_bug_index(id) {
            Some(i) => {
                proof {
                    assert(has_bug(self@.bugs, id@));
                    let j = choose|j: int|
                        0 <= j < self@.bugs.len() && (#[trigger] self@.bugs[j]).bug_id == id@;
                    assert(self@.bugs[i as int] == self@.bugs[j]);
                    assert(self@.bugs[i as int] == self.bugs@[i as int].deep_view());
                }
                Ok(self.bugs[i].clone())
            },
            None => Err(TrackerError::NotFound),
        }
    }

    /// The rows matching the criteria, in storage order.
    pub fn fetch_bugs(&self, criteria: &Vec<(String, String)>) -> (r: Result<
        Vec<Bug>,
        TrackerError,
    >)
        ensures
            match r {
                Ok(v) => {
                    &&& self@.healthy
                    &&& v.deep_view() == matching_bugs(self@.bugs, criteria.deep_view())
                },
                Err(e) => {
                    &&& !self@.healthy
                    &&& e == TrackerError::StorageError
                },
            },
    {
        if !self.healthy {
            return Err(TrackerError::StorageError);
        }
        let ghost dv: Seq<(Seq<char>, Seq<char>)> = criteria.deep_view();
        let mut out: Vec<Bug> = Vec::new();
        let mut i: usize = 0;
        while i < self.bugs.len()
            invariant
                i <= self.bugs.len(),
                self@.bugs.len() == self.bugs.len(),
                dv == criteria.deep_view(),
                out.deep_view() == matching_bugs(self@.bugs.take(i as int), dv),
            decreases self.bugs.len() - i,
        {
            broadcast use Seq::lemma_take_succ_push;
            broadcast use Seq::lemma_filter_push;

            proof {
                assert(self@.bugs[i as int] == self.bugs@[i as int].deep_view());
            }
            let ghost before: Seq<BugView> = out.deep_view();
            if bug_satisfies(&self.bugs[i], criteria) {
                out.push(self.bugs[i].clone());
                proof {
                    assert(out.deep_view() =~= before.push(self@.bugs[i as int]));
                    assert(out.deep_view() =~= matching_bugs(self@.bugs.take(i + 1), dv));
                }
            } else {
                proof {
                    assert(out.deep_view() =~= matching_bugs(self@.bugs.take(i + 1), dv));
                }
            }
            i = i + 1;
        }
        proof {
            assert(self@.bugs.take(self.bugs.len() as int) == self@.bugs);
        }
        Ok(out)
    }

    /// Writes every column but the identifier, the reporter and the creation
    /// timestamp of the row with this identifier, returning how many rows
    /// were affected.
    pub fn update_bug_row(&mut self, id: &String, row: &Bug) -> (r: Result<usize, TrackerError>)
        ensures
            final(self)@.projects == old(self)@.projects,
            final(self)@.healthy == old(self)@.healthy,
            old(self).wf() ==> final(self).wf(),
            match r {
                Ok(n) => {
                    &&& old(self)@.healthy
                    &&& final(self)@.bugs == updated_rows(old(self)@.bugs, id@, row@)
                    &&& (n > 0 <==> has_bug(old(self)@.bugs, id@))
                },
                Err(e) => {
                    &&& !old(self)@.healthy
                    &&& e == TrackerError::StorageError
                    &&& final(self)@.bugs == old(self)@.bugs
                },
            },
    {
        if !self.healthy {
            return Err(TrackerError::StorageError);
        }
        let ghost before: Seq<BugView> = self@.bugs;
        let mut out: Vec<Bug> = Vec::new();
        let mut affected: usize = 0;
        let mut i: usize = 0;
        while i < self.bugs.len()
            invariant
                i <= self.bugs.len(),
                before == self@.bugs,
                self@.bugs.len() == self.bugs.len(),
                out.deep_view() =~= updated_rows(before, id@, row@).take(i as int),
                affected <= i,
                affected > 0 <==> has_bug(before.take(i as int), id@),
            decreases self.bugs.len() - i,
        {
            proof {
                assert(self@.bugs[i as int] == self.bugs@[i as int].deep_view());
            }
            let ghost outb: Seq<BugView> = out.deep_view();
            let cur = &self.bugs[i];
            if cur.bug_id == *id {
                out.push(
                    Bug {
                        bug_id: cur.bug_id.clone(),
                        title: row.title.clone(),
                        description: row.description.clone(),
                        reported_by: cur.reported_by.clone(),
                        severity: row.severity.clone(),
                        status: row.status.clone(),
                        assigned_to: clone_opt(&row.assigned_to),
                        project_id: clone_opt(&row.project_id),
                        created_at: cur.created_at.clone(),
                    },
                );
                affected = affected + 1;
            } else {
                out.push(cur.clone());
            }
            proof {
                assert(out.deep_view() =~= outb.push(updated_rows(before, id@, row@)[i as int]));
                assert(out.deep_view() =~= updated_rows(before, id@, row@).take(i + 1));
                assert(has_bug(before.take(i + 1), id@) <==> (has_bug(before.take(i as int), id@)
                    || before[i as int].bug_id == id@)) by {
                    if has_bug(before.take(i + 1), id@) {
                        let k = choose|k: int|
                            0 <= k < before.take(i + 1).len() && (#[trigger] before.take(
                                i + 1,
                            )[k]).bug_id == id@;
                        if k < i as int {
                            assert(before.take(i as int)[k].bug_id == id@);
                        }
                    }
                    if has_bug(before.take(i as int), id@) {
                        let k = choose|k: int|
                            0 <= k < before.take(i as int).len() && (#[trigger] before.take(
                                i as int,
                            )[k]).bug_id == id@;
                        assert(before.take(i + 1)[k].bug_id == id@);
                    }
                    if before[i as int].bug_id == id@ {
                        assert(before.take(i + 1)[i as int].bug_id == id@);
                    }
                }
            }
            i = i + 1;
        }
        proof {
            assert(before.take(before.len() as int) == before);
            assert(updated_rows(before, id@, row@).take(before.len() as int) =~= updated_rows(
                before,
                id@,
                row@,
            ));
        }
        self.bugs = out;
        proof {
            if unique_bug_ids(before) {
                assert forall|a: int, b: int| 0 <= a < b < self@.bugs.len() implies (
                #[trigger] self@.bugs[a]).bug_id != (#[trigger] self@.bugs[b]).bug_id by {
                    assert(self@.bugs[a].bug_id == before[a].bug_id);
                    assert(self@.bugs[b].bug_id == before[b].bug_id);
                }
            }
        }
        Ok(affected)
    }

    /// Sets the assignee of the row with this identifier, returning how many
    /// rows were affected.
    pub fn assign_bug_row(&mut self, id: &String, developer_id: &String) -> (r: Result<
        usize,
        TrackerError,
    >)
        ensures
            final(self)@.projects == old(self)@.projects,
            final(self)@.healthy == old(self)@.healthy,
            old(self).wf() ==> final(self).wf(),
            match r {
                Ok(n) => {
                    &&& old(self)@.healthy
                    &&& final(self)@.bugs == assigned_rows(old(self)@.bugs, id@, developer_id@)
                    &&& (n > 0 <==> has_bug(old(self)@.bugs, id@))
                },
                Err(e) => {
                    &&& !old(self)@.healthy
                    &&& e == TrackerError::StorageError
                    &&& final(self)@.bugs == old(self)@.bugs
                },
            },
    {
        if !self.healthy {
            return Err(TrackerError::StorageError);
        }
        let ghost before: Seq<BugView> = self@.bugs;
        let mut out: Vec<Bug> = Vec::new();
        let mut affected: usize = 0;
        let mut i: usize = 0;
        while i < self.bugs.len()
            invariant
                i <= self.bugs.len(),
                before == self@.bugs,
                self@.bugs.len() == self.bugs.len(),
                out.deep_view() =~= assigned_rows(before, id@, developer_id@).take(i as int),
                affected <= i,
                affected > 0 <==> has_bug(before.take(i as int), id@),
            decreases self.bugs.len() - i,
        {
            proof {
                assert(self@.bugs[i as int] == self.bugs@[i as int].deep_view());
            }
            let ghost outb: Seq<BugView> = out.deep_view();
            let cur = &self.bugs[i];
            if cur.bug_id == *id {
                out.push(
                    Bug {
                        bug_id: cur.bug_id.clone(),
                        title: cur.title.clone(),
                        description: cur.description.clone(),
                        reported_by: cur.reported_by.clone(),
                        severity: cur.severity.clone(),
                        status: cur.status.clone(),
                        assigned_to: Some(developer_id.clone()),
                        project_id: clone_opt(&cur.project_id),
                        created_at: cur.created_at.clone(),
                    },
                );
                affected = affected + 1;
            } else {
                out.push(cur.clone());
            }
            proof {
                assert(out.deep_view() =~= outb.push(
                    assigned_rows(before, id@, developer_id@)[i as int],
                ));
                assert(out.deep_view() =~= assigned_rows(before, id@, developer_id@).take(i + 1));
                assert(has_bug(before.take(i + 1), id@) <==> (has_bug(before.take(i as int), id@)
                    || before[i as int].bug_id == id@)) by {
                    if has_bug(before.take(i + 1), id@) {
                        let k = choose|k: int|
                            0 <= k < before.take(i + 1).len() && (#[trigger] before.take(
                                i + 1,
                            )[k]).bug_id == id@;
                        if k < i as int {
                            assert(before.take(i as int)[k].bug_id == id@);
                        }
                    }
                    if has_bug(before.take(i as int), id@) {
                        let k = choose|k: int|
                            0 <= k < before.take(i as int).len() && (#[trigger] before.take(
                                i as int,
                            )[k]).bug_id == id@;
                        assert(before.take(i + 1)[k].bug_id == id@);
                    }
                    if before[i as int].bug_id == id@ {
                        assert(before.take(i + 1)[i as int].bug_id == id@);
                    }
                }
            }
            i = i + 1;
        }
        proof {
            assert(before.take(before.len() as int) == before);
            assert(assigned_rows(before, id@, developer_id@).take(before.len() as int)
                =~= assigned_rows(before, id@, developer_id@));
        }
        self.bugs = out;
        proof {
            if unique_bug_ids(before) {
                assert forall|a: int, b: int| 0 <= a < b < self@.bugs.len() implies (
                #[trigger] self@.bugs[a]).bug_id != (#[trigger] self@.bugs[b]).bug_id by {
                    assert(self@.bugs[a].bug_id == before[a].bug_id);
                    assert(self@.bugs[b].bug_id == before[b].bug_id);
                }
            }
        }
        Ok(affected)
    }

    /// Deletes every row with this identifier, returning how many rows were
    /// affected.
    pub fn delete_bug_row(&mut self, id: &String) -> (r: Result<usize, TrackerError>)
        ensures
            final(self)@.projects == old(self)@.projects,
            final(self)@.healthy == old(self)@.healthy,
            old(self).wf() ==> final(self).wf(),
            match r {
                Ok(n) => {
                    &&& old(self)@.healthy
                    &&& final(self)@.bugs == rows_without(old(self)@.bugs, id@)
                    &&& (n > 0 <==> has_bug(old(self)@.bugs, id@))
                },
                Err(e) => {
                    &&& !old(self)@.healthy
                    &&& e == TrackerError::StorageError
                    &&& final(self)@.bugs == old(self)@.bugs
                },
            },
    {
        if !self.healthy {
            return Err(TrackerError::StorageError);
        }
        let ghost before: Seq<BugView> = self@.bugs;
        let mut out: Vec<Bug> = Vec::new();
        let mut affected: usize = 0;
        let mut i: usize = 0;
        while i < self.bugs.len()
            invariant
                i <= self.bugs.len(),
                before == self@.bugs,
                self@.bugs.len() == self.bugs.len(),
                out.deep_view() =~= rows_without(before.take(i as int), id@),
                affected <= i,
                affected > 0 <==> has_bug(before.take(i as int), id@),
            decreases self.bugs.len() - i,
        {
            broadcast use Seq::lemma_take_succ_push;
            broadcast use Seq::lemma_filter_push;

            proof {
                assert(self@.bugs[i as int] == self.bugs@[i as int].deep_view());
                assert(before.take(i + 1) == before.take(i as int).push(before[i as int]));
            }
            let ghost outb: Seq<BugView> = out.deep_view();
            let cur = &self.bugs[i];
            if cur.bug_id == *id {
                affected = affected + 1;
            } else {
                out.push(cur.clone());
                proof {
                    assert(out.deep_view() =~= outb.push(before[i as int]));
                }
            }
            proof {
                assert(out.deep_view() =~= rows_without(before.take(i + 1), id@));
                assert(has_bug(before.take(i + 1), id@) <==> (has_bug(before.take(i as int), id@)
                    || before[i as int].bug_id == id@)) by {
                    if has_bug(before.take(i + 1), id@) {
                        let k = choose|k: int|
                            0 <= k < before.take(i + 1).len() && (#[trigger] before.take(
                                i + 1,
                            )[k]).bug_id == id@;
                        if k < i as int {
                            assert(before.take(i as int)[k].bug_id == id@);
                        }
                    }
                    if has_bug(before.take(i as int), id@) {
                        let k = choose|k: int|
                            0 <= k < before.take(i as int).len() && (#[trigger] before.take(
                                i as int,
                            )[k]).bug_id == id@;
                        assert(before.take(i + 1)[k].bug_id == id@);
                    }
                    if before[i as int].bug_id == id@ {
                        assert(before.take(i + 1)[i as int].bug_id == id@);
                    }
                }
            }
            i = i + 1;
        }
        proof {
            assert(before.take(before.len() as int) == before);
        }
        self.bugs = out;
        proof {
            if unique_bug_ids(before) {
                lemma_rows_without_unique(before, id@);
            }
        }
        Ok(affected)
    }

    fn find_project_index(&self, id: &String) -> (r: Option<usize>)
        ensures
            match r {
                Some(i) => i < self@.projects.len() && self@.projects[i as int].project_id == id@,
                None => !has_project(self@.projects, id@),
            },
    {
        let mut i: usize = 0;
        while i < self.projects.len()
            invariant
                i <= self@.projects.len(),
                self@.projects.len() == self.projects.len(),
                forall|j: int| 0 <= j < i ==> (#[trigger] self@.projects[j]).project_id != id@,
            decreases self.projects.len() - i,
        {
            proof {
                assert(self@.projects[i as int] == self.projects@[i as int].deep_view());
            }
            if self.projects[i].project_id == *id {
                return Some(i);
            }
            i = i + 1;
        }
        None
    }

    /// Persists a freshly created project row; an identifier already present
    /// or an unreachable store is a storage error.
    pub fn insert_project(&mut self, project: Project) -> (r: Result<(), TrackerError>)
        ensures
            final(self)@.bugs == old(self)@.bugs,
            final(self)@.healthy == old(self)@.healthy,
            old(self).wf() ==> final(self).wf(),
            match r {
                Ok(()) => {
                    &&& old(self)@.healthy
                    &&& !has_project(old(self)@.projects, project@.project_id)
                    &&& final(self)@.projects == old(self)@.projects.push(project@)
                },
                Err(e) => {
                    &&& e == TrackerError::StorageError
                    &&& (!old(self)@.healthy || has_project(
                        old(self)@.projects,
                        project@.project_id,
                    ))
                    &&& final(self)@.projects == old(self)@.projects
                },
            },
    {
        if !self.healthy {
            return Err(TrackerError::StorageError);
        }
        if let Some(_i) = self.find_project_index(&project.project_id) {
            return Err(TrackerError::StorageError);
        }
        let ghost before: Seq<ProjectView> = self@.projects;
        let ghost pv: ProjectView = project@;
        self.projects.push(project);
        proof {
            assert(self@.projects =~= before.push(pv));
            if unique_project_ids(before) {
                assert forall|i: int, j: int| 0 <= i < j < self@.projects.len() implies (
                #[trigger] self@.projects[i]).project_id != (
                #[trigger] self@.projects[j]).project_id by {
                    if j < before.len() as int {
                    } else {
                        assert(self@.projects[j] == pv);
                        assert(!has_project(before, pv.project_id));
                    }
                }
            }
        }
        Ok(())
    }

    /// All project rows, in storage order.
    pub fn fetch_projects(&self) -> (r: Result<Vec<Project>, TrackerError>)
        ensures
            match r {
                Ok(v) => {
                    &&& self@.healthy
                    &&& v.deep_view() == self@.projects
                },
                Err(e) => {
                    &&& !self@.healthy
                    &&& e == TrackerError::StorageError
                },
            },
    {
        if !self.healthy {
            return Err(TrackerError::StorageError);
        }
        let mut out: Vec<Project> = Vec::new();
        let mut i: usize = 0;
        while i < self.projects.len()
            invariant
                i <= self.projects.len(),
                self@.projects.len() == self.projects.len(),
                out.deep_view() =~= self@.projects.take(i as int),
            decreases self.projects.len() - i,
        {
            proof {
                assert(self@.projects[i as int] == self.projects@[i as int].deep_view());
            }
            let ghost outb: Seq<ProjectView> = out.deep_view();
            out.push(self.projects[i].clone());
            proof {
                assert(out.deep_view() =~= outb.push(self@.projects[i as int]));
                broadcast use Seq::lemma_take_succ_push;

            }
            i = i + 1;
        }
        proof {
            assert(self@.projects.take(self.projects.len() as int) == self@.projects);
        }
        Ok(out)
    }
}

/// Each element the filter keeps sits in the original at some index; used to
/// carry identifier uniqueness through a deletion.
proof fn lemma_matching_bugs_congruent(
    bugs: Seq<BugView>,
    c1: Seq<(Seq<char>, Seq<char>)>,
    c2: Seq<(Seq<char>, Seq<char>)>,
)
    requires
        forall|b: BugView| bug_matches(b, c1) == bug_matches(b, c2),
    ensures
        matching_bugs(bugs, c1) == matching_bugs(bugs, c2),
    decreases bugs.len(),
{
    reveal(Seq::filter);
    if bugs.len() > 0 {
        lemma_matching_bugs_congruent(bugs.drop_last(), c1, c2);
        assert(bug_matches(bugs.last(), c1) == bug_matches(bugs.last(), c2));
    }
}

/// Listing is insensitive to the order of the criteria: two criteria
/// sequences that contain the same pairs select exactly the same rows, in
/// the same storage order.
pub proof fn lemma_matching_bugs_order_insensitive(
    bugs: Seq<BugView>,
    c1: Seq<(Seq<char>, Seq<char>)>,
    c2: Seq<(Seq<char>, Seq<char>)>,
)
    requires
        forall|p: (Seq<char>, Seq<char>)| c1.contains(p) <==> c2.contains(p),
    ensures
        matching_bugs(bugs, c1) == matching_bugs(bugs, c2),
{
    assert forall|b: BugView| bug_matches(b, c1) == bug_matches(b, c2) by {
        crate::filter::lemma_matches_order_insensitive(b, c1, c2);
    }
    lemma_matching_bugs_congruent(bugs, c1, c2);
}

/// Listing ignores criteria pairs with unrecognized keys entirely: the
/// selected rows are those of the criteria with such a pair left out.
pub proof fn lemma_matching_bugs_ignore_unrecognized(
    bugs: Seq<BugView>,
    c: Seq<(Seq<char>, Seq<char>)>,
    i: int,
)
    requires
        0 <= i < c.len(),
        !crate::filter::recognized_key(c[i].0),
    ensures
        matching_bugs(bugs, c) == matching_bugs(bugs, c.remove(i)),
{
    assert forall|b: BugView| bug_matches(b, c) == bug_matches(b, c.remove(i)) by {
        crate::filter::lemma_unrecognized_pair_ignored(b, c, i);
    }
    lemma_matching_bugs_congruent(bugs, c, c.remove(i));
}

/// Writing a row's own current values back changes nothing: with unique
/// identifiers, updating a stored row from itself is the identity.
pub proof fn lemma_updated_rows_identity(bugs: Seq<BugView>, id: Seq<char>)
    requires
        unique_bug_ids(bugs),
        has_bug(bugs, id),
    ensures
        updated_rows(bugs, id, bug_row(bugs, id)) == bugs,
{
    let k = choose|k: int| 0 <= k < bugs.len() && (#[trigger] bugs[k]).bug_id == id;
    let row = bug_row(bugs, id);
    assert forall|j: int| 0 <= j < bugs.len() implies updated_rows(bugs, id, row)[j] == bugs[j] by {
        if bugs[j].bug_id == id {
            if j != k {
                assert(bugs[j].bug_id != bugs[k].bug_id);
            }
            assert(bugs[j] == row);
        }
    }
    assert(updated_rows(bugs, id, row) =~= bugs);
}

/// Deleting an identifier that no row carries leaves the rows as they were.
pub proof fn lemma_rows_without_absent(bugs: Seq<BugView>, id: Seq<char>)
    requires
        !has_bug(bugs, id),
    ensures
        rows_without(bugs, id) == bugs,
    decreases bugs.len(),
{
    reveal(Seq::filter);
    if bugs.len() > 0 {
        let front = bugs.drop_last();
        assert(!has_bug(front, id)) by {
            if has_bug(front, id) {
                let k = choose|k: int|
                    0 <= k < front.len() && (#[trigger] front[k]).bug_id == id;
                assert(bugs[k].bug_id == id);
            }
        }
        lemma_rows_without_absent(front, id);
        assert(bugs[bugs.len() - 1].bug_id != id);
        assert(rows_without(bugs, id) =~= bugs);
    }
}

/// Deleting by identifier keeps the remaining identifiers unique.
proof fn lemma_rows_without_unique(bugs: Seq<BugView>, id: Seq<char>)
    requires
        unique_bug_ids(bugs),
    ensures
        unique_bug_ids(rows_without(bugs, id)),
    decreases bugs.len(),
{
    reveal(Seq::filter);
    if bugs.len() > 0 {
        let front = bugs.drop_last();
        assert(unique_bug_ids(front)) by {
            assert forall|i: int, j: int| 0 <= i < j < front.len() implies (
            #[trigger] front[i]).bug_id != (#[trigger] front[j]).bug_id by {
                assert(front[i] == bugs[i]);
                assert(front[j] == bugs[j]);
            }
        }
        lemma_rows_without_unique(front, id);
        let kept = rows_without(bugs, id);
        let keptf = rows_without(front, id);
        if bugs.last().bug_id != id {
            assert(kept == keptf.push(bugs.last()));
            assert forall|a: int, b: int| 0 <= a < b < kept.len() implies (
            #[trigger] kept[a]).bug_id != (#[trigger] kept[b]).bug_id by {
                if b < keptf.len() {
                    assert(kept[a] == keptf[a]);
                    assert(kept[b] == keptf[b]);
                } else {
                    assert(kept[b] == bugs.last());
                    lemma_filter_index_map(front, id, a);
                    let k = choose|k: int|
                        0 <= k < front.len() && (#[trigger] front[k]) == rows_without(
                            front,
                            id,
                        )[a];
                    assert(bugs[k] == front[k]);
                    assert(bugs[k].bug_id != bugs[bugs.len() - 1].bug_id);
                }
            }
        } else {
            assert(kept == keptf);
        }
    }
}

/// Each element the filter keeps sits in the original at some index.
proof fn lemma_filter_index_map(bugs: Seq<BugView>, id: Seq<char>, a: int)
    requires
        0 <= a < rows_without(bugs, id).len(),
    ensures
        exists|k: int|
            0 <= k < bugs.len() && (#[trigger] bugs[k]) == rows_without(bugs, id)[a],
    decreases bugs.len(),
{
    reveal(Seq::filter);
    if bugs.len() > 0 {
        let pred = |b: BugView| b.bug_id != id;
        let front = bugs.drop_last();
        if pred(bugs.last()) {
            if a < rows_without(bugs, id).len() - 1 {
                lemma_filter_index_map(front, id, a);
                let k = choose|k: int|
                    0 <= k < front.len() && (#[trigger] front[k]) == rows_without(front, id)[a];
                assert(bugs[k] == rows_without(bugs, id)[a]);
            } else {
                assert(bugs[bugs.len() - 1] == rows_without(bugs, id)[a]);
            }
        } else {
            lemma_filter_index_map(front, id, a);
            let k = choose|k: int|
                0 <= k < front.len() && (#[trigger] front[k]) == rows_without(front, id)[a];
            assert(bugs[k] == rows_without(bugs, id)[a]);
        }
    }
}

} // verus!
