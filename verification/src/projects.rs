use vstd::prelude::*;
use crate::errors::TrackerError;
use crate::gen::fresh_id;
use crate::gen::now_rfc3339;
use crate::models::NewProject;
use crate::models::Project;
use crate::models::ProjectView;
use crate::store::Store;
use crate::store::has_project;

verus! {

/// The process-local mirror of the durable project rows: a cache seeded
/// once from the store at startup and appended to on every successful
/// creation, serving reads without a store round-trip. The cache is never
/// refreshed from deletes or updates, since none exist for projects.
#[derive(Debug)]
pub struct ProjectRegistry {
    cache: Vec<Project>,
}

impl View for ProjectRegistry {
    type V = Seq<ProjectView>;

    closed spec fn view(&self) -> Seq<ProjectView> {
        self.cache.deep_view()
    }
}

impl ProjectRegistry {
    /// A registry with nothing cached yet.
    pub fn new() -> (r: ProjectRegistry)
        ensures
            r@ == Seq::<ProjectView>::empty(),
    {
        let r = ProjectRegistry { cache: Vec::new() };
        proof {
            assert(r@ =~= Seq::<ProjectView>::empty());
        }
        r
    }

    /// Seeds the cache from the durable store at startup. A failed load
    /// caches nothing and is surfaced, which is fatal to startup.
    pub fn bootstrap(store: &Store) -> (r: Result<ProjectRegistry, TrackerError>)
        ensures
            match r {
                Ok(reg) => {
                    &&& store@.healthy
                    &&& reg@ == store@.projects
                },
                Err(e) => {
                    &&& !store@.healthy
                    &&& e == TrackerError::StorageError
                },
            },
    {
        match store.fetch_projects() {
            Ok(v) => Ok(ProjectRegistry { cache: v }),
            Err(e) => Err(e),
        }
    }

    /// A snapshot copy of the cached projects; the durable store is never
    /// consulted on the read path.
    pub fn list_projects(&self) -> (r: Vec<Project>)
        ensures
            r.deep_view() == self@,
    {
        let mut out: Vec<Project> = Vec::new();
        let mut i: usize = 0;
        while i < self.cache.len()
            invariant
                i <= self.cache.len(),
                self@.len() == self.cache.len(),
                out.deep_view() =~= self@.take(i as int),
            decreases self.cache.len() - i,
        {
            proof {
                assert(self@[i as int] == self.cache@[i as int].deep_view());
            }
            let ghost outb: Seq<ProjectView> = out.deep_view();
            out.push(self.cache[i].clone());
            proof {
                assert(out.deep_view() =~= outb.push(self@[i as int]));
                broadcast use Seq::lemma_take_succ_push;

            }
            i = i + 1;
        }
        proof {
            assert(self@.take(self.cache.len() as int) == self@);
        }
        out
    }

    /// Appends a row to the cache. To keep the cache a mirror of the
    /// durable rows, call this only for a row the store just accepted.
    pub fn record_created(&mut self, p: Project)
        ensures
            final(self)@ == old(self)@.push(p@),
    {
        let ghost before = self@;
        let ghost pv = p@;
        self.cache.push(p);
        proof {
            assert(self@ =~= before.push(pv));
        }
    }

    /// Creates a project: generates a fresh identifier and timestamp,
    /// persists the row, and appends it to the cache only once persistence
    /// succeeded. A persistence failure leaves the cache untouched and is
    /// surfaced as a storage error; a cache that mirrored the durable rows
    /// before still mirrors them after, either way.
    pub fn create_project(&mut self, store: &mut Store, new_project: &NewProject) -> (r: Result<
        Project,
        TrackerError,
    >)
        requires
            old(store).wf(),
        ensures
            final(store).wf(),
            final(store)@.bugs == old(store)@.bugs,
            final(store)@.healthy == old(store)@.healthy,
            !old(store)@.healthy ==> r is Err,
            match r {
                Ok(p) => {
                    &&& old(store)@.healthy
                    &&& p@.name == new_project.name@
                    &&& p@.description == new_project.description@
                    &&& p@.project_id.len() == 36
                    &&& p@.created_at.len() > 0
                    &&& !has_project(old(store)@.projects, p@.project_id)
                    &&& final(store)@.projects == old(store)@.projects.push(p@)
                    &&& final(self)@ == old(self)@.push(p@)
                    &&& (old(self)@ == old(store)@.projects ==> final(self)@
                        == final(store)@.projects)
                },
                Err(e) => {
                    &&& e == TrackerError::StorageError
                    &&& final(self)@ == old(self)@
                    &&& final(store)@.projects == old(store)@.projects
                },
            },
    {
        let project_id = fresh_id();
        let created_at = now_rfc3339();
        let p = new_project.into_project(project_id, created_at);
        let ret = p.clone();
        match store.insert_project(p) {
            Ok(()) => {
                self.record_created(ret.clone());
                Ok(ret)
            },
            Err(e) => Err(e),
        }
    }
}

} // verus!
