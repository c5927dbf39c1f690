use vstd::prelude::*;
use crate::errors::TrackerError;
use crate::store::matching_bugs;
use crate::gen::fresh_id;
use crate::gen::now_rfc3339;
use crate::models::AssignBugForm;
use crate::models::Bug;
use crate::models::NewBug;
use crate::models::UpdateBug;
use crate::models::spec_merge;
use crate::models::spec_new_bug;
use crate::store::Store;
use crate::store::assigned_rows;
use crate::store::bug_row;
use crate::store::has_bug;
use crate::store::lemma_rows_without_absent;
use crate::store::rows_without;
use crate::store::updated_rows;

verus! {

/// Turns an affected-row count into the outcome of a point mutation: at
/// least one affected row is success, none means the record was missing.
pub fn outcome_from_affected(affected: usize) -> (r: Result<(), TrackerError>)
    ensures
        r is Ok <==> affected > 0,
        r is Err ==> r == Err::<(), TrackerError>(TrackerError::NotFound),
{
    if affected > 0 {
        Ok(())
    } else {
        Err(TrackerError::NotFound)
    }
}

/// Creates a bug from the input shape under a caller-chosen identifier and
/// timestamp: the persisted and returned row is exactly the input with
/// status "open" and no assignee. Success is owed whenever the store is
/// healthy and the identifier is fresh; a duplicate identifier violates the
/// uniqueness constraint and is a storage error.
pub fn create_bug_with_id(
    store: &mut Store,
    new_bug: &NewBug,
    bug_id: String,
    created_at: String,
) -> (r: Result<Bug, TrackerError>)
    requires
        old(store).wf(),
    ensures
        final(store).wf(),
        final(store)@.projects == old(store)@.projects,
        final(store)@.healthy == old(store)@.healthy,
        match r {
            Ok(b) => {
                &&& old(store)@.healthy
                &&& !has_bug(old(store)@.bugs, bug_id@)
                &&& b@ == spec_new_bug(new_bug@, bug_id@, created_at@)
                &&& final(store)@.bugs == old(store)@.bugs.push(b@)
            },
            Err(e) => {
                &&& e == TrackerError::StorageError
                &&& (!old(store)@.healthy || has_bug(old(store)@.bugs, bug_id@))
                &&& final(store)@.bugs == old(store)@.bugs
            },
        },
{
    let b = new_bug.into_bug(bug_id, created_at);
    let ret = b.clone();
    match store.insert_bug(b) {
        Ok(()) => Ok(ret),
        Err(e) => Err(e),
    }
}

/// Creates a bug: generates a fresh identifier, captures the current time,
/// forces status to "open", persists the row and returns it. Whatever
/// identifier the generator produced, the created row carries the caller's
/// fields, a 36-character identifier no stored row carried before, and no
/// assignee; a store fault surfaces as a storage error with nothing
/// persisted.
pub fn create_bug(store: &mut Store, new_bug: &NewBug) -> (r: Result<Bug, TrackerError>)
    requires
        old(store).wf(),
    ensures
        final(store).wf(),
        final(store)@.projects == old(store)@.projects,
        final(store)@.healthy == old(store)@.healthy,
        !old(store)@.healthy ==> r is Err,
        match r {
            Ok(b) => {
                &&& old(store)@.healthy
                &&& b@.status == "open"@
                &&& b@.assigned_to is None
                &&& b@.bug_id.len() == 36
                &&& b@.title == new_bug@.title
                &&& b@.description == new_bug@.description
                &&& b@.reported_by == new_bug@.reported_by
                &&& b@.severity == new_bug@.severity
                &&& b@.project_id == new_bug@.project_id
                &&& b@.created_at.len() > 0
                &&& !has_bug(old(store)@.bugs, b@.bug_id)
                &&& final(store)@.bugs == old(store)@.bugs.push(b@)
            },
            Err(e) => {
                &&& e == TrackerError::StorageError
                &&& final(store)@.bugs == old(store)@.bugs
            },
        },
{
    let bug_id = fresh_id();
    let created_at = now_rfc3339();
    create_bug_with_id(store, new_bug, bug_id, created_at)
}

/// Point lookup by identifier: the stored row, a not-found outcome when no
/// row carries the identifier, a storage error only when the store is
/// faulted.
pub fn get_bug(store: &Store, id: &String) -> (r: Result<Bug, TrackerError>)
    requires
        store.wf(),
    ensures
        match r {
            Ok(b) => {
                &&& store@.healthy
                &&& has_bug(store@.bugs, id@)
                &&& b@ == bug_row(store@.bugs, id@)
            },
            Err(e) => {
                &&& !(store@.healthy && has_bug(store@.bugs, id@))
                &&& e == (if store@.healthy {
                    TrackerError::NotFound
                } else {
                    TrackerError::StorageError
                })
            },
        },
{
    store.fetch_bug(id)
}

/// Lists the bugs matching the caller's filter criteria, in storage order.
/// Unrecognized criteria keys are ignored; the recognized ones must all
/// hold of a returned row.
pub fn list_bugs(store: &Store, criteria: &Vec<(String, String)>) -> (r: Result<
    Vec<Bug>,
    TrackerError,
>)
    ensures
        match r {
            Ok(v) => {
                &&& store@.healthy
                &&& v.deep_view() == matching_bugs(store@.bugs, criteria.deep_view())
            },
            Err(e) => {
                &&& !store@.healthy
                &&& e == TrackerError::StorageError
            },
        },
{
    store.fetch_bugs(criteria)
}

/// Partial update: reads the stored row (propagating its not-found outcome
/// unchanged), merges each supplied field over it, persists and returns the
/// merged row. The identifier, the reporter and the creation timestamp
/// always survive.
pub fn update_bug(store: &mut Store, id: &String, update: &UpdateBug) -> (r: Result<
    Bug,
    TrackerError,
>)
    requires
        old(store).wf(),
    ensures
        final(store).wf(),
        final(store)@.projects == old(store)@.projects,
        final(store)@.healthy == old(store)@.healthy,
        match r {
            Ok(b) => {
                &&& old(store)@.healthy
                &&& has_bug(old(store)@.bugs, id@)
                &&& b@ == spec_merge(bug_row(old(store)@.bugs, id@), update@)
                &&& final(store)@.bugs == updated_rows(old(store)@.bugs, id@, b@)
            },
            Err(e) => {
                &&& final(store)@.bugs == old(store)@.bugs
                &&& e == (if old(store)@.healthy {
                    TrackerError::NotFound
                } else {
                    TrackerError::StorageError
                })
                &&& (e == TrackerError::NotFound ==> !has_bug(old(store)@.bugs, id@))
            },
        },
{
    let existing = match store.fetch_bug(id) {
        Ok(b) => b,
        Err(e) => {
            return Err(e);
        },
    };
    let merged = update.apply_to(&existing);
    let ret = merged.clone();
    match store.update_bug_row(id, &merged) {
        Ok(_affected) => Ok(ret),
        Err(_e) => {
            // The read succeeded on a healthy store and nothing touched it
            // since, so the write cannot report a fault.
            proof {
                assert(false);
            }
            Err(TrackerError::StorageError)
        },
    }
}

/// Deletes the row with this identifier. A healthy store that held no such
/// row reports not-found, never a storage error.
pub fn delete_bug(store: &mut Store, id: &String) -> (r: Result<(), TrackerError>)
    requires
        old(store).wf(),
    ensures
        final(store).wf(),
        final(store)@.projects == old(store)@.projects,
        final(store)@.healthy == old(store)@.healthy,
        match r {
            Ok(()) => {
                &&& old(store)@.healthy
                &&& has_bug(old(store)@.bugs, id@)
                &&& final(store)@.bugs == rows_without(old(store)@.bugs, id@)
            },
            Err(e) => {
                &&& e == (if old(store)@.healthy {
                    TrackerError::NotFound
                } else {
                    TrackerError::StorageError
                })
                &&& (e == TrackerError::NotFound ==> !has_bug(old(store)@.bugs, id@))
                &&& final(store)@.bugs == old(store)@.bugs
            },
        },
{
    let ghost before = store@.bugs;
    match store.delete_bug_row(id) {
        Ok(affected) => {
            let r = outcome_from_affected(affected);
            proof {
                if affected == 0 {
                    lemma_rows_without_absent(before, id@);
                }
            }
            r
        },
        Err(e) => Err(e),
    }
}

/// Assigns the bug named in the form to the given developer, whether or not
/// the developer identifier refers to a known entity. A healthy store that
/// held no such bug reports not-found.
pub fn assign_bug(store: &mut Store, form: &AssignBugForm) -> (r: Result<(), TrackerError>)
    requires
        old(store).wf(),
    ensures
        final(store).wf(),
        final(store)@.projects == old(store)@.projects,
        final(store)@.healthy == old(store)@.healthy,
        match r {
            Ok(()) => {
                &&& old(store)@.healthy
                &&& has_bug(old(store)@.bugs, form.bug_id@)
                &&& final(store)@.bugs == assigned_rows(
                    old(store)@.bugs,
                    form.bug_id@,
                    form.developer_id@,
                )
            },
            Err(e) => {
                &&& e == (if old(store)@.healthy {
                    TrackerError::NotFound
                } else {
                    TrackerError::StorageError
                })
                &&& (e == TrackerError::NotFound ==> !has_bug(old(store)@.bugs, form.bug_id@))
                &&& final(store)@.bugs == old(store)@.bugs
            },
        },
{
    let ghost before = store@.bugs;
    match store.assign_bug_row(&form.bug_id, &form.developer_id) {
        Ok(affected) => {
            let r = outcome_from_affected(affected);
            proof {
                if affected == 0 {
                    assert(assigned_rows(before, form.bug_id@, form.developer_id@) =~= before)
                        by {
                        assert forall|j: int| 0 <= j < before.len() implies (
                        #[trigger] before[j]).bug_id != form.bug_id@ by {
                            if before[j].bug_id == form.bug_id@ {
                                assert(has_bug(before, form.bug_id@));
                            }
                        }
                    }
                }
            }
            r
        },
        Err(e) => Err(e),
    }
}

} // verus!
