use bugtrack::bugs::assign_bug;
use bugtrack::bugs::create_bug;
use bugtrack::bugs::delete_bug;
use bugtrack::bugs::get_bug;
use bugtrack::bugs::list_bugs;
use bugtrack::bugs::outcome_from_affected;
use bugtrack::bugs::update_bug;
use bugtrack::errors::TrackerError;
use bugtrack::models::AssignBugForm;
use bugtrack::models::NewBug;
use bugtrack::models::UpdateBug;
use bugtrack::store::Store;

fn sample_new_bug() -> NewBug {
    NewBug {
        title: "t".to_string(),
        description: "d".to_string(),
        reported_by: "alice".to_string(),
        severity: "high".to_string(),
        project_id: None,
    }
}

fn empty_update() -> UpdateBug {
    UpdateBug {
        title: None,
        description: None,
        severity: None,
        status: None,
        assigned_to: None,
        project_id: None,
    }
}

#[test]
fn created_bug_has_defaults() {
    let mut store = Store::new();
    let b = create_bug(&mut store, &sample_new_bug()).unwrap();
    assert_eq!(b.status, "open");
    assert_eq!(b.assigned_to, None);
    assert!(!b.bug_id.is_empty());
    assert_eq!(b.bug_id.len(), 36);
    assert!(!b.created_at.is_empty());
    assert_eq!(b.title, "t");
    assert_eq!(b.description, "d");
    assert_eq!(b.reported_by, "alice");
    assert_eq!(b.severity, "high");
    assert_eq!(b.project_id, None);
}

#[test]
fn created_bugs_have_distinct_identifiers() {
    let mut store = Store::new();
    let b1 = create_bug(&mut store, &sample_new_bug()).unwrap();
    let b2 = create_bug(&mut store, &sample_new_bug()).unwrap();
    assert_ne!(b1.bug_id, b2.bug_id);
}

#[test]
fn create_on_faulted_store_is_storage_error() {
    let mut store = Store::new();
    store.set_healthy(false);
    let r = create_bug(&mut store, &sample_new_bug());
    assert_eq!(r.unwrap_err(), TrackerError::StorageError);
    store.set_healthy(true);
    assert_eq!(list_bugs(&store, &vec![]).unwrap().len(), 0);
}

#[test]
fn get_returns_created_bug() {
    let mut store = Store::new();
    let b = create_bug(&mut store, &sample_new_bug()).unwrap();
    let fetched = get_bug(&store, &b.bug_id).unwrap();
    assert_eq!(fetched.bug_id, b.bug_id);
    assert_eq!(fetched.status, "open");
    assert_eq!(fetched.title, "t");
}

#[test]
fn get_missing_bug_is_not_found() {
    let mut store = Store::new();
    create_bug(&mut store, &sample_new_bug()).unwrap();
    let r = get_bug(&store, &"no-such-id".to_string());
    assert_eq!(r.unwrap_err(), TrackerError::NotFound);
}

#[test]
fn get_on_faulted_store_is_storage_error() {
    let mut store = Store::new();
    let b = create_bug(&mut store, &sample_new_bug()).unwrap();
    store.set_healthy(false);
    let r = get_bug(&store, &b.bug_id);
    assert_eq!(r.unwrap_err(), TrackerError::StorageError);
}

#[test]
fn empty_update_returns_identical_bug() {
    let mut store = Store::new();
    let b = create_bug(&mut store, &sample_new_bug()).unwrap();
    let merged = update_bug(&mut store, &b.bug_id, &empty_update()).unwrap();
    assert_eq!(merged.bug_id, b.bug_id);
    assert_eq!(merged.title, b.title);
    assert_eq!(merged.description, b.description);
    assert_eq!(merged.reported_by, b.reported_by);
    assert_eq!(merged.severity, b.severity);
    assert_eq!(merged.status, b.status);
    assert_eq!(merged.assigned_to, b.assigned_to);
    assert_eq!(merged.project_id, b.project_id);
    assert_eq!(merged.created_at, b.created_at);
}

#[test]
fn status_only_update_changes_status_alone() {
    let mut store = Store::new();
    let b = create_bug(&mut store, &sample_new_bug()).unwrap();
    let update = UpdateBug { status: Some("closed".to_string()), ..empty_update() };
    let merged = update_bug(&mut store, &b.bug_id, &update).unwrap();
    assert_eq!(merged.status, "closed");
    assert_eq!(merged.title, b.title);
    assert_eq!(merged.description, b.description);
    assert_eq!(merged.severity, b.severity);
    assert_eq!(merged.assigned_to, b.assigned_to);
    assert_eq!(merged.project_id, b.project_id);
    assert_eq!(merged.reported_by, b.reported_by);
    assert_eq!(merged.created_at, b.created_at);
    let fetched = get_bug(&store, &b.bug_id).unwrap();
    assert_eq!(fetched.status, "closed");
    assert_eq!(fetched.title, b.title);
}

#[test]
fn update_merges_supplied_fields() {
    let mut store = Store::new();
    let b = create_bug(&mut store, &sample_new_bug()).unwrap();
    let update = UpdateBug {
        title: Some("t2".to_string()),
        assigned_to: Some("bob".to_string()),
        ..empty_update()
    };
    let merged = update_bug(&mut store, &b.bug_id, &update).unwrap();
    assert_eq!(merged.title, "t2");
    assert_eq!(merged.assigned_to, Some("bob".to_string()));
    assert_eq!(merged.description, "d");
    assert_eq!(merged.status, "open");
}

#[test]
fn update_missing_bug_is_not_found() {
    let mut store = Store::new();
    let r = update_bug(&mut store, &"absent".to_string(), &empty_update());
    assert_eq!(r.unwrap_err(), TrackerError::NotFound);
}

#[test]
fn update_on_faulted_store_is_storage_error() {
    let mut store = Store::new();
    let b = create_bug(&mut store, &sample_new_bug()).unwrap();
    store.set_healthy(false);
    let r = update_bug(&mut store, &b.bug_id, &empty_update());
    assert_eq!(r.unwrap_err(), TrackerError::StorageError);
}

#[test]
fn delete_removes_the_bug() {
    let mut store = Store::new();
    let b = create_bug(&mut store, &sample_new_bug()).unwrap();
    assert!(delete_bug(&mut store, &b.bug_id).is_ok());
    let r = get_bug(&store, &b.bug_id);
    assert_eq!(r.unwrap_err(), TrackerError::NotFound);
}

#[test]
fn delete_missing_bug_is_not_found_on_healthy_store() {
    let mut store = Store::new();
    create_bug(&mut store, &sample_new_bug()).unwrap();
    let r = delete_bug(&mut store, &"no-such-id".to_string());
    assert_eq!(r.unwrap_err(), TrackerError::NotFound);
}

#[test]
fn delete_on_faulted_store_is_storage_error() {
    let mut store = Store::new();
    store.set_healthy(false);
    let r = delete_bug(&mut store, &"whatever".to_string());
    assert_eq!(r.unwrap_err(), TrackerError::StorageError);
}

#[test]
fn assign_sets_the_assignee() {
    let mut store = Store::new();
    let b = create_bug(&mut store, &sample_new_bug()).unwrap();
    let form = AssignBugForm { bug_id: b.bug_id.clone(), developer_id: "dev1".to_string() };
    assert!(assign_bug(&mut store, &form).is_ok());
    let fetched = get_bug(&store, &b.bug_id).unwrap();
    assert_eq!(fetched.assigned_to, Some("dev1".to_string()));
    assert_eq!(fetched.status, "open");
}

#[test]
fn assign_missing_bug_is_not_found() {
    let mut store = Store::new();
    let form = AssignBugForm { bug_id: "absent".to_string(), developer_id: "dev1".to_string() };
    let r = assign_bug(&mut store, &form);
    assert_eq!(r.unwrap_err(), TrackerError::NotFound);
}

#[test]
fn affected_row_count_decides_the_outcome() {
    assert!(outcome_from_affected(1).is_ok());
    assert!(outcome_from_affected(2).is_ok());
    assert_eq!(outcome_from_affected(0).unwrap_err(), TrackerError::NotFound);
}
