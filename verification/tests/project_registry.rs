use bugtrack::bugs::assign_bug;
use bugtrack::bugs::create_bug;
use bugtrack::bugs::delete_bug;
use bugtrack::bugs::get_bug;
use bugtrack::errors::TrackerError;
use bugtrack::models::AssignBugForm;
use bugtrack::models::NewBug;
use bugtrack::models::NewProject;
use bugtrack::models::Project;
use bugtrack::projects::ProjectRegistry;
use bugtrack::store::Store;

fn new_project(name: &str, description: &str) -> NewProject {
    NewProject { name: name.to_string(), description: description.to_string() }
}

#[test]
fn create_project_fills_store_and_cache() {
    let mut store = Store::new();
    let mut registry = ProjectRegistry::new();
    let p = create_ok(&mut registry, &mut store, "Core", "x");
    assert_eq!(p.name, "Core");
    assert_eq!(p.description, "x");
    assert_eq!(p.project_id.len(), 36);
    assert!(!p.created_at.is_empty());
    let listed = registry.list_projects();
    assert_eq!(listed.len(), 1);
    assert_eq!(listed[0].project_id, p.project_id);
}

fn create_ok(registry: &mut ProjectRegistry, store: &mut Store, name: &str, desc: &str) -> Project {
    registry.create_project(store, &new_project(name, desc)).unwrap()
}

#[test]
fn cache_grows_by_one_only_on_persistence_success() {
    let mut store = Store::new();
    let mut registry = ProjectRegistry::new();
    create_ok(&mut registry, &mut store, "One", "a");
    assert_eq!(registry.list_projects().len(), 1);

    store.set_healthy(false);
    let r = registry.create_project(&mut store, &new_project("Two", "b"));
    assert_eq!(r.unwrap_err(), TrackerError::StorageError);
    assert_eq!(registry.list_projects().len(), 1);

    store.set_healthy(true);
    create_ok(&mut registry, &mut store, "Two", "b");
    assert_eq!(registry.list_projects().len(), 2);
}

#[test]
fn bootstrap_mirrors_the_durable_rows() {
    let mut store = Store::new();
    let mut seed = ProjectRegistry::new();
    let p1 = create_ok(&mut seed, &mut store, "One", "a");
    let p2 = create_ok(&mut seed, &mut store, "Two", "b");

    let booted = ProjectRegistry::bootstrap(&store).unwrap();
    let listed = booted.list_projects();
    assert_eq!(listed.len(), 2);
    assert_eq!(listed[0].project_id, p1.project_id);
    assert_eq!(listed[1].project_id, p2.project_id);
}

#[test]
fn bootstrap_from_faulted_store_fails() {
    let mut store = Store::new();
    store.set_healthy(false);
    let r = ProjectRegistry::bootstrap(&store);
    assert_eq!(r.unwrap_err(), TrackerError::StorageError);
}

#[test]
fn record_created_appends_to_the_cache() {
    let mut registry = ProjectRegistry::new();
    assert_eq!(registry.list_projects().len(), 0);
    registry.record_created(Project {
        project_id: "p-1".to_string(),
        name: "n".to_string(),
        description: "d".to_string(),
        created_at: "2024-01-01T00:00:00+00:00".to_string(),
    });
    let listed = registry.list_projects();
    assert_eq!(listed.len(), 1);
    assert_eq!(listed[0].name, "n");
}

#[test]
fn full_scenario_from_project_to_deleted_bug() {
    let mut store = Store::new();
    let mut registry = ProjectRegistry::new();

    let p1 = create_ok(&mut registry, &mut store, "Core", "x");
    let listed = registry.list_projects();
    assert_eq!(listed.len(), 1);
    assert_eq!(listed[0].project_id, p1.project_id);

    let b1 = create_bug(
        &mut store,
        &NewBug {
            title: "t".to_string(),
            description: "d".to_string(),
            reported_by: "alice".to_string(),
            severity: "high".to_string(),
            project_id: Some(p1.project_id.clone()),
        },
    )
    .unwrap();
    assert_eq!(get_bug(&store, &b1.bug_id).unwrap().status, "open");

    let form = AssignBugForm { bug_id: b1.bug_id.clone(), developer_id: "dev1".to_string() };
    assign_bug(&mut store, &form).unwrap();
    assert_eq!(
        get_bug(&store, &b1.bug_id).unwrap().assigned_to,
        Some("dev1".to_string())
    );

    delete_bug(&mut store, &b1.bug_id).unwrap();
    assert_eq!(get_bug(&store, &b1.bug_id).unwrap_err(), TrackerError::NotFound);
}
