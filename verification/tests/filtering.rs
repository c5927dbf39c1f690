use bugtrack::bugs::create_bug;
use bugtrack::bugs::list_bugs;
use bugtrack::bugs::update_bug;
use bugtrack::filter::build_filter;
use bugtrack::filter::bug_satisfies;
use bugtrack::models::Bug;
use bugtrack::models::NewBug;
use bugtrack::models::UpdateBug;
use bugtrack::store::Store;

fn criteria(pairs: &[(&str, &str)]) -> Vec<(String, String)> {
    pairs.iter().map(|(k, v)| (k.to_string(), v.to_string())).collect()
}

fn new_bug(severity: &str, project_id: Option<&str>) -> NewBug {
    NewBug {
        title: "t".to_string(),
        description: "d".to_string(),
        reported_by: "alice".to_string(),
        severity: severity.to_string(),
        project_id: project_id.map(|p| p.to_string()),
    }
}

fn sample_bug(status: &str, severity: &str, project_id: Option<&str>) -> Bug {
    Bug {
        bug_id: "b-1".to_string(),
        title: "t".to_string(),
        description: "d".to_string(),
        reported_by: "alice".to_string(),
        severity: severity.to_string(),
        status: status.to_string(),
        assigned_to: None,
        project_id: project_id.map(|p| p.to_string()),
        created_at: "2024-01-01T00:00:00+00:00".to_string(),
    }
}

#[test]
fn empty_criteria_build_no_predicate() {
    let fq = build_filter(&criteria(&[]));
    assert_eq!(fq.clause, "");
    assert!(fq.params.is_empty());
}

#[test]
fn two_recognized_keys_build_a_conjunction() {
    let fq = build_filter(&criteria(&[("status", "open"), ("severity", "high")]));
    assert_eq!(fq.clause, " WHERE status = ? AND severity = ?");
    assert_eq!(fq.params, vec!["open".to_string(), "high".to_string()]);
}

#[test]
fn placeholders_equal_params_in_order() {
    let fq = build_filter(
        &criteria(&[("project_id", "p1"), ("status", "open"), ("severity", "low")]),
    );
    assert_eq!(fq.clause, " WHERE project_id = ? AND status = ? AND severity = ?");
    assert_eq!(fq.clause.matches('?').count(), fq.params.len());
    assert_eq!(
        fq.params,
        vec!["p1".to_string(), "open".to_string(), "low".to_string()]
    );
}

#[test]
fn unrecognized_key_is_ignored_by_the_builder() {
    let with_unknown = build_filter(
        &criteria(&[("color", "red"), ("status", "open"), ("order", "1; DROP TABLE bugs")]),
    );
    let without = build_filter(&criteria(&[("status", "open")]));
    assert_eq!(with_unknown.clause, without.clause);
    assert_eq!(with_unknown.params, without.params);
    assert_eq!(with_unknown.clause, " WHERE status = ?");
}

#[test]
fn values_never_reach_the_query_text() {
    let fq = build_filter(&criteria(&[("status", "x' OR '1'='1")]));
    assert_eq!(fq.clause, " WHERE status = ?");
    assert_eq!(fq.params, vec!["x' OR '1'='1".to_string()]);
}

#[test]
fn matching_demands_every_recognized_pair() {
    let b = sample_bug("open", "high", Some("p1"));
    assert!(bug_satisfies(&b, &criteria(&[("status", "open"), ("severity", "high")])));
    assert!(!bug_satisfies(&b, &criteria(&[("status", "open"), ("severity", "low")])));
    assert!(bug_satisfies(&b, &criteria(&[])));
}

#[test]
fn matching_is_order_insensitive() {
    let b = sample_bug("open", "high", None);
    let one = criteria(&[("status", "open"), ("severity", "high")]);
    let other = criteria(&[("severity", "high"), ("status", "open")]);
    assert_eq!(bug_satisfies(&b, &one), bug_satisfies(&b, &other));
    assert!(bug_satisfies(&b, &one));
}

#[test]
fn matching_ignores_unrecognized_keys() {
    let b = sample_bug("open", "high", None);
    assert!(bug_satisfies(&b, &criteria(&[("color", "red"), ("status", "open")])));
    assert!(!bug_satisfies(&b, &criteria(&[("status", "closed"), ("color", "red")])));
}

#[test]
fn bug_without_project_matches_no_project_filter() {
    let b = sample_bug("open", "high", None);
    assert!(!bug_satisfies(&b, &criteria(&[("project_id", "p1")])));
    let owned = sample_bug("open", "high", Some("p1"));
    assert!(bug_satisfies(&owned, &criteria(&[("project_id", "p1")])));
}

#[test]
fn list_returns_exactly_the_matching_bugs() {
    let mut store = Store::new();
    let keep = create_bug(&mut store, &new_bug("high", None)).unwrap();
    create_bug(&mut store, &new_bug("low", None)).unwrap();
    let closed = create_bug(&mut store, &new_bug("high", None)).unwrap();
    let close = UpdateBug {
        title: None,
        description: None,
        severity: None,
        status: Some("closed".to_string()),
        assigned_to: None,
        project_id: None,
    };
    update_bug(&mut store, &closed.bug_id, &close).unwrap();

    let one = list_bugs(&store, &criteria(&[("status", "open"), ("severity", "high")])).unwrap();
    assert_eq!(one.len(), 1);
    assert_eq!(one[0].bug_id, keep.bug_id);

    let other = list_bugs(&store, &criteria(&[("severity", "high"), ("status", "open")]))
        .unwrap();
    assert_eq!(other.len(), 1);
    assert_eq!(other[0].bug_id, keep.bug_id);
}

#[test]
fn list_with_unrecognized_key_equals_list_without_it() {
    let mut store = Store::new();
    create_bug(&mut store, &new_bug("high", None)).unwrap();
    create_bug(&mut store, &new_bug("low", None)).unwrap();
    let with_unknown = list_bugs(&store, &criteria(&[("severity", "high"), ("color", "red")]))
        .unwrap();
    let without = list_bugs(&store, &criteria(&[("severity", "high")])).unwrap();
    assert_eq!(with_unknown.len(), without.len());
    assert_eq!(with_unknown[0].bug_id, without[0].bug_id);
}

#[test]
fn list_on_faulted_store_is_storage_error() {
    let mut store = Store::new();
    create_bug(&mut store, &new_bug("high", None)).unwrap();
    store.set_healthy(false);
    let r = list_bugs(&store, &criteria(&[]));
    assert_eq!(r.unwrap_err(), bugtrack::errors::TrackerError::StorageError);
}

#[test]
fn empty_criteria_list_every_bug() {
    let mut store = Store::new();
    create_bug(&mut store, &new_bug("high", None)).unwrap();
    create_bug(&mut store, &new_bug("low", Some("p1"))).unwrap();
    let all = list_bugs(&store, &criteria(&[])).unwrap();
    assert_eq!(all.len(), 2);
}
