use std::sync::Arc;
use std::time::Duration;

use mesh_core::matching::{Response, ResponseClass, ResponseMatch};
use mesh_core::profiles::Route;
use tower_retry::budget::Budget;

fn pairs(items: &[(&str, &str)]) -> Vec<(String, String)> {
    items
        .iter()
        .map(|(k, v)| (k.to_string(), v.to_string()))
        .collect()
}

#[test]
fn labels_round_trip_as_sorted_map() {
    // The same pairs in any order come back key-sorted.
    let a = Route::new(pairs(&[("b", "2"), ("a", "1"), ("c", "3")]), Vec::new());
    let b = Route::new(pairs(&[("c", "3"), ("a", "1"), ("b", "2")]), Vec::new());

    let keys: Vec<&String> = a.labels().keys().collect();
    assert_eq!(keys, ["a", "b", "c"]);
    let got: Vec<(String, String)> = a
        .labels()
        .iter()
        .map(|(k, v)| (k.clone(), v.clone()))
        .collect();
    assert_eq!(got, pairs(&[("a", "1"), ("b", "2"), ("c", "3")]));

    let other: Vec<(String, String)> = b
        .labels()
        .iter()
        .map(|(k, v)| (k.clone(), v.clone()))
        .collect();
    assert_eq!(got, other);
}

#[test]
fn duplicate_label_keys_keep_last_value() {
    let r = Route::new(pairs(&[("k", "first"), ("a", "x"), ("k", "second")]), Vec::new());
    assert_eq!(r.labels().get("k").map(String::as_str), Some("second"));
    assert_eq!(r.labels().len(), 2);
}

#[test]
fn clone_shares_interior_tables() {
    // Clones are equal by reference identity of their interior tables.
    let mut r = Route::new(pairs(&[("a", "1")]), vec![ResponseClass::new(
        true,
        ResponseMatch::Status { min: 500, max: 599 },
    )]);
    r.set_retries(Arc::new(Budget::new(Duration::from_secs(10), 10, 0.2)));
    let c = r.clone();

    assert!(Arc::ptr_eq(r.labels(), c.labels()));
    assert!(Arc::ptr_eq(
        r.response_classes().as_vec(),
        c.response_classes().as_vec()
    ));
    assert!(Arc::ptr_eq(
        r.retries().unwrap().budget(),
        c.retries().unwrap().budget()
    ));

    // Structurally identical but separately built tables are distinct
    // allocations.
    let other = Route::new(pairs(&[("a", "1")]), Vec::new());
    assert!(!Arc::ptr_eq(r.labels(), other.labels()));
}

#[test]
fn default_route_is_empty() {
    let r = Route::default();
    assert!(r.labels().is_empty());
    assert_eq!(r.response_classes().len(), 0);
    assert!(r.retries().is_none());
    assert!(r.timeout().is_none());
}

#[test]
fn retry_and_timeout_policy_setters() {
    let mut r = Route::default();
    assert!(r.retries().is_none());
    assert!(r.timeout().is_none());

    r.set_timeout(250_000_000);
    assert_eq!(r.timeout(), Some(250_000_000));

    let budget = Arc::new(Budget::default());
    r.set_retries(budget.clone());
    assert!(Arc::ptr_eq(r.retries().unwrap().budget(), &budget));
}

#[test]
fn response_classes_keep_order_and_flags() {
    let classes = vec![
        ResponseClass::new(false, ResponseMatch::Status { min: 200, max: 299 }),
        ResponseClass::new(true, ResponseMatch::Status { min: 500, max: 599 }),
    ];
    let r = Route::new(Vec::new(), classes);
    let rc = r.response_classes();
    assert_eq!(rc.len(), 2);
    assert!(!rc.get(0).is_failure());
    assert!(rc.get(1).is_failure());
    assert!(rc.get(1).is_match(&Response { status: 503 }));
    assert!(!rc.get(1).is_match(&Response { status: 404 }));
}
