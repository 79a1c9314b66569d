//! Catalog building and exact-match lookup.
use osc_cost::catalog::{Catalog, RawCatalogEntry};

fn entry(service: &str, kind: &str, operation: &str, price: Option<u64>) -> RawCatalogEntry {
    RawCatalogEntry {
        service: Some(service.to_string()),
        entry_type: Some(kind.to_string()),
        operation: Some(operation.to_string()),
        unit_price: price,
    }
}

#[test]
fn lookup_finds_an_indexed_entry() {
    let catalog = Catalog::build(vec![
        entry("TinaOS-FCU", "CustomRam", "RunInstances-OD", Some(5_000)),
        entry("TinaOS-LBU", "LBU:Usage", "CreateLoadBalancer", Some(40_000)),
    ]);
    assert_eq!(
        catalog.lookup("TinaOS-FCU", "CustomRam", "RunInstances-OD"),
        Some(5_000)
    );
    assert_eq!(
        catalog.lookup("TinaOS-LBU", "LBU:Usage", "CreateLoadBalancer"),
        Some(40_000)
    );
}

#[test]
fn lookup_on_empty_catalog_is_a_miss_not_a_panic() {
    let catalog = Catalog::new();
    assert_eq!(catalog.lookup("TinaOS-FCU", "CustomRam", "RunInstances-OD"), None);
    assert_eq!(catalog.lookup_id(""), None);
}

#[test]
fn lookup_is_exact_and_case_sensitive() {
    let catalog = Catalog::build(vec![entry("A", "B", "C", Some(1))]);
    assert_eq!(catalog.lookup("A", "B", "C"), Some(1));
    assert_eq!(catalog.lookup("a", "B", "C"), None);
    assert_eq!(catalog.lookup("A", "B", "c"), None);
    assert_eq!(catalog.lookup("A", "B", "CC"), None);
    assert_eq!(catalog.lookup_id("A/B/C"), Some(1));
}

#[test]
fn incomplete_entries_are_dropped() {
    let mut missing_service = entry("A", "B", "C", Some(1));
    missing_service.service = None;
    let mut missing_kind = entry("A", "B", "C", Some(2));
    missing_kind.entry_type = None;
    let mut missing_operation = entry("A", "B", "C", Some(3));
    missing_operation.operation = None;
    let catalog = Catalog::build(vec![missing_service, missing_kind, missing_operation]);
    assert_eq!(catalog.lookup("A", "B", "C"), None);
}

#[test]
fn duplicate_keys_last_write_wins() {
    let catalog = Catalog::build(vec![
        entry("A", "B", "C", Some(1)),
        entry("A", "B", "C", Some(2)),
    ]);
    assert_eq!(catalog.lookup("A", "B", "C"), Some(2));
}

#[test]
fn priceless_entry_is_a_miss_for_lookup_but_stored() {
    let catalog = Catalog::build(vec![entry("A", "B", "C", None)]);
    assert_eq!(catalog.lookup("A", "B", "C"), None);
    // The entry itself exists; only its price is absent.
    assert_eq!(catalog.entry_price("A/B/C"), Some(None));
    assert_eq!(catalog.entry_price("A/B/D"), None);
}
