//! Type-name grammars, license tiers, and machine spec resolution.
use osc_cost::catalog::{Catalog, RawCatalogEntry};
use osc_cost::vm_pricing::{
    compute_product_price_per_hour, parse_box_family, parse_box_type, parse_tina_type,
    performance_code, family_profile, RawVmType, VmSpecs, VmTypes,
};

fn entry(service: &str, kind: &str, operation: &str, price: u64) -> RawCatalogEntry {
    RawCatalogEntry {
        service: Some(service.to_string()),
        entry_type: Some(kind.to_string()),
        operation: Some(operation.to_string()),
        unit_price: Some(price),
    }
}

#[test]
fn tina_type_grammar_parses_the_documented_example() {
    let parsed = parse_tina_type("tinav5.c20r40p1").unwrap();
    assert_eq!(parsed.0, "5");
    assert_eq!(parsed.1, 20);
    assert_eq!(parsed.2, 40);
    assert_eq!(parsed.3, "1");
}

#[test]
fn tina_type_without_performance_suffix_defaults_to_two() {
    let parsed = parse_tina_type("tinav4.c2r8").unwrap();
    assert_eq!(parsed, ("4".to_string(), 2, 8, "2".to_string()));
}

#[test]
fn malformed_tina_types_do_not_parse() {
    assert!(parse_tina_type("tinav.c2r4").is_none());
    assert!(parse_tina_type("tinav5.c2r").is_none());
    assert!(parse_tina_type("tinav5.cr4").is_none());
    assert!(parse_tina_type("tinav5.c2r4p").is_none());
    assert!(parse_tina_type("tinav5.c2r4p1x").is_none());
    assert!(parse_tina_type("tinav5c2r4").is_none());
    assert!(parse_tina_type("m4.4xlarge").is_none());
    assert!(parse_tina_type("").is_none());
}

#[test]
fn performance_tier_names_map_to_codes() {
    assert_eq!(performance_code("medium"), Some("3"));
    assert_eq!(performance_code("high"), Some("2"));
    assert_eq!(performance_code("highest"), Some("1"));
    assert_eq!(performance_code("ultra"), None);
}

#[test]
fn license_tiers_follow_the_documented_factors() {
    // vcpu=1, per-2-core code: ceil(2/2) = 1.
    assert_eq!(compute_product_price_per_hour(1, "0002"), Some(1));
    // vcpu=4, premium code: max(ceil(5/2), 4) = 4.
    assert_eq!(compute_product_price_per_hour(4, "0008"), Some(4));
    // vcpu=10, premium code: max(ceil(11/2), 4) = 6.
    assert_eq!(compute_product_price_per_hour(10, "0009"), Some(6));
    // Generic OS code is free; flat codes pay one unit.
    assert_eq!(compute_product_price_per_hour(64, "0001"), Some(0));
    assert_eq!(compute_product_price_per_hour(64, "0005"), Some(1));
    // Unrecognized codes have no factor.
    assert_eq!(compute_product_price_per_hour(4, "9999"), None);
}

#[test]
fn box_family_prefix_extraction() {
    assert_eq!(parse_box_family("m4.4xlarge"), Some("m4".to_string()));
    assert_eq!(parse_box_family("p100.large"), Some("p100".to_string()));
    assert_eq!(parse_box_family("m4xlarge"), None);
    assert_eq!(parse_box_family("4m.large"), None);
    assert_eq!(parse_box_family("m.large"), None);
}

#[test]
fn family_table_maps_known_and_unknown_families() {
    assert_eq!(family_profile("m4"), ("4", "2"));
    assert_eq!(family_profile("t1"), ("1", "3"));
    assert_eq!(family_profile("p100"), ("5", "1"));
    assert_eq!(family_profile("zz9"), ("", ""));
}

#[test]
fn box_type_resolution_uses_the_side_table() {
    let types = VmTypes::build(vec![RawVmType {
        vm_type_name: Some("m4.4xlarge".to_string()),
        vcore_count: Some(16),
        memory_size: Some(64),
    }]);
    let parsed = parse_box_type(&"m4.4xlarge".to_string(), &types).unwrap();
    assert_eq!(parsed, ("4".to_string(), 16, 64, "2".to_string()));
    assert!(parse_box_type(&"m5.large".to_string(), &types).is_none());
}

#[test]
fn box_type_with_missing_shape_fields_fails() {
    let types = VmTypes::build(vec![RawVmType {
        vm_type_name: Some("m4.4xlarge".to_string()),
        vcore_count: None,
        memory_size: Some(64),
    }]);
    assert!(parse_box_type(&"m4.4xlarge".to_string(), &types).is_none());
}

fn tina_catalog() -> Catalog {
    Catalog::build(vec![
        entry("TinaOS-FCU", "CustomCore:v5-p1", "RunInstances-OD", 30_000),
        entry("TinaOS-FCU", "CustomRam", "RunInstances-OD", 5_000),
        entry("TinaOS-FCU", "ProductUsage", "RunInstances-0002-OD", 20_000),
        entry("TinaOS-FCU", "ProductUsage", "RunInstances-0008-OD", 50_000),
        entry("TinaOS-FCU", "ProductUsage", "RunInstances-0005-OD", 9_000),
    ])
}

#[test]
fn tina_resolution_prices_shape_and_licenses() {
    let types = VmTypes::new();
    // vcpu=1: the per-2-core addend collapses to exactly the unit price.
    let specs = VmSpecs::new(
        &"tinav5.c1r2p1".to_string(),
        &Some("highest".to_string()),
        &vec!["0002".to_string()],
        &tina_catalog(),
        &types,
    )
    .unwrap();
    assert_eq!(specs.generation, "5");
    assert_eq!(specs.vcpu, 1);
    assert_eq!(specs.ram_gb, 2);
    assert_eq!(specs.performance, "1");
    assert_eq!(specs.price_vcpu_per_hour, 30_000);
    assert_eq!(specs.price_ram_gb_per_hour, 5_000);
    assert_eq!(specs.price_box_per_hour, 0);
    assert_eq!(specs.price_product_per_cpu_per_hour, 20_000);
    assert_eq!(specs.price_product_per_vm_per_hour, 0);
}

#[test]
fn premium_license_addend_spreads_over_cores() {
    let types = VmTypes::new();
    let catalog = Catalog::build(vec![
        entry("TinaOS-FCU", "CustomCore:v5-p1", "RunInstances-OD", 30_000),
        entry("TinaOS-FCU", "CustomRam", "RunInstances-OD", 5_000),
        entry("TinaOS-FCU", "ProductUsage", "RunInstances-0008-OD", 50_000),
    ]);
    // vcpu=4: factor max(ceil(5/2),4)=4, addend = 4*50000/4 = 50000.
    let specs = VmSpecs::new(
        &"tinav5.c4r8p1".to_string(),
        &Some("highest".to_string()),
        &vec!["0008".to_string()],
        &catalog,
        &types,
    )
    .unwrap();
    assert_eq!(specs.price_product_per_cpu_per_hour, 50_000);
    // vcpu=10: factor max(ceil(11/2),4)=6, addend = 6*50000/10 = 30000.
    let specs = VmSpecs::new(
        &"tinav5.c10r8p1".to_string(),
        &Some("highest".to_string()),
        &vec!["0008".to_string()],
        &catalog,
        &types,
    )
    .unwrap();
    assert_eq!(specs.price_product_per_cpu_per_hour, 30_000);
}

#[test]
fn flat_licenses_accumulate_per_vm() {
    let types = VmTypes::new();
    let specs = VmSpecs::new(
        &"tinav5.c1r2p1".to_string(),
        &Some("highest".to_string()),
        &vec!["0005".to_string(), "4242".to_string()],
        &tina_catalog(),
        &types,
    )
    .unwrap();
    assert_eq!(specs.price_product_per_cpu_per_hour, 0);
    assert_eq!(specs.price_product_per_vm_per_hour, 9_000);
}

#[test]
fn inconsistent_performance_fails_resolution() {
    let types = VmTypes::new();
    // The name says p1 but the field decodes to 3.
    let specs = VmSpecs::new(
        &"tinav5.c1r2p1".to_string(),
        &Some("medium".to_string()),
        &vec![],
        &tina_catalog(),
        &types,
    );
    assert!(specs.is_none());
    // A missing performance field also fails the self-describing path.
    let specs = VmSpecs::new(
        &"tinav5.c1r2p1".to_string(),
        &None,
        &vec![],
        &tina_catalog(),
        &types,
    );
    assert!(specs.is_none());
}

#[test]
fn absent_performance_suffix_takes_the_field_code() {
    let types = VmTypes::new();
    let catalog = Catalog::build(vec![
        entry("TinaOS-FCU", "CustomCore:v5-p3", "RunInstances-OD", 10_000),
        entry("TinaOS-FCU", "CustomRam", "RunInstances-OD", 5_000),
    ]);
    let specs = VmSpecs::new(
        &"tinav5.c1r2".to_string(),
        &Some("medium".to_string()),
        &vec![],
        &catalog,
        &types,
    )
    .unwrap();
    assert_eq!(specs.performance, "3");
    assert_eq!(specs.price_vcpu_per_hour, 10_000);
}

#[test]
fn catalog_miss_drops_the_machine() {
    let types = VmTypes::new();
    let catalog = Catalog::build(vec![entry(
        "TinaOS-FCU",
        "CustomRam",
        "RunInstances-OD",
        5_000,
    )]);
    // No per-core rate for v5-p1: resolution fails.
    let specs = VmSpecs::new(
        &"tinav5.c1r2p1".to_string(),
        &Some("highest".to_string()),
        &vec![],
        &catalog,
        &types,
    );
    assert!(specs.is_none());
}

#[test]
fn box_resolution_prices_the_flat_box_rate() {
    let types = VmTypes::build(vec![RawVmType {
        vm_type_name: Some("m4.4xlarge".to_string()),
        vcore_count: Some(16),
        memory_size: Some(64),
    }]);
    let catalog = Catalog::build(vec![
        entry("TinaOS-FCU", "BoxUsage:m4.4xlarge", "RunInstances-OD", 500_000),
        entry("TinaOS-FCU", "ProductUsage", "RunInstances-0002-OD", 20_000),
    ]);
    let specs = VmSpecs::new(
        &"m4.4xlarge".to_string(),
        &None,
        &vec!["0002".to_string()],
        &catalog,
        &types,
    )
    .unwrap();
    assert_eq!(specs.generation, "4");
    assert_eq!(specs.performance, "2");
    assert_eq!(specs.vcpu, 16);
    assert_eq!(specs.ram_gb, 64);
    assert_eq!(specs.price_box_per_hour, 500_000);
    assert_eq!(specs.price_vcpu_per_hour, 0);
    // Per-2-core on 16 cores: factor ceil(17/2)=9, addend = 9*20000/16 = 11250.
    assert_eq!(specs.price_product_per_cpu_per_hour, 11_250);
}

#[test]
fn vm_types_side_table_last_write_wins() {
    let types = VmTypes::build(vec![
        RawVmType {
            vm_type_name: Some("m4.4xlarge".to_string()),
            vcore_count: Some(8),
            memory_size: Some(32),
        },
        RawVmType {
            vm_type_name: None,
            vcore_count: Some(1),
            memory_size: Some(1),
        },
        RawVmType {
            vm_type_name: Some("m4.4xlarge".to_string()),
            vcore_count: Some(16),
            memory_size: Some(64),
        },
    ]);
    assert_eq!(types.get("m4.4xlarge"), Some((Some(16), Some(64))));
    assert_eq!(types.get("m5.large"), None);
}
