//! Consumption classification, digest pricing, and drift analysis.
use osc_cost::catalog::{Catalog, RawCatalogEntry};
use osc_cost::digest::{
    fill_digest, match_entry_id_resource_type, merge_consumption, ConsumptionEntry, Digest,
    DigestRecord, Digests, DriftError, UsageRecord,
};
use osc_cost::resources::{Aggregate, LoadBalancer, Resource, Resources};
use osc_cost::vm_pricing::VmTypes;

fn entry(service: &str, kind: &str, operation: &str, price: u64) -> RawCatalogEntry {
    RawCatalogEntry {
        service: Some(service.to_string()),
        entry_type: Some(kind.to_string()),
        operation: Some(operation.to_string()),
        unit_price: Some(price),
    }
}

fn consumption(service: &str, kind: &str, operation: &str, value: Option<u64>) -> ConsumptionEntry {
    ConsumptionEntry {
        service: Some(service.to_string()),
        entry_type: Some(kind.to_string()),
        operation: Some(operation.to_string()),
        value,
    }
}

fn usage(entry_id: &str, value: u64) -> UsageRecord {
    UsageRecord {
        entry_id: entry_id.to_string(),
        value,
    }
}

fn digests_of(records: Vec<(&str, Option<u64>)>) -> Digests {
    Digests {
        records: records
            .into_iter()
            .map(|(category, price)| DigestRecord {
                category: category.to_string(),
                digest: Digest { price },
            })
            .collect(),
    }
}

fn aggregate(label: &str, hour: Option<u64>) -> Resource {
    Resource::Aggregate(Aggregate {
        osc_cost_version: None,
        account_id: None,
        read_date_rfc3339: None,
        region: None,
        price_per_hour: hour,
        price_per_month: None,
        aggregated_resource_type: label.to_string(),
        count: 1,
    })
}

#[test]
fn classification_follows_the_rule_table() {
    let cases = [
        ("TinaOS-FCU/BoxUsage:tinav5.c2r4/RunInstances-OD", Some("Vm")),
        ("TinaOS-FCU/CustomCore:v5-p1/RunInstances-OD", Some("Vm")),
        ("TinaOS-FCU/CustomRam/RunInstances-OD", Some("Vm")),
        ("TinaOS-FCU/ProductUsage:x/RunInstances-0002-OD", Some("Vm")),
        ("TinaOS-FCU/BSU:VolumeUsage:gp2/CreateVolume", Some("Volume")),
        ("TinaOS-FCU/ConnectionUsage/CreateVpnConnection", Some("Vpn")),
        ("TinaOS-FCU/ElasticIP:IdleAddress/AssociateAddressVPC", Some("PublicIp")),
        ("TinaOS-FCU/NatGatewayUsage/CreateNatGateway", Some("NatServices")),
        ("TinaOS-FCU/Snapshot:Usage/Snapshot", Some("Snapshot")),
        ("TinaOS-OOS/enterprise/OOSStorage", Some("Oos")),
        ("TinaOS-OSU/standard/OSUStorage", Some("Oos")),
        ("TinaOS-LBU/LBU:Usage/CreateLoadBalancer", Some("LoadBalancer")),
        ("TinaOS-FCU/Mystery/Thing", None),
        ("TinaOS-LBU/LBU:Usage/CreateLoadBalancerX", None),
    ];
    for (id, expected) in cases {
        let got = match_entry_id_resource_type(&id.to_string());
        assert_eq!(got.as_deref(), expected, "{}", id);
    }
}

#[test]
fn merge_sums_duplicate_identifiers_and_drops_incomplete_entries() {
    let mut incomplete = consumption("A", "B", "C", Some(5));
    incomplete.operation = None;
    let entries = vec![
        consumption("A", "B", "C", Some(2_000_000)),
        incomplete,
        consumption("A", "B", "C", Some(500_000)),
        consumption("X", "Y", "Z", None),
    ];
    let merged = merge_consumption(&entries);
    assert_eq!(merged.len(), 2);
    assert_eq!(merged[0].entry_id, "A/B/C");
    assert_eq!(merged[0].value, 2_500_000);
    assert_eq!(merged[1].entry_id, "X/Y/Z");
    assert_eq!(merged[1].value, 0);
}

#[test]
fn plain_consumption_is_priced_by_its_own_entry() {
    let catalog = Catalog::build(vec![entry(
        "TinaOS-LBU",
        "LBU:Usage",
        "CreateLoadBalancer",
        40_000,
    )]);
    let types = VmTypes::new();
    // 2 units of usage at 0.04: 0.08 in micros.
    let records = vec![usage("TinaOS-LBU/LBU:Usage/CreateLoadBalancer", 2_000_000)];
    let digests = fill_digest(&records, &catalog, &types);
    assert_eq!(digests.records.len(), 1);
    assert_eq!(digests.records[0].category, "LoadBalancer");
    assert_eq!(digests.records[0].digest.price, Some(80_000));
}

#[test]
fn unclassified_or_unpriced_consumption_is_skipped() {
    let catalog = Catalog::build(vec![entry("TinaOS-FCU", "Mystery", "Thing", 1_000)]);
    let types = VmTypes::new();
    let records = vec![
        // Priced but classified by no rule.
        usage("TinaOS-FCU/Mystery/Thing", 1_000_000),
        // Classified but absent from the catalog.
        usage("TinaOS-LBU/LBU:Usage/CreateLoadBalancer", 1_000_000),
    ];
    let digests = fill_digest(&records, &catalog, &types);
    assert_eq!(digests.records.len(), 0);
}

#[test]
fn license_usage_replays_the_tier_math() {
    let catalog = Catalog::build(vec![entry(
        "TinaOS-FCU",
        "ProductUsage",
        "RunInstances-0008-OD",
        50_000,
    )]);
    let types = VmTypes::new();
    // 10-core machine, premium code: factor 6; one hour of usage:
    // 6 * 1.0 * 0.05 = 0.3 = 300000 micros.
    let records = vec![usage(
        "TinaOS-FCU/ProductUsage:tinav5.c10r8p1/RunInstances-0008-OD",
        1_000_000,
    )];
    let digests = fill_digest(&records, &catalog, &types);
    assert_eq!(digests.records.len(), 1);
    assert_eq!(digests.records[0].category, "Vm");
    assert_eq!(digests.records[0].digest.price, Some(300_000));
}

#[test]
fn box_usage_of_tina_types_converts_to_core_and_ram_rates() {
    let catalog = Catalog::build(vec![
        entry("TinaOS-FCU", "CustomRam", "RunInstances-OD", 5_000),
        entry("TinaOS-FCU", "CustomCore:v5-p2", "RunInstances-OD", 30_000),
    ]);
    let types = VmTypes::new();
    // No performance suffix: the replay defaults to tier 2.
    // 2 hours * (4 GB * 0.005 + 2 cores * 0.03) = 0.16 = 160000 micros.
    let records = vec![usage(
        "TinaOS-FCU/BoxUsage:tinav5.c2r4/RunInstances-OD",
        2_000_000,
    )];
    let digests = fill_digest(&records, &catalog, &types);
    assert_eq!(digests.records.len(), 1);
    assert_eq!(digests.records[0].category, "Vm");
    assert_eq!(digests.records[0].digest.price, Some(160_000));
}

#[test]
fn digest_accumulates_per_category() {
    let catalog = Catalog::build(vec![
        entry("TinaOS-LBU", "LBU:Usage", "CreateLoadBalancer", 40_000),
        entry("TinaOS-FCU", "ConnectionUsage", "CreateVpnConnection", 100_000),
    ]);
    let types = VmTypes::new();
    let records = vec![
        usage("TinaOS-LBU/LBU:Usage/CreateLoadBalancer", 1_000_000),
        usage("TinaOS-FCU/ConnectionUsage/CreateVpnConnection", 1_000_000),
        usage("TinaOS-LBU/LBU:Usage/CreateLoadBalancer", 2_000_000),
    ];
    let digests = fill_digest(&records, &catalog, &types);
    assert_eq!(digests.records.len(), 2);
    assert_eq!(digests.records[0].category, "LoadBalancer");
    assert_eq!(digests.records[0].digest.price, Some(120_000));
    assert_eq!(digests.records[1].category, "Vpn");
    assert_eq!(digests.records[1].digest.price, Some(100_000));
}

#[test]
fn drift_follows_the_documented_example() {
    // from 2024-01-01 to 2024-01-02: 24 hours; live 2.0/hour projects
    // 48.0 against a digest of 50.0: round((48-50)*100/50) = -4.
    let digests = digests_of(vec![("Vm", Some(50_000_000))]);
    let resources = Resources {
        resources: vec![aggregate("Vm", Some(2_000_000))],
    };
    let drifts = digests
        .compute_drift(&resources, "2024-01-01", "2024-01-02")
        .unwrap();
    assert_eq!(drifts.drifts.len(), 1);
    let line = &drifts.drifts[0];
    assert_eq!(line.category, "Vm");
    assert_eq!(line.osc_cost_price, 48_000_000);
    assert_eq!(line.digest_price, 50_000_000);
    assert_eq!(line.drift, -4);
}

#[test]
fn leap_year_window_spans_48_hours() {
    // 2024 is a leap year: Feb 28 to Mar 1 is two days.
    let digests = digests_of(vec![("Vm", Some(48_000_000))]);
    let resources = Resources {
        resources: vec![aggregate("Vm", Some(1_000_000))],
    };
    let drifts = digests
        .compute_drift(&resources, "2024-02-28", "2024-03-01")
        .unwrap();
    assert_eq!(drifts.drifts[0].osc_cost_price, 48_000_000);
    assert_eq!(drifts.drifts[0].drift, 0);
}

#[test]
fn zero_digest_against_nonzero_projection_is_full_drift() {
    let digests = digests_of(vec![("Vm", Some(0))]);
    let resources = Resources {
        resources: vec![aggregate("Vm", Some(1_000_000))],
    };
    let drifts = digests
        .compute_drift(&resources, "2024-01-01", "2024-01-02")
        .unwrap();
    assert_eq!(drifts.drifts.len(), 1);
    assert_eq!(drifts.drifts[0].digest_price, 0);
    assert_eq!(drifts.drifts[0].drift, 100);
}

#[test]
fn zero_against_zero_is_skipped() {
    let digests = digests_of(vec![("Vm", Some(0))]);
    let resources = Resources {
        resources: vec![aggregate("Vm", Some(0))],
    };
    let drifts = digests
        .compute_drift(&resources, "2024-01-01", "2024-01-02")
        .unwrap();
    assert_eq!(drifts.drifts.len(), 0);
}

#[test]
fn missing_digest_with_live_cost_is_full_drift() {
    let digests = digests_of(vec![]);
    let resources = Resources {
        resources: vec![aggregate("Vm", Some(1_000_000)), aggregate("Vpn", Some(0))],
    };
    let drifts = digests
        .compute_drift(&resources, "2024-01-01", "2024-01-02")
        .unwrap();
    // The zero-priced category is skipped entirely.
    assert_eq!(drifts.drifts.len(), 1);
    assert_eq!(drifts.drifts[0].category, "Vm");
    assert_eq!(drifts.drifts[0].digest_price, 0);
    assert_eq!(drifts.drifts[0].drift, 100);
}

#[test]
fn uncomputed_or_undigested_categories_are_skipped() {
    let digests = digests_of(vec![("Vm", Some(1_000)), ("Vpn", None)]);
    let resources = Resources {
        resources: vec![aggregate("Vm", None), aggregate("Vpn", Some(1_000))],
    };
    let drifts = digests
        .compute_drift(&resources, "2024-01-01", "2024-01-02")
        .unwrap();
    assert_eq!(drifts.drifts.len(), 0);
}

#[test]
fn non_aggregate_inputs_are_skipped() {
    let digests = digests_of(vec![("LoadBalancer", Some(1_000))]);
    let resources = Resources {
        resources: vec![Resource::LoadBalancer(LoadBalancer {
            osc_cost_version: None,
            account_id: None,
            read_date_rfc3339: None,
            region: None,
            resource_id: None,
            price_per_hour: Some(1_000),
            price_per_month: None,
        })],
    };
    let drifts = digests
        .compute_drift(&resources, "2024-01-01", "2024-01-02")
        .unwrap();
    assert_eq!(drifts.drifts.len(), 0);
}

#[test]
fn unparsable_dates_abort_the_run() {
    let digests = digests_of(vec![]);
    let resources = Resources { resources: vec![] };
    for (from, to) in [
        ("2024-13-01", "2024-01-02"),
        ("2024-01-01", "not-a-date"),
        ("2023-02-29", "2023-03-01"),
    ] {
        match digests.compute_drift(&resources, from, to) {
            Err(e) => assert_eq!(e, DriftError::InvalidDate),
            Ok(_) => panic!("expected an invalid-date error"),
        }
    }
}

#[test]
fn reversed_window_projects_negatively() {
    let digests = digests_of(vec![("Vm", Some(48_000_000))]);
    let resources = Resources {
        resources: vec![aggregate("Vm", Some(1_000_000))],
    };
    let drifts = digests
        .compute_drift(&resources, "2024-01-02", "2024-01-01")
        .unwrap();
    assert_eq!(drifts.drifts[0].osc_cost_price, -24_000_000);
    // round((-24 - 48) * 100 / 48) = -150.
    assert_eq!(drifts.drifts[0].drift, -150);
}
