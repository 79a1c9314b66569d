//! The whole engine end to end: catalog, resolution, computing,
//! aggregation and drift on one concrete inventory.
use osc_cost::catalog::{Catalog, RawCatalogEntry};
use osc_cost::digest::{fill_digest, merge_consumption, ConsumptionEntry};
use osc_cost::inventory::{
    fill_resource_load_balancers, fill_resource_vm, fill_resource_volume, Context, RawVm,
    RawVolume,
};
use osc_cost::resources::{Resource, Resources};
use osc_cost::vm_pricing::VmTypes;

fn entry(service: &str, kind: &str, operation: &str, price: u64) -> RawCatalogEntry {
    RawCatalogEntry {
        service: Some(service.to_string()),
        entry_type: Some(kind.to_string()),
        operation: Some(operation.to_string()),
        unit_price: Some(price),
    }
}

fn catalog() -> Catalog {
    Catalog::build(vec![
        entry("TinaOS-FCU", "CustomCore:v5-p1", "RunInstances-OD", 30_000),
        entry("TinaOS-FCU", "CustomRam", "RunInstances-OD", 5_000),
        entry("TinaOS-FCU", "BSU:VolumeUsage:gp2", "CreateVolume", 7_300),
        entry("TinaOS-LBU", "LBU:Usage", "CreateLoadBalancer", 40_000),
    ])
}

fn ctx() -> Context {
    Context {
        osc_cost_version: Some("0.1.0".to_string()),
        account_id: Some("acc".to_string()),
        read_date_rfc3339: None,
        region: Some("eu-west-2".to_string()),
    }
}

#[test]
fn inventory_to_drift_end_to_end() {
    let catalog = catalog();
    let types = VmTypes::new();
    let vms = vec![RawVm {
        vm_id: "i-1".to_string(),
        vm_type: Some("tinav5.c2r4p1".to_string()),
        performance: Some("highest".to_string()),
        image_id: None,
        product_codes: vec![],
        public_ip: None,
    }];
    let volumes = vec![RawVolume {
        volume_id: "vol-1".to_string(),
        volume_type: Some("gp2".to_string()),
        size: Some(100),
        iops: None,
    }];
    let mut resources = Resources { resources: vec![] };
    fill_resource_vm(&ctx(), &vms, &catalog, &types, false, &mut resources);
    fill_resource_volume(&ctx(), &volumes, &catalog, &mut resources);
    fill_resource_load_balancers(
        &ctx(),
        &vec!["lb-1".to_string()],
        &catalog,
        false,
        &mut resources,
    );
    assert_eq!(resources.resources.len(), 3);
    assert!(resources.compute().is_ok());
    // Vm: 2*0.03 + 4*0.005 = 0.08/hour. Volume: 100*0.0073/month = 0.001/hour.
    // LoadBalancer: 0.04/hour. Total 0.121/hour.
    assert_eq!(resources.cost_per_hour(), Ok(121_000));

    let aggregated = resources.aggregate();
    assert_eq!(aggregated.resources.len(), 3);
    match &aggregated.resources[0] {
        Resource::Aggregate(a) => {
            assert_eq!(a.aggregated_resource_type, "Vm");
            assert_eq!(a.price_per_hour, Some(80_000));
            assert_eq!(a.count, 1);
        }
        _ => panic!("expected an aggregate"),
    }

    // One day of billed consumption for the balancer: 24 hours at the
    // flat rate, exactly matching the projection: zero drift.
    let consumption = vec![ConsumptionEntry {
        service: Some("TinaOS-LBU".to_string()),
        entry_type: Some("LBU:Usage".to_string()),
        operation: Some("CreateLoadBalancer".to_string()),
        value: Some(24_000_000),
    }];
    let records = merge_consumption(&consumption);
    let digests = fill_digest(&records, &catalog, &types);
    let drifts = digests
        .compute_drift(&aggregated, "2024-01-01", "2024-01-02")
        .unwrap();
    // The balancer drifts by zero; the machine and volume have no
    // digest and report full drift.
    assert_eq!(drifts.drifts.len(), 3);
    for line in &drifts.drifts {
        if line.category == "LoadBalancer" {
            assert_eq!(line.osc_cost_price, 960_000);
            assert_eq!(line.digest_price, 960_000);
            assert_eq!(line.drift, 0);
        } else {
            assert_eq!(line.digest_price, 0);
            assert_eq!(line.drift, 100);
        }
    }
}
