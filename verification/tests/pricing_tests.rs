//! Price formulas, compute idempotence, and the hour/month relation.
use osc_cost::resources::{
    DedicatedInstance, FlexibleGpu, LoadBalancer, NatServices, Oos, PublicIp, Resource,
    ResourceError, Resources, Snapshot, Vm, Volume, Vpn,
};

fn sample_vm() -> Vm {
    Vm {
        osc_cost_version: Some("0.1.0".to_string()),
        account_id: Some("acc".to_string()),
        read_date_rfc3339: Some("2024-01-01T00:00:00Z".to_string()),
        region: Some("eu-west-2".to_string()),
        resource_id: Some("i-1234".to_string()),
        price_per_hour: None,
        price_per_month: None,
        vm_type: Some("tinav5.c2r4p1".to_string()),
        vm_vcpu_gen: Some("5".to_string()),
        vm_core_performance: Some("highest".to_string()),
        vm_image: None,
        vm_vcpu: 2,
        vm_ram_gb: 4,
        price_vcpu_per_hour: 30_000,
        price_ram_gb_per_hour: 5_000,
        price_box_per_hour: 1_000,
        price_license_per_ram_gb_per_hour: 0,
        price_license_per_cpu_per_hour: 2_000,
        price_license_per_vm_per_hour: 7_000,
        license_codes: "0002".to_string(),
    }
}

fn sample_volume(size: u64, iops: u64, gb_rate: u64, iops_rate: u64) -> Volume {
    Volume {
        osc_cost_version: None,
        account_id: None,
        read_date_rfc3339: None,
        region: None,
        resource_id: Some("vol-1".to_string()),
        price_per_hour: None,
        price_per_month: None,
        volume_type: Some("io1".to_string()),
        volume_size: Some(size),
        volume_iops: Some(iops),
        price_gb_per_month: gb_rate,
        price_iops_per_month: iops_rate,
    }
}

#[test]
fn vm_price_formula_is_exact() {
    let mut vm = sample_vm();
    assert!(vm.compute().is_ok());
    // 2*30000 + 4*5000 + 2*2000 + 4*0 + 7000 + 1000 = 92000 micros/hour
    assert_eq!(vm.price_per_hour, Some(92_000));
    assert_eq!(vm.price_per_month, Some(92_000 * 730));
}

#[test]
fn vm_compute_is_idempotent() {
    let mut vm = sample_vm();
    assert!(vm.compute().is_ok());
    let hour = vm.price_per_hour;
    let month = vm.price_per_month;
    assert!(vm.compute().is_ok());
    assert_eq!(vm.price_per_hour, hour);
    assert_eq!(vm.price_per_month, month);
}

#[test]
fn volume_is_priced_monthly_first() {
    // 10 GiB * 7300 + 100 IOPS * 730 = 146000 micros/month, divisible by 730.
    let mut volume = sample_volume(10, 100, 7_300, 730);
    assert!(volume.compute().is_ok());
    assert_eq!(volume.price_per_month, Some(146_000));
    assert_eq!(volume.price_per_hour, Some(200));
    // The exact month == hour * 730 relation holds when 730 divides the month.
    assert_eq!(volume.price_per_month, Some(200 * 730));
}

#[test]
fn volume_hour_price_truncates() {
    let mut volume = sample_volume(1, 0, 1_000, 0);
    assert!(volume.compute().is_ok());
    assert_eq!(volume.price_per_month, Some(1_000));
    assert_eq!(volume.price_per_hour, Some(1)); // 1000 / 730 truncated
}

#[test]
fn volume_compute_is_idempotent() {
    let mut volume = sample_volume(10, 100, 7_300, 730);
    assert!(volume.compute().is_ok());
    let first = (volume.price_per_hour, volume.price_per_month);
    assert!(volume.compute().is_ok());
    assert_eq!((volume.price_per_hour, volume.price_per_month), first);
}

#[test]
fn volume_without_size_errors() {
    let mut volume = sample_volume(1, 1, 1, 1);
    volume.volume_size = None;
    assert_eq!(volume.compute(), Err(ResourceError::NotComputed));
    assert_eq!(volume.price_per_hour, None);
}

#[test]
fn public_ip_sums_the_single_populated_rate() {
    let mut ip = PublicIp {
        osc_cost_version: None,
        account_id: None,
        read_date_rfc3339: None,
        region: None,
        resource_id: Some("eipalloc-1".to_string()),
        price_per_hour: None,
        price_per_month: None,
        price_non_attached: Some(5_000),
        price_first_ip: None,
        price_next_ips: None,
    };
    assert!(ip.compute().is_ok());
    assert_eq!(ip.price_per_hour, Some(5_000));
    assert_eq!(ip.price_per_month, Some(5_000 * 730));
    assert!(ip.compute().is_ok());
    assert_eq!(ip.price_per_hour, Some(5_000));
}

#[test]
fn nat_service_missing_rate_prices_at_zero() {
    let mut nat = NatServices {
        osc_cost_version: None,
        account_id: None,
        read_date_rfc3339: None,
        region: None,
        resource_id: Some("nat-1".to_string()),
        price_product_per_nat_service_per_hour: None,
        price_per_hour: None,
        price_per_month: None,
    };
    assert!(nat.compute().is_ok());
    assert_eq!(nat.price_per_hour, Some(0));
    assert_eq!(nat.price_per_month, Some(0));
}

#[test]
fn flat_hourly_kinds_derive_month_from_hour() {
    let mut lb = LoadBalancer {
        osc_cost_version: None,
        account_id: None,
        read_date_rfc3339: None,
        region: None,
        resource_id: Some("lb-1".to_string()),
        price_per_hour: Some(40_000),
        price_per_month: None,
    };
    assert!(lb.compute().is_ok());
    assert_eq!(lb.price_per_month, Some(40_000 * 730));

    let mut vpn = Vpn {
        osc_cost_version: None,
        account_id: None,
        read_date_rfc3339: None,
        region: None,
        resource_id: Some("vpn-1".to_string()),
        price_per_hour: Some(100_000),
        price_per_month: None,
    };
    assert!(vpn.compute().is_ok());
    assert_eq!(vpn.price_per_month, Some(100_000 * 730));

    let mut dedicated = DedicatedInstance {
        osc_cost_version: None,
        account_id: None,
        read_date_rfc3339: None,
        region: None,
        price_per_hour: Some(123_000),
        price_per_month: None,
    };
    assert!(dedicated.compute().is_ok());
    assert_eq!(dedicated.price_per_month, Some(123_000 * 730));
}

#[test]
fn load_balancer_without_rate_errors() {
    let mut lb = LoadBalancer {
        osc_cost_version: None,
        account_id: None,
        read_date_rfc3339: None,
        region: None,
        resource_id: None,
        price_per_hour: None,
        price_per_month: None,
    };
    assert_eq!(lb.compute(), Err(ResourceError::NotComputed));
}

#[test]
fn flexible_gpu_defaults_a_missing_rate_to_zero() {
    let mut gpu = FlexibleGpu {
        osc_cost_version: None,
        account_id: None,
        read_date_rfc3339: None,
        region: None,
        resource_id: None,
        price_per_hour: None,
        price_per_month: None,
        model_name: Some("nvidia-p6".to_string()),
    };
    assert!(gpu.compute().is_ok());
    assert_eq!(gpu.price_per_hour, None);
    assert_eq!(gpu.price_per_month, Some(0));
}

#[test]
fn oos_scales_its_fractional_size() {
    let mut oos = Oos {
        osc_cost_version: None,
        account_id: None,
        read_date_rfc3339: None,
        region: None,
        resource_id: Some("bucket".to_string()),
        price_per_hour: None,
        price_per_month: None,
        // 2.5 GB at 10000 micros per GB-month = 25000 micros per month.
        size_gb: Some(2_500_000),
        price_gb_per_month: 10_000,
    };
    assert!(oos.compute().is_ok());
    assert_eq!(oos.price_per_month, Some(25_000));
    assert_eq!(oos.price_per_hour, Some(25_000 / 730));
}

#[test]
fn snapshot_prices_like_a_volume() {
    let mut snapshot = Snapshot {
        osc_cost_version: None,
        account_id: None,
        read_date_rfc3339: None,
        region: None,
        resource_id: Some("snap-1".to_string()),
        price_per_hour: None,
        price_per_month: None,
        volume_size_gib: Some(100),
        price_gb_per_month: 7_300,
    };
    assert!(snapshot.compute().is_ok());
    assert_eq!(snapshot.price_per_month, Some(730_000));
    assert_eq!(snapshot.price_per_hour, Some(1_000));
}

#[test]
fn price_per_hour_errors_before_compute() {
    let vm = sample_vm();
    assert_eq!(vm.price_per_hour(), Err(ResourceError::NotComputed));
    let mut vm = vm;
    vm.compute().unwrap();
    assert_eq!(vm.price_per_hour(), Ok(92_000));
}

#[test]
fn resources_compute_stops_at_first_failure() {
    let mut bad_volume = sample_volume(1, 1, 1, 1);
    bad_volume.volume_size = None;
    let mut resources = Resources {
        resources: vec![Resource::Vm(sample_vm()), Resource::Volume(bad_volume)],
    };
    assert_eq!(resources.compute(), Err(ResourceError::NotComputed));
    // The machine before the failing volume was computed.
    match &resources.resources[0] {
        Resource::Vm(vm) => assert_eq!(vm.price_per_hour, Some(92_000)),
        _ => panic!("expected a machine"),
    }
}

#[test]
fn cost_totals_sum_hourly_prices() {
    let mut resources = Resources {
        resources: vec![
            Resource::Vm(sample_vm()),
            Resource::Volume(sample_volume(10, 100, 7_300, 730)),
        ],
    };
    assert!(resources.compute().is_ok());
    let hour = resources.cost_per_hour().unwrap();
    assert_eq!(hour, 92_000 + 200);
    assert_eq!(resources.cost_per_month().unwrap(), hour * 730);
    assert_eq!(resources.cost_per_year().unwrap(), hour * 730 * 12);
}

#[test]
fn cost_totals_error_on_uncomputed_resources() {
    let resources = Resources {
        resources: vec![Resource::Vm(sample_vm())],
    };
    assert_eq!(resources.cost_per_hour(), Err(ResourceError::NotComputed));
}

#[test]
fn resource_error_message_is_stable() {
    assert_eq!(
        ResourceError::NotComputed.message(),
        "resource price is not computed yet"
    );
}
