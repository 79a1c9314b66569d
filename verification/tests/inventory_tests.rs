//! Raw-record resolution into priced resources, and run options.
use osc_cost::catalog::{Catalog, RawCatalogEntry};
use osc_cost::config::{get_currency, resource_kind_known, Args, Drift, Filter, InputSource, OutputFormat};
use osc_cost::inventory::{
    fill_resource_dedicated_instances, fill_resource_flexible_gpus, fill_resource_load_balancers,
    fill_resource_nat_service, fill_resource_oos, fill_resource_public_ip,
    fill_resource_snapshot, fill_resource_vm, fill_resource_volume, fill_resource_vpns,
    vm_state_retained, Context, RawBucket, RawFlexibleGpu, RawNatService, RawPublicIp,
    RawSnapshot, RawVm, RawVolume,
};
use osc_cost::resources::{Resource, Resources};
use osc_cost::vm_pricing::{RawVmType, VmTypes};

fn entry(service: &str, kind: &str, operation: &str, price: u64) -> RawCatalogEntry {
    RawCatalogEntry {
        service: Some(service.to_string()),
        entry_type: Some(kind.to_string()),
        operation: Some(operation.to_string()),
        unit_price: Some(price),
    }
}

fn ctx() -> Context {
    Context {
        osc_cost_version: Some("0.1.0".to_string()),
        account_id: Some("acc".to_string()),
        read_date_rfc3339: Some("2024-01-01T00:00:00Z".to_string()),
        region: Some("eu-west-2".to_string()),
    }
}

fn empty() -> Resources {
    Resources { resources: vec![] }
}

fn raw_vm(id: &str, vm_type: &str, performance: &str, codes: Vec<&str>) -> RawVm {
    RawVm {
        vm_id: id.to_string(),
        vm_type: Some(vm_type.to_string()),
        performance: Some(performance.to_string()),
        image_id: Some("ami-1".to_string()),
        product_codes: codes.into_iter().map(|c| c.to_string()).collect(),
        public_ip: None,
    }
}

#[test]
fn vm_state_filter_keeps_billable_states() {
    assert!(vm_state_retained("running"));
    assert!(vm_state_retained("stopping"));
    assert!(vm_state_retained("shutting-down"));
    assert!(!vm_state_retained("stopped"));
    assert!(!vm_state_retained("pending"));
    assert!(!vm_state_retained("weird"));
}

#[test]
fn vms_resolve_into_priced_resources() {
    let catalog = Catalog::build(vec![
        entry("TinaOS-FCU", "CustomCore:v5-p1", "RunInstances-OD", 30_000),
        entry("TinaOS-FCU", "CustomRam", "RunInstances-OD", 5_000),
        entry("TinaOS-FCU", "ProductUsage", "RunInstances-0002-OD", 20_000),
    ]);
    let types = VmTypes::new();
    let vms = vec![
        raw_vm("i-1", "tinav5.c1r2p1", "highest", vec!["0002", "0001"]),
        raw_vm("i-2", "unknowntype", "highest", vec![]),
    ];
    let mut resources = empty();
    fill_resource_vm(&ctx(), &vms, &catalog, &types, false, &mut resources);
    assert_eq!(resources.resources.len(), 1);
    match &resources.resources[0] {
        Resource::Vm(vm) => {
            assert_eq!(vm.resource_id.as_deref(), Some("i-1"));
            assert_eq!(vm.vm_vcpu, 1);
            assert_eq!(vm.vm_ram_gb, 2);
            assert_eq!(vm.vm_vcpu_gen.as_deref(), Some("5"));
            assert_eq!(vm.price_vcpu_per_hour, 30_000);
            assert_eq!(vm.price_license_per_cpu_per_hour, 20_000);
            assert_eq!(vm.license_codes, "0002,0001");
            assert_eq!(vm.account_id.as_deref(), Some("acc"));
            assert_eq!(vm.price_per_hour, None);
        }
        _ => panic!("expected a machine"),
    }
}

#[test]
fn empty_vm_inventory_yields_a_placeholder_on_request() {
    let mut resources = empty();
    fill_resource_vm(&ctx(), &vec![], &Catalog::new(), &VmTypes::new(), true, &mut resources);
    assert_eq!(resources.resources.len(), 1);
    match &resources.resources[0] {
        Resource::Vm(vm) => {
            assert_eq!(vm.price_per_hour, Some(0));
            assert_eq!(vm.resource_id, None);
            assert_eq!(vm.region.as_deref(), Some("eu-west-2"));
        }
        _ => panic!("expected a machine"),
    }
}

#[test]
fn volumes_resolve_with_iops_only_for_io1() {
    let catalog = Catalog::build(vec![
        entry("TinaOS-FCU", "BSU:VolumeUsage:io1", "CreateVolume", 7_300),
        entry("TinaOS-FCU", "BSU:VolumeIOPS:io1", "CreateVolume", 730),
        entry("TinaOS-FCU", "BSU:VolumeUsage:gp2", "CreateVolume", 3_650),
    ]);
    let volumes = vec![
        RawVolume {
            volume_id: "vol-1".to_string(),
            volume_type: Some("io1".to_string()),
            size: Some(10),
            iops: Some(100),
        },
        RawVolume {
            volume_id: "vol-2".to_string(),
            volume_type: Some("gp2".to_string()),
            size: Some(20),
            iops: None,
        },
        RawVolume {
            volume_id: "vol-3".to_string(),
            volume_type: None,
            size: Some(20),
            iops: None,
        },
    ];
    let mut resources = empty();
    fill_resource_volume(&ctx(), &volumes, &catalog, &mut resources);
    assert_eq!(resources.resources.len(), 2);
    match &resources.resources[0] {
        Resource::Volume(v) => {
            assert_eq!(v.price_gb_per_month, 7_300);
            assert_eq!(v.price_iops_per_month, 730);
            assert_eq!(v.volume_iops, Some(100));
        }
        _ => panic!("expected a volume"),
    }
    match &resources.resources[1] {
        Resource::Volume(v) => {
            assert_eq!(v.price_gb_per_month, 3_650);
            assert_eq!(v.price_iops_per_month, 0);
            assert_eq!(v.volume_iops, Some(0));
        }
        _ => panic!("expected a volume"),
    }
}

#[test]
fn snapshots_need_the_single_storage_rate() {
    let snapshots = vec![RawSnapshot {
        snapshot_id: "snap-1".to_string(),
        volume_size: Some(100),
    }];
    let mut resources = empty();
    fill_resource_snapshot(&ctx(), &snapshots, &Catalog::new(), &mut resources);
    assert_eq!(resources.resources.len(), 0);
    let catalog = Catalog::build(vec![entry("TinaOS-FCU", "Snapshot:Usage", "Snapshot", 7_300)]);
    fill_resource_snapshot(&ctx(), &snapshots, &catalog, &mut resources);
    assert_eq!(resources.resources.len(), 1);
    match &resources.resources[0] {
        Resource::Snapshot(s) => {
            assert_eq!(s.volume_size_gib, Some(100));
            assert_eq!(s.price_gb_per_month, 7_300);
        }
        _ => panic!("expected a snapshot"),
    }
}

#[test]
fn public_ips_resolve_by_attachment_state() {
    let catalog = Catalog::build(vec![
        entry("TinaOS-FCU", "ElasticIP:IdleAddress", "AssociateAddressVPC", 5_000),
        entry("TinaOS-FCU", "ElasticIP:AdditionalAddress", "AssociateAddressVPC", 4_000),
    ]);
    let mut vm = raw_vm("i-1", "tinav5.c1r2p1", "highest", vec![]);
    vm.public_ip = Some("198.51.100.1".to_string());
    let vms = vec![vm];
    let ips = vec![
        // Unattached: idle rate.
        RawPublicIp {
            public_ip_id: "eip-1".to_string(),
            public_ip: Some("198.51.100.9".to_string()),
            link_public_ip_id: None,
            vm_id: None,
        },
        // First address of its machine: free.
        RawPublicIp {
            public_ip_id: "eip-2".to_string(),
            public_ip: Some("198.51.100.1".to_string()),
            link_public_ip_id: Some("link-1".to_string()),
            vm_id: Some("i-1".to_string()),
        },
        // A further address on the same machine: additional rate.
        RawPublicIp {
            public_ip_id: "eip-3".to_string(),
            public_ip: Some("198.51.100.2".to_string()),
            link_public_ip_id: Some("link-2".to_string()),
            vm_id: Some("i-1".to_string()),
        },
        // Linked to an unknown machine: dropped.
        RawPublicIp {
            public_ip_id: "eip-4".to_string(),
            public_ip: Some("198.51.100.3".to_string()),
            link_public_ip_id: Some("link-3".to_string()),
            vm_id: Some("i-9".to_string()),
        },
    ];
    let mut resources = empty();
    fill_resource_public_ip(&ctx(), &ips, &vms, &catalog, false, &mut resources);
    assert_eq!(resources.resources.len(), 3);
    match &resources.resources[0] {
        Resource::PublicIp(p) => assert_eq!(p.price_non_attached, Some(5_000)),
        _ => panic!("expected an address"),
    }
    match &resources.resources[1] {
        Resource::PublicIp(p) => {
            assert_eq!(p.price_first_ip, Some(0));
            assert_eq!(p.price_non_attached, None);
        }
        _ => panic!("expected an address"),
    }
    match &resources.resources[2] {
        Resource::PublicIp(p) => assert_eq!(p.price_next_ips, Some(4_000)),
        _ => panic!("expected an address"),
    }
}

#[test]
fn nat_services_keep_an_optional_rate() {
    let services = vec![
        RawNatService {
            nat_service_id: Some("nat-1".to_string()),
        },
        RawNatService {
            nat_service_id: None,
        },
    ];
    let mut resources = empty();
    fill_resource_nat_service(&ctx(), &services, &Catalog::new(), &mut resources);
    assert_eq!(resources.resources.len(), 1);
    match &resources.resources[0] {
        Resource::NatServices(n) => {
            assert_eq!(n.price_product_per_nat_service_per_hour, None);
            assert_eq!(n.resource_id.as_deref(), Some("nat-1"));
        }
        _ => panic!("expected a gateway"),
    }
}

#[test]
fn flexible_gpus_vary_their_key_by_state() {
    let catalog = Catalog::build(vec![
        entry("TinaOS-FCU", "Gpu:attach:nvidia-p6", "AllocateGpu", 100_000),
        entry("TinaOS-FCU", "Gpu:allocate:nvidia-p6", "AllocateGpu", 50_000),
    ]);
    let gpus = vec![
        RawFlexibleGpu {
            flexible_gpu_id: "fgpu-1".to_string(),
            model_name: Some("nvidia-p6".to_string()),
            state: Some("attached".to_string()),
        },
        RawFlexibleGpu {
            flexible_gpu_id: "fgpu-2".to_string(),
            model_name: Some("nvidia-p6".to_string()),
            state: Some("allocated".to_string()),
        },
        RawFlexibleGpu {
            flexible_gpu_id: "fgpu-3".to_string(),
            model_name: Some("nvidia-p6".to_string()),
            state: Some("broken".to_string()),
        },
    ];
    let mut resources = empty();
    fill_resource_flexible_gpus(&ctx(), &gpus, &catalog, false, &mut resources);
    assert_eq!(resources.resources.len(), 2);
    match (&resources.resources[0], &resources.resources[1]) {
        (Resource::FlexibleGpu(a), Resource::FlexibleGpu(b)) => {
            assert_eq!(a.price_per_hour, Some(100_000));
            assert_eq!(b.price_per_hour, Some(50_000));
        }
        _ => panic!("expected GPUs"),
    }
}

#[test]
fn load_balancers_and_vpns_price_flat() {
    let catalog = Catalog::build(vec![
        entry("TinaOS-LBU", "LBU:Usage", "CreateLoadBalancer", 40_000),
        entry("TinaOS-FCU", "ConnectionUsage", "CreateVpnConnection", 100_000),
    ]);
    let mut resources = empty();
    fill_resource_load_balancers(
        &ctx(),
        &vec!["lb-1".to_string(), "lb-2".to_string()],
        &catalog,
        false,
        &mut resources,
    );
    fill_resource_vpns(&ctx(), &vec!["vpn-1".to_string()], &catalog, &mut resources);
    assert_eq!(resources.resources.len(), 3);
    match &resources.resources[0] {
        Resource::LoadBalancer(lb) => assert_eq!(lb.price_per_hour, Some(40_000)),
        _ => panic!("expected a balancer"),
    }
    match &resources.resources[2] {
        Resource::Vpn(v) => assert_eq!(v.price_per_hour, Some(100_000)),
        _ => panic!("expected a connection"),
    }
}

#[test]
fn buckets_and_dedicated_instances() {
    let catalog = Catalog::build(vec![
        entry("TinaOS-OOS", "enterprise", "OOSStorage", 10_000),
        entry("TinaOS-FCU", "UseDedicated", "RunDedicatedInstances", 123_000),
    ]);
    let buckets = vec![RawBucket {
        bucket_id: "bucket-1".to_string(),
        size_gb: 2_500_000,
    }];
    let mut resources = empty();
    fill_resource_oos(&ctx(), &buckets, &catalog, false, &mut resources);
    fill_resource_dedicated_instances(&ctx(), true, &catalog, &mut resources);
    fill_resource_dedicated_instances(&ctx(), false, &catalog, &mut resources);
    assert_eq!(resources.resources.len(), 2);
    match &resources.resources[0] {
        Resource::Oos(o) => {
            assert_eq!(o.size_gb, Some(2_500_000));
            assert_eq!(o.price_gb_per_month, 10_000);
        }
        _ => panic!("expected a bucket"),
    }
    match &resources.resources[1] {
        Resource::DedicatedInstance(d) => assert_eq!(d.price_per_hour, Some(123_000)),
        _ => panic!("expected a surcharge"),
    }
}

#[test]
fn skip_filter_matches_exact_kind_names() {
    let filter = osc_cost::inventory::Filter {
        tag_keys: vec![],
        tag_values: vec![],
        tags: vec![],
        skip_resource: vec!["Vm".to_string(), "Oos".to_string()],
    };
    assert!(filter.skip_fetch("Vm"));
    assert!(filter.skip_fetch("Oos"));
    assert!(!filter.skip_fetch("Volume"));
}

fn base_args() -> Args {
    Args {
        profile: "default".to_string(),
        source: None,
        format: OutputFormat::Human,
        output: None,
        input: None,
        filter: None,
        aggregate: false,
        help_resources: false,
        need_default_resource: false,
        drift: Drift {
            compute_drift: false,
            from_date: None,
            to_date: None,
        },
    }
}

#[test]
fn coherent_options_pass_validation() {
    assert!(base_args().validate().is_some());
    let mut args = base_args();
    args.aggregate = true;
    assert!(args.validate().is_some());
}

#[test]
fn incoherent_options_fail_validation() {
    let mut args = base_args();
    args.source = Some(InputSource::Json);
    assert!(args.validate().is_none());

    let mut args = base_args();
    args.input = Some("file.json".to_string());
    args.source = Some(InputSource::Api);
    assert!(args.validate().is_none());

    let mut args = base_args();
    args.aggregate = true;
    args.format = OutputFormat::Hour;
    assert!(args.validate().is_none());

    let mut args = base_args();
    args.format = OutputFormat::Ods;
    assert!(args.validate().is_none());

    let mut args = base_args();
    args.filter = Some(Filter {
        filter_tag_key: vec![],
        filter_tag_value: vec![],
        filter_tag: vec![],
        skip_resource: vec!["Mystery".to_string()],
    });
    assert!(args.validate().is_none());

    let mut args = base_args();
    args.drift = Drift {
        compute_drift: true,
        from_date: Some("2024-01-01".to_string()),
        to_date: None,
    };
    assert!(args.validate().is_none());

    let mut args = base_args();
    args.drift = Drift {
        compute_drift: true,
        from_date: Some("2024-01-01".to_string()),
        to_date: Some("2024-01-02".to_string()),
    };
    args.format = OutputFormat::Prometheus;
    assert!(args.validate().is_none());
}

#[test]
fn drift_options_render_as_json_or_table() {
    let mut args = base_args();
    args.drift = Drift {
        compute_drift: true,
        from_date: Some("2024-01-01".to_string()),
        to_date: Some("2024-01-02".to_string()),
    };
    args.format = OutputFormat::Json;
    assert!(args.validate().is_some());
}

#[test]
fn known_resource_kinds() {
    assert!(resource_kind_known("Vm"));
    assert!(resource_kind_known("DedicatedInstance"));
    assert!(!resource_kind_known("vm"));
    assert!(!resource_kind_known(""));
}

#[test]
fn currency_symbols_by_region() {
    assert_eq!(get_currency("eu-west-2"), "\u{20ac}");
    assert_eq!(get_currency("cloudgouv-eu-west-1"), "\u{20ac}");
    assert_eq!(get_currency("ap-northeast-1"), "\u{a5}");
    assert_eq!(get_currency("us-east-2"), "$");
    assert_eq!(get_currency("us-west-1"), "$");
    assert_eq!(get_currency("somewhere-else"), "\u{20ac}");
}
