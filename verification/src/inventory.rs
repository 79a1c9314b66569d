//! Turning raw inventory records into priced resources.
//!
//! Each resolver takes one kind's raw records, the price catalog and —
//! for machines — the machine-type side table, and appends one priced
//! resource per resolvable record; records whose mandatory fields
//! cannot be determined are dropped, never defaulted to zero, unless
//! the caller asked for an explicit placeholder resource on an empty
//! inventory.
use vstd::prelude::*;

use crate::catalog::Catalog;
use crate::catalog::catalog_price;
use crate::resources::Resource;
use crate::resources::Resources;
use crate::resources::DedicatedInstance;
use crate::resources::FlexibleGpu;
use crate::resources::LoadBalancer;
use crate::resources::NatServices;
use crate::resources::Oos;
use crate::resources::Vpn;
use crate::resources::PublicIp;
use crate::resources::Snapshot;
use crate::resources::Vm;
use crate::resources::Volume;
use crate::strutil::clone_opt_text;
use crate::strutil::composite_key;
use crate::strutil::join_comma;
use crate::strutil::join_strings;
use crate::strutil::opt_text;
use crate::strutil::str_eq;
use crate::strutil::strs_view;
use crate::vm_pricing::VmSpecs;
use crate::vm_pricing::VmTypes;
use crate::vm_pricing::resolve_vm_specs;
use crate::vm_pricing::resolved_vcpu;
use crate::vm_pricing::product_addends;

verus! {

/// The run-wide envelope every built resource carries: tool version,
/// account, fetch date and region.
pub struct Context {
    pub osc_cost_version: Option<String>,
    pub account_id: Option<String>,
    pub read_date_rfc3339: Option<String>,
    pub region: Option<String>,
}

/// An inventory filter: tag selectors handed to the provider, and the
/// resource kinds whose fetch is skipped altogether.
pub struct Filter {
    pub tag_keys: Vec<String>,
    pub tag_values: Vec<String>,
    pub tags: Vec<String>,
    pub skip_resource: Vec<String>,
}

impl Filter {
    /// True when the named resource kind is listed to be skipped.
    pub fn skip_fetch(&self, resource_type: &str) -> (r: bool)
        ensures
            r == strs_view(self.skip_resource@).contains(resource_type@),
    {
        let n = self.skip_resource.len();
        let mut i: usize = 0;
        while i < n
            invariant
                i <= n,
                n == self.skip_resource@.len(),
                forall|j: int| 0 <= j < i ==> (#[trigger] self.skip_resource@[j])@
                    != resource_type@,
            decreases n - i,
        {
            if str_eq(self.skip_resource[i].as_str(), resource_type) {
                proof {
                    assert(strs_view(self.skip_resource@)[i as int] == resource_type@);
                }
                return true;
            }
            i = i + 1;
        }
        proof {
            if strs_view(self.skip_resource@).contains(resource_type@) {
                let j = choose|j: int|
                    0 <= j < strs_view(self.skip_resource@).len() && strs_view(
                        self.skip_resource@,
                    )[j] == resource_type@;
                assert(self.skip_resource@[j]@ == resource_type@);
            }
        }
        false
    }
}

/// Whether a machine in the given state is billable inventory: only
/// machines that are up or on their way down still bill.
pub open spec fn spec_vm_state_retained(state: Seq<char>) -> bool {
    state == "running"@ || state == "stopping"@ || state == "shutting-down"@
}

/// True when a machine in the given state is kept as billable
/// inventory.
pub fn vm_state_retained(state: &str) -> (r: bool)
    ensures
        r == spec_vm_state_retained(state@),
{
    str_eq(state, "running") || str_eq(state, "stopping") || str_eq(state, "shutting-down")
}

/// One raw machine record, as the inventory source hands it over.
pub struct RawVm {
    pub vm_id: String,
    pub vm_type: Option<String>,
    pub performance: Option<String>,
    pub image_id: Option<String>,
    pub product_codes: Vec<String>,
    pub public_ip: Option<String>,
}

/// True when the machine's attributes resolve against the catalog and
/// the side table.
pub open spec fn vm_resolvable(
    vm: RawVm,
    cat: Map<Seq<char>, Option<u64>>,
    types: Map<Seq<char>, (Option<u64>, Option<u64>)>,
) -> bool {
    vm.vm_type is Some && resolve_vm_specs(
        vm.vm_type->0@,
        opt_text(vm.performance),
        strs_view(vm.product_codes@),
        cat,
        types,
    ) is Some
}

/// True when the machine's license math stays within the price type.
pub open spec fn vm_addends_fit(
    vm: RawVm,
    cat: Map<Seq<char>, Option<u64>>,
    types: Map<Seq<char>, (Option<u64>, Option<u64>)>,
) -> bool {
    match vm.vm_type {
        Some(t) => match resolved_vcpu(t@, types) {
            Some(c) => product_addends(strs_view(vm.product_codes@), c, cat).0 <= u64::MAX
                && product_addends(strs_view(vm.product_codes@), c, cat).1 <= u64::MAX,
            None => true,
        },
        None => true,
    }
}

/// The machines whose attributes resolve, in input order.
pub open spec fn kept_vms(
    vms: Seq<RawVm>,
    cat: Map<Seq<char>, Option<u64>>,
    types: Map<Seq<char>, (Option<u64>, Option<u64>)>,
) -> Seq<RawVm>
    decreases vms.len(),
{
    if vms.len() == 0 {
        Seq::empty()
    } else {
        let rest = kept_vms(vms.drop_last(), cat, types);
        if vm_resolvable(vms.last(), cat, types) {
            rest.push(vms.last())
        } else {
            rest
        }
    }
}

/// True when the envelope fields carry the context, by view.
pub open spec fn envelope_from_ctx(
    version: Option<String>,
    account: Option<String>,
    read_date: Option<String>,
    region: Option<String>,
    ctx: Context,
) -> bool {
    &&& opt_text(version) == opt_text(ctx.osc_cost_version)
    &&& opt_text(account) == opt_text(ctx.account_id)
    &&& opt_text(read_date) == opt_text(ctx.read_date_rfc3339)
    &&& opt_text(region) == opt_text(ctx.region)
}

/// What the machine resource built from one resolvable raw record
/// holds: the context envelope, the record's identity fields, the
/// resolved shape and rates, unset prices, and the joined license
/// codes.
pub open spec fn vm_built_ok(
    r: Resource,
    ctx: Context,
    vm: RawVm,
    cat: Map<Seq<char>, Option<u64>>,
    types: Map<Seq<char>, (Option<u64>, Option<u64>)>,
) -> bool {
    r matches Resource::Vm(v) && {
        let shape = resolve_vm_specs(
            vm.vm_type->0@,
            opt_text(vm.performance),
            strs_view(vm.product_codes@),
            cat,
            types,
        )->0;
        &&& envelope_from_ctx(
            v.osc_cost_version,
            v.account_id,
            v.read_date_rfc3339,
            v.region,
            ctx,
        )
        &&& opt_text(v.resource_id) == Some(vm.vm_id@)
        &&& v.price_per_hour is None
        &&& v.price_per_month is None
        &&& opt_text(v.vm_type) == opt_text(vm.vm_type)
        &&& opt_text(v.vm_vcpu_gen) == Some(shape.generation)
        &&& opt_text(v.vm_core_performance) == opt_text(vm.performance)
        &&& opt_text(v.vm_image) == opt_text(vm.image_id)
        &&& v.vm_vcpu == shape.vcpu
        &&& v.vm_ram_gb == shape.ram_gb
        &&& v.price_vcpu_per_hour == shape.price_vcpu_per_hour
        &&& v.price_ram_gb_per_hour == shape.price_ram_gb_per_hour
        &&& v.price_box_per_hour == shape.price_box_per_hour
        &&& v.price_license_per_ram_gb_per_hour == 0
        &&& v.price_license_per_cpu_per_hour == shape.price_product_per_cpu_per_hour
        &&& v.price_license_per_vm_per_hour == shape.price_product_per_vm_per_hour
        &&& v.license_codes@ == join_comma(strs_view(vm.product_codes@))
    }
}

/// What the placeholder machine resource holds when the inventory is
/// empty and a placeholder was requested: the context envelope and a
/// zero-priced empty shape.
pub open spec fn vm_default_ok(r: Resource, ctx: Context) -> bool {
    r matches Resource::Vm(v) && {
        &&& envelope_from_ctx(
            v.osc_cost_version,
            v.account_id,
            v.read_date_rfc3339,
            v.region,
            ctx,
        )
        &&& v.resource_id is None
        &&& v.price_per_hour == Some(0u64)
        &&& v.price_per_month == Some(0u64)
        &&& v.vm_type is None
        &&& v.vm_vcpu_gen is None
        &&& v.vm_core_performance is None
        &&& v.vm_image is None
        &&& v.vm_vcpu == 0
        &&& v.vm_ram_gb == 0
        &&& v.price_vcpu_per_hour == 0
        &&& v.price_ram_gb_per_hour == 0
        &&& v.price_box_per_hour == 0
        &&& v.price_license_per_ram_gb_per_hour == 0
        &&& v.price_license_per_cpu_per_hour == 0
        &&& v.price_license_per_vm_per_hour == 0
        &&& v.license_codes@ == Seq::<char>::empty()
    }
}

/// Resolves each raw machine record and appends one priced machine per
/// resolvable record, in input order; on an empty inventory, appends a
/// single zero-priced placeholder if one was requested.
pub fn fill_resource_vm(
    ctx: &Context,
    vms: &Vec<RawVm>,
    catalog: &Catalog,
    types: &VmTypes,
    need_default_resource: bool,
    resources: &mut Resources,
)
    requires
        forall|i: int|
            0 <= i < vms@.len() ==> vm_addends_fit(#[trigger] vms@[i], catalog@, types@),
    ensures
        old(resources).resources@.len() <= final(resources).resources@.len(),
        forall|k: int|
            0 <= k < old(resources).resources@.len() ==> final(resources).resources@[k] == old(
                resources,
            ).resources@[k],
        (vms@.len() == 0 && need_default_resource) ==> {
            &&& final(resources).resources@.len() == old(resources).resources@.len() + 1
            &&& vm_default_ok(final(resources).resources@.last(), *ctx)
        },
        !(vms@.len() == 0 && need_default_resource) ==> {
            let kept = kept_vms(vms@, catalog@, types@);
            &&& final(resources).resources@.len() == old(resources).resources@.len() + kept.len()
            &&& forall|k: int|
                0 <= k < kept.len() ==> vm_built_ok(
                    #[trigger] final(resources).resources@[old(resources).resources@.len() + k],
                    *ctx,
                    kept[k],
                    catalog@,
                    types@,
                )
        },
{
    if vms.len() == 0 && need_default_resource {
        resources.resources.push(
            Resource::Vm(
                Vm {
                    osc_cost_version: clone_opt_text(&ctx.osc_cost_version),
                    account_id: clone_opt_text(&ctx.account_id),
                    read_date_rfc3339: clone_opt_text(&ctx.read_date_rfc3339),
                    region: clone_opt_text(&ctx.region),
                    resource_id: None,
                    price_per_hour: Some(0),
                    price_per_month: Some(0),
                    vm_type: None,
                    vm_vcpu_gen: None,
                    vm_core_performance: None,
                    vm_image: None,
                    vm_vcpu: 0,
                    vm_ram_gb: 0,
                    price_vcpu_per_hour: 0,
                    price_ram_gb_per_hour: 0,
                    price_box_per_hour: 0,
                    price_license_per_ram_gb_per_hour: 0,
                    price_license_per_cpu_per_hour: 0,
                    price_license_per_vm_per_hour: 0,
                    license_codes: String::new(),
                },
            ),
        );
        return ;
    }
    let ghost base = resources.resources@;
    let n = vms.len();
    let mut i: usize = 0;
    while i < n
        invariant
            i <= n,
            n == vms@.len(),
            forall|j: int|
                0 <= j < vms@.len() ==> vm_addends_fit(#[trigger] vms@[j], catalog@, types@),
            resources.resources@.len() == base.len() + kept_vms(
                vms@.take(i as int),
                catalog@,
                types@,
            ).len(),
            forall|k: int| 0 <= k < base.len() ==> resources.resources@[k] == base[k],
            forall|k: int|
                0 <= k < kept_vms(vms@.take(i as int), catalog@, types@).len() ==> vm_built_ok(
                    #[trigger] resources.resources@[base.len() + k],
                    *ctx,
                    kept_vms(vms@.take(i as int), catalog@, types@)[k],
                    catalog@,
                    types@,
                ),
        decreases n - i,
    {
        proof {
            assert(vms@.take(i + 1 as int).drop_last() =~= vms@.take(i as int));
            assert(vms@.take(i + 1 as int).last() == vms@[i as int]);
        }
        let vm = &vms[i];
        match &vm.vm_type {
            Some(vm_type) => {
                match VmSpecs::new(vm_type, &vm.performance, &vm.product_codes, catalog, types) {
                    Some(specs) => {
                        let built = Vm {
                            osc_cost_version: clone_opt_text(&ctx.osc_cost_version),
                            account_id: clone_opt_text(&ctx.account_id),
                            read_date_rfc3339: clone_opt_text(&ctx.read_date_rfc3339),
                            region: clone_opt_text(&ctx.region),
                            resource_id: Some(vm.vm_id.clone()),
                            price_per_hour: None,
                            price_per_month: None,
                            vm_type: clone_opt_text(&vm.vm_type),
                            vm_vcpu_gen: Some(specs.generation),
                            vm_core_performance: clone_opt_text(&vm.performance),
                            vm_image: clone_opt_text(&vm.image_id),
                            vm_vcpu: specs.vcpu,
                            vm_ram_gb: specs.ram_gb,
                            price_vcpu_per_hour: specs.price_vcpu_per_hour,
                            price_ram_gb_per_hour: specs.price_ram_gb_per_hour,
                            price_box_per_hour: specs.price_box_per_hour,
                            price_license_per_ram_gb_per_hour:
                                specs.price_product_per_ram_gb_per_hour,
                            price_license_per_cpu_per_hour: specs.price_product_per_cpu_per_hour,
                            price_license_per_vm_per_hour: specs.price_product_per_vm_per_hour,
                            license_codes: join_strings(&vm.product_codes),
                        };
                        resources.resources.push(Resource::Vm(built));
                        proof {
                            assert(kept_vms(vms@.take(i + 1 as int), catalog@, types@) =~= kept_vms(
                                vms@.take(i as int),
                                catalog@,
                                types@,
                            ).push(vms@[i as int]));
                        }
                    },
                    None => {
                        proof {
                            assert(kept_vms(vms@.take(i + 1 as int), catalog@, types@) =~= kept_vms(
                                vms@.take(i as int),
                                catalog@,
                                types@,
                            ));
                        }
                    },
                }
            },
            None => {
                proof {
                    assert(kept_vms(vms@.take(i + 1 as int), catalog@, types@) =~= kept_vms(
                        vms@.take(i as int),
                        catalog@,
                        types@,
                    ));
                }
            },
        }
        i = i + 1;
    }
    proof {
        assert(vms@.take(n as int) =~= vms@);
    }
}

/// One raw volume record.
pub struct RawVolume {
    pub volume_id: String,
    pub volume_type: Option<String>,
    pub size: Option<u64>,
    pub iops: Option<u64>,
}

/// The catalog key of a volume type's per-GiB-month rate.
pub open spec fn volume_usage_key(volume_type: Seq<char>) -> Seq<char> {
    composite_key("TinaOS-FCU"@, "BSU:VolumeUsage:"@ + volume_type, "CreateVolume"@)
}

/// The catalog key of a volume type's per-IOPS-month rate.
pub open spec fn volume_iops_key(volume_type: Seq<char>) -> Seq<char> {
    composite_key("TinaOS-FCU"@, "BSU:VolumeIOPS:"@ + volume_type, "CreateVolume"@)
}

/// The resolved pricing attributes of one volume: its monthly rates,
/// the IOPS rate only applying to provisioned-IOPS volumes.
pub struct VolumeShape {
    pub volume_type: Seq<char>,
    pub size: int,
    pub iops: int,
    pub price_gb_per_month: int,
    pub price_iops_per_month: int,
}

/// Resolves one raw volume: type and size are mandatory, a missing
/// IOPS count defaults to zero, and the rates come from the type's
/// catalog keys — the IOPS rate only for `io1` volumes.
pub open spec fn volume_resolve(v: RawVolume, cat: Map<Seq<char>, Option<u64>>) -> Option<
    VolumeShape,
> {
    match (v.volume_type, v.size) {
        (Some(t), Some(size)) => {
            let iops = (match v.iops {
                Some(n) => n as int,
                None => 0,
            });
            match catalog_price(cat, volume_usage_key(t@)) {
                None => None,
                Some(gb_rate) => if t@ == "io1"@ {
                    match catalog_price(cat, volume_iops_key(t@)) {
                        None => None,
                        Some(iops_rate) => Some(
                            VolumeShape {
                                volume_type: t@,
                                size: size as int,
                                iops,
                                price_gb_per_month: gb_rate as int,
                                price_iops_per_month: iops_rate as int,
                            },
                        ),
                    }
                } else {
                    Some(
                        VolumeShape {
                            volume_type: t@,
                            size: size as int,
                            iops,
                            price_gb_per_month: gb_rate as int,
                            price_iops_per_month: 0,
                        },
                    )
                },
            }
        },
        _ => None,
    }
}

/// The volumes that resolve, in input order.
pub open spec fn kept_volumes(vols: Seq<RawVolume>, cat: Map<Seq<char>, Option<u64>>) -> Seq<
    RawVolume,
>
    decreases vols.len(),
{
    if vols.len() == 0 {
        Seq::empty()
    } else {
        let rest = kept_volumes(vols.drop_last(), cat);
        if volume_resolve(vols.last(), cat) is Some {
            rest.push(vols.last())
        } else {
            rest
        }
    }
}

/// What the volume resource built from one resolvable record holds.
pub open spec fn volume_built_ok(
    r: Resource,
    ctx: Context,
    raw: RawVolume,
    cat: Map<Seq<char>, Option<u64>>,
) -> bool {
    r matches Resource::Volume(v) && {
        let shape = volume_resolve(raw, cat)->0;
        &&& envelope_from_ctx(v.osc_cost_version, v.account_id, v.read_date_rfc3339, v.region, ctx)
        &&& opt_text(v.resource_id) == Some(raw.volume_id@)
        &&& v.price_per_hour is None
        &&& v.price_per_month is None
        &&& opt_text(v.volume_type) == Some(shape.volume_type)
        &&& v.volume_size == Some(shape.size as u64)
        &&& v.volume_iops == Some(shape.iops as u64)
        &&& v.price_gb_per_month == shape.price_gb_per_month
        &&& v.price_iops_per_month == shape.price_iops_per_month
    }
}

/// Resolves each raw volume and appends one priced volume per
/// resolvable record, in input order.
pub fn fill_resource_volume(
    ctx: &Context,
    volumes: &Vec<RawVolume>,
    catalog: &Catalog,
    resources: &mut Resources,
)
    ensures
        final(resources).resources@.len() == old(resources).resources@.len() + kept_volumes(
            volumes@,
            catalog@,
        ).len(),
        forall|k: int|
            0 <= k < old(resources).resources@.len() ==> final(resources).resources@[k] == old(
                resources,
            ).resources@[k],
        forall|k: int|
            0 <= k < kept_volumes(volumes@, catalog@).len() ==> volume_built_ok(
                #[trigger] final(resources).resources@[old(resources).resources@.len() + k],
                *ctx,
                kept_volumes(volumes@, catalog@)[k],
                catalog@,
            ),
{
    let ghost base = resources.resources@;
    let n = volumes.len();
    let mut i: usize = 0;
    while i < n
        invariant
            i <= n,
            n == volumes@.len(),
            resources.resources@.len() == base.len() + kept_volumes(
                volumes@.take(i as int),
                catalog@,
            ).len(),
            forall|k: int| 0 <= k < base.len() ==> resources.resources@[k] == base[k],
            forall|k: int|
                0 <= k < kept_volumes(volumes@.take(i as int), catalog@).len() ==> volume_built_ok(
                    #[trigger] resources.resources@[base.len() + k],
                    *ctx,
                    kept_volumes(volumes@.take(i as int), catalog@)[k],
                    catalog@,
                ),
        decreases n - i,
    {
        proof {
            assert(volumes@.take(i + 1 as int).drop_last() =~= volumes@.take(i as int));
            assert(volumes@.take(i + 1 as int).last() == volumes@[i as int]);
        }
        let volume = &volumes[i];
        let mut kept = false;
        match (&volume.volume_type, &volume.size) {
            (Some(volume_type), Some(size)) => {
                let iops: u64 = match &volume.iops {
                    Some(n) => *n,
                    None => 0,
                };
                let mut usage_kind = "BSU:VolumeUsage:".to_owned();
                usage_kind.append(volume_type.as_str());
                proof {
                    assert(usage_kind@ =~= "BSU:VolumeUsage:"@ + volume_type@);
                }
                match catalog.lookup("TinaOS-FCU", usage_kind.as_str(), "CreateVolume") {
                    Some(gb_rate) => {
                        let iops_rate: Option<u64> = if str_eq(volume_type.as_str(), "io1") {
                            let mut iops_kind = "BSU:VolumeIOPS:".to_owned();
                            iops_kind.append(volume_type.as_str());
                            proof {
                                assert(iops_kind@ =~= "BSU:VolumeIOPS:"@ + volume_type@);
                            }
                            catalog.lookup("TinaOS-FCU", iops_kind.as_str(), "CreateVolume")
                        } else {
                            Some(0)
                        };
                        match iops_rate {
                            Some(iops_rate) => {
                                kept = true;
                                resources.resources.push(
                                    Resource::Volume(
                                        Volume {
                                            osc_cost_version: clone_opt_text(
                                                &ctx.osc_cost_version,
                                            ),
                                            account_id: clone_opt_text(&ctx.account_id),
                                            read_date_rfc3339: clone_opt_text(
                                                &ctx.read_date_rfc3339,
                                            ),
                                            region: clone_opt_text(&ctx.region),
                                            resource_id: Some(volume.volume_id.clone()),
                                            price_per_hour: None,
                                            price_per_month: None,
                                            volume_type: Some(volume_type.clone()),
                                            volume_size: Some(*size),
                                            volume_iops: Some(iops),
                                            price_gb_per_month: gb_rate,
                                            price_iops_per_month: iops_rate,
                                        },
                                    ),
                                );
                            },
                            None => {},
                        }
                    },
                    None => {},
                }
            },
            _ => {},
        }
        proof {
            if kept {
                assert(kept_volumes(volumes@.take(i + 1 as int), catalog@) =~= kept_volumes(
                    volumes@.take(i as int),
                    catalog@,
                ).push(volumes@[i as int]));
            } else {
                assert(volume_resolve(volumes@[i as int], catalog@) is None);
                assert(kept_volumes(volumes@.take(i + 1 as int), catalog@) =~= kept_volumes(
                    volumes@.take(i as int),
                    catalog@,
                ));
            }
        }
        i = i + 1;
    }
    proof {
        assert(volumes@.take(n as int) =~= volumes@);
    }
}

/// One raw snapshot record.
pub struct RawSnapshot {
    pub snapshot_id: String,
    pub volume_size: Option<u64>,
}

/// The catalog key of the snapshot per-GiB-month rate.
pub open spec fn snapshot_usage_key() -> Seq<char> {
    composite_key("TinaOS-FCU"@, "Snapshot:Usage"@, "Snapshot"@)
}

/// What the snapshot resource built from one record holds; the source
/// volume size passes through, possibly still missing.
pub open spec fn snapshot_built_ok(
    r: Resource,
    ctx: Context,
    raw: RawSnapshot,
    gb_rate: u64,
) -> bool {
    r matches Resource::Snapshot(v) && {
        &&& envelope_from_ctx(v.osc_cost_version, v.account_id, v.read_date_rfc3339, v.region, ctx)
        &&& opt_text(v.resource_id) == Some(raw.snapshot_id@)
        &&& v.price_per_hour is None
        &&& v.price_per_month is None
        &&& v.volume_size_gib == raw.volume_size
        &&& v.price_gb_per_month == gb_rate
    }
}

/// Appends one snapshot resource per record, priced at the single
/// snapshot storage rate; appends nothing when the catalog lacks that
/// rate.
pub fn fill_resource_snapshot(
    ctx: &Context,
    snapshots: &Vec<RawSnapshot>,
    catalog: &Catalog,
    resources: &mut Resources,
)
    ensures
        forall|k: int|
            0 <= k < old(resources).resources@.len() ==> final(resources).resources@[k] == old(
                resources,
            ).resources@[k],
        catalog_price(catalog@, snapshot_usage_key()) is None ==> final(resources).resources@
            == old(resources).resources@,
        (match catalog_price(catalog@, snapshot_usage_key()) {
            Some(gb_rate) => {
                &&& final(resources).resources@.len() == old(resources).resources@.len()
                    + snapshots@.len()
                &&& forall|k: int|
                    0 <= k < snapshots@.len() ==> snapshot_built_ok(
                        #[trigger] final(resources).resources@[old(resources).resources@.len()
                            + k],
                        *ctx,
                        snapshots@[k],
                        gb_rate,
                    )
            },
            None => true,
        }),
{
    let gb_rate = match catalog.lookup("TinaOS-FCU", "Snapshot:Usage", "Snapshot") {
        Some(rate) => rate,
        None => {
            return ;
        },
    };
    let ghost base = resources.resources@;
    let n = snapshots.len();
    let mut i: usize = 0;
    while i < n
        invariant
            i <= n,
            n == snapshots@.len(),
            resources.resources@.len() == base.len() + i,
            forall|k: int| 0 <= k < base.len() ==> resources.resources@[k] == base[k],
            forall|k: int|
                0 <= k < i ==> snapshot_built_ok(
                    #[trigger] resources.resources@[base.len() + k],
                    *ctx,
                    snapshots@[k],
                    gb_rate,
                ),
        decreases n - i,
    {
        let snapshot = &snapshots[i];
        resources.resources.push(
            Resource::Snapshot(
                Snapshot {
                    osc_cost_version: clone_opt_text(&ctx.osc_cost_version),
                    account_id: clone_opt_text(&ctx.account_id),
                    read_date_rfc3339: clone_opt_text(&ctx.read_date_rfc3339),
                    region: clone_opt_text(&ctx.region),
                    resource_id: Some(snapshot.snapshot_id.clone()),
                    price_per_hour: None,
                    price_per_month: None,
                    volume_size_gib: match &snapshot.volume_size {
                        Some(size) => Some(*size),
                        None => None,
                    },
                    price_gb_per_month: gb_rate,
                },
            ),
        );
        i = i + 1;
    }
}

/// One raw public IP record.
pub struct RawPublicIp {
    pub public_ip_id: String,
    pub public_ip: Option<String>,
    pub link_public_ip_id: Option<String>,
    pub vm_id: Option<String>,
}

/// The catalog key of the idle-address rate.
pub open spec fn idle_address_key() -> Seq<char> {
    composite_key("TinaOS-FCU"@, "ElasticIP:IdleAddress"@, "AssociateAddressVPC"@)
}

/// The catalog key of the additional-address rate.
pub open spec fn additional_address_key() -> Seq<char> {
    composite_key("TinaOS-FCU"@, "ElasticIP:AdditionalAddress"@, "AssociateAddressVPC"@)
}

/// The machine a machine list holds under the identifier, the last
/// record winning on duplicates.
pub open spec fn vm_lookup(vms: Seq<RawVm>, id: Seq<char>) -> Option<RawVm>
    decreases vms.len(),
{
    if vms.len() == 0 {
        None
    } else if vms.last().vm_id@ == id {
        Some(vms.last())
    } else {
        vm_lookup(vms.drop_last(), id)
    }
}

/// The attachment-state rates of one public IP: exactly one of the
/// three is set. An unattached address bills the idle rate; the
/// address a machine reports as its own is free; any further address
/// on a machine bills the additional-address rate; every other state,
/// or a missing catalog rate, drops the record.
pub open spec fn public_ip_resolve(
    ip: RawPublicIp,
    vms: Seq<RawVm>,
    cat: Map<Seq<char>, Option<u64>>,
) -> Option<(Option<u64>, Option<u64>, Option<u64>)> {
    if ip.public_ip is None {
        None
    } else {
        match (ip.link_public_ip_id, ip.vm_id) {
            (None, None) => match catalog_price(cat, idle_address_key()) {
                Some(price) => Some((Some(price), None, None)),
                None => None,
            },
            (Some(_), None) => None,
            (Some(_), Some(vm_id)) => match vm_lookup(vms, vm_id@) {
                Some(vm) => match vm.public_ip {
                    Some(vm_ip) => if vm_ip@ == ip.public_ip->0@ {
                        Some((None, Some(0u64), None))
                    } else {
                        match catalog_price(cat, additional_address_key()) {
                            Some(price) => Some((None, None, Some(price))),
                            None => None,
                        }
                    },
                    None => None,
                },
                None => None,
            },
            (None, Some(_)) => None,
        }
    }
}

/// The public IPs that resolve, in input order.
pub open spec fn kept_public_ips(
    ips: Seq<RawPublicIp>,
    vms: Seq<RawVm>,
    cat: Map<Seq<char>, Option<u64>>,
) -> Seq<RawPublicIp>
    decreases ips.len(),
{
    if ips.len() == 0 {
        Seq::empty()
    } else {
        let rest = kept_public_ips(ips.drop_last(), vms, cat);
        if public_ip_resolve(ips.last(), vms, cat) is Some {
            rest.push(ips.last())
        } else {
            rest
        }
    }
}

/// What the public IP resource built from one resolvable record holds.
pub open spec fn public_ip_built_ok(
    r: Resource,
    ctx: Context,
    raw: RawPublicIp,
    vms: Seq<RawVm>,
    cat: Map<Seq<char>, Option<u64>>,
) -> bool {
    r matches Resource::PublicIp(v) && {
        let rates = public_ip_resolve(raw, vms, cat)->0;
        &&& envelope_from_ctx(v.osc_cost_version, v.account_id, v.read_date_rfc3339, v.region, ctx)
        &&& opt_text(v.resource_id) == Some(raw.public_ip_id@)
        &&& v.price_per_hour is None
        &&& v.price_per_month is None
        &&& v.price_non_attached == rates.0
        &&& v.price_first_ip == rates.1
        &&& v.price_next_ips == rates.2
    }
}

/// What the placeholder public IP resource holds.
pub open spec fn public_ip_default_ok(r: Resource, ctx: Context) -> bool {
    r matches Resource::PublicIp(v) && {
        &&& envelope_from_ctx(v.osc_cost_version, v.account_id, v.read_date_rfc3339, v.region, ctx)
        &&& v.resource_id is None
        &&& v.price_per_hour == Some(0u64)
        &&& v.price_per_month == Some(0u64)
        &&& v.price_non_attached is None
        &&& v.price_first_ip is None
        &&& v.price_next_ips is None
    }
}

/// Finds the machine a public IP claims to be linked to.
fn lookup_vm<'a>(vms: &'a Vec<RawVm>, id: &str) -> (r: Option<&'a RawVm>)
    ensures
        (match (r, vm_lookup(vms@, id@)) {
            (Some(vm), Some(found)) => *vm == found,
            (None, None) => true,
            _ => false,
        }),
{
    let n = vms.len();
    let mut i: usize = n;
    proof {
        assert(vms@.take(n as int) =~= vms@);
    }
    while i > 0
        invariant
            i <= n,
            n == vms@.len(),
            vm_lookup(vms@, id@) == vm_lookup(vms@.take(i as int), id@),
        decreases i,
    {
        i = i - 1;
        proof {
            assert(vms@.take(i + 1 as int).drop_last() =~= vms@.take(i as int));
            assert(vms@.take(i + 1 as int).last() == vms@[i as int]);
        }
        if str_eq(vms[i].vm_id.as_str(), id) {
            return Some(&vms[i]);
        }
    }
    proof {
        assert(vms@.take(0) =~= Seq::<RawVm>::empty());
    }
    None
}

/// Resolves each raw public IP against its attachment state and
/// appends one priced address per resolvable record, in input order;
/// on an empty inventory, appends a single zero-priced placeholder if
/// one was requested.
pub fn fill_resource_public_ip(
    ctx: &Context,
    public_ips: &Vec<RawPublicIp>,
    vms: &Vec<RawVm>,
    catalog: &Catalog,
    need_default_resource: bool,
    resources: &mut Resources,
)
    ensures
        forall|k: int|
            0 <= k < old(resources).resources@.len() ==> final(resources).resources@[k] == old(
                resources,
            ).resources@[k],
        (public_ips@.len() == 0 && need_default_resource) ==> {
            &&& final(resources).resources@.len() == old(resources).resources@.len() + 1
            &&& public_ip_default_ok(final(resources).resources@.last(), *ctx)
        },
        !(public_ips@.len() == 0 && need_default_resource) ==> {
            let kept = kept_public_ips(public_ips@, vms@, catalog@);
            &&& final(resources).resources@.len() == old(resources).resources@.len() + kept.len()
            &&& forall|k: int|
                0 <= k < kept.len() ==> public_ip_built_ok(
                    #[trigger] final(resources).resources@[old(resources).resources@.len() + k],
                    *ctx,
                    kept[k],
                    vms@,
                    catalog@,
                )
        },
{
    if public_ips.len() == 0 && need_default_resource {
        resources.resources.push(
            Resource::PublicIp(
                PublicIp {
                    osc_cost_version: clone_opt_text(&ctx.osc_cost_version),
                    account_id: clone_opt_text(&ctx.account_id),
                    read_date_rfc3339: clone_opt_text(&ctx.read_date_rfc3339),
                    region: clone_opt_text(&ctx.region),
                    resource_id: None,
                    price_per_hour: Some(0),
                    price_per_month: Some(0),
                    price_non_attached: None,
                    price_first_ip: None,
                    price_next_ips: None,
                },
            ),
        );
        return ;
    }
    let ghost base = resources.resources@;
    let n = public_ips.len();
    let mut i: usize = 0;
    while i < n
        invariant
            i <= n,
            n == public_ips@.len(),
            resources.resources@.len() == base.len() + kept_public_ips(
                public_ips@.take(i as int),
                vms@,
                catalog@,
            ).len(),
            forall|k: int| 0 <= k < base.len() ==> resources.resources@[k] == base[k],
            forall|k: int|
                0 <= k < kept_public_ips(public_ips@.take(i as int), vms@, catalog@).len()
                    ==> public_ip_built_ok(
                    #[trigger] resources.resources@[base.len() + k],
                    *ctx,
                    kept_public_ips(public_ips@.take(i as int), vms@, catalog@)[k],
                    vms@,
                    catalog@,
                ),
        decreases n - i,
    {
        proof {
            assert(public_ips@.take(i + 1 as int).drop_last() =~= public_ips@.take(i as int));
            assert(public_ips@.take(i + 1 as int).last() == public_ips@[i as int]);
        }
        let ip = &public_ips[i];
        let mut rates: Option<(Option<u64>, Option<u64>, Option<u64>)> = None;
        if ip.public_ip.is_some() {
            match (&ip.link_public_ip_id, &ip.vm_id) {
                (None, None) => {
                    match catalog.lookup(
                        "TinaOS-FCU",
                        "ElasticIP:IdleAddress",
                        "AssociateAddressVPC",
                    ) {
                        Some(price) => {
                            rates = Some((Some(price), None, None));
                        },
                        None => {},
                    }
                },
                (Some(_), None) => {},
                (Some(_), Some(vm_id)) => {
                    match lookup_vm(vms, vm_id.as_str()) {
                        Some(vm) => {
                            match (&vm.public_ip, &ip.public_ip) {
                                (Some(vm_ip), Some(ip_str)) => {
                                    if str_eq(vm_ip.as_str(), ip_str.as_str()) {
                                        rates = Some((None, Some(0), None));
                                    } else {
                                        match catalog.lookup(
                                            "TinaOS-FCU",
                                            "ElasticIP:AdditionalAddress",
                                            "AssociateAddressVPC",
                                        ) {
                                            Some(price) => {
                                                rates = Some((None, None, Some(price)));
                                            },
                                            None => {},
                                        }
                                    }
                                },
                                _ => {},
                            }
                        },
                        None => {},
                    }
                },
                (None, Some(_)) => {},
            }
        }
        match rates {
            Some(rates) => {
                proof {
                    assert(public_ip_resolve(public_ips@[i as int], vms@, catalog@) == Some(
                        rates,
                    ));
                    assert(kept_public_ips(public_ips@.take(i + 1 as int), vms@, catalog@)
                        =~= kept_public_ips(public_ips@.take(i as int), vms@, catalog@).push(
                        public_ips@[i as int],
                    ));
                }
                resources.resources.push(
                    Resource::PublicIp(
                        PublicIp {
                            osc_cost_version: clone_opt_text(&ctx.osc_cost_version),
                            account_id: clone_opt_text(&ctx.account_id),
                            read_date_rfc3339: clone_opt_text(&ctx.read_date_rfc3339),
                            region: clone_opt_text(&ctx.region),
                            resource_id: Some(ip.public_ip_id.clone()),
                            price_per_hour: None,
                            price_per_month: None,
                            price_non_attached: rates.0,
                            price_first_ip: rates.1,
                            price_next_ips: rates.2,
                        },
                    ),
                );
            },
            None => {
                proof {
                    assert(public_ip_resolve(public_ips@[i as int], vms@, catalog@) is None);
                    assert(kept_public_ips(public_ips@.take(i + 1 as int), vms@, catalog@)
                        =~= kept_public_ips(public_ips@.take(i as int), vms@, catalog@));
                }
            },
        }
        i = i + 1;
    }
    proof {
        assert(public_ips@.take(n as int) =~= public_ips@);
    }
}

/// One raw NAT gateway record.
pub struct RawNatService {
    pub nat_service_id: Option<String>,
}

/// The catalog key of the NAT gateway rate.
pub open spec fn nat_gateway_key() -> Seq<char> {
    composite_key("TinaOS-FCU"@, "NatGatewayUsage"@, "CreateNatGateway"@)
}

/// The NAT gateways carrying an identifier, in input order.
pub open spec fn kept_nat_services(services: Seq<RawNatService>) -> Seq<RawNatService>
    decreases services.len(),
{
    if services.len() == 0 {
        Seq::empty()
    } else {
        let rest = kept_nat_services(services.drop_last());
        if services.last().nat_service_id is Some {
            rest.push(services.last())
        } else {
            rest
        }
    }
}

/// What the NAT gateway resource built from one record holds; the
/// gateway rate stays optional, a catalog miss leaving it unset.
pub open spec fn nat_built_ok(
    r: Resource,
    ctx: Context,
    raw: RawNatService,
    cat: Map<Seq<char>, Option<u64>>,
) -> bool {
    r matches Resource::NatServices(v) && {
        &&& envelope_from_ctx(v.osc_cost_version, v.account_id, v.read_date_rfc3339, v.region, ctx)
        &&& opt_text(v.resource_id) == opt_text(raw.nat_service_id)
        &&& v.price_per_hour is None
        &&& v.price_per_month is None
        &&& v.price_product_per_nat_service_per_hour == catalog_price(cat, nat_gateway_key())
    }
}

/// Appends one NAT gateway resource per identified record, carrying
/// the gateway rate if the catalog has one.
pub fn fill_resource_nat_service(
    ctx: &Context,
    nat_services: &Vec<RawNatService>,
    catalog: &Catalog,
    resources: &mut Resources,
)
    ensures
        final(resources).resources@.len() == old(resources).resources@.len() + kept_nat_services(
            nat_services@,
        ).len(),
        forall|k: int|
            0 <= k < old(resources).resources@.len() ==> final(resources).resources@[k] == old(
                resources,
            ).resources@[k],
        forall|k: int|
            0 <= k < kept_nat_services(nat_services@).len() ==> nat_built_ok(
                #[trigger] final(resources).resources@[old(resources).resources@.len() + k],
                *ctx,
                kept_nat_services(nat_services@)[k],
                catalog@,
            ),
{
    let ghost base = resources.resources@;
    let n = nat_services.len();
    let mut i: usize = 0;
    while i < n
        invariant
            i <= n,
            n == nat_services@.len(),
            resources.resources@.len() == base.len() + kept_nat_services(
                nat_services@.take(i as int),
            ).len(),
            forall|k: int| 0 <= k < base.len() ==> resources.resources@[k] == base[k],
            forall|k: int|
                0 <= k < kept_nat_services(nat_services@.take(i as int)).len() ==> nat_built_ok(
                    #[trigger] resources.resources@[base.len() + k],
                    *ctx,
                    kept_nat_services(nat_services@.take(i as int))[k],
                    catalog@,
                ),
        decreases n - i,
    {
        proof {
            assert(nat_services@.take(i + 1 as int).drop_last() =~= nat_services@.take(i as int));
            assert(nat_services@.take(i + 1 as int).last() == nat_services@[i as int]);
        }
        let service = &nat_services[i];
        let rate = catalog.lookup("TinaOS-FCU", "NatGatewayUsage", "CreateNatGateway");
        match &service.nat_service_id {
            Some(id) => {
                resources.resources.push(
                    Resource::NatServices(
                        NatServices {
                            osc_cost_version: clone_opt_text(&ctx.osc_cost_version),
                            account_id: clone_opt_text(&ctx.account_id),
                            read_date_rfc3339: clone_opt_text(&ctx.read_date_rfc3339),
                            region: clone_opt_text(&ctx.region),
                            resource_id: Some(id.clone()),
                            price_product_per_nat_service_per_hour: rate,
                            price_per_hour: None,
                            price_per_month: None,
                        },
                    ),
                );
                proof {
                    assert(kept_nat_services(nat_services@.take(i + 1 as int))
                        =~= kept_nat_services(nat_services@.take(i as int)).push(
                        nat_services@[i as int],
                    ));
                }
            },
            None => {
                proof {
                    assert(kept_nat_services(nat_services@.take(i + 1 as int))
                        =~= kept_nat_services(nat_services@.take(i as int)));
                }
            },
        }
        i = i + 1;
    }
    proof {
        assert(nat_services@.take(n as int) =~= nat_services@);
    }
}

/// One raw flexible GPU record.
pub struct RawFlexibleGpu {
    pub flexible_gpu_id: String,
    pub model_name: Option<String>,
    pub state: Option<String>,
}

/// The catalog key of a GPU model's rate in the attached states.
pub open spec fn gpu_attach_key(model: Seq<char>) -> Seq<char> {
    composite_key("TinaOS-FCU"@, "Gpu:attach:"@ + model, "AllocateGpu"@)
}

/// The catalog key of a GPU model's rate in the allocated states.
pub open spec fn gpu_allocate_key(model: Seq<char>) -> Seq<char> {
    composite_key("TinaOS-FCU"@, "Gpu:allocate:"@ + model, "AllocateGpu"@)
}

/// Resolves one flexible GPU: model and state are mandatory, and the
/// catalog key varies with the attachment state; an unknown state or a
/// catalog miss drops the record.
pub open spec fn gpu_resolve(g: RawFlexibleGpu, cat: Map<Seq<char>, Option<u64>>) -> Option<u64> {
    match (g.model_name, g.state) {
        (Some(model), Some(state)) => {
            if state@ == "attached"@ || state@ == "attaching"@ {
                catalog_price(cat, gpu_attach_key(model@))
            } else if state@ == "allocated"@ || state@ == "detaching"@ {
                catalog_price(cat, gpu_allocate_key(model@))
            } else {
                None
            }
        },
        _ => None,
    }
}

/// The flexible GPUs that resolve, in input order.
pub open spec fn kept_gpus(gpus: Seq<RawFlexibleGpu>, cat: Map<Seq<char>, Option<u64>>) -> Seq<
    RawFlexibleGpu,
>
    decreases gpus.len(),
{
    if gpus.len() == 0 {
        Seq::empty()
    } else {
        let rest = kept_gpus(gpus.drop_last(), cat);
        if gpu_resolve(gpus.last(), cat) is Some {
            rest.push(gpus.last())
        } else {
            rest
        }
    }
}

/// What the flexible GPU resource built from one resolvable record
/// holds.
pub open spec fn gpu_built_ok(
    r: Resource,
    ctx: Context,
    raw: RawFlexibleGpu,
    cat: Map<Seq<char>, Option<u64>>,
) -> bool {
    r matches Resource::FlexibleGpu(v) && {
        &&& envelope_from_ctx(v.osc_cost_version, v.account_id, v.read_date_rfc3339, v.region, ctx)
        &&& opt_text(v.resource_id) == Some(raw.flexible_gpu_id@)
        &&& v.price_per_hour == gpu_resolve(raw, cat)
        &&& v.price_per_month is None
        &&& opt_text(v.model_name) == opt_text(raw.model_name)
    }
}

/// What the placeholder flexible GPU resource holds.
pub open spec fn gpu_default_ok(r: Resource, ctx: Context) -> bool {
    r matches Resource::FlexibleGpu(v) && {
        &&& envelope_from_ctx(v.osc_cost_version, v.account_id, v.read_date_rfc3339, v.region, ctx)
        &&& v.resource_id is None
        &&& v.price_per_hour == Some(0u64)
        &&& v.price_per_month == Some(0u64)
        &&& v.model_name is None
    }
}

/// Resolves each raw flexible GPU against its attachment state and
/// appends one priced GPU per resolvable record; on an empty
/// inventory, appends a single zero-priced placeholder if one was
/// requested.
pub fn fill_resource_flexible_gpus(
    ctx: &Context,
    gpus: &Vec<RawFlexibleGpu>,
    catalog: &Catalog,
    need_default_resource: bool,
    resources: &mut Resources,
)
    ensures
        forall|k: int|
            0 <= k < old(resources).resources@.len() ==> final(resources).resources@[k] == old(
                resources,
            ).resources@[k],
        (gpus@.len() == 0 && need_default_resource) ==> {
            &&& final(resources).resources@.len() == old(resources).resources@.len() + 1
            &&& gpu_default_ok(final(resources).resources@.last(), *ctx)
        },
        !(gpus@.len() == 0 && need_default_resource) ==> {
            let kept = kept_gpus(gpus@, catalog@);
            &&& final(resources).resources@.len() == old(resources).resources@.len() + kept.len()
            &&& forall|k: int|
                0 <= k < kept.len() ==> gpu_built_ok(
                    #[trigger] final(resources).resources@[old(resources).resources@.len() + k],
                    *ctx,
                    kept[k],
                    catalog@,
                )
        },
{
    if gpus.len() == 0 && need_default_resource {
        resources.resources.push(
            Resource::FlexibleGpu(
                FlexibleGpu {
                    osc_cost_version: clone_opt_text(&ctx.osc_cost_version),
                    account_id: clone_opt_text(&ctx.account_id),
                    read_date_rfc3339: clone_opt_text(&ctx.read_date_rfc3339),
                    region: clone_opt_text(&ctx.region),
                    resource_id: None,
                    price_per_hour: Some(0),
                    price_per_month: Some(0),
                    model_name: None,
                },
            ),
        );
        return ;
    }
    let ghost base = resources.resources@;
    let n = gpus.len();
    let mut i: usize = 0;
    while i < n
        invariant
            i <= n,
            n == gpus@.len(),
            resources.resources@.len() == base.len() + kept_gpus(
                gpus@.take(i as int),
                catalog@,
            ).len(),
            forall|k: int| 0 <= k < base.len() ==> resources.resources@[k] == base[k],
            forall|k: int|
                0 <= k < kept_gpus(gpus@.take(i as int), catalog@).len() ==> gpu_built_ok(
                    #[trigger] resources.resources@[base.len() + k],
                    *ctx,
                    kept_gpus(gpus@.take(i as int), catalog@)[k],
                    catalog@,
                ),
        decreases n - i,
    {
        proof {
            assert(gpus@.take(i + 1 as int).drop_last() =~= gpus@.take(i as int));
            assert(gpus@.take(i + 1 as int).last() == gpus@[i as int]);
        }
        let gpu = &gpus[i];
        let mut rate: Option<u64> = None;
        match (&gpu.model_name, &gpu.state) {
            (Some(model), Some(state)) => {
                if str_eq(state.as_str(), "attached") || str_eq(state.as_str(), "attaching") {
                    let mut kind = "Gpu:attach:".to_owned();
                    kind.append(model.as_str());
                    proof {
                        assert(kind@ =~= "Gpu:attach:"@ + model@);
                    }
                    rate = catalog.lookup("TinaOS-FCU", kind.as_str(), "AllocateGpu");
                } else if str_eq(state.as_str(), "allocated") || str_eq(state.as_str(), "detaching")
                    {
                    let mut kind = "Gpu:allocate:".to_owned();
                    kind.append(model.as_str());
                    proof {
                        assert(kind@ =~= "Gpu:allocate:"@ + model@);
                    }
                    rate = catalog.lookup("TinaOS-FCU", kind.as_str(), "AllocateGpu");
                }
            },
            _ => {},
        }
        match rate {
            Some(price) => {
                proof {
                    assert(gpu_resolve(gpus@[i as int], catalog@) == Some(price));
                    assert(kept_gpus(gpus@.take(i + 1 as int), catalog@) =~= kept_gpus(
                        gpus@.take(i as int),
                        catalog@,
                    ).push(gpus@[i as int]));
                }
                resources.resources.push(
                    Resource::FlexibleGpu(
                        FlexibleGpu {
                            osc_cost_version: clone_opt_text(&ctx.osc_cost_version),
                            account_id: clone_opt_text(&ctx.account_id),
                            read_date_rfc3339: clone_opt_text(&ctx.read_date_rfc3339),
                            region: clone_opt_text(&ctx.region),
                            resource_id: Some(gpu.flexible_gpu_id.clone()),
                            price_per_hour: Some(price),
                            price_per_month: None,
                            model_name: clone_opt_text(&gpu.model_name),
                        },
                    ),
                );
            },
            None => {
                proof {
                    assert(gpu_resolve(gpus@[i as int], catalog@) is None);
                    assert(kept_gpus(gpus@.take(i + 1 as int), catalog@) =~= kept_gpus(
                        gpus@.take(i as int),
                        catalog@,
                    ));
                }
            },
        }
        i = i + 1;
    }
    proof {
        assert(gpus@.take(n as int) =~= gpus@);
    }
}

/// The catalog key of the load balancer rate.
pub open spec fn load_balancer_key() -> Seq<char> {
    composite_key("TinaOS-LBU"@, "LBU:Usage"@, "CreateLoadBalancer"@)
}

/// What the load balancer resource built from one identifier holds.
pub open spec fn lb_built_ok(r: Resource, ctx: Context, id: Seq<char>, rate: u64) -> bool {
    r matches Resource::LoadBalancer(v) && {
        &&& envelope_from_ctx(v.osc_cost_version, v.account_id, v.read_date_rfc3339, v.region, ctx)
        &&& opt_text(v.resource_id) == Some(id)
        &&& v.price_per_hour == Some(rate)
        &&& v.price_per_month is None
    }
}

/// What the placeholder load balancer resource holds.
pub open spec fn lb_default_ok(r: Resource, ctx: Context) -> bool {
    r matches Resource::LoadBalancer(v) && {
        &&& envelope_from_ctx(v.osc_cost_version, v.account_id, v.read_date_rfc3339, v.region, ctx)
        &&& v.resource_id is None
        &&& v.price_per_hour == Some(0u64)
        &&& v.price_per_month == Some(0u64)
    }
}

/// Appends one load balancer resource per identifier at the flat
/// balancer rate; appends only the requested placeholder when the
/// inventory is empty, and nothing more when the catalog lacks the
/// rate.
pub fn fill_resource_load_balancers(
    ctx: &Context,
    load_balancers: &Vec<String>,
    catalog: &Catalog,
    need_default_resource: bool,
    resources: &mut Resources,
)
    ensures
        forall|k: int|
            0 <= k < old(resources).resources@.len() ==> final(resources).resources@[k] == old(
                resources,
            ).resources@[k],
        ({
            let d: int = if load_balancers@.len() == 0 && need_default_resource {
                1
            } else {
                0
            };
            let appended: int = match catalog_price(catalog@, load_balancer_key()) {
                Some(_) => load_balancers@.len() as int,
                None => 0,
            };
            &&& final(resources).resources@.len() == old(resources).resources@.len() + d
                + appended
            &&& (d == 1 ==> lb_default_ok(
                final(resources).resources@[old(resources).resources@.len() as int],
                *ctx,
            ))
            &&& (match catalog_price(catalog@, load_balancer_key()) {
                Some(rate) => forall|k: int|
                    0 <= k < load_balancers@.len() ==> lb_built_ok(
                        #[trigger] final(resources).resources@[old(resources).resources@.len() + d
                            + k],
                        *ctx,
                        strs_view(load_balancers@)[k],
                        rate,
                    ),
                None => true,
            })
        }),
{
    if load_balancers.len() == 0 && need_default_resource {
        resources.resources.push(
            Resource::LoadBalancer(
                LoadBalancer {
                    osc_cost_version: clone_opt_text(&ctx.osc_cost_version),
                    account_id: clone_opt_text(&ctx.account_id),
                    read_date_rfc3339: clone_opt_text(&ctx.read_date_rfc3339),
                    region: clone_opt_text(&ctx.region),
                    resource_id: None,
                    price_per_hour: Some(0),
                    price_per_month: Some(0),
                },
            ),
        );
    }
    let rate = match catalog.lookup("TinaOS-LBU", "LBU:Usage", "CreateLoadBalancer") {
        Some(rate) => rate,
        None => {
            return ;
        },
    };
    let ghost base = resources.resources@;
    let ghost d: int = base.len() - old(resources).resources@.len();
    let n = load_balancers.len();
    let mut i: usize = 0;
    while i < n
        invariant
            i <= n,
            n == load_balancers@.len(),
            d == base.len() - old(resources).resources@.len(),
            0 <= d <= 1,
            resources.resources@.len() == base.len() + i,
            forall|k: int|
                0 <= k < old(resources).resources@.len() ==> #[trigger] resources.resources@[k]
                    == old(resources).resources@[k],
            d == 1 ==> lb_default_ok(
                resources.resources@[old(resources).resources@.len() as int],
                *ctx,
            ),
            forall|k: int|
                0 <= k < i ==> lb_built_ok(
                    #[trigger] resources.resources@[base.len() + k],
                    *ctx,
                    strs_view(load_balancers@)[k],
                    rate,
                ),
        decreases n - i,
    {
        resources.resources.push(
            Resource::LoadBalancer(
                LoadBalancer {
                    osc_cost_version: clone_opt_text(&ctx.osc_cost_version),
                    account_id: clone_opt_text(&ctx.account_id),
                    read_date_rfc3339: clone_opt_text(&ctx.read_date_rfc3339),
                    region: clone_opt_text(&ctx.region),
                    resource_id: Some(load_balancers[i].clone()),
                    price_per_hour: Some(rate),
                    price_per_month: None,
                },
            ),
        );
        i = i + 1;
    }
}

/// The catalog key of the VPN connection rate.
pub open spec fn vpn_connection_key() -> Seq<char> {
    composite_key("TinaOS-FCU"@, "ConnectionUsage"@, "CreateVpnConnection"@)
}

/// What the VPN resource built from one identifier holds.
pub open spec fn vpn_built_ok(r: Resource, ctx: Context, id: Seq<char>, rate: u64) -> bool {
    r matches Resource::Vpn(v) && {
        &&& envelope_from_ctx(v.osc_cost_version, v.account_id, v.read_date_rfc3339, v.region, ctx)
        &&& opt_text(v.resource_id) == Some(id)
        &&& v.price_per_hour == Some(rate)
        &&& v.price_per_month is None
    }
}

/// Appends one VPN connection resource per identifier at the flat
/// connection rate; appends nothing when the catalog lacks the rate.
pub fn fill_resource_vpns(
    ctx: &Context,
    vpns: &Vec<String>,
    catalog: &Catalog,
    resources: &mut Resources,
)
    ensures
        forall|k: int|
            0 <= k < old(resources).resources@.len() ==> final(resources).resources@[k] == old(
                resources,
            ).resources@[k],
        catalog_price(catalog@, vpn_connection_key()) is None ==> final(resources).resources@
            == old(resources).resources@,
        (match catalog_price(catalog@, vpn_connection_key()) {
            Some(rate) => {
                &&& final(resources).resources@.len() == old(resources).resources@.len()
                    + vpns@.len()
                &&& forall|k: int|
                    0 <= k < vpns@.len() ==> vpn_built_ok(
                        #[trigger] final(resources).resources@[old(resources).resources@.len()
                            + k],
                        *ctx,
                        strs_view(vpns@)[k],
                        rate,
                    )
            },
            None => true,
        }),
{
    let rate = match catalog.lookup("TinaOS-FCU", "ConnectionUsage", "CreateVpnConnection") {
        Some(rate) => rate,
        None => {
            return ;
        },
    };
    let ghost base = resources.resources@;
    let n = vpns.len();
    let mut i: usize = 0;
    while i < n
        invariant
            i <= n,
            n == vpns@.len(),
            resources.resources@.len() == base.len() + i,
            forall|k: int| 0 <= k < base.len() ==> resources.resources@[k] == base[k],
            forall|k: int|
                0 <= k < i ==> vpn_built_ok(
                    #[trigger] resources.resources@[base.len() + k],
                    *ctx,
                    strs_view(vpns@)[k],
                    rate,
                ),
        decreases n - i,
    {
        resources.resources.push(
            Resource::Vpn(
                Vpn {
                    osc_cost_version: clone_opt_text(&ctx.osc_cost_version),
                    account_id: clone_opt_text(&ctx.account_id),
                    read_date_rfc3339: clone_opt_text(&ctx.read_date_rfc3339),
                    region: clone_opt_text(&ctx.region),
                    resource_id: Some(vpns[i].clone()),
                    price_per_hour: Some(rate),
                    price_per_month: None,
                },
            ),
        );
        i = i + 1;
    }
}

/// One raw object-storage bucket: its name and its total size in
/// micro-GB.
pub struct RawBucket {
    pub bucket_id: String,
    pub size_gb: u64,
}

/// The catalog key of the object storage per-GB-month rate.
pub open spec fn oos_storage_key() -> Seq<char> {
    composite_key("TinaOS-OOS"@, "enterprise"@, "OOSStorage"@)
}

/// What the bucket resource built from one record holds.
pub open spec fn oos_built_ok(r: Resource, ctx: Context, raw: RawBucket, rate: u64) -> bool {
    r matches Resource::Oos(v) && {
        &&& envelope_from_ctx(v.osc_cost_version, v.account_id, v.read_date_rfc3339, v.region, ctx)
        &&& opt_text(v.resource_id) == Some(raw.bucket_id@)
        &&& v.price_per_hour is None
        &&& v.price_per_month is None
        &&& v.size_gb == Some(raw.size_gb)
        &&& v.price_gb_per_month == rate
    }
}

/// What the placeholder bucket resource holds.
pub open spec fn oos_default_ok(r: Resource, ctx: Context) -> bool {
    r matches Resource::Oos(v) && {
        &&& envelope_from_ctx(v.osc_cost_version, v.account_id, v.read_date_rfc3339, v.region, ctx)
        &&& v.resource_id is None
        &&& v.price_per_hour == Some(0u64)
        &&& v.price_per_month == Some(0u64)
        &&& v.size_gb == Some(0u64)
        &&& v.price_gb_per_month == 0
    }
}

/// Appends one object-storage resource per bucket at the flat storage
/// rate; appends only the requested placeholder when the inventory is
/// empty, and nothing more when the catalog lacks the rate.
pub fn fill_resource_oos(
    ctx: &Context,
    buckets: &Vec<RawBucket>,
    catalog: &Catalog,
    need_default_resource: bool,
    resources: &mut Resources,
)
    ensures
        forall|k: int|
            0 <= k < old(resources).resources@.len() ==> final(resources).resources@[k] == old(
                resources,
            ).resources@[k],
        ({
            let d: int = if buckets@.len() == 0 && need_default_resource {
                1
            } else {
                0
            };
            let appended: int = match catalog_price(catalog@, oos_storage_key()) {
                Some(_) => buckets@.len() as int,
                None => 0,
            };
            &&& final(resources).resources@.len() == old(resources).resources@.len() + d
                + appended
            &&& (d == 1 ==> oos_default_ok(
                final(resources).resources@[old(resources).resources@.len() as int],
                *ctx,
            ))
            &&& (match catalog_price(catalog@, oos_storage_key()) {
                Some(rate) => forall|k: int|
                    0 <= k < buckets@.len() ==> oos_built_ok(
                        #[trigger] final(resources).resources@[old(resources).resources@.len() + d
                            + k],
                        *ctx,
                        buckets@[k],
                        rate,
                    ),
                None => true,
            })
        }),
{
    if buckets.len() == 0 && need_default_resource {
        resources.resources.push(
            Resource::Oos(
                Oos {
                    osc_cost_version: clone_opt_text(&ctx.osc_cost_version),
                    account_id: clone_opt_text(&ctx.account_id),
                    read_date_rfc3339: clone_opt_text(&ctx.read_date_rfc3339),
                    region: clone_opt_text(&ctx.region),
                    resource_id: None,
                    price_per_hour: Some(0),
                    price_per_month: Some(0),
                    size_gb: Some(0),
                    price_gb_per_month: 0,
                },
            ),
        );
    }
    let rate = match catalog.lookup("TinaOS-OOS", "enterprise", "OOSStorage") {
        Some(rate) => rate,
        None => {
            return ;
        },
    };
    let ghost base = resources.resources@;
    let ghost d: int = base.len() - old(resources).resources@.len();
    let n = buckets.len();
    let mut i: usize = 0;
    while i < n
        invariant
            i <= n,
            n == buckets@.len(),
            d == base.len() - old(resources).resources@.len(),
            0 <= d <= 1,
            resources.resources@.len() == base.len() + i,
            forall|k: int|
                0 <= k < old(resources).resources@.len() ==> #[trigger] resources.resources@[k]
                    == old(resources).resources@[k],
            d == 1 ==> oos_default_ok(
                resources.resources@[old(resources).resources@.len() as int],
                *ctx,
            ),
            forall|k: int|
                0 <= k < i ==> oos_built_ok(
                    #[trigger] resources.resources@[base.len() + k],
                    *ctx,
                    buckets@[k],
                    rate,
                ),
        decreases n - i,
    {
        let bucket = &buckets[i];
        resources.resources.push(
            Resource::Oos(
                Oos {
                    osc_cost_version: clone_opt_text(&ctx.osc_cost_version),
                    account_id: clone_opt_text(&ctx.account_id),
                    read_date_rfc3339: clone_opt_text(&ctx.read_date_rfc3339),
                    region: clone_opt_text(&ctx.region),
                    resource_id: Some(bucket.bucket_id.clone()),
                    price_per_hour: None,
                    price_per_month: None,
                    size_gb: Some(bucket.size_gb),
                    price_gb_per_month: rate,
                },
            ),
        );
        i = i + 1;
    }
}

/// The catalog key of the dedicated-instance surcharge rate.
pub open spec fn dedicated_instance_key() -> Seq<char> {
    composite_key("TinaOS-FCU"@, "UseDedicated"@, "RunDedicatedInstances"@)
}

/// What the dedicated-instance resource holds.
pub open spec fn dedicated_built_ok(r: Resource, ctx: Context, rate: u64) -> bool {
    r matches Resource::DedicatedInstance(v) && {
        &&& envelope_from_ctx(v.osc_cost_version, v.account_id, v.read_date_rfc3339, v.region, ctx)
        &&& v.price_per_hour == Some(rate)
        &&& v.price_per_month is None
    }
}

/// Appends the dedicated-instance surcharge resource when dedicated
/// instances are in use and the catalog carries the rate.
pub fn fill_resource_dedicated_instances(
    ctx: &Context,
    use_dedicated_instance: bool,
    catalog: &Catalog,
    resources: &mut Resources,
)
    ensures
        forall|k: int|
            0 <= k < old(resources).resources@.len() ==> final(resources).resources@[k] == old(
                resources,
            ).resources@[k],
        (match (use_dedicated_instance, catalog_price(catalog@, dedicated_instance_key())) {
            (true, Some(rate)) => final(resources).resources@.len() == old(
                resources,
            ).resources@.len() + 1 && dedicated_built_ok(
                final(resources).resources@.last(),
                *ctx,
                rate,
            ),
            _ => final(resources).resources@ == old(resources).resources@,
        }),
{
    if use_dedicated_instance {
        match catalog.lookup("TinaOS-FCU", "UseDedicated", "RunDedicatedInstances") {
            Some(rate) => {
                resources.resources.push(
                    Resource::DedicatedInstance(
                        DedicatedInstance {
                            osc_cost_version: clone_opt_text(&ctx.osc_cost_version),
                            account_id: clone_opt_text(&ctx.account_id),
                            read_date_rfc3339: clone_opt_text(&ctx.read_date_rfc3339),
                            region: clone_opt_text(&ctx.region),
                            price_per_hour: Some(rate),
                            price_per_month: None,
                        },
                    ),
                );
            },
            None => {},
        }
    }
}

} // verus!


