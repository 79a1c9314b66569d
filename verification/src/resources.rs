//! The priced resource kinds, their price formulas, and the resource
//! collection with its cost totals.
//!
//! A resource only carries a price after a successful `compute()`; the
//! formulas follow one of two shapes: hourly-denominated kinds derive
//! the monthly price as `hour * HOURS_PER_MONTH`, monthly-denominated
//! kinds (volumes, snapshots, object storage) derive the hourly price
//! as `month / HOURS_PER_MONTH`, truncating.
use vstd::prelude::*;

use crate::pricing::HOURS_PER_MONTH;
use crate::pricing::mul_scaled;

verus! {

/// Error raised when a price is read before `compute()` set it, or when
/// `compute()` runs on a resource whose mandatory fields were never
/// resolved.
#[derive(Clone, Copy, Debug, PartialEq, Eq, Structural)]
pub enum ResourceError {
    NotComputed,
}

impl ResourceError {
    /// A human-readable description of the error.
    pub fn message(&self) -> (r: &'static str)
        ensures
            r@ == "resource price is not computed yet"@,
    {
        "resource price is not computed yet"
    }
}

/// A virtual machine with its resolved shape and unit prices.
#[derive(Clone)]
pub struct Vm {
    pub osc_cost_version: Option<String>,
    pub account_id: Option<String>,
    pub read_date_rfc3339: Option<String>,
    pub region: Option<String>,
    pub resource_id: Option<String>,
    pub price_per_hour: Option<u64>,
    pub price_per_month: Option<u64>,
    pub vm_type: Option<String>,
    pub vm_vcpu_gen: Option<String>,
    pub vm_core_performance: Option<String>,
    pub vm_image: Option<String>,
    pub vm_vcpu: u64,
    pub vm_ram_gb: u64,
    pub price_vcpu_per_hour: u64,
    pub price_ram_gb_per_hour: u64,
    pub price_box_per_hour: u64,
    pub price_license_per_ram_gb_per_hour: u64,
    pub price_license_per_cpu_per_hour: u64,
    pub price_license_per_vm_per_hour: u64,
    pub license_codes: String,
}

impl Vm {
    /// The hourly price of the machine: shape rates, license addends and
    /// the flat box rate.
    pub open spec fn hour_cost(self) -> int {
        self.vm_vcpu * self.price_vcpu_per_hour + self.vm_ram_gb * self.price_ram_gb_per_hour
            + self.vm_vcpu * self.price_license_per_cpu_per_hour
            + self.vm_ram_gb * self.price_license_per_ram_gb_per_hour
            + self.price_license_per_vm_per_hour + self.price_box_per_hour
    }

    /// Applies the price formula; every field the formula needs is
    /// non-optional, so this always succeeds.
    pub fn compute(&mut self) -> (r: Result<(), ResourceError>)
        requires
            old(self).hour_cost() * HOURS_PER_MONTH <= u64::MAX,
        ensures
            r is Ok,
            *final(self) == (Vm {
                price_per_hour: Some(old(self).hour_cost() as u64),
                price_per_month: Some((old(self).hour_cost() * HOURS_PER_MONTH) as u64),
                ..*old(self)
            }),
    {
        proof {
            crate::pricing::lemma_mul_nonneg(self.vm_vcpu as int, self.price_vcpu_per_hour as int);
            crate::pricing::lemma_mul_nonneg(
                self.vm_ram_gb as int,
                self.price_ram_gb_per_hour as int,
            );
            crate::pricing::lemma_mul_nonneg(
                self.vm_vcpu as int,
                self.price_license_per_cpu_per_hour as int,
            );
            crate::pricing::lemma_mul_nonneg(
                self.vm_ram_gb as int,
                self.price_license_per_ram_gb_per_hour as int,
            );
        }
        let mut price_per_hour: u64 = self.vm_vcpu * self.price_vcpu_per_hour;
        price_per_hour = price_per_hour + self.vm_ram_gb * self.price_ram_gb_per_hour;
        price_per_hour = price_per_hour + self.vm_vcpu * self.price_license_per_cpu_per_hour;
        price_per_hour = price_per_hour + self.vm_ram_gb * self.price_license_per_ram_gb_per_hour;
        price_per_hour = price_per_hour + self.price_license_per_vm_per_hour;
        price_per_hour = price_per_hour + self.price_box_per_hour;
        self.price_per_hour = Some(price_per_hour);
        self.price_per_month = Some(price_per_hour * HOURS_PER_MONTH);
        Ok(())
    }

    /// The hourly price, or an error when `compute()` has not run yet.
    pub fn price_per_hour(&self) -> (r: Result<u64, ResourceError>)
        ensures
            r == (match self.price_per_hour {
                Some(p) => Result::<u64, ResourceError>::Ok(p),
                None => Result::<u64, ResourceError>::Err(ResourceError::NotComputed),
            }),
    {
        match self.price_per_hour {
            Some(price) => Ok(price),
            None => Err(ResourceError::NotComputed),
        }
    }
}

/// A block storage volume, priced per GiB-month and, for `io1`, per
/// provisioned IOPS-month.
#[derive(Clone)]
pub struct Volume {
    pub osc_cost_version: Option<String>,
    pub account_id: Option<String>,
    pub read_date_rfc3339: Option<String>,
    pub region: Option<String>,
    pub resource_id: Option<String>,
    pub price_per_hour: Option<u64>,
    pub price_per_month: Option<u64>,
    pub volume_type: Option<String>,
    pub volume_size: Option<u64>,
    pub volume_iops: Option<u64>,
    pub price_gb_per_month: u64,
    pub price_iops_per_month: u64,
}

impl Volume {
    /// True when the mandatory shape fields were resolved.
    pub open spec fn can_compute(self) -> bool {
        self.volume_size is Some && self.volume_iops is Some
    }

    /// The monthly price: size and provisioned IOPS at their monthly
    /// unit rates.
    pub open spec fn month_cost(self) -> int {
        self.volume_size->0 * self.price_gb_per_month + self.volume_iops->0
            * self.price_iops_per_month
    }

    /// Applies the price formula; errors if resolution never filled the
    /// mandatory size fields.
    pub fn compute(&mut self) -> (r: Result<(), ResourceError>)
        requires
            old(self).can_compute() ==> old(self).month_cost() <= u64::MAX,
        ensures
            old(self).can_compute() ==> r is Ok && *final(self) == (Volume {
                price_per_hour: Some((old(self).month_cost() / HOURS_PER_MONTH as int) as u64),
                price_per_month: Some(old(self).month_cost() as u64),
                ..*old(self)
            }),
            !old(self).can_compute() ==> r is Err && *final(self) == *old(self),
    {
        let (size, iops) = match (self.volume_size, self.volume_iops) {
            (Some(size), Some(iops)) => (size, iops),
            _ => {
                return Err(ResourceError::NotComputed);
            },
        };
        proof {
            crate::pricing::lemma_mul_nonneg(size as int, self.price_gb_per_month as int);
            crate::pricing::lemma_mul_nonneg(iops as int, self.price_iops_per_month as int);
        }
        let mut price_per_month: u64 = size * self.price_gb_per_month;
        price_per_month = price_per_month + iops * self.price_iops_per_month;
        self.price_per_hour = Some(price_per_month / HOURS_PER_MONTH);
        self.price_per_month = Some(price_per_month);
        Ok(())
    }

    /// The hourly price, or an error when `compute()` has not run yet.
    pub fn price_per_hour(&self) -> (r: Result<u64, ResourceError>)
        ensures
            r == (match self.price_per_hour {
                Some(p) => Result::<u64, ResourceError>::Ok(p),
                None => Result::<u64, ResourceError>::Err(ResourceError::NotComputed),
            }),
    {
        match self.price_per_hour {
            Some(price) => Ok(price),
            None => Err(ResourceError::NotComputed),
        }
    }
}

/// A public IP address; exactly one of the three rate fields is
/// populated upstream according to its attachment state.
#[derive(Clone)]
pub struct PublicIp {
    pub osc_cost_version: Option<String>,
    pub account_id: Option<String>,
    pub read_date_rfc3339: Option<String>,
    pub region: Option<String>,
    pub resource_id: Option<String>,
    pub price_per_hour: Option<u64>,
    pub price_per_month: Option<u64>,
    pub price_non_attached: Option<u64>,
    pub price_first_ip: Option<u64>,
    pub price_next_ips: Option<u64>,
}

impl PublicIp {
    /// The hourly price: whichever single attachment-state rate was
    /// populated, or zero when none was.
    pub open spec fn hour_cost(self) -> int {
        if self.price_non_attached is Some {
            self.price_non_attached->0 as int
        } else if self.price_first_ip is Some {
            self.price_first_ip->0 as int
        } else if self.price_next_ips is Some {
            self.price_next_ips->0 as int
        } else {
            0
        }
    }

    /// Applies the price formula; always succeeds.
    pub fn compute(&mut self) -> (r: Result<(), ResourceError>)
        requires
            old(self).hour_cost() * HOURS_PER_MONTH <= u64::MAX,
        ensures
            r is Ok,
            *final(self) == (PublicIp {
                price_per_hour: Some(old(self).hour_cost() as u64),
                price_per_month: Some((old(self).hour_cost() * HOURS_PER_MONTH) as u64),
                ..*old(self)
            }),
    {
        let price_per_hour: u64 = if let Some(price) = self.price_non_attached {
            price
        } else if let Some(price) = self.price_first_ip {
            price
        } else if let Some(price) = self.price_next_ips {
            price
        } else {
            0
        };
        self.price_per_hour = Some(price_per_hour);
        self.price_per_month = Some(price_per_hour * HOURS_PER_MONTH);
        Ok(())
    }

    /// The hourly price, or an error when `compute()` has not run yet.
    pub fn price_per_hour(&self) -> (r: Result<u64, ResourceError>)
        ensures
            r == (match self.price_per_hour {
                Some(p) => Result::<u64, ResourceError>::Ok(p),
                None => Result::<u64, ResourceError>::Err(ResourceError::NotComputed),
            }),
    {
        match self.price_per_hour {
            Some(price) => Ok(price),
            None => Err(ResourceError::NotComputed),
        }
    }
}

/// A volume snapshot, priced per GiB-month on the size of its source
/// volume (an over-estimate by design).
#[derive(Clone)]
pub struct Snapshot {
    pub osc_cost_version: Option<String>,
    pub account_id: Option<String>,
    pub read_date_rfc3339: Option<String>,
    pub region: Option<String>,
    pub resource_id: Option<String>,
    pub price_per_hour: Option<u64>,
    pub price_per_month: Option<u64>,
    pub volume_size_gib: Option<u64>,
    pub price_gb_per_month: u64,
}

impl Snapshot {
    /// True when the mandatory size field was resolved.
    pub open spec fn can_compute(self) -> bool {
        self.volume_size_gib is Some
    }

    /// The monthly price: source volume size at the monthly unit rate.
    pub open spec fn month_cost(self) -> int {
        self.volume_size_gib->0 * self.price_gb_per_month
    }

    /// Applies the price formula; errors if resolution never filled the
    /// mandatory size field.
    pub fn compute(&mut self) -> (r: Result<(), ResourceError>)
        requires
            old(self).can_compute() ==> old(self).month_cost() <= u64::MAX,
        ensures
            old(self).can_compute() ==> r is Ok && *final(self) == (Snapshot {
                price_per_hour: Some((old(self).month_cost() / HOURS_PER_MONTH as int) as u64),
                price_per_month: Some(old(self).month_cost() as u64),
                ..*old(self)
            }),
            !old(self).can_compute() ==> r is Err && *final(self) == *old(self),
    {
        let size = match self.volume_size_gib {
            Some(size) => size,
            None => {
                return Err(ResourceError::NotComputed);
            },
        };
        proof {
            crate::pricing::lemma_mul_nonneg(size as int, self.price_gb_per_month as int);
        }
        let price_per_month: u64 = size * self.price_gb_per_month;
        self.price_per_hour = Some(price_per_month / HOURS_PER_MONTH);
        self.price_per_month = Some(price_per_month);
        Ok(())
    }

    /// The hourly price, or an error when `compute()` has not run yet.
    pub fn price_per_hour(&self) -> (r: Result<u64, ResourceError>)
        ensures
            r == (match self.price_per_hour {
                Some(p) => Result::<u64, ResourceError>::Ok(p),
                None => Result::<u64, ResourceError>::Err(ResourceError::NotComputed),
            }),
    {
        match self.price_per_hour {
            Some(price) => Ok(price),
            None => Err(ResourceError::NotComputed),
        }
    }
}

/// A NAT gateway, a flat hourly-rate resource.
#[derive(Clone)]
pub struct NatServices {
    pub osc_cost_version: Option<String>,
    pub account_id: Option<String>,
    pub read_date_rfc3339: Option<String>,
    pub region: Option<String>,
    pub resource_id: Option<String>,
    pub price_product_per_nat_service_per_hour: Option<u64>,
    pub price_per_hour: Option<u64>,
    pub price_per_month: Option<u64>,
}

impl NatServices {
    /// The hourly price: the flat gateway rate, or zero when the
    /// catalog had none.
    pub open spec fn hour_cost(self) -> int {
        match self.price_product_per_nat_service_per_hour {
            Some(p) => p as int,
            None => 0,
        }
    }

    /// Applies the price formula; always succeeds.
    pub fn compute(&mut self) -> (r: Result<(), ResourceError>)
        requires
            old(self).hour_cost() * HOURS_PER_MONTH <= u64::MAX,
        ensures
            r is Ok,
            *final(self) == (NatServices {
                price_per_hour: Some(old(self).hour_cost() as u64),
                price_per_month: Some((old(self).hour_cost() * HOURS_PER_MONTH) as u64),
                ..*old(self)
            }),
    {
        let price_per_hour: u64 = match self.price_product_per_nat_service_per_hour {
            Some(price) => price,
            None => 0,
        };
        self.price_per_hour = Some(price_per_hour);
        self.price_per_month = Some(price_per_hour * HOURS_PER_MONTH);
        Ok(())
    }

    /// The hourly price, or an error when `compute()` has not run yet.
    pub fn price_per_hour(&self) -> (r: Result<u64, ResourceError>)
        ensures
            r == (match self.price_per_hour {
                Some(p) => Result::<u64, ResourceError>::Ok(p),
                None => Result::<u64, ResourceError>::Err(ResourceError::NotComputed),
            }),
    {
        match self.price_per_hour {
            Some(price) => Ok(price),
            None => Err(ResourceError::NotComputed),
        }
    }
}

/// A flexible GPU, a flat hourly-rate resource whose rate was resolved
/// from an attachment-state-dependent catalog key.
#[derive(Clone)]
pub struct FlexibleGpu {
    pub osc_cost_version: Option<String>,
    pub account_id: Option<String>,
    pub read_date_rfc3339: Option<String>,
    pub region: Option<String>,
    pub resource_id: Option<String>,
    pub price_per_hour: Option<u64>,
    pub price_per_month: Option<u64>,
    pub model_name: Option<String>,
}

impl FlexibleGpu {
    /// The hourly price, taking an unresolved rate as zero.
    pub open spec fn hour_cost(self) -> int {
        match self.price_per_hour {
            Some(p) => p as int,
            None => 0,
        }
    }

    /// Derives the monthly price from the hourly one (zero when the
    /// hourly price is absent); always succeeds and leaves the hourly
    /// price as it was.
    pub fn compute(&mut self) -> (r: Result<(), ResourceError>)
        requires
            old(self).hour_cost() * HOURS_PER_MONTH <= u64::MAX,
        ensures
            r is Ok,
            *final(self) == (FlexibleGpu {
                price_per_month: Some((old(self).hour_cost() * HOURS_PER_MONTH) as u64),
                ..*old(self)
            }),
    {
        let hour: u64 = match self.price_per_hour {
            Some(price) => price,
            None => 0,
        };
        self.price_per_month = Some(hour * HOURS_PER_MONTH);
        Ok(())
    }

    /// The hourly price, or an error when resolution never set it.
    pub fn price_per_hour(&self) -> (r: Result<u64, ResourceError>)
        ensures
            r == (match self.price_per_hour {
                Some(p) => Result::<u64, ResourceError>::Ok(p),
                None => Result::<u64, ResourceError>::Err(ResourceError::NotComputed),
            }),
    {
        match self.price_per_hour {
            Some(price) => Ok(price),
            None => Err(ResourceError::NotComputed),
        }
    }
}

/// A load balancer, a flat hourly-rate resource.
#[derive(Clone)]
pub struct LoadBalancer {
    pub osc_cost_version: Option<String>,
    pub account_id: Option<String>,
    pub read_date_rfc3339: Option<String>,
    pub region: Option<String>,
    pub resource_id: Option<String>,
    pub price_per_hour: Option<u64>,
    pub price_per_month: Option<u64>,
}

impl LoadBalancer {
    /// True when resolution set the hourly rate.
    pub open spec fn can_compute(self) -> bool {
        self.price_per_hour is Some
    }

    /// Derives the monthly price from the hourly one; errors if
    /// resolution never set the hourly rate.
    pub fn compute(&mut self) -> (r: Result<(), ResourceError>)
        requires
            old(self).can_compute() ==> old(self).price_per_hour->0 * HOURS_PER_MONTH <= u64::MAX,
        ensures
            old(self).can_compute() ==> r is Ok && *final(self) == (LoadBalancer {
                price_per_month: Some((old(self).price_per_hour->0 * HOURS_PER_MONTH) as u64),
                ..*old(self)
            }),
            !old(self).can_compute() ==> r is Err && *final(self) == *old(self),
    {
        let hour = match self.price_per_hour {
            Some(price) => price,
            None => {
                return Err(ResourceError::NotComputed);
            },
        };
        self.price_per_month = Some(hour * HOURS_PER_MONTH);
        Ok(())
    }

    /// The hourly price, or an error when resolution never set it.
    pub fn price_per_hour(&self) -> (r: Result<u64, ResourceError>)
        ensures
            r == (match self.price_per_hour {
                Some(p) => Result::<u64, ResourceError>::Ok(p),
                None => Result::<u64, ResourceError>::Err(ResourceError::NotComputed),
            }),
    {
        match self.price_per_hour {
            Some(price) => Ok(price),
            None => Err(ResourceError::NotComputed),
        }
    }
}

/// A VPN connection, a flat hourly-rate resource.
#[derive(Clone)]
pub struct Vpn {
    pub osc_cost_version: Option<String>,
    pub account_id: Option<String>,
    pub read_date_rfc3339: Option<String>,
    pub region: Option<String>,
    pub resource_id: Option<String>,
    pub price_per_hour: Option<u64>,
    pub price_per_month: Option<u64>,
}

impl Vpn {
    /// True when resolution set the hourly rate.
    pub open spec fn can_compute(self) -> bool {
        self.price_per_hour is Some
    }

    /// Derives the monthly price from the hourly one; errors if
    /// resolution never set the hourly rate.
    pub fn compute(&mut self) -> (r: Result<(), ResourceError>)
        requires
            old(self).can_compute() ==> old(self).price_per_hour->0 * HOURS_PER_MONTH <= u64::MAX,
        ensures
            old(self).can_compute() ==> r is Ok && *final(self) == (Vpn {
                price_per_month: Some((old(self).price_per_hour->0 * HOURS_PER_MONTH) as u64),
                ..*old(self)
            }),
            !old(self).can_compute() ==> r is Err && *final(self) == *old(self),
    {
        let hour = match self.price_per_hour {
            Some(price) => price,
            None => {
                return Err(ResourceError::NotComputed);
            },
        };
        self.price_per_month = Some(hour * HOURS_PER_MONTH);
        Ok(())
    }

    /// The hourly price, or an error when resolution never set it.
    pub fn price_per_hour(&self) -> (r: Result<u64, ResourceError>)
        ensures
            r == (match self.price_per_hour {
                Some(p) => Result::<u64, ResourceError>::Ok(p),
                None => Result::<u64, ResourceError>::Err(ResourceError::NotComputed),
            }),
    {
        match self.price_per_hour {
            Some(price) => Ok(price),
            None => Err(ResourceError::NotComputed),
        }
    }
}

/// An object storage bucket, priced per GB-month; the size is carried
/// in micro-GB since bucket sizes are fractional.
#[derive(Clone)]
pub struct Oos {
    pub osc_cost_version: Option<String>,
    pub account_id: Option<String>,
    pub read_date_rfc3339: Option<String>,
    pub region: Option<String>,
    pub resource_id: Option<String>,
    pub price_per_hour: Option<u64>,
    pub price_per_month: Option<u64>,
    pub size_gb: Option<u64>,
    pub price_gb_per_month: u64,
}

impl Oos {
    /// True when the mandatory size field was resolved.
    pub open spec fn can_compute(self) -> bool {
        self.size_gb is Some
    }

    /// The monthly price: the micro-GB size at the monthly unit rate,
    /// scaled back down to micros.
    pub open spec fn month_cost(self) -> int {
        mul_scaled(self.size_gb->0 as int, self.price_gb_per_month as int)
    }

    /// Applies the price formula; errors if resolution never filled the
    /// mandatory size field.
    pub fn compute(&mut self) -> (r: Result<(), ResourceError>)
        requires
            old(self).can_compute() ==> old(self).month_cost() <= u64::MAX,
        ensures
            old(self).can_compute() ==> r is Ok && *final(self) == (Oos {
                price_per_hour: Some((old(self).month_cost() / HOURS_PER_MONTH as int) as u64),
                price_per_month: Some(old(self).month_cost() as u64),
                ..*old(self)
            }),
            !old(self).can_compute() ==> r is Err && *final(self) == *old(self),
    {
        let size = match self.size_gb {
            Some(size) => size,
            None => {
                return Err(ResourceError::NotComputed);
            },
        };
        let price_per_month: u64 = crate::pricing::mul_scaled_u64(size, self.price_gb_per_month);
        self.price_per_hour = Some(price_per_month / HOURS_PER_MONTH);
        self.price_per_month = Some(price_per_month);
        Ok(())
    }

    /// The hourly price, or an error when `compute()` has not run yet.
    pub fn price_per_hour(&self) -> (r: Result<u64, ResourceError>)
        ensures
            r == (match self.price_per_hour {
                Some(p) => Result::<u64, ResourceError>::Ok(p),
                None => Result::<u64, ResourceError>::Err(ResourceError::NotComputed),
            }),
    {
        match self.price_per_hour {
            Some(price) => Ok(price),
            None => Err(ResourceError::NotComputed),
        }
    }
}

/// A dedicated-instance surcharge, a flat hourly-rate resource.
#[derive(Clone)]
pub struct DedicatedInstance {
    pub osc_cost_version: Option<String>,
    pub account_id: Option<String>,
    pub read_date_rfc3339: Option<String>,
    pub region: Option<String>,
    pub price_per_hour: Option<u64>,
    pub price_per_month: Option<u64>,
}

impl DedicatedInstance {
    /// True when resolution set the hourly rate.
    pub open spec fn can_compute(self) -> bool {
        self.price_per_hour is Some
    }

    /// Derives the monthly price from the hourly one; errors if
    /// resolution never set the hourly rate.
    pub fn compute(&mut self) -> (r: Result<(), ResourceError>)
        requires
            old(self).can_compute() ==> old(self).price_per_hour->0 * HOURS_PER_MONTH <= u64::MAX,
        ensures
            old(self).can_compute() ==> r is Ok && *final(self) == (DedicatedInstance {
                price_per_month: Some((old(self).price_per_hour->0 * HOURS_PER_MONTH) as u64),
                ..*old(self)
            }),
            !old(self).can_compute() ==> r is Err && *final(self) == *old(self),
    {
        let hour = match self.price_per_hour {
            Some(price) => price,
            None => {
                return Err(ResourceError::NotComputed);
            },
        };
        self.price_per_month = Some(hour * HOURS_PER_MONTH);
        Ok(())
    }

    /// The hourly price, or an error when resolution never set it.
    pub fn price_per_hour(&self) -> (r: Result<u64, ResourceError>)
        ensures
            r == (match self.price_per_hour {
                Some(p) => Result::<u64, ResourceError>::Ok(p),
                None => Result::<u64, ResourceError>::Err(ResourceError::NotComputed),
            }),
    {
        match self.price_per_hour {
            Some(price) => Ok(price),
            None => Err(ResourceError::NotComputed),
        }
    }
}

/// A per-category roll-up of priced resources.
#[derive(Clone)]
pub struct Aggregate {
    pub osc_cost_version: Option<String>,
    pub account_id: Option<String>,
    pub read_date_rfc3339: Option<String>,
    pub region: Option<String>,
    pub price_per_hour: Option<u64>,
    pub price_per_month: Option<u64>,
    pub aggregated_resource_type: String,
    pub count: u64,
}

impl Aggregate {
    /// An aggregate is already summed, so computing is a no-op.
    pub fn compute(&mut self) -> (r: Result<(), ResourceError>)
        ensures
            r is Ok,
            *final(self) == *old(self),
    {
        Ok(())
    }

    /// The hourly price, or an error when the category never carried
    /// one.
    pub fn price_per_hour(&self) -> (r: Result<u64, ResourceError>)
        ensures
            r == (match self.price_per_hour {
                Some(p) => Result::<u64, ResourceError>::Ok(p),
                None => Result::<u64, ResourceError>::Err(ResourceError::NotComputed),
            }),
    {
        match self.price_per_hour {
            Some(price) => Ok(price),
            None => Err(ResourceError::NotComputed),
        }
    }
}

/// One cloud asset, or a rolled-up per-category aggregate.
#[derive(Clone)]
pub enum Resource {
    Vm(Vm),
    Volume(Volume),
    PublicIp(PublicIp),
    Snapshot(Snapshot),
    NatServices(NatServices),
    Aggregate(Aggregate),
    FlexibleGpu(FlexibleGpu),
    LoadBalancer(LoadBalancer),
    Vpn(Vpn),
    Oos(Oos),
    DedicatedInstance(DedicatedInstance),
}

impl Resource {
    /// True when `compute()` would succeed: every field its formula
    /// needs was resolved.
    pub open spec fn can_compute(self) -> bool {
        match self {
            Resource::Vm(_) => true,
            Resource::Volume(v) => v.can_compute(),
            Resource::PublicIp(_) => true,
            Resource::Snapshot(s) => s.can_compute(),
            Resource::NatServices(_) => true,
            Resource::Aggregate(_) => true,
            Resource::FlexibleGpu(_) => true,
            Resource::LoadBalancer(l) => l.can_compute(),
            Resource::Vpn(v) => v.can_compute(),
            Resource::Oos(o) => o.can_compute(),
            Resource::DedicatedInstance(d) => d.can_compute(),
        }
    }

    /// True when the prices this resource's formula yields fit in the
    /// price type.
    pub open spec fn fits(self) -> bool {
        match self {
            Resource::Vm(v) => v.hour_cost() * HOURS_PER_MONTH <= u64::MAX,
            Resource::Volume(v) => v.can_compute() ==> v.month_cost() <= u64::MAX,
            Resource::PublicIp(p) => p.hour_cost() * HOURS_PER_MONTH <= u64::MAX,
            Resource::Snapshot(s) => s.can_compute() ==> s.month_cost() <= u64::MAX,
            Resource::NatServices(n) => n.hour_cost() * HOURS_PER_MONTH <= u64::MAX,
            Resource::Aggregate(_) => true,
            Resource::FlexibleGpu(g) => g.hour_cost() * HOURS_PER_MONTH <= u64::MAX,
            Resource::LoadBalancer(l) => l.can_compute() ==> l.price_per_hour->0 * HOURS_PER_MONTH
                <= u64::MAX,
            Resource::Vpn(v) => v.can_compute() ==> v.price_per_hour->0 * HOURS_PER_MONTH
                <= u64::MAX,
            Resource::Oos(o) => o.can_compute() ==> o.month_cost() <= u64::MAX,
            Resource::DedicatedInstance(d) => d.can_compute() ==> d.price_per_hour->0
                * HOURS_PER_MONTH <= u64::MAX,
        }
    }

    /// The resource after a successful `compute()`.
    pub open spec fn computed(self) -> Resource {
        match self {
            Resource::Vm(v) => Resource::Vm(
                Vm {
                    price_per_hour: Some(v.hour_cost() as u64),
                    price_per_month: Some((v.hour_cost() * HOURS_PER_MONTH) as u64),
                    ..v
                },
            ),
            Resource::Volume(v) => Resource::Volume(
                Volume {
                    price_per_hour: Some((v.month_cost() / HOURS_PER_MONTH as int) as u64),
                    price_per_month: Some(v.month_cost() as u64),
                    ..v
                },
            ),
            Resource::PublicIp(p) => Resource::PublicIp(
                PublicIp {
                    price_per_hour: Some(p.hour_cost() as u64),
                    price_per_month: Some((p.hour_cost() * HOURS_PER_MONTH) as u64),
                    ..p
                },
            ),
            Resource::Snapshot(s) => Resource::Snapshot(
                Snapshot {
                    price_per_hour: Some((s.month_cost() / HOURS_PER_MONTH as int) as u64),
                    price_per_month: Some(s.month_cost() as u64),
                    ..s
                },
            ),
            Resource::NatServices(n) => Resource::NatServices(
                NatServices {
                    price_per_hour: Some(n.hour_cost() as u64),
                    price_per_month: Some((n.hour_cost() * HOURS_PER_MONTH) as u64),
                    ..n
                },
            ),
            Resource::Aggregate(a) => Resource::Aggregate(a),
            Resource::FlexibleGpu(g) => Resource::FlexibleGpu(
                FlexibleGpu { price_per_month: Some((g.hour_cost() * HOURS_PER_MONTH) as u64), ..g },
            ),
            Resource::LoadBalancer(l) => Resource::LoadBalancer(
                LoadBalancer {
                    price_per_month: Some((l.price_per_hour->0 * HOURS_PER_MONTH) as u64),
                    ..l
                },
            ),
            Resource::Vpn(v) => Resource::Vpn(
                Vpn { price_per_month: Some((v.price_per_hour->0 * HOURS_PER_MONTH) as u64), ..v },
            ),
            Resource::Oos(o) => Resource::Oos(
                Oos {
                    price_per_hour: Some((o.month_cost() / HOURS_PER_MONTH as int) as u64),
                    price_per_month: Some(o.month_cost() as u64),
                    ..o
                },
            ),
            Resource::DedicatedInstance(d) => Resource::DedicatedInstance(
                DedicatedInstance {
                    price_per_month: Some((d.price_per_hour->0 * HOURS_PER_MONTH) as u64),
                    ..d
                },
            ),
        }
    }

    /// The hourly price the resource currently carries.
    pub open spec fn hour_price(self) -> Option<u64> {
        match self {
            Resource::Vm(v) => v.price_per_hour,
            Resource::Volume(v) => v.price_per_hour,
            Resource::PublicIp(p) => p.price_per_hour,
            Resource::Snapshot(s) => s.price_per_hour,
            Resource::NatServices(n) => n.price_per_hour,
            Resource::Aggregate(a) => a.price_per_hour,
            Resource::FlexibleGpu(g) => g.price_per_hour,
            Resource::LoadBalancer(l) => l.price_per_hour,
            Resource::Vpn(v) => v.price_per_hour,
            Resource::Oos(o) => o.price_per_hour,
            Resource::DedicatedInstance(d) => d.price_per_hour,
        }
    }

    /// The monthly price the resource currently carries.
    pub open spec fn month_price(self) -> Option<u64> {
        match self {
            Resource::Vm(v) => v.price_per_month,
            Resource::Volume(v) => v.price_per_month,
            Resource::PublicIp(p) => p.price_per_month,
            Resource::Snapshot(s) => s.price_per_month,
            Resource::NatServices(n) => n.price_per_month,
            Resource::Aggregate(a) => a.price_per_month,
            Resource::FlexibleGpu(g) => g.price_per_month,
            Resource::LoadBalancer(l) => l.price_per_month,
            Resource::Vpn(v) => v.price_per_month,
            Resource::Oos(o) => o.price_per_month,
            Resource::DedicatedInstance(d) => d.price_per_month,
        }
    }

    /// Applies the price formula of whichever kind this resource is.
    pub fn compute(&mut self) -> (r: Result<(), ResourceError>)
        requires
            old(self).fits(),
        ensures
            r is Ok <==> old(self).can_compute(),
            old(self).can_compute() ==> *final(self) == old(self).computed(),
            !old(self).can_compute() ==> *final(self) == *old(self),
    {
        match self {
            Resource::Vm(vm) => vm.compute(),
            Resource::Volume(volume) => volume.compute(),
            Resource::PublicIp(pip) => pip.compute(),
            Resource::Snapshot(snapshot) => snapshot.compute(),
            Resource::NatServices(nat_service) => nat_service.compute(),
            Resource::Aggregate(aggregate) => aggregate.compute(),
            Resource::FlexibleGpu(flexible_gpu) => flexible_gpu.compute(),
            Resource::LoadBalancer(load_balancer) => load_balancer.compute(),
            Resource::Vpn(vpn) => vpn.compute(),
            Resource::Oos(oos) => oos.compute(),
            Resource::DedicatedInstance(dedicated_instance) => dedicated_instance.compute(),
        }
    }

    /// The hourly price, or an error when the resource is not computed.
    pub fn price_per_hour(&self) -> (r: Result<u64, ResourceError>)
        ensures
            r == (match self.hour_price() {
                Some(p) => Result::<u64, ResourceError>::Ok(p),
                None => Result::<u64, ResourceError>::Err(ResourceError::NotComputed),
            }),
    {
        match self {
            Resource::Vm(vm) => vm.price_per_hour(),
            Resource::Volume(volume) => volume.price_per_hour(),
            Resource::PublicIp(pip) => pip.price_per_hour(),
            Resource::Snapshot(snapshot) => snapshot.price_per_hour(),
            Resource::NatServices(nat_service) => nat_service.price_per_hour(),
            Resource::Aggregate(aggregate) => aggregate.price_per_hour(),
            Resource::FlexibleGpu(flexible_gpu) => flexible_gpu.price_per_hour(),
            Resource::LoadBalancer(load_balancer) => load_balancer.price_per_hour(),
            Resource::Vpn(vpn) => vpn.price_per_hour(),
            Resource::Oos(oos) => oos.price_per_hour(),
            Resource::DedicatedInstance(dedicated_instance) => dedicated_instance.price_per_hour(),
        }
    }
}

/// The sum of the hourly prices a sequence of resources carries, an
/// absent price counting as zero.
pub open spec fn sum_hour_prices(s: Seq<Resource>) -> int
    decreases s.len(),
{
    if s.len() == 0 {
        0
    } else {
        sum_hour_prices(s.drop_last()) + (match s.last().hour_price() {
            Some(p) => p as int,
            None => 0,
        })
    }
}

/// Every term of the hourly-price sum is nonnegative, so the sum over
/// a prefix never exceeds the sum over the whole sequence.
pub proof fn lemma_sum_hour_prices_prefix(s: Seq<Resource>, i: int)
    requires
        0 <= i <= s.len(),
    ensures
        sum_hour_prices(s.take(i)) <= sum_hour_prices(s),
        0 <= sum_hour_prices(s.take(i)),
    decreases s.len() - i,
{
    if i == s.len() {
        assert(s.take(i) =~= s);
        lemma_sum_hour_prices_nonneg(s);
    } else {
        assert(s.take(i + 1).drop_last() =~= s.take(i));
        lemma_sum_hour_prices_prefix(s, i + 1);
        lemma_sum_hour_prices_nonneg(s.take(i));
    }
}

/// The hourly-price sum is nonnegative.
pub proof fn lemma_sum_hour_prices_nonneg(s: Seq<Resource>)
    ensures
        0 <= sum_hour_prices(s),
    decreases s.len(),
{
    if s.len() > 0 {
        lemma_sum_hour_prices_nonneg(s.drop_last());
    }
}

/// The collection of resources a run works on.
pub struct Resources {
    pub resources: Vec<Resource>,
}

impl Resources {
    /// Applies the price formula to every resource, stopping at the
    /// first one whose mandatory fields were never resolved.
    pub fn compute(&mut self) -> (r: Result<(), ResourceError>)
        requires
            forall|i: int|
                0 <= i < old(self).resources@.len() ==> (#[trigger] old(
                    self,
                ).resources@[i]).fits(),
        ensures
            final(self).resources@.len() == old(self).resources@.len(),
            (r is Ok) <==> (forall|i: int|
                0 <= i < old(self).resources@.len() ==> (#[trigger] old(
                    self,
                ).resources@[i]).can_compute()),
            r is Ok ==> (forall|i: int|
                0 <= i < old(self).resources@.len() ==> final(self).resources@[i] == (
                #[trigger] old(self).resources@[i]).computed()),
            r is Err ==> (exists|k: int|
                {
                    &&& 0 <= k < old(self).resources@.len()
                    &&& !(#[trigger] old(self).resources@[k]).can_compute()
                    &&& (forall|j: int|
                        0 <= j < k ==> final(self).resources@[j] == (#[trigger] old(
                            self,
                        ).resources@[j]).computed())
                    &&& (forall|j: int|
                        k <= j < old(self).resources@.len() ==> final(self).resources@[j] == old(
                            self,
                        ).resources@[j])
                }),
    {
        let n = self.resources.len();
        let mut i: usize = 0;
        while i < n
            invariant
                i <= n,
                n == self.resources@.len(),
                n == old(self).resources@.len(),
                forall|j: int|
                    0 <= j < n ==> (#[trigger] old(self).resources@[j]).fits(),
                forall|j: int|
                    0 <= j < i ==> (#[trigger] old(self).resources@[j]).can_compute(),
                forall|j: int|
                    0 <= j < i ==> self.resources@[j] == (#[trigger] old(
                        self,
                    ).resources@[j]).computed(),
                forall|j: int|
                    i <= j < n ==> self.resources@[j] == old(self).resources@[j],
            decreases n - i,
        {
            let resource = &mut self.resources[i];
            let res = resource.compute();
            match res {
                Ok(()) => {},
                Err(e) => {
                    proof {
                        let k = i as int;
                        assert(!old(self).resources@[k].can_compute());
                    }
                    return Err(e);
                },
            }
            i = i + 1;
        }
        Ok(())
    }

    /// The total hourly cost of the collection; errs if any resource is
    /// not computed yet.
    pub fn cost_per_hour(&self) -> (r: Result<u64, ResourceError>)
        requires
            sum_hour_prices(self.resources@) <= u64::MAX,
        ensures
            (r is Ok) <==> (forall|i: int|
                0 <= i < self.resources@.len() ==> (#[trigger] self.resources@[i]).hour_price()
                    is Some),
            r is Ok ==> r->Ok_0 == sum_hour_prices(self.resources@),
            r is Err ==> r->Err_0 == ResourceError::NotComputed,
    {
        let mut total: u64 = 0;
        let n = self.resources.len();
        let mut i: usize = 0;
        while i < n
            invariant
                i <= n,
                n == self.resources@.len(),
                sum_hour_prices(self.resources@) <= u64::MAX,
                forall|j: int|
                    0 <= j < i ==> (#[trigger] self.resources@[j]).hour_price() is Some,
                total == sum_hour_prices(self.resources@.take(i as int)),
            decreases n - i,
        {
            let price = match self.resources[i].price_per_hour() {
                Ok(price) => price,
                Err(e) => {
                    return Err(e);
                },
            };
            proof {
                assert(self.resources@.take(i + 1 as int).drop_last() =~= self.resources@.take(
                    i as int,
                ));
                lemma_sum_hour_prices_prefix(self.resources@, i + 1 as int);
            }
            total = total + price;
            i = i + 1;
        }
        proof {
            assert(self.resources@.take(n as int) =~= self.resources@);
        }
        Ok(total)
    }

    /// The total monthly cost: the hourly total at the monthly hour
    /// count.
    pub fn cost_per_month(&self) -> (r: Result<u64, ResourceError>)
        requires
            sum_hour_prices(self.resources@) * HOURS_PER_MONTH <= u64::MAX,
        ensures
            (r is Ok) <==> (forall|i: int|
                0 <= i < self.resources@.len() ==> (#[trigger] self.resources@[i]).hour_price()
                    is Some),
            r is Ok ==> r->Ok_0 == sum_hour_prices(self.resources@) * HOURS_PER_MONTH,
            r is Err ==> r->Err_0 == ResourceError::NotComputed,
    {
        proof {
            lemma_sum_hour_prices_nonneg(self.resources@);
        }
        let hour = match self.cost_per_hour() {
            Ok(hour) => hour,
            Err(e) => {
                return Err(e);
            },
        };
        Ok(hour * HOURS_PER_MONTH)
    }

    /// The total yearly cost: twelve monthly totals.
    pub fn cost_per_year(&self) -> (r: Result<u64, ResourceError>)
        requires
            sum_hour_prices(self.resources@) * HOURS_PER_MONTH * 12 <= u64::MAX,
        ensures
            (r is Ok) <==> (forall|i: int|
                0 <= i < self.resources@.len() ==> (#[trigger] self.resources@[i]).hour_price()
                    is Some),
            r is Ok ==> r->Ok_0 == sum_hour_prices(self.resources@) * HOURS_PER_MONTH * 12,
            r is Err ==> r->Err_0 == ResourceError::NotComputed,
    {
        proof {
            lemma_sum_hour_prices_nonneg(self.resources@);
        }
        let hour = match self.cost_per_hour() {
            Ok(hour) => hour,
            Err(e) => {
                return Err(e);
            },
        };
        Ok(hour * HOURS_PER_MONTH * 12)
    }
}

/// Computing is idempotent: computing an already-computed resource
/// changes nothing, so the prices a second `compute()` yields are the
/// prices the first one set.
pub proof fn lemma_compute_idempotent(r: Resource)
    ensures
        r.computed().can_compute() == r.can_compute(),
        r.computed().fits() == r.fits(),
        r.computed().computed() == r.computed(),
{
    match r {
        Resource::Vm(v) => {
            let c = (Vm {
                price_per_hour: Some(v.hour_cost() as u64),
                price_per_month: Some((v.hour_cost() * HOURS_PER_MONTH) as u64),
                ..v
            });
            assert(c.hour_cost() == v.hour_cost());
        },
        Resource::Volume(v) => {
            let c = (Volume {
                price_per_hour: Some((v.month_cost() / HOURS_PER_MONTH as int) as u64),
                price_per_month: Some(v.month_cost() as u64),
                ..v
            });
            assert(c.month_cost() == v.month_cost());
        },
        Resource::PublicIp(p) => {
            let c = (PublicIp {
                price_per_hour: Some(p.hour_cost() as u64),
                price_per_month: Some((p.hour_cost() * HOURS_PER_MONTH) as u64),
                ..p
            });
            assert(c.hour_cost() == p.hour_cost());
        },
        Resource::Snapshot(sn) => {
            let c = (Snapshot {
                price_per_hour: Some((sn.month_cost() / HOURS_PER_MONTH as int) as u64),
                price_per_month: Some(sn.month_cost() as u64),
                ..sn
            });
            assert(c.month_cost() == sn.month_cost());
        },
        Resource::NatServices(n) => {
            let c = (NatServices {
                price_per_hour: Some(n.hour_cost() as u64),
                price_per_month: Some((n.hour_cost() * HOURS_PER_MONTH) as u64),
                ..n
            });
            assert(c.hour_cost() == n.hour_cost());
        },
        Resource::Aggregate(_) => {},
        Resource::FlexibleGpu(g) => {
            let c = (FlexibleGpu {
                price_per_month: Some((g.hour_cost() * HOURS_PER_MONTH) as u64),
                ..g
            });
            assert(c.hour_cost() == g.hour_cost());
        },
        Resource::LoadBalancer(l) => {
            let c = (LoadBalancer {
                price_per_month: Some((l.price_per_hour->0 * HOURS_PER_MONTH) as u64),
                ..l
            });
            assert(c.price_per_hour == l.price_per_hour);
        },
        Resource::Vpn(v) => {
            let c = (Vpn { price_per_month: Some((v.price_per_hour->0 * HOURS_PER_MONTH) as u64), ..v });
            assert(c.price_per_hour == v.price_per_hour);
        },
        Resource::Oos(o) => {
            let c = (Oos {
                price_per_hour: Some((o.month_cost() / HOURS_PER_MONTH as int) as u64),
                price_per_month: Some(o.month_cost() as u64),
                ..o
            });
            assert(c.month_cost() == o.month_cost());
        },
        Resource::DedicatedInstance(d) => {
            let c = (DedicatedInstance {
                price_per_month: Some((d.price_per_hour->0 * HOURS_PER_MONTH) as u64),
                ..d
            });
            assert(c.price_per_hour == d.price_per_hour);
        },
    }
}

/// After `compute()`, the monthly price equals the hourly price times
/// the hours per month. For the monthly-denominated kinds the hourly
/// price is a truncating quotient, so the relation is exact only when
/// the monthly price divides evenly; a flexible GPU that never resolved
/// its hourly rate, and an aggregate (whose prices pass through
/// unchanged), carry the relation only if their inputs did.
pub proof fn lemma_month_is_hour_times_hours_per_month(r: Resource)
    requires
        r.fits(),
        r.can_compute(),
        match r {
            Resource::Volume(v) => v.month_cost() % (HOURS_PER_MONTH as int) == 0,
            Resource::Snapshot(s) => s.month_cost() % (HOURS_PER_MONTH as int) == 0,
            Resource::Oos(o) => o.month_cost() % (HOURS_PER_MONTH as int) == 0,
            Resource::FlexibleGpu(g) => g.price_per_hour is Some,
            Resource::Aggregate(a) => {
                &&& a.price_per_hour is Some
                &&& a.price_per_month is Some
                &&& a.price_per_month->0 == a.price_per_hour->0 * HOURS_PER_MONTH
            },
            _ => true,
        },
    ensures
        r.computed().hour_price() is Some,
        r.computed().month_price() is Some,
        r.computed().month_price()->0 == r.computed().hour_price()->0 * HOURS_PER_MONTH,
{
    match r {
        Resource::Vm(v) => {
            crate::pricing::lemma_mul_nonneg(v.vm_vcpu as int, v.price_vcpu_per_hour as int);
            crate::pricing::lemma_mul_nonneg(v.vm_ram_gb as int, v.price_ram_gb_per_hour as int);
            crate::pricing::lemma_mul_nonneg(
                v.vm_vcpu as int,
                v.price_license_per_cpu_per_hour as int,
            );
            crate::pricing::lemma_mul_nonneg(
                v.vm_ram_gb as int,
                v.price_license_per_ram_gb_per_hour as int,
            );
        },
        Resource::Volume(v) => {
            crate::pricing::lemma_mul_nonneg(v.volume_size->0 as int, v.price_gb_per_month as int);
            crate::pricing::lemma_mul_nonneg(v.volume_iops->0 as int, v.price_iops_per_month as int);
            lemma_exact_division(v.month_cost());
        },
        Resource::Snapshot(s) => {
            crate::pricing::lemma_mul_nonneg(
                s.volume_size_gib->0 as int,
                s.price_gb_per_month as int,
            );
            lemma_exact_division(s.month_cost());
        },
        Resource::Oos(o) => {
            crate::pricing::lemma_mul_scaled_bounds(
                o.size_gb->0 as int,
                o.price_gb_per_month as int,
            );
            lemma_exact_division(o.month_cost());
        },
        _ => {},
    }
}

/// When the divisor divides evenly, the truncated quotient recovers the
/// dividend.
proof fn lemma_exact_division(m: int)
    requires
        0 <= m,
        m % (HOURS_PER_MONTH as int) == 0,
    ensures
        (m / (HOURS_PER_MONTH as int)) * HOURS_PER_MONTH == m,
        0 <= m / (HOURS_PER_MONTH as int) <= m,
{
    vstd::arithmetic::div_mod::lemma_fundamental_div_mod(m, HOURS_PER_MONTH as int);
    vstd::arithmetic::div_mod::lemma_div_nonincreasing(m, HOURS_PER_MONTH as int);
    vstd::arithmetic::div_mod::lemma_div_pos_is_pos(m, HOURS_PER_MONTH as int);
}

} // verus!



