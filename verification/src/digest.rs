//! Billing consumption digests and the drift analysis.
//!
//! Consumption entries are classified into resource categories by a
//! fixed prefix/exact-match rule table over the composite identifier,
//! priced through the catalog (replaying the VM license math where
//! usage is reported per license or core type), and compared against
//! the aggregator's live projection over a date window.
use vstd::prelude::*;

use crate::catalog::Catalog;
use crate::pricing::mul_scaled;
use crate::resources::Resource;
use crate::resources::Resources;
use crate::strutil::composite_key;
use crate::strutil::first_index_of;
use crate::strutil::is_prefix_of;
use crate::strutil::last_index_below;
use crate::strutil::make_composite_key;
use crate::strutil::matches_at;
use crate::strutil::str_eq;
use crate::strutil::str_starts_with;
use crate::tally::distinct_keys;
use crate::tally::key_present;
use crate::tally::key_sum;
use crate::tally::total_sum;
use crate::vm_pricing::VmTypes;
use crate::vm_pricing::custom_core_key;
use crate::vm_pricing::custom_ram_key;
use crate::vm_pricing::digit_run_back;
use crate::vm_pricing::license_factor;
use crate::vm_pricing::product_usage_key;
use crate::vm_pricing::spec_parse_box;
use crate::vm_pricing::spec_parse_tina;

verus! {

/// The category a consumption identifier belongs to, by the fixed
/// rule table; identifiers matching no rule have none.
pub open spec fn spec_entry_category(id: Seq<char>) -> Option<Seq<char>> {
    if is_prefix_of("TinaOS-FCU/BoxUsage"@, id) {
        Some("Vm"@)
    } else if is_prefix_of("TinaOS-FCU/CustomCore"@, id) {
        Some("Vm"@)
    } else if is_prefix_of("TinaOS-FCU/CustomRam"@, id) {
        Some("Vm"@)
    } else if is_prefix_of("TinaOS-FCU/ProductUsage"@, id) {
        Some("Vm"@)
    } else if is_prefix_of("TinaOS-FCU/BSU"@, id) {
        Some("Volume"@)
    } else if id == "TinaOS-FCU/ConnectionUsage/CreateVpnConnection"@ {
        Some("Vpn"@)
    } else if is_prefix_of("TinaOS-FCU/ElasticIP"@, id) {
        Some("PublicIp"@)
    } else if id == "TinaOS-FCU/NatGatewayUsage/CreateNatGateway"@ {
        Some("NatServices"@)
    } else if id == "TinaOS-FCU/Snapshot:Usage/Snapshot"@ {
        Some("Snapshot"@)
    } else if is_prefix_of("TinaOS-OOS"@, id) {
        Some("Oos"@)
    } else if is_prefix_of("TinaOS-OSU"@, id) {
        Some("Oos"@)
    } else if id == "TinaOS-LBU/LBU:Usage/CreateLoadBalancer"@ {
        Some("LoadBalancer"@)
    } else {
        None
    }
}

/// Classifies a consumption identifier into its resource category, or
/// nothing when it matches no rule.
pub fn match_entry_id_resource_type(entry_id: &String) -> (r: Option<String>)
    ensures
        crate::strutil::opt_text(r) == spec_entry_category(entry_id@),
{
    let s = entry_id.as_str();
    if str_starts_with(s, "TinaOS-FCU/BoxUsage") {
        Some("Vm".to_owned())
    } else if str_starts_with(s, "TinaOS-FCU/CustomCore") {
        Some("Vm".to_owned())
    } else if str_starts_with(s, "TinaOS-FCU/CustomRam") {
        Some("Vm".to_owned())
    } else if str_starts_with(s, "TinaOS-FCU/ProductUsage") {
        Some("Vm".to_owned())
    } else if str_starts_with(s, "TinaOS-FCU/BSU") {
        Some("Volume".to_owned())
    } else if str_eq(s, "TinaOS-FCU/ConnectionUsage/CreateVpnConnection") {
        Some("Vpn".to_owned())
    } else if str_starts_with(s, "TinaOS-FCU/ElasticIP") {
        Some("PublicIp".to_owned())
    } else if str_eq(s, "TinaOS-FCU/NatGatewayUsage/CreateNatGateway") {
        Some("NatServices".to_owned())
    } else if str_eq(s, "TinaOS-FCU/Snapshot:Usage/Snapshot") {
        Some("Snapshot".to_owned())
    } else if str_starts_with(s, "TinaOS-OOS") {
        Some("Oos".to_owned())
    } else if str_starts_with(s, "TinaOS-OSU") {
        Some("Oos".to_owned())
    } else if str_eq(s, "TinaOS-LBU/LBU:Usage/CreateLoadBalancer") {
        Some("LoadBalancer".to_owned())
    } else {
        None
    }
}

/// A consumption entry resolved to money.
pub struct Digest {
    pub price: Option<u64>,
}

/// One category's digest.
pub struct DigestRecord {
    pub category: String,
    pub digest: Digest,
}

/// The category-to-digest map the drift analysis reads.
pub struct Digests {
    pub records: Vec<DigestRecord>,
}

/// The map a digest record list denotes, reading front to back.
pub open spec fn digest_index(records: Seq<DigestRecord>) -> Map<Seq<char>, Option<u64>>
    decreases records.len(),
{
    if records.len() == 0 {
        Map::empty()
    } else {
        digest_index(records.drop_last()).insert(
            records.last().category@,
            records.last().digest.price,
        )
    }
}

/// A stored record whose category no later record repeats decides the
/// indexed digest of that category.
proof fn lemma_digest_last_match(records: Seq<DigestRecord>, i: int)
    requires
        0 <= i < records.len(),
        forall|j: int|
            i < j < records.len() ==> (#[trigger] records[j].category@) != records[i].category@,
    ensures
        digest_index(records).dom().contains(records[i].category@),
        digest_index(records)[records[i].category@] == records[i].digest.price,
    decreases records.len(),
{
    if i < records.len() - 1 {
        assert(records.drop_last()[i] == records[i]);
        lemma_digest_last_match(records.drop_last(), i);
    }
}

/// A category no stored record carries is absent from the index.
proof fn lemma_digest_absent(records: Seq<DigestRecord>, category: Seq<char>)
    requires
        forall|j: int| 0 <= j < records.len() ==> (#[trigger] records[j].category@) != category,
    ensures
        !digest_index(records).dom().contains(category),
    decreases records.len(),
{
    if records.len() > 0 {
        lemma_digest_absent(records.drop_last(), category);
    }
}

impl Digests {
    /// The category-to-digest map these records denote.
    pub open spec fn view(&self) -> Map<Seq<char>, Option<u64>> {
        digest_index(self.records@)
    }

    /// An empty digest map.
    pub fn new() -> (r: Digests)
        ensures
            r@ == Map::<Seq<char>, Option<u64>>::empty(),
    {
        Digests { records: Vec::new() }
    }

    /// Looks a category up, returning its digest price when the
    /// category was digested.
    pub fn get(&self, category: &str) -> (r: Option<Option<u64>>)
        ensures
            r == (if self@.dom().contains(category@) {
                Some(self@[category@])
            } else {
                None::<Option<u64>>
            }),
    {
        let n = self.records.len();
        let mut i: usize = n;
        while i > 0
            invariant
                i <= n,
                n == self.records@.len(),
                forall|j: int| i <= j < n ==> (#[trigger] self.records@[j].category@) != category@,
            decreases i,
        {
            i = i - 1;
            if str_eq(self.records[i].category.as_str(), category) {
                proof {
                    lemma_digest_last_match(self.records@, i as int);
                }
                return Some(self.records[i].digest.price);
            }
        }
        proof {
            lemma_digest_absent(self.records@, category@);
        }
        None
    }
}

/// The day number a `%Y-%m-%d` date string denotes, counted from the
/// common era, or nothing for an unparsable string.
pub uninterp spec fn date_day_number(s: Seq<char>) -> Option<i32>;

/// Relies on chrono's NaiveDate::parse_from_str with the `%Y-%m-%d`
/// format, and on Datelike::num_days_from_ce: both are pure functions
/// of the string, so the day number depends on the characters alone.
#[verifier::external_body]
fn parse_date_day_number(s: &str) -> (r: Option<i32>)
    ensures
        r == date_day_number(s@),
{
    match chrono::NaiveDate::parse_from_str(s, "%Y-%m-%d") {
        Ok(date) => Some(chrono::Datelike::num_days_from_ce(&date)),
        Err(_) => None,
    }
}

/// Error aborting a drift run: one of the window's date strings does
/// not parse.
#[derive(Clone, Copy, Debug, PartialEq, Eq, Structural)]
pub enum DriftError {
    InvalidDate,
}

/// One category's drift line: the live projection over the window, the
/// digested consumption price, and the deviation percentage.
pub struct Drift {
    pub category: String,
    pub osc_cost_price: i128,
    pub digest_price: u64,
    pub drift: i64,
}

/// The drift lines of a run.
pub struct Drifts {
    pub drifts: Vec<Drift>,
}

/// The absolute value.
pub open spec fn abs_int(n: int) -> int {
    if n >= 0 {
        n
    } else {
        -n
    }
}

/// The quotient rounded to the nearest integer, ties away from zero.
pub open spec fn round_half_away(n: int, d: int) -> int
    recommends
        d > 0,
{
    let q = abs_int(n) / d;
    let rem = abs_int(n) % d;
    let rounded = if 2 * rem >= d {
        q + 1
    } else {
        q
    };
    if n >= 0 {
        rounded
    } else {
        -rounded
    }
}

/// Saturation into the drift percentage's machine type.
pub open spec fn clamp_drift(x: int) -> int {
    if x > i64::MAX {
        i64::MAX as int
    } else if x < i64::MIN {
        i64::MIN as int
    } else {
        x
    }
}

/// One category's drift percentage: the deviation of the projection
/// from the digested price, in rounded percent, saturating.
pub open spec fn spec_drift_percent(projected: int, digest: int) -> int
    recommends
        digest > 0,
{
    clamp_drift(round_half_away((projected - digest) * 100, digest))
}

/// A drift line, in mathematical form.
pub struct DriftRow {
    pub category: Seq<char>,
    pub osc_cost_price: int,
    pub digest_price: int,
    pub drift: int,
}

/// The drift line one resource yields, if any: only a pre-aggregated
/// category is analyzed. With a digested price `d`, the projection `p`
/// over the window gives `round((p - d) * 100 / d)` percent; a zero
/// `d` against a nonzero projection is 100 percent drift by
/// definition, a zero against zero is skipped, as is a category whose
/// live price was never computed. A category the digest missed is 100
/// percent drift unless its live price is zero or absent.
pub open spec fn spec_drift_row(
    r: Resource,
    digests: Map<Seq<char>, Option<u64>>,
    diff_hours: int,
) -> Option<DriftRow> {
    match r {
        Resource::Aggregate(a) => {
            let category = a.aggregated_resource_type@;
            if digests.dom().contains(category) {
                match (digests[category], a.price_per_hour) {
                    (Some(d), Some(h)) => {
                        let projected = h * diff_hours;
                        if d == 0 {
                            if projected == 0 {
                                None
                            } else {
                                Some(
                                    DriftRow {
                                        category,
                                        osc_cost_price: projected,
                                        digest_price: 0,
                                        drift: 100,
                                    },
                                )
                            }
                        } else {
                            Some(
                                DriftRow {
                                    category,
                                    osc_cost_price: projected,
                                    digest_price: d as int,
                                    drift: spec_drift_percent(projected, d as int),
                                },
                            )
                        }
                    },
                    _ => None,
                }
            } else {
                match a.price_per_hour {
                    Some(h) => if h == 0 {
                        None
                    } else {
                        Some(
                            DriftRow {
                                category,
                                osc_cost_price: h * diff_hours,
                                digest_price: 0,
                                drift: 100,
                            },
                        )
                    },
                    None => None,
                }
            }
        },
        _ => None,
    }
}

/// The drift lines a resource list yields, in input order.
pub open spec fn spec_drift_rows(
    s: Seq<Resource>,
    digests: Map<Seq<char>, Option<u64>>,
    diff_hours: int,
) -> Seq<DriftRow>
    decreases s.len(),
{
    if s.len() == 0 {
        Seq::empty()
    } else {
        let rest = spec_drift_rows(s.drop_last(), digests, diff_hours);
        match spec_drift_row(s.last(), digests, diff_hours) {
            Some(row) => rest.push(row),
            None => rest,
        }
    }
}

/// True when the drift lines carry exactly the given rows.
pub open spec fn drifts_match(out: Seq<Drift>, rows: Seq<DriftRow>) -> bool {
    &&& out.len() == rows.len()
    &&& forall|i: int|
        0 <= i < out.len() ==> {
            &&& (#[trigger] out[i]).category@ == rows[i].category
            &&& out[i].osc_cost_price == rows[i].osc_cost_price
            &&& out[i].digest_price == rows[i].digest_price
            &&& out[i].drift == rows[i].drift
        }
}

/// The hour span of the date window, from plain calendar-date
/// difference.
pub open spec fn spec_window_hours(from_day: int, to_day: int) -> int {
    (to_day - from_day) * 24
}

/// The drift percentage on machine words, rounding to nearest away
/// from zero and saturating.
fn drift_percent(projected: i128, digest: u64) -> (r: i64)
    requires
        digest > 0,
        -0x4000_0000_0000_0000_0000_0000_0000 <= projected
            <= 0x4000_0000_0000_0000_0000_0000_0000,
    ensures
        r == spec_drift_percent(projected as int, digest as int),
{
    let d = digest as i128;
    let num: i128 = (projected - d) * 100;
    let neg = num < 0;
    let mag: u128 = if neg {
        (-num) as u128
    } else {
        num as u128
    };
    let dd = digest as u128;
    let q = mag / dd;
    let rem = mag % dd;
    let rounded: u128 = if 2 * rem >= dd {
        q + 1
    } else {
        q
    };
    proof {
        assert(q <= mag) by {
            vstd::arithmetic::div_mod::lemma_div_nonincreasing(mag as int, dd as int);
            vstd::arithmetic::div_mod::lemma_div_pos_is_pos(mag as int, dd as int);
        }
    }
    let signed: i128 = if neg {
        -(rounded as i128)
    } else {
        rounded as i128
    };
    if signed > (i64::MAX as i128) {
        i64::MAX
    } else if signed < (i64::MIN as i128) {
        i64::MIN
    } else {
        signed as i64
    }
}

impl Digests {
    /// Compares the aggregator's live projection against the digested
    /// consumption over the date window; fails only when a window date
    /// does not parse. Non-aggregate resources are a usage error and
    /// are skipped.
    pub fn compute_drift(
        &self,
        resources: &Resources,
        from_date: &str,
        to_date: &str,
    ) -> (r: Result<Drifts, DriftError>)
        ensures
            (match r {
                Ok(drifts) => {
                    &&& date_day_number(from_date@) is Some
                    &&& date_day_number(to_date@) is Some
                    &&& drifts_match(
                        drifts.drifts@,
                        spec_drift_rows(
                            resources.resources@,
                            self@,
                            spec_window_hours(
                                date_day_number(from_date@)->0 as int,
                                date_day_number(to_date@)->0 as int,
                            ),
                        ),
                    )
                },
                Err(e) => {
                    &&& e == DriftError::InvalidDate
                    &&& (date_day_number(from_date@) is None || date_day_number(to_date@) is None)
                },
            }),
    {
        let from_day = match parse_date_day_number(from_date) {
            Some(day) => day,
            None => {
                return Err(DriftError::InvalidDate);
            },
        };
        let to_day = match parse_date_day_number(to_date) {
            Some(day) => day,
            None => {
                return Err(DriftError::InvalidDate);
            },
        };
        let diff_hours: i64 = ((to_day as i64) - (from_day as i64)) * 24;
        let ghost diff = spec_window_hours(from_day as int, to_day as int);
        let mut drifts: Vec<Drift> = Vec::new();
        let n = resources.resources.len();
        let mut i: usize = 0;
        while i < n
            invariant
                i <= n,
                n == resources.resources@.len(),
                diff == diff_hours as int,
                -0x20_0000_0000 * 24 <= diff <= 0x20_0000_0000 * 24,
                drifts_match(drifts@, spec_drift_rows(resources.resources@.take(i as int), self@, diff)),
            decreases n - i,
        {
            proof {
                assert(resources.resources@.take(i + 1 as int).drop_last() =~= resources.resources@.take(i as int));
            }
            let resource = &resources.resources[i];
            match resource {
                Resource::Aggregate(aggregate) => {
                    let category = &aggregate.aggregated_resource_type;
                    match self.get(category.as_str()) {
                        Some(digest_price) => {
                            match (digest_price, aggregate.price_per_hour) {
                                (Some(d), Some(h)) => {
                                    proof {
                                        assert((h as int) * diff == (h as i128) * (diff_hours as i128));
                                        assert(-0x4000_0000_0000_0000_0000_0000_0000 <= (h as int) * diff
                                            <= 0x4000_0000_0000_0000_0000_0000_0000) by (nonlinear_arith)
                                            requires
                                                0 <= h <= u64::MAX,
                                                -0x20_0000_0000 * 24 <= diff <= 0x20_0000_0000 * 24,
                                                diff == diff_hours as int,
                                        ;
                                    }
                                    let projected: i128 = (h as i128) * (diff_hours as i128);
                                    if d == 0 {
                                        if projected != 0 {
                                            drifts.push(
                                                Drift {
                                                    category: category.clone(),
                                                    osc_cost_price: projected,
                                                    digest_price: 0,
                                                    drift: 100,
                                                },
                                            );
                                        }
                                    } else {
                                        let percent = drift_percent(projected, d);
                                        drifts.push(
                                            Drift {
                                                category: category.clone(),
                                                osc_cost_price: projected,
                                                digest_price: d,
                                                drift: percent,
                                            },
                                        );
                                    }
                                },
                                _ => {},
                            }
                        },
                        None => {
                            match aggregate.price_per_hour {
                                Some(h) => {
                                    if h != 0 {
                                        proof {
                                            assert((h as int) * diff == (h as i128) * (diff_hours as i128));
                                            assert(-0x4000_0000_0000_0000_0000_0000_0000 <= (h as int) * diff
                                                <= 0x4000_0000_0000_0000_0000_0000_0000) by (nonlinear_arith)
                                                requires
                                                    0 <= h <= u64::MAX,
                                                    -0x20_0000_0000 * 24 <= diff <= 0x20_0000_0000 * 24,
                                                    diff == diff_hours as int,
                                            ;
                                        }
                                        let projected: i128 = (h as i128) * (diff_hours as i128);
                                        drifts.push(
                                            Drift {
                                                category: category.clone(),
                                                osc_cost_price: projected,
                                                digest_price: 0,
                                                drift: 100,
                                            },
                                        );
                                    }
                                },
                                None => {},
                            }
                        },
                    }
                },
                _ => {},
            }
            i = i + 1;
        }
        proof {
            assert(resources.resources@.take(n as int) =~= resources.resources@);
        }
        Ok(Drifts { drifts })
    }
}

/// One raw billing usage unit, keyed like a catalog entry; any field
/// may be missing.
pub struct ConsumptionEntry {
    pub service: Option<String>,
    pub entry_type: Option<String>,
    pub operation: Option<String>,
    pub value: Option<u64>,
}

impl ConsumptionEntry {
    /// True when the three key segments are all present.
    pub open spec fn is_complete(self) -> bool {
        self.service is Some && self.entry_type is Some && self.operation is Some
    }

    /// The composite identifier of a complete entry.
    pub open spec fn key(self) -> Seq<char> {
        composite_key(self.service->0@, self.entry_type->0@, self.operation->0@)
    }

    /// The usage amount, an absent one counting as zero.
    pub open spec fn amount(self) -> int {
        match self.value {
            Some(v) => v as int,
            None => 0,
        }
    }
}

/// A merged usage record: one composite identifier and its summed
/// usage amount.
pub struct UsageRecord {
    pub entry_id: String,
    pub value: u64,
}

/// The (identifier, amount) contributions a raw entry list makes;
/// entries missing a key segment contribute nothing.
pub open spec fn consumption_pairs(entries: Seq<ConsumptionEntry>) -> Seq<(Seq<char>, int)>
    decreases entries.len(),
{
    if entries.len() == 0 {
        Seq::empty()
    } else {
        let rest = consumption_pairs(entries.drop_last());
        if entries.last().is_complete() {
            rest.push((entries.last().key(), entries.last().amount()))
        } else {
            rest
        }
    }
}

/// Consumption amounts are nonnegative.
proof fn lemma_consumption_pairs_nonneg(entries: Seq<ConsumptionEntry>)
    ensures
        forall|i: int|
            0 <= i < consumption_pairs(entries).len() ==> 0 <= (#[trigger] consumption_pairs(
                entries,
            )[i]).1,
    decreases entries.len(),
{
    if entries.len() > 0 {
        lemma_consumption_pairs_nonneg(entries.drop_last());
        let rest = consumption_pairs(entries.drop_last());
        if entries.last().is_complete() {
            assert forall|i: int|
                0 <= i < consumption_pairs(entries).len() implies 0 <= (
            #[trigger] consumption_pairs(entries)[i]).1 by {
                if i < rest.len() {
                    assert(consumption_pairs(entries)[i] == rest[i]);
                } else {
                    assert(consumption_pairs(entries)[i] == (
                        entries.last().key(),
                        entries.last().amount(),
                    ));
                }
            }
        }
    }
}

/// A key's consumption sum over a prefix never exceeds its sum over
/// the whole list.
proof fn lemma_consumption_prefix(entries: Seq<ConsumptionEntry>, i: int, k: Seq<char>)
    requires
        0 <= i <= entries.len(),
    ensures
        key_sum(consumption_pairs(entries.take(i)), k) <= key_sum(consumption_pairs(entries), k),
    decreases entries.len() - i,
{
    if i == entries.len() {
        assert(entries.take(i) =~= entries);
    } else {
        assert(entries.take(i + 1).drop_last() =~= entries.take(i));
        lemma_consumption_prefix(entries, i + 1, k);
        let pre = consumption_pairs(entries.take(i));
        let cur = consumption_pairs(entries.take(i + 1));
        if entries.take(i + 1).last().is_complete() {
            assert(cur == pre.push(
                (entries.take(i + 1).last().key(), entries.take(i + 1).last().amount()),
            ));
            assert(cur.drop_last() =~= pre);
            assert(key_sum(cur, k) >= key_sum(pre, k));
        }
    }
}

/// The views of usage records as (identifier, amount) pairs.
pub open spec fn usage_pairs(records: Seq<UsageRecord>) -> Seq<(Seq<char>, int)> {
    records.map_values(|u: UsageRecord| (u.entry_id@, u.value as int))
}

/// Merges a raw consumption list into one usage record per composite
/// identifier, in order of first occurrence, summing the amounts;
/// entries missing a key segment are dropped and an absent amount
/// counts as zero.
pub fn merge_consumption(entries: &Vec<ConsumptionEntry>) -> (r: Vec<UsageRecord>)
    requires
        total_sum(consumption_pairs(entries@)) <= u64::MAX,
    ensures
        crate::tally::is_tally(usage_pairs(r@), consumption_pairs(entries@)),
{
    let ghost whole = consumption_pairs(entries@);
    let mut out: Vec<UsageRecord> = Vec::new();
    let n = entries.len();
    let mut i: usize = 0;
    while i < n
        invariant
            i <= n,
            n == entries@.len(),
            whole == consumption_pairs(entries@),
            total_sum(whole) <= u64::MAX,
            crate::tally::is_tally(usage_pairs(out@), consumption_pairs(entries@.take(i as int))),
        decreases n - i,
    {
        let ghost pre = consumption_pairs(entries@.take(i as int));
        let ghost cur = consumption_pairs(entries@.take(i as int + 1));
        proof {
            assert(entries@.take(i + 1 as int).drop_last() =~= entries@.take(i as int));
            crate::tally::lemma_distinct_keys_nodup(pre);
        }
        let entry = &entries[i];
        match (&entry.service, &entry.entry_type, &entry.operation) {
            (Some(service), Some(entry_type), Some(operation)) => {
                let entry_id = make_composite_key(
                    service.as_str(),
                    entry_type.as_str(),
                    operation.as_str(),
                );
                let amount = match &entry.value {
                    Some(v) => *v,
                    None => 0,
                };
                let ghost k = entries@[i as int].key();
                proof {
                    assert(cur =~= pre.push((k, entries@[i as int].amount())));
                    assert(cur.drop_last() =~= pre);
                    assert(cur.last() == (k, entries@[i as int].amount()));
                    lemma_consumption_pairs_nonneg(entries@);
                    lemma_consumption_prefix(entries@, i as int + 1, k);
                    crate::tally::lemma_key_sum_bounds(whole, k);
                }
                let m = out.len();
                let mut j: usize = m;
                let mut scan: usize = 0;
                while scan < m
                    invariant
                        scan <= m,
                        m == out@.len(),
                        entry_id@ == k,
                        j == m || (j < m && out@[j as int].entry_id@ == k),
                        j == m ==> forall|p: int|
                            0 <= p < scan ==> (#[trigger] out@[p].entry_id@) != k,
                    decreases m - scan,
                {
                    if j == m && str_eq(out[scan].entry_id.as_str(), entry_id.as_str()) {
                        j = scan;
                    }
                    scan = scan + 1;
                }
                if j < m {
                    proof {
                        assert(usage_pairs(out@)[j as int] == (out@[j as int].entry_id@, out@[j as int].value as int));
                        assert(distinct_keys(pre)[j as int] == k);
                        assert(distinct_keys(pre).contains(k)) by {
                            assert(distinct_keys(pre)[j as int] == k);
                        }
                        crate::tally::lemma_distinct_keys_present(pre, k);
                        assert(key_present(pre, k));
                        assert(distinct_keys(cur) =~= distinct_keys(pre));
                    }
                    let ghost out_pre = out@;
                    let slot = &mut out[j];
                    slot.value = slot.value + amount;
                    proof {
                        assert(usage_pairs(out@) =~= usage_pairs(out_pre).update(
                            j as int,
                            (out@[j as int].entry_id@, out@[j as int].value as int),
                        ));
                        assert forall|p: int|
                            0 <= p < out@.len() implies #[trigger] usage_pairs(out@)[p] == (
                            distinct_keys(cur)[p],
                            key_sum(cur, distinct_keys(cur)[p]),
                        ) by {
                            if p != j {
                                assert(out@[p] == out_pre[p]);
                                assert(distinct_keys(pre)[p] != k);
                            }
                        }
                    }
                } else {
                    proof {
                        assert forall|p: int|
                            0 <= p < distinct_keys(pre).len() implies #[trigger] distinct_keys(
                            pre,
                        )[p] != k by {
                            assert(usage_pairs(out@)[p] == (
                                out@[p].entry_id@,
                                out@[p].value as int,
                            ));
                            assert(out@[p].entry_id@ != k);
                        }
                        assert(!distinct_keys(pre).contains(k));
                        crate::tally::lemma_distinct_keys_present(pre, k);
                        assert(!key_present(pre, k));
                        crate::tally::lemma_key_absent(pre, k);
                        assert(distinct_keys(cur) =~= distinct_keys(pre).push(k));
                    }
                    let ghost out_keep = out@;
                    out.push(UsageRecord { entry_id, value: amount });
                    proof {
                        assert(usage_pairs(out@) =~= usage_pairs(out_keep).push(
                            (k, entries@[i as int].amount()),
                        ));
                        assert forall|p: int|
                            0 <= p < out@.len() implies #[trigger] usage_pairs(out@)[p] == (
                            distinct_keys(cur)[p],
                            key_sum(cur, distinct_keys(cur)[p]),
                        ) by {
                            if p < out@.len() - 1 {
                                assert(usage_pairs(out@)[p] == usage_pairs(out_keep)[p]);
                                assert(usage_pairs(out_keep)[p] == (
                                    distinct_keys(pre)[p],
                                    key_sum(pre, distinct_keys(pre)[p]),
                                ));
                                assert(distinct_keys(pre)[p] != k);
                            } else {
                                assert(usage_pairs(out@)[p] == (k, entries@[i as int].amount()));
                            }
                        }
                    }
                }
            },
            _ => {
                proof {
                    assert(cur =~= pre);
                }
            },
        }
        i = i + 1;
    }
    proof {
        assert(entries@.take(n as int) =~= entries@);
    }
    out
}

/// The value of a stored catalog entry, an omitted price counting as
/// zero; nothing when the identifier has no entry at all.
pub open spec fn catalog_unit_or_zero(cat: Map<Seq<char>, Option<u64>>, k: Seq<char>) -> Option<
    int,
> {
    if cat.dom().contains(k) {
        Some(
            match cat[k] {
                Some(p) => p as int,
                None => 0,
            },
        )
    } else {
        None
    }
}

/// Parses a per-license usage identifier
/// `TinaOS-FCU/ProductUsage:<vm_type>/RunInstances-<code>-OD` into the
/// type name and the product code.
pub open spec fn spec_product_usage_parse(id: Seq<char>) -> Option<(Seq<char>, Seq<char>)> {
    let p = "TinaOS-FCU/ProductUsage:"@;
    let len = id.len() as int;
    if !is_prefix_of(p, id) {
        None
    } else if !matches_at(id, len - 3, "-OD"@) {
        None
    } else {
        let d = digit_run_back(id, len - 3);
        let rstart = len - 3 - d - "/RunInstances-"@.len();
        if d == 0 {
            None
        } else if rstart <= p.len() {
            None
        } else if !matches_at(id, rstart, "/RunInstances-"@) {
            None
        } else {
            Some((id.subrange(p.len() as int, rstart), id.subrange(len - 3 - d, len - 3)))
        }
    }
}

/// The span between the first colon and the last slash, the type name
/// embedded in a `BoxUsage` usage identifier.
pub open spec fn spec_colon_slash_span(id: Seq<char>) -> Option<Seq<char>> {
    let c = first_index_of(id, ':', 0);
    let l = last_index_below(id, '/', id.len() as int);
    if c < id.len() && l >= 1 && l - 1 >= c + 2 {
        Some(id.subrange(c + 1, l - 1))
    } else {
        None
    }
}

/// The digest contribution one usage record makes: its category and
/// its price, or nothing when it is skipped. Per-license usage replays
/// the license-tier math on the embedded type name; per-box usage of a
/// self-describing type is priced through the per-core and per-RAM
/// rates; anything else is priced by its own catalog entry and
/// classified by the rule table.
pub open spec fn record_contribution(
    id: Seq<char>,
    value: int,
    cat: Map<Seq<char>, Option<u64>>,
    types: Map<Seq<char>, (Option<u64>, Option<u64>)>,
) -> Option<(Seq<char>, int)> {
    if is_prefix_of("TinaOS-FCU/ProductUsage"@, id) {
        match spec_product_usage_parse(id) {
            None => None,
            Some(parts) => {
                let cores = if is_prefix_of("tina"@, parts.0) {
                    match spec_parse_tina(parts.0) {
                        Some(shape) => Some(shape.vcpu),
                        None => None,
                    }
                } else {
                    match spec_parse_box(parts.0, types) {
                        Some(b) => Some(b.1),
                        None => None,
                    }
                };
                match cores {
                    None => None,
                    Some(c) => match license_factor(c, parts.1) {
                        None => None,
                        Some(f) => match catalog_unit_or_zero(cat, product_usage_key(parts.1)) {
                            None => None,
                            Some(u) => Some(("Vm"@, f * mul_scaled(value, u))),
                        },
                    },
                }
            },
        }
    } else if is_prefix_of("TinaOS-FCU/BoxUsage:tina"@, id) {
        match spec_colon_slash_span(id) {
            None => None,
            Some(t) => match spec_parse_tina(t) {
                None => None,
                Some(shape) => {
                    let perf = match shape.performance {
                        Some(p) => p,
                        None => "2"@,
                    };
                    match catalog_unit_or_zero(cat, custom_ram_key()) {
                        None => None,
                        Some(rr) => match catalog_unit_or_zero(
                            cat,
                            custom_core_key(shape.generation, perf),
                        ) {
                            None => None,
                            Some(cr) => Some(
                                (
                                    "Vm"@,
                                    shape.ram_gb * mul_scaled(value, rr) + shape.vcpu * mul_scaled(
                                        value,
                                        cr,
                                    ),
                                ),
                            ),
                        },
                    }
                },
            },
        }
    } else {
        match catalog_unit_or_zero(cat, id) {
            None => None,
            Some(u) => match spec_entry_category(id) {
                None => None,
                Some(category) => Some((category, mul_scaled(value, u))),
            },
        }
    }
}

/// A contribution's price is nonnegative.
proof fn lemma_record_contribution_nonneg(
    id: Seq<char>,
    value: int,
    cat: Map<Seq<char>, Option<u64>>,
    types: Map<Seq<char>, (Option<u64>, Option<u64>)>,
)
    requires
        0 <= value <= u64::MAX,
    ensures
        (match record_contribution(id, value, cat, types) {
            Some(c) => 0 <= c.1,
            None => true,
        }),
{
    if is_prefix_of("TinaOS-FCU/ProductUsage"@, id) {
        match spec_product_usage_parse(id) {
            None => {},
            Some(parts) => {
                if is_prefix_of("tina"@, parts.0) && spec_parse_tina(parts.0) is Some {
                    crate::vm_pricing::lemma_parse_tina_in_range(parts.0);
                }
                match record_contribution(id, value, cat, types) {
                    Some(c) => {
                        let u = catalog_unit_or_zero(cat, product_usage_key(parts.1))->0;
                        crate::pricing::lemma_mul_scaled_bounds(value, u);
                        let cores = if is_prefix_of("tina"@, parts.0) {
                            spec_parse_tina(parts.0)->0.vcpu
                        } else {
                            match spec_parse_box(parts.0, types) {
                                Some(b) => b.1,
                                None => 0,
                            }
                        };
                        let f = license_factor(cores, parts.1)->0;
                        crate::pricing::lemma_mul_nonneg(f, mul_scaled(value, u));
                    },
                    None => {},
                }
            },
        }
    } else if is_prefix_of("TinaOS-FCU/BoxUsage:tina"@, id) {
        match spec_colon_slash_span(id) {
            None => {},
            Some(t) => {
                if spec_parse_tina(t) is Some {
                    crate::vm_pricing::lemma_parse_tina_in_range(t);
                    let shape = spec_parse_tina(t)->0;
                    match record_contribution(id, value, cat, types) {
                        Some(c) => {
                            let perf = match shape.performance {
                                Some(p) => p,
                                None => "2"@,
                            };
                            let rr = catalog_unit_or_zero(cat, custom_ram_key())->0;
                            let cr = catalog_unit_or_zero(
                                cat,
                                custom_core_key(shape.generation, perf),
                            )->0;
                            crate::pricing::lemma_mul_scaled_bounds(value, rr);
                            crate::pricing::lemma_mul_scaled_bounds(value, cr);
                            crate::pricing::lemma_mul_nonneg(shape.ram_gb, mul_scaled(value, rr));
                            crate::pricing::lemma_mul_nonneg(shape.vcpu, mul_scaled(value, cr));
                        },
                        None => {},
                    }
                }
            },
        }
    } else {
        match catalog_unit_or_zero(cat, id) {
            None => {},
            Some(u) => {
                crate::pricing::lemma_mul_scaled_bounds(value, u);
            },
        }
    }
}

/// The digest contributions a usage record list makes, skipped
/// records contributing nothing.
pub open spec fn digest_contributions(
    records: Seq<UsageRecord>,
    cat: Map<Seq<char>, Option<u64>>,
    types: Map<Seq<char>, (Option<u64>, Option<u64>)>,
) -> Seq<(Seq<char>, int)>
    decreases records.len(),
{
    if records.len() == 0 {
        Seq::empty()
    } else {
        let rest = digest_contributions(records.drop_last(), cat, types);
        match record_contribution(records.last().entry_id@, records.last().value as int, cat, types) {
            Some(c) => rest.push(c),
            None => rest,
        }
    }
}

/// Digest contribution prices are nonnegative.
proof fn lemma_digest_contributions_nonneg(
    records: Seq<UsageRecord>,
    cat: Map<Seq<char>, Option<u64>>,
    types: Map<Seq<char>, (Option<u64>, Option<u64>)>,
)
    ensures
        forall|i: int|
            0 <= i < digest_contributions(records, cat, types).len() ==> 0 <= (
            #[trigger] digest_contributions(records, cat, types)[i]).1,
    decreases records.len(),
{
    if records.len() > 0 {
        lemma_digest_contributions_nonneg(records.drop_last(), cat, types);
        lemma_record_contribution_nonneg(
            records.last().entry_id@,
            records.last().value as int,
            cat,
            types,
        );
        let rest = digest_contributions(records.drop_last(), cat, types);
        match record_contribution(records.last().entry_id@, records.last().value as int, cat, types) {
            Some(c) => {
                assert forall|i: int|
                    0 <= i < digest_contributions(records, cat, types).len() implies 0 <= (
                #[trigger] digest_contributions(records, cat, types)[i]).1 by {
                    if i < rest.len() {
                        assert(digest_contributions(records, cat, types)[i] == rest[i]);
                    } else {
                        assert(digest_contributions(records, cat, types)[i] == c);
                    }
                }
            },
            None => {},
        }
    }
}

/// A key's digest sum over a prefix never exceeds its sum over the
/// whole list, and the total only grows.
proof fn lemma_digest_prefix(
    records: Seq<UsageRecord>,
    i: int,
    k: Seq<char>,
    cat: Map<Seq<char>, Option<u64>>,
    types: Map<Seq<char>, (Option<u64>, Option<u64>)>,
)
    requires
        0 <= i <= records.len(),
    ensures
        key_sum(digest_contributions(records.take(i), cat, types), k) <= key_sum(
            digest_contributions(records, cat, types),
            k,
        ),
    decreases records.len() - i,
{
    if i == records.len() {
        assert(records.take(i) =~= records);
    } else {
        assert(records.take(i + 1).drop_last() =~= records.take(i));
        lemma_digest_prefix(records, i + 1, k, cat, types);
        let pre = digest_contributions(records.take(i), cat, types);
        let cur = digest_contributions(records.take(i + 1), cat, types);
        lemma_record_contribution_nonneg(
            records.take(i + 1).last().entry_id@,
            records.take(i + 1).last().value as int,
            cat,
            types,
        );
        match record_contribution(
            records.take(i + 1).last().entry_id@,
            records.take(i + 1).last().value as int,
            cat,
            types,
        ) {
            Some(c) => {
                assert(cur == pre.push(c));
                assert(cur.drop_last() =~= pre);
                assert(key_sum(cur, k) >= key_sum(pre, k));
            },
            None => {},
        }
    }
}

/// Prices one usage record: its category and price, or nothing when
/// the record is skipped.
fn record_price(entry_id: &String, value: u64, catalog: &Catalog, types: &VmTypes) -> (r: Option<
    (String, u64),
>)
    requires
        (match record_contribution(entry_id@, value as int, catalog@, types@) {
            Some(c) => c.1 <= u64::MAX,
            None => true,
        }),
    ensures
        (match (r, record_contribution(entry_id@, value as int, catalog@, types@)) {
            (Some(out), Some(c)) => out.0@ == c.0 && out.1 == c.1,
            (None, None) => true,
            _ => false,
        }),
{
    let s = entry_id.as_str();
    let ghost contribution = record_contribution(entry_id@, value as int, catalog@, types@);
    if str_starts_with(s, "TinaOS-FCU/ProductUsage") {
        let len = s.unicode_len();
        if !str_starts_with(s, "TinaOS-FCU/ProductUsage:") {
            return None;
        }
        let prefix_len = "TinaOS-FCU/ProductUsage:".unicode_len();
        if len < 3 {
            return None;
        }
        if !crate::strutil::region_matches(s, len - 3, "-OD") {
            return None;
        }
        let d = crate::vm_pricing::scan_digits_back(s, len - 3);
        if d == 0 {
            return None;
        }
        let tail = len - 3 - d;
        let run_len = "/RunInstances-".unicode_len();
        if tail < run_len || tail - run_len <= prefix_len {
            return None;
        }
        let rstart = tail - run_len;
        if !crate::strutil::region_matches(s, rstart, "/RunInstances-") {
            return None;
        }
        let vm_type = s.substring_char(prefix_len, rstart).to_owned();
        let code = s.substring_char(tail, len - 3).to_owned();
        proof {
            assert(spec_product_usage_parse(entry_id@) == Some((vm_type@, code@)));
        }
        let cores: u64 = if str_starts_with(vm_type.as_str(), "tina") {
            proof {
                reveal_strlit("tina");
            }
            match crate::vm_pricing::parse_tina_shape(vm_type.as_str()) {
                Some(parts) => parts.vcpu,
                None => {
                    return None;
                },
            }
        } else {
            match crate::vm_pricing::parse_box_type(&vm_type, types) {
                Some(parts) => parts.1,
                None => {
                    return None;
                },
            }
        };
        let factor = match crate::vm_pricing::compute_product_price_per_hour(
            cores,
            code.as_str(),
        ) {
            Some(f) => f,
            None => {
                return None;
            },
        };
        let mut operation = "RunInstances-".to_owned();
        operation.append(code.as_str());
        operation.append("-OD");
        proof {
            assert(operation@ =~= "RunInstances-"@ + code@ + "-OD"@);
        }
        let key = make_composite_key("TinaOS-FCU", "ProductUsage", operation.as_str());
        let unit = match catalog.entry_price(key.as_str()) {
            Some(stored) => {
                match stored {
                    Some(p) => p,
                    None => 0,
                }
            },
            None => {
                return None;
            },
        };
        proof {
            assert((value as int) * (unit as int) <= u128::MAX) by (nonlinear_arith)
                requires
                    0 <= value <= u64::MAX,
                    0 <= unit <= u64::MAX,
            ;
            crate::pricing::lemma_mul_scaled_bounds(value as int, unit as int);
            assert(contribution == Some(
                ("Vm"@, (factor as int) * mul_scaled(value as int, unit as int)),
            ));
        }
        let scaled: u128 = (value as u128) * (unit as u128) / (
        crate::pricing::MICROS_PER_UNIT as u128);
        proof {
            crate::pricing::lemma_mul_nonneg(
                factor as int,
                mul_scaled(value as int, unit as int),
            );
        }
        let price: u128 = (factor as u128) * scaled;
        Some(("Vm".to_owned(), price as u64))
    } else if str_starts_with(s, "TinaOS-FCU/BoxUsage:tina") {
        let len = s.unicode_len();
        let colon = crate::strutil::find_first(s, ':');
        let after_slash = crate::strutil::find_last_below(s, '/', len);
        if colon >= len || after_slash < 1 {
            return None;
        }
        let slash = after_slash - 1;
        if slash <= colon || slash - colon < 2 {
            return None;
        }
        let tina_type = s.substring_char(colon + 1, slash).to_owned();
        proof {
            assert(spec_colon_slash_span(entry_id@) == Some(tina_type@));
        }
        let (generation, vcpu, ram_gb, performance) = match crate::vm_pricing::parse_tina_type(
            tina_type.as_str(),
        ) {
            Some(parts) => parts,
            None => {
                return None;
            },
        };
        let ram_key = make_composite_key("TinaOS-FCU", "CustomRam", "RunInstances-OD");
        let ram_rate = match catalog.entry_price(ram_key.as_str()) {
            Some(stored) => {
                match stored {
                    Some(p) => p,
                    None => 0,
                }
            },
            None => {
                return None;
            },
        };
        let mut core_kind = "CustomCore:v".to_owned();
        core_kind.append(generation.as_str());
        core_kind.append("-p");
        core_kind.append(performance.as_str());
        proof {
            assert(core_kind@ =~= "CustomCore:v"@ + generation@ + "-p"@ + performance@);
        }
        let core_key = make_composite_key("TinaOS-FCU", core_kind.as_str(), "RunInstances-OD");
        let core_rate = match catalog.entry_price(core_key.as_str()) {
            Some(stored) => {
                match stored {
                    Some(p) => p,
                    None => 0,
                }
            },
            None => {
                return None;
            },
        };
        let ghost shape = spec_parse_tina(tina_type@)->0;
        proof {
            assert(contribution == Some(
                (
                    "Vm"@,
                    shape.ram_gb * mul_scaled(value as int, ram_rate as int) + shape.vcpu
                        * mul_scaled(value as int, core_rate as int),
                ),
            ));
            crate::pricing::lemma_mul_scaled_bounds(value as int, ram_rate as int);
            crate::pricing::lemma_mul_scaled_bounds(value as int, core_rate as int);
            crate::pricing::lemma_mul_nonneg(
                shape.ram_gb,
                mul_scaled(value as int, ram_rate as int),
            );
            crate::pricing::lemma_mul_nonneg(
                shape.vcpu,
                mul_scaled(value as int, core_rate as int),
            );
        }
        let ram_scaled: u128 = (value as u128) * (ram_rate as u128) / (
        crate::pricing::MICROS_PER_UNIT as u128);
        let core_scaled: u128 = (value as u128) * (core_rate as u128) / (
        crate::pricing::MICROS_PER_UNIT as u128);
        let price: u128 = (ram_gb as u128) * ram_scaled + (vcpu as u128) * core_scaled;
        Some(("Vm".to_owned(), price as u64))
    } else {
        let unit = match catalog.entry_price(s) {
            Some(stored) => {
                match stored {
                    Some(p) => p,
                    None => 0,
                }
            },
            None => {
                return None;
            },
        };
        let category = match match_entry_id_resource_type(entry_id) {
            Some(category) => category,
            None => {
                return None;
            },
        };
        let price = crate::pricing::mul_scaled_u64(value, unit);
        Some((category, price))
    }
}

/// True when the digest records tally the given contributions: one
/// record per category, in first-occurrence order, priced at the
/// category's summed contribution.
pub open spec fn is_digest_tally(out: Seq<DigestRecord>, s: Seq<(Seq<char>, int)>) -> bool {
    &&& out.len() == distinct_keys(s).len()
    &&& forall|i: int|
        0 <= i < out.len() ==> {
            &&& (#[trigger] out[i]).category@ == distinct_keys(s)[i]
            &&& out[i].digest.price == Some(key_sum(s, distinct_keys(s)[i]) as u64)
        }
}

/// Resolves a merged consumption list into one digest per category:
/// each record is priced through the catalog — replaying the VM
/// license math where usage is reported per license or core type —
/// and the prices are summed per category, unresolvable records being
/// skipped with no charge.
pub fn fill_digest(records: &Vec<UsageRecord>, catalog: &Catalog, types: &VmTypes) -> (r: Digests)
    requires
        total_sum(digest_contributions(records@, catalog@, types@)) <= u64::MAX,
    ensures
        is_digest_tally(r.records@, digest_contributions(records@, catalog@, types@)),
{
    let ghost whole = digest_contributions(records@, catalog@, types@);
    let mut out: Vec<DigestRecord> = Vec::new();
    let n = records.len();
    let mut i: usize = 0;
    while i < n
        invariant
            i <= n,
            n == records@.len(),
            whole == digest_contributions(records@, catalog@, types@),
            total_sum(whole) <= u64::MAX,
            is_digest_tally(out@, digest_contributions(records@.take(i as int), catalog@, types@)),
        decreases n - i,
    {
        let ghost pre = digest_contributions(records@.take(i as int), catalog@, types@);
        let ghost cur = digest_contributions(records@.take(i as int + 1), catalog@, types@);
        proof {
            assert(records@.take(i + 1 as int).drop_last() =~= records@.take(i as int));
            crate::tally::lemma_distinct_keys_nodup(pre);
            lemma_digest_contributions_nonneg(records@, catalog@, types@);
        }
        let record = &records[i];
        proof {
            match record_contribution(record.entry_id@, record.value as int, catalog@, types@) {
                Some(c) => {
                    assert(cur =~= pre.push(c));
                    assert(cur.drop_last() =~= pre);
                    lemma_digest_prefix(records@, i as int + 1, c.0, catalog@, types@);
                    crate::tally::lemma_key_sum_bounds(whole, c.0);
                    lemma_digest_contributions_nonneg(records@.take(i as int), catalog@, types@);
                    crate::tally::lemma_key_sum_bounds(pre, c.0);
                    lemma_record_contribution_nonneg(record.entry_id@, record.value as int, catalog@, types@);
                    assert(key_sum(cur, c.0) <= key_sum(whole, c.0));
                    assert(c.1 <= u64::MAX);
                },
                None => {
                    assert(cur =~= pre);
                },
            }
        }
        match record_price(&record.entry_id, record.value, catalog, types) {
            Some((category, price)) => {
                let ghost c = record_contribution(record.entry_id@, record.value as int, catalog@, types@)->0;
                let ghost k = c.0;
                proof {
                    assert(category@ == k);
                }
                let m = out.len();
                let mut j: usize = m;
                let mut scan: usize = 0;
                while scan < m
                    invariant
                        scan <= m,
                        m == out@.len(),
                        category@ == k,
                        j == m || (j < m && out@[j as int].category@ == k),
                        j == m ==> forall|p: int|
                            0 <= p < scan ==> (#[trigger] out@[p].category@) != k,
                    decreases m - scan,
                {
                    if j == m && str_eq(out[scan].category.as_str(), category.as_str()) {
                        j = scan;
                    }
                    scan = scan + 1;
                }
                if j < m {
                    proof {
                        assert(distinct_keys(pre)[j as int] == k);
                        assert(distinct_keys(pre).contains(k)) by {
                            assert(distinct_keys(pre)[j as int] == k);
                        }
                        crate::tally::lemma_distinct_keys_present(pre, k);
                        assert(key_present(pre, k));
                        assert(distinct_keys(cur) =~= distinct_keys(pre));
                    }
                    let ghost out_pre = out@;
                    let slot = &mut out[j];
                    let stored = match slot.digest.price {
                        Some(p) => p,
                        None => 0,
                    };
                    slot.digest.price = Some(stored + price);
                    proof {
                        assert forall|p: int|
                            0 <= p < out@.len() implies {
                            &&& (#[trigger] out@[p]).category@ == distinct_keys(cur)[p]
                            &&& out@[p].digest.price == Some(
                                key_sum(cur, distinct_keys(cur)[p]) as u64,
                            )
                        } by {
                            if p != j {
                                assert(out@[p] == out_pre[p]);
                                assert(distinct_keys(pre)[p] != k);
                            }
                        }
                    }
                } else {
                    proof {
                        assert forall|p: int|
                            0 <= p < distinct_keys(pre).len() implies #[trigger] distinct_keys(
                            pre,
                        )[p] != k by {
                            assert(out@[p].category@ != k);
                        }
                        assert(!distinct_keys(pre).contains(k));
                        crate::tally::lemma_distinct_keys_present(pre, k);
                        assert(!key_present(pre, k));
                        crate::tally::lemma_key_absent(pre, k);
                        assert(distinct_keys(cur) =~= distinct_keys(pre).push(k));
                    }
                    let ghost out_keep = out@;
                    out.push(DigestRecord { category, digest: Digest { price: Some(price) } });
                    proof {
                        assert forall|p: int|
                            0 <= p < out@.len() implies {
                            &&& (#[trigger] out@[p]).category@ == distinct_keys(cur)[p]
                            &&& out@[p].digest.price == Some(
                                key_sum(cur, distinct_keys(cur)[p]) as u64,
                            )
                        } by {
                            if p < out@.len() - 1 {
                                assert(out@[p] == out_keep[p]);
                                assert(distinct_keys(pre)[p] != k);
                            }
                        }
                    }
                }
            },
            None => {},
        }
        i = i + 1;
    }
    proof {
        assert(records@.take(n as int) =~= records@);
    }
    Digests { records: out }
}

} // verus!



