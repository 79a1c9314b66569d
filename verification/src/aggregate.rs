//! Folding priced resources into per-category summaries.
//!
//! Every resource maps to one fixed category label; an `Aggregate`
//! input passes through with its own label and count. Summing is per
//! label: the first contribution for a label adopts the contributor's
//! raw optional prices, later ones add, an absent price counting as
//! zero — so a category whose contributors all lack a price stays
//! unpriced instead of becoming priced at zero.
use vstd::prelude::*;

use crate::resources::Aggregate;
use crate::resources::Resource;
use crate::resources::Resources;
use crate::resources::sum_hour_prices;
use crate::strutil::clone_opt_text;
use crate::strutil::opt_text;
use crate::strutil::str_eq;

verus! {

/// The category label a resource contributes to.
pub open spec fn agg_label(r: Resource) -> Seq<char> {
    match r {
        Resource::Vm(_) => "Vm"@,
        Resource::Volume(_) => "Volume"@,
        Resource::PublicIp(_) => "PublicIp"@,
        Resource::Snapshot(_) => "Snapshot"@,
        Resource::NatServices(_) => "NatServices"@,
        Resource::Aggregate(a) => a.aggregated_resource_type@,
        Resource::FlexibleGpu(_) => "FlexibleGpu"@,
        Resource::LoadBalancer(_) => "LoadBalancer"@,
        Resource::Vpn(_) => "Vpn"@,
        Resource::Oos(_) => "Oos"@,
        Resource::DedicatedInstance(_) => "DedicatedInstance"@,
    }
}

/// How many resources a contributor stands for: one for a primitive
/// resource, the carried count for a pass-through aggregate.
pub open spec fn agg_count(r: Resource) -> int {
    match r {
        Resource::Aggregate(a) => a.count as int,
        _ => 1,
    }
}

/// The envelope fields a contribution carries over: version, account,
/// read date and region, by view.
pub open spec fn envelope_of(r: Resource) -> (
    Option<Seq<char>>,
    Option<Seq<char>>,
    Option<Seq<char>>,
    Option<Seq<char>>,
) {
    match r {
        Resource::Vm(v) => (
            opt_text(v.osc_cost_version),
            opt_text(v.account_id),
            opt_text(v.read_date_rfc3339),
            opt_text(v.region),
        ),
        Resource::Volume(v) => (
            opt_text(v.osc_cost_version),
            opt_text(v.account_id),
            opt_text(v.read_date_rfc3339),
            opt_text(v.region),
        ),
        Resource::PublicIp(v) => (
            opt_text(v.osc_cost_version),
            opt_text(v.account_id),
            opt_text(v.read_date_rfc3339),
            opt_text(v.region),
        ),
        Resource::Snapshot(v) => (
            opt_text(v.osc_cost_version),
            opt_text(v.account_id),
            opt_text(v.read_date_rfc3339),
            opt_text(v.region),
        ),
        Resource::NatServices(v) => (
            opt_text(v.osc_cost_version),
            opt_text(v.account_id),
            opt_text(v.read_date_rfc3339),
            opt_text(v.region),
        ),
        Resource::Aggregate(v) => (
            opt_text(v.osc_cost_version),
            opt_text(v.account_id),
            opt_text(v.read_date_rfc3339),
            opt_text(v.region),
        ),
        Resource::FlexibleGpu(v) => (
            opt_text(v.osc_cost_version),
            opt_text(v.account_id),
            opt_text(v.read_date_rfc3339),
            opt_text(v.region),
        ),
        Resource::LoadBalancer(v) => (
            opt_text(v.osc_cost_version),
            opt_text(v.account_id),
            opt_text(v.read_date_rfc3339),
            opt_text(v.region),
        ),
        Resource::Vpn(v) => (
            opt_text(v.osc_cost_version),
            opt_text(v.account_id),
            opt_text(v.read_date_rfc3339),
            opt_text(v.region),
        ),
        Resource::Oos(v) => (
            opt_text(v.osc_cost_version),
            opt_text(v.account_id),
            opt_text(v.read_date_rfc3339),
            opt_text(v.region),
        ),
        Resource::DedicatedInstance(v) => (
            opt_text(v.osc_cost_version),
            opt_text(v.account_id),
            opt_text(v.read_date_rfc3339),
            opt_text(v.region),
        ),
    }
}

/// The hourly price a resource contributes, an absent price counting
/// as zero.
pub open spec fn hour_or_zero(r: Resource) -> int {
    match r.hour_price() {
        Some(p) => p as int,
        None => 0,
    }
}

/// The monthly price a resource contributes, an absent price counting
/// as zero.
pub open spec fn month_or_zero(r: Resource) -> int {
    match r.month_price() {
        Some(p) => p as int,
        None => 0,
    }
}

/// True when some resource of the sequence carries the label.
pub open spec fn label_present(s: Seq<Resource>, l: Seq<char>) -> bool
    decreases s.len(),
{
    s.len() > 0 && (agg_label(s.last()) == l || label_present(s.drop_last(), l))
}

/// The summed hourly price of the label's contributors.
pub open spec fn label_hour_sum(s: Seq<Resource>, l: Seq<char>) -> int
    decreases s.len(),
{
    if s.len() == 0 {
        0
    } else {
        label_hour_sum(s.drop_last(), l) + if agg_label(s.last()) == l {
            hour_or_zero(s.last())
        } else {
            0
        }
    }
}

/// True when some contributor of the label carries an hourly price.
pub open spec fn label_has_hour(s: Seq<Resource>, l: Seq<char>) -> bool
    decreases s.len(),
{
    s.len() > 0 && ((agg_label(s.last()) == l && s.last().hour_price() is Some) || label_has_hour(
        s.drop_last(),
        l,
    ))
}

/// The summed monthly price of the label's contributors.
pub open spec fn label_month_sum(s: Seq<Resource>, l: Seq<char>) -> int
    decreases s.len(),
{
    if s.len() == 0 {
        0
    } else {
        label_month_sum(s.drop_last(), l) + if agg_label(s.last()) == l {
            month_or_zero(s.last())
        } else {
            0
        }
    }
}

/// True when some contributor of the label carries a monthly price.
pub open spec fn label_has_month(s: Seq<Resource>, l: Seq<char>) -> bool
    decreases s.len(),
{
    s.len() > 0 && ((agg_label(s.last()) == l && s.last().month_price() is Some) || label_has_month(
        s.drop_last(),
        l,
    ))
}

/// The summed count of the label's contributors.
pub open spec fn label_count(s: Seq<Resource>, l: Seq<char>) -> int
    decreases s.len(),
{
    if s.len() == 0 {
        0
    } else {
        label_count(s.drop_last(), l) + if agg_label(s.last()) == l {
            agg_count(s.last())
        } else {
            0
        }
    }
}

/// The distinct labels of the sequence, in order of first occurrence.
pub open spec fn distinct_labels(s: Seq<Resource>) -> Seq<Seq<char>>
    decreases s.len(),
{
    if s.len() == 0 {
        Seq::empty()
    } else {
        let rest = distinct_labels(s.drop_last());
        if label_present(s.drop_last(), agg_label(s.last())) {
            rest
        } else {
            rest.push(agg_label(s.last()))
        }
    }
}

/// The first resource of the sequence carrying the label.
pub open spec fn first_with_label(s: Seq<Resource>, l: Seq<char>) -> Resource
    recommends
        label_present(s, l),
    decreases s.len(),
{
    if s.len() == 0 {
        s.last()
    } else if label_present(s.drop_last(), l) {
        first_with_label(s.drop_last(), l)
    } else {
        s.last()
    }
}

/// The optional summed price a label folds to: absent only when no
/// contributor carried a price.
pub open spec fn opt_sum(has: bool, sum: int) -> Option<u64> {
    if has {
        Some(sum as u64)
    } else {
        None
    }
}

/// What it means for `out` to be the aggregation of `s`: one aggregate
/// per distinct label of `s`, in first-occurrence order, carrying the
/// label's summed prices and count and the envelope of its first
/// contributor.
pub open spec fn is_aggregation(out: Seq<Resource>, s: Seq<Resource>) -> bool {
    &&& out.len() == distinct_labels(s).len()
    &&& forall|i: int|
        0 <= i < out.len() ==> ((#[trigger] out[i]) matches Resource::Aggregate(a) && entry_ok(
            a,
            s,
            distinct_labels(s)[i],
        ))
}

/// A label nobody carries has empty sums and no prices.
proof fn lemma_label_absent(s: Seq<Resource>, l: Seq<char>)
    requires
        !label_present(s, l),
    ensures
        label_hour_sum(s, l) == 0,
        label_month_sum(s, l) == 0,
        label_count(s, l) == 0,
        !label_has_hour(s, l),
        !label_has_month(s, l),
    decreases s.len(),
{
    if s.len() > 0 {
        lemma_label_absent(s.drop_last(), l);
    }
}

/// A label none of whose contributors carries a price has a zero sum.
proof fn lemma_label_priceless_sums(s: Seq<Resource>, l: Seq<char>)
    ensures
        !label_has_hour(s, l) ==> label_hour_sum(s, l) == 0,
        !label_has_month(s, l) ==> label_month_sum(s, l) == 0,
    decreases s.len(),
{
    if s.len() > 0 {
        lemma_label_priceless_sums(s.drop_last(), l);
    }
}

/// A label's sums and counts are nonnegative, and never exceed the
/// sums over the whole sequence.
proof fn lemma_label_sums_bounds(s: Seq<Resource>, l: Seq<char>)
    ensures
        0 <= label_hour_sum(s, l) <= sum_hour_prices(s),
        0 <= label_month_sum(s, l) <= sum_month_prices(s),
        0 <= label_count(s, l) <= sum_counts(s),
    decreases s.len(),
{
    if s.len() > 0 {
        lemma_label_sums_bounds(s.drop_last(), l);
    }
}

/// The sum of the monthly prices all resources carry, an absent price
/// counting as zero.
pub open spec fn sum_month_prices(s: Seq<Resource>) -> int
    decreases s.len(),
{
    if s.len() == 0 {
        0
    } else {
        sum_month_prices(s.drop_last()) + month_or_zero(s.last())
    }
}

/// The sum of the counts all resources stand for.
pub open spec fn sum_counts(s: Seq<Resource>) -> int
    decreases s.len(),
{
    if s.len() == 0 {
        0
    } else {
        sum_counts(s.drop_last()) + agg_count(s.last())
    }
}

/// A label is listed among the distinct labels exactly when some
/// resource carries it.
proof fn lemma_distinct_labels_present(s: Seq<Resource>, l: Seq<char>)
    ensures
        distinct_labels(s).contains(l) <==> label_present(s, l),
    decreases s.len(),
{
    if s.len() > 0 {
        lemma_distinct_labels_present(s.drop_last(), l);
        let rest = distinct_labels(s.drop_last());
        if label_present(s.drop_last(), agg_label(s.last())) {
        } else {
            assert forall|x: Seq<char>| rest.push(agg_label(s.last())).contains(x) <==> (
            rest.contains(x) || x == agg_label(s.last())) by {
                if rest.contains(x) {
                    let j = choose|j: int| 0 <= j < rest.len() && rest[j] == x;
                    assert(rest.push(agg_label(s.last()))[j] == x);
                }
                if x == agg_label(s.last()) {
                    assert(rest.push(x)[rest.len() as int] == x);
                }
            }
        }
    }
}

/// The distinct labels never repeat.
proof fn lemma_distinct_labels_nodup(s: Seq<Resource>)
    ensures
        forall|i: int, j: int|
            0 <= i < j < distinct_labels(s).len() ==> distinct_labels(s)[i] != distinct_labels(
                s,
            )[j],
    decreases s.len(),
{
    if s.len() > 0 {
        lemma_distinct_labels_nodup(s.drop_last());
        if !label_present(s.drop_last(), agg_label(s.last())) {
            lemma_distinct_labels_present(s.drop_last(), agg_label(s.last()));
            assert forall|i: int|
                0 <= i < distinct_labels(s.drop_last()).len() implies distinct_labels(
                s.drop_last(),
            )[i] != agg_label(s.last()) by {
                if distinct_labels(s.drop_last())[i] == agg_label(s.last()) {
                    assert(distinct_labels(s.drop_last()).contains(agg_label(s.last())));
                }
            }
        }
    }
}

/// What the aggregate for one label must hold: the label itself, the
/// summed optional prices, the summed count, and the envelope of the
/// label's first contributor.
pub open spec fn entry_ok(a: Aggregate, s: Seq<Resource>, l: Seq<char>) -> bool {
    &&& a.aggregated_resource_type@ == l
    &&& a.price_per_hour == opt_sum(label_has_hour(s, l), label_hour_sum(s, l))
    &&& a.price_per_month == opt_sum(label_has_month(s, l), label_month_sum(s, l))
    &&& a.count == label_count(s, l)
    &&& envelope_of(Resource::Aggregate(a)) == envelope_of(first_with_label(s, l))
}

impl Aggregate {
    /// The single-resource aggregate a resource contributes: its fixed
    /// category label, its raw optional prices, its count, and its
    /// envelope. A pass-through aggregate contributes itself.
    pub fn from_resource(r: &Resource) -> (a: Aggregate)
        ensures
            a.aggregated_resource_type@ == agg_label(*r),
            a.price_per_hour == r.hour_price(),
            a.price_per_month == r.month_price(),
            a.count == agg_count(*r),
            envelope_of(Resource::Aggregate(a)) == envelope_of(*r),
    {
        match r {
            Resource::Vm(v) => Aggregate {
                osc_cost_version: clone_opt_text(&v.osc_cost_version),
                account_id: clone_opt_text(&v.account_id),
                read_date_rfc3339: clone_opt_text(&v.read_date_rfc3339),
                region: clone_opt_text(&v.region),
                price_per_hour: v.price_per_hour,
                price_per_month: v.price_per_month,
                aggregated_resource_type: "Vm".to_owned(),
                count: 1,
            },
            Resource::Volume(v) => Aggregate {
                osc_cost_version: clone_opt_text(&v.osc_cost_version),
                account_id: clone_opt_text(&v.account_id),
                read_date_rfc3339: clone_opt_text(&v.read_date_rfc3339),
                region: clone_opt_text(&v.region),
                price_per_hour: v.price_per_hour,
                price_per_month: v.price_per_month,
                aggregated_resource_type: "Volume".to_owned(),
                count: 1,
            },
            Resource::PublicIp(v) => Aggregate {
                osc_cost_version: clone_opt_text(&v.osc_cost_version),
                account_id: clone_opt_text(&v.account_id),
                read_date_rfc3339: clone_opt_text(&v.read_date_rfc3339),
                region: clone_opt_text(&v.region),
                price_per_hour: v.price_per_hour,
                price_per_month: v.price_per_month,
                aggregated_resource_type: "PublicIp".to_owned(),
                count: 1,
            },
            Resource::Snapshot(v) => Aggregate {
                osc_cost_version: clone_opt_text(&v.osc_cost_version),
                account_id: clone_opt_text(&v.account_id),
                read_date_rfc3339: clone_opt_text(&v.read_date_rfc3339),
                region: clone_opt_text(&v.region),
                price_per_hour: v.price_per_hour,
                price_per_month: v.price_per_month,
                aggregated_resource_type: "Snapshot".to_owned(),
                count: 1,
            },
            Resource::NatServices(v) => Aggregate {
                osc_cost_version: clone_opt_text(&v.osc_cost_version),
                account_id: clone_opt_text(&v.account_id),
                read_date_rfc3339: clone_opt_text(&v.read_date_rfc3339),
                region: clone_opt_text(&v.region),
                price_per_hour: v.price_per_hour,
                price_per_month: v.price_per_month,
                aggregated_resource_type: "NatServices".to_owned(),
                count: 1,
            },
            Resource::Aggregate(v) => Aggregate {
                osc_cost_version: clone_opt_text(&v.osc_cost_version),
                account_id: clone_opt_text(&v.account_id),
                read_date_rfc3339: clone_opt_text(&v.read_date_rfc3339),
                region: clone_opt_text(&v.region),
                price_per_hour: v.price_per_hour,
                price_per_month: v.price_per_month,
                aggregated_resource_type: v.aggregated_resource_type.clone(),
                count: v.count,
            },
            Resource::FlexibleGpu(v) => Aggregate {
                osc_cost_version: clone_opt_text(&v.osc_cost_version),
                account_id: clone_opt_text(&v.account_id),
                read_date_rfc3339: clone_opt_text(&v.read_date_rfc3339),
                region: clone_opt_text(&v.region),
                price_per_hour: v.price_per_hour,
                price_per_month: v.price_per_month,
                aggregated_resource_type: "FlexibleGpu".to_owned(),
                count: 1,
            },
            Resource::LoadBalancer(v) => Aggregate {
                osc_cost_version: clone_opt_text(&v.osc_cost_version),
                account_id: clone_opt_text(&v.account_id),
                read_date_rfc3339: clone_opt_text(&v.read_date_rfc3339),
                region: clone_opt_text(&v.region),
                price_per_hour: v.price_per_hour,
                price_per_month: v.price_per_month,
                aggregated_resource_type: "LoadBalancer".to_owned(),
                count: 1,
            },
            Resource::Vpn(v) => Aggregate {
                osc_cost_version: clone_opt_text(&v.osc_cost_version),
                account_id: clone_opt_text(&v.account_id),
                read_date_rfc3339: clone_opt_text(&v.read_date_rfc3339),
                region: clone_opt_text(&v.region),
                price_per_hour: v.price_per_hour,
                price_per_month: v.price_per_month,
                aggregated_resource_type: "Vpn".to_owned(),
                count: 1,
            },
            Resource::Oos(v) => Aggregate {
                osc_cost_version: clone_opt_text(&v.osc_cost_version),
                account_id: clone_opt_text(&v.account_id),
                read_date_rfc3339: clone_opt_text(&v.read_date_rfc3339),
                region: clone_opt_text(&v.region),
                price_per_hour: v.price_per_hour,
                price_per_month: v.price_per_month,
                aggregated_resource_type: "Oos".to_owned(),
                count: 1,
            },
            Resource::DedicatedInstance(v) => Aggregate {
                osc_cost_version: clone_opt_text(&v.osc_cost_version),
                account_id: clone_opt_text(&v.account_id),
                read_date_rfc3339: clone_opt_text(&v.read_date_rfc3339),
                region: clone_opt_text(&v.region),
                price_per_hour: v.price_per_hour,
                price_per_month: v.price_per_month,
                aggregated_resource_type: "DedicatedInstance".to_owned(),
                count: 1,
            },
        }
    }
}

/// A label's sums over a prefix never exceed its sums over the whole
/// sequence.
proof fn lemma_label_sums_prefix(s: Seq<Resource>, i: int, l: Seq<char>)
    requires
        0 <= i <= s.len(),
    ensures
        label_hour_sum(s.take(i), l) <= label_hour_sum(s, l),
        label_month_sum(s.take(i), l) <= label_month_sum(s, l),
        label_count(s.take(i), l) <= label_count(s, l),
    decreases s.len() - i,
{
    if i == s.len() {
        assert(s.take(i) =~= s);
    } else {
        assert(s.take(i + 1).drop_last() =~= s.take(i));
        lemma_label_sums_prefix(s, i + 1, l);
        lemma_label_sums_bounds(s.take(i), l);
    }
}

impl Resources {
    /// Folds the collection into one aggregate per category label, in
    /// order of first occurrence.
    pub fn aggregate(self) -> (r: Resources)
        requires
            sum_hour_prices(self.resources@) <= u64::MAX,
            sum_month_prices(self.resources@) <= u64::MAX,
            sum_counts(self.resources@) <= u64::MAX,
        ensures
            is_aggregation(r.resources@, self.resources@),
    {
        let ghost s = self.resources@;
        let mut out: Vec<Aggregate> = Vec::new();
        let n = self.resources.len();
        let mut i: usize = 0;
        while i < n
            invariant
                i <= n,
                n == s.len(),
                self.resources@ == s,
                sum_hour_prices(s) <= u64::MAX,
                sum_month_prices(s) <= u64::MAX,
                sum_counts(s) <= u64::MAX,
                out@.len() == distinct_labels(s.take(i as int)).len(),
                forall|k: int|
                    0 <= k < out@.len() ==> entry_ok(
                        #[trigger] out@[k],
                        s.take(i as int),
                        distinct_labels(s.take(i as int))[k],
                    ),
            decreases n - i,
        {
            let ghost pre = s.take(i as int);
            let ghost cur = s.take(i as int + 1);
            let ghost ls = agg_label(s[i as int]);
            proof {
                assert(cur.drop_last() =~= pre);
                lemma_distinct_labels_nodup(pre);
            }
            let incoming = Aggregate::from_resource(&self.resources[i]);
            let m = out.len();
            let mut j: usize = m;
            let mut scan: usize = 0;
            while scan < m
                invariant
                    scan <= m,
                    m == out@.len(),
                    j == m || (j < m && out@[j as int].aggregated_resource_type@
                        == incoming.aggregated_resource_type@),
                    j == m ==> forall|k: int|
                        0 <= k < scan ==> (#[trigger] out@[k]).aggregated_resource_type@
                            != incoming.aggregated_resource_type@,
                decreases m - scan,
            {
                if j == m && str_eq(
                    out[scan].aggregated_resource_type.as_str(),
                    incoming.aggregated_resource_type.as_str(),
                ) {
                    j = scan;
                }
                scan = scan + 1;
            }
            if j < m {
                proof {
                    assert(distinct_labels(pre)[j as int] == ls);
                    assert(distinct_labels(pre).contains(ls)) by {
                        assert(distinct_labels(pre)[j as int] == ls);
                    }
                    lemma_distinct_labels_present(pre, ls);
                    assert(label_present(pre, ls));
                    assert(distinct_labels(cur) =~= distinct_labels(pre));
                    lemma_label_sums_prefix(s, i as int + 1, ls);
                    lemma_label_sums_bounds(s, ls);
                    lemma_label_sums_bounds(pre, ls);
                    lemma_label_priceless_sums(pre, ls);
                    crate::resources::lemma_sum_hour_prices_nonneg(s);
                    assert(entry_ok(out@[j as int], pre, ls));
                }
                let ghost out_pre = out@;
                let cache = &mut out[j];
                cache.price_per_hour = match cache.price_per_hour {
                    Some(price) => Some(
                        price + match incoming.price_per_hour {
                            Some(p) => p,
                            None => 0,
                        },
                    ),
                    None => incoming.price_per_hour,
                };
                cache.price_per_month = match cache.price_per_month {
                    Some(price) => Some(
                        price + match incoming.price_per_month {
                            Some(p) => p,
                            None => 0,
                        },
                    ),
                    None => incoming.price_per_month,
                };
                cache.count = cache.count + incoming.count;
                proof {
                    assert(entry_ok(out@[j as int], cur, ls));
                    assert forall|k: int|
                        0 <= k < out@.len() && k != j implies entry_ok(
                        #[trigger] out@[k],
                        cur,
                        distinct_labels(cur)[k],
                    ) by {
                        assert(out@[k] == out_pre[k]);
                        assert(distinct_labels(cur)[k] == distinct_labels(pre)[k]);
                        assert(distinct_labels(pre)[k] != ls);
                        assert(distinct_labels(pre).contains(distinct_labels(pre)[k]));
                        lemma_distinct_labels_present(pre, distinct_labels(pre)[k]);
                        assert(entry_ok(out_pre[k], pre, distinct_labels(pre)[k]));
                    }
                }
            } else {
                proof {
                    assert forall|k: int|
                        0 <= k < distinct_labels(pre).len() implies #[trigger] distinct_labels(
                        pre,
                    )[k] != ls by {
                        assert(out@[k].aggregated_resource_type@ != ls);
                        assert(entry_ok(out@[k], pre, distinct_labels(pre)[k]));
                    }
                    assert(!distinct_labels(pre).contains(ls));
                    lemma_distinct_labels_present(pre, ls);
                    assert(!label_present(pre, ls));
                    lemma_label_absent(pre, ls);
                    assert(distinct_labels(cur) =~= distinct_labels(pre).push(ls));
                }
                out.push(incoming);
                proof {
                    assert(entry_ok(out@[out@.len() - 1], cur, ls));
                    assert forall|k: int|
                        0 <= k < out@.len() - 1 implies entry_ok(
                        #[trigger] out@[k],
                        cur,
                        distinct_labels(cur)[k],
                    ) by {
                        assert(distinct_labels(cur)[k] == distinct_labels(pre)[k]);
                        assert(distinct_labels(pre).contains(distinct_labels(pre)[k]));
                        lemma_distinct_labels_present(pre, distinct_labels(pre)[k]);
                        assert(distinct_labels(pre)[k] != ls);
                        assert(entry_ok(out@[k], pre, distinct_labels(pre)[k]));
                    }
                }
            }
            i = i + 1;
        }
        proof {
            assert(s.take(n as int) =~= s);
        }
        let mut collected: Vec<Resource> = Vec::new();
        let mut k: usize = 0;
        while k < out.len()
            invariant
                k <= out@.len(),
                out@.len() == distinct_labels(s).len(),
                forall|p: int|
                    0 <= p < out@.len() ==> entry_ok(#[trigger] out@[p], s, distinct_labels(s)[p]),
                collected@.len() == k,
                forall|p: int|
                    0 <= p < k ==> ((#[trigger] collected@[p]) matches Resource::Aggregate(a)
                        && entry_ok(a, s, distinct_labels(s)[p])),
            decreases out@.len() - k,
        {
            let a = &out[k];
            let copy = Aggregate {
                osc_cost_version: clone_opt_text(&a.osc_cost_version),
                account_id: clone_opt_text(&a.account_id),
                read_date_rfc3339: clone_opt_text(&a.read_date_rfc3339),
                region: clone_opt_text(&a.region),
                price_per_hour: a.price_per_hour,
                price_per_month: a.price_per_month,
                aggregated_resource_type: a.aggregated_resource_type.clone(),
                count: a.count,
            };
            collected.push(Resource::Aggregate(copy));
            k = k + 1;
        }
        Resources { resources: collected }
    }
}

/// The per-label roll-up a resource sequence folds to: optional summed
/// prices (absent only when no contributor carried one) and the summed
/// count.
pub struct LabelSummary {
    pub hour: Option<int>,
    pub month: Option<int>,
    pub count: int,
}

/// An optional number, an absent one counting as zero.
pub open spec fn opt_or_zero(o: Option<int>) -> int {
    match o {
        Some(v) => v,
        None => 0,
    }
}

/// The roll-up of one label over a sequence.
pub open spec fn label_summary(s: Seq<Resource>, l: Seq<char>) -> LabelSummary {
    LabelSummary {
        hour: if label_has_hour(s, l) {
            Some(label_hour_sum(s, l))
        } else {
            None
        },
        month: if label_has_month(s, l) {
            Some(label_month_sum(s, l))
        } else {
            None
        },
        count: label_count(s, l),
    }
}

/// The roll-up of a resource on its own.
pub open spec fn single_summary(r: Resource) -> LabelSummary {
    LabelSummary {
        hour: match r.hour_price() {
            Some(p) => Some(p as int),
            None => None,
        },
        month: match r.month_price() {
            Some(p) => Some(p as int),
            None => None,
        },
        count: agg_count(r),
    }
}

/// The roll-up of a label nobody contributes to.
pub open spec fn empty_summary() -> LabelSummary {
    LabelSummary { hour: None, month: None, count: 0 }
}

/// Merging two roll-ups of the same label: prices add, an absent price
/// counting as zero and staying absent only when both sides are.
pub open spec fn combine_summaries(a: LabelSummary, b: LabelSummary) -> LabelSummary {
    LabelSummary {
        hour: if a.hour is Some || b.hour is Some {
            Some(opt_or_zero(a.hour) + opt_or_zero(b.hour))
        } else {
            None
        },
        month: if a.month is Some || b.month is Some {
            Some(opt_or_zero(a.month) + opt_or_zero(b.month))
        } else {
            None
        },
        count: a.count + b.count,
    }
}

/// Aggregation respects any partition of the input: rolling the two
/// parts up separately and merging gives the roll-up of the whole, for
/// every label.
pub proof fn lemma_aggregation_partition(s1: Seq<Resource>, s2: Seq<Resource>, l: Seq<char>)
    ensures
        label_summary(s1 + s2, l) == combine_summaries(
            label_summary(s1, l),
            label_summary(s2, l),
        ),
    decreases s2.len(),
{
    if s2.len() == 0 {
        assert(s1 + s2 =~= s1);
        lemma_label_priceless_sums(s1, l);
        lemma_label_absent_count_zero(s2, l);
    } else {
        assert((s1 + s2).drop_last() =~= s1 + s2.drop_last());
        lemma_aggregation_partition(s1, s2.drop_last(), l);
        lemma_label_priceless_sums(s1, l);
        lemma_label_priceless_sums(s2, l);
        lemma_label_priceless_sums(s2.drop_last(), l);
        lemma_label_priceless_sums(s1 + s2.drop_last(), l);
        lemma_label_priceless_sums(s1 + s2, l);
    }
}

/// Merging roll-ups is commutative.
pub proof fn lemma_combine_commutative(a: LabelSummary, b: LabelSummary)
    ensures
        combine_summaries(a, b) == combine_summaries(b, a),
{
}

/// Merging roll-ups is associative.
pub proof fn lemma_combine_associative(a: LabelSummary, b: LabelSummary, c: LabelSummary)
    ensures
        combine_summaries(combine_summaries(a, b), c) == combine_summaries(
            a,
            combine_summaries(b, c),
        ),
{
}

/// An empty label sequence contributes a zero count.
proof fn lemma_label_absent_count_zero(s: Seq<Resource>, l: Seq<char>)
    requires
        !label_present(s, l),
    ensures
        label_count(s, l) == 0,
    decreases s.len(),
{
    if s.len() > 0 {
        lemma_label_absent_count_zero(s.drop_last(), l);
    }
}

/// In a sequence of rows with pairwise distinct labels, each label's
/// roll-up is its single row, every other label's is empty, and the
/// distinct labels are the rows' labels in order.
proof fn lemma_labelled_rows(out: Seq<Resource>, labels: Seq<Seq<char>>)
    requires
        out.len() == labels.len(),
        forall|i: int| 0 <= i < out.len() ==> agg_label(#[trigger] out[i]) == labels[i],
        forall|i: int, j: int| 0 <= i < j < labels.len() ==> labels[i] != labels[j],
    ensures
        distinct_labels(out) == labels,
        forall|l: Seq<char>| #[trigger] label_present(out, l) <==> labels.contains(l),
        forall|i: int|
            0 <= i < out.len() ==> label_summary(out, #[trigger] labels[i]) == single_summary(
                out[i],
            ),
        forall|l: Seq<char>|
            !labels.contains(l) ==> #[trigger] label_summary(out, l) == empty_summary(),
    decreases out.len(),
{
    if out.len() == 0 {
        assert(distinct_labels(out) =~= labels);
        assert forall|l: Seq<char>| !labels.contains(l) implies #[trigger] label_summary(out, l)
            == empty_summary() by {}
    } else {
        let prefix = out.drop_last();
        let plabels = labels.drop_last();
        let ll = labels.last();
        assert(forall|i: int| 0 <= i < prefix.len() ==> agg_label(#[trigger] prefix[i])
            == plabels[i]);
        lemma_labelled_rows(prefix, plabels);
        assert(!plabels.contains(ll)) by {
            if plabels.contains(ll) {
                let j = choose|j: int| 0 <= j < plabels.len() && plabels[j] == ll;
                assert(labels[j] == labels[labels.len() - 1]);
            }
        }
        assert(!label_present(prefix, ll));
        lemma_label_priceless_sums(prefix, ll);
        lemma_label_absent(prefix, ll);
        assert(distinct_labels(out) =~= labels);
        assert forall|l: Seq<char>| #[trigger] label_present(out, l) <==> labels.contains(
            l,
        ) by {
            if label_present(out, l) {
                if agg_label(out.last()) == l {
                    assert(labels[labels.len() - 1] == l);
                    assert(labels.contains(l));
                } else {
                    assert(label_present(prefix, l));
                    assert(plabels.contains(l));
                    let j = choose|j: int| 0 <= j < plabels.len() && plabels[j] == l;
                    assert(labels[j] == l);
                    assert(labels.contains(l));
                }
            }
            if labels.contains(l) {
                let j = choose|j: int| 0 <= j < labels.len() && labels[j] == l;
                if j == labels.len() - 1 {
                    assert(agg_label(out.last()) == l);
                } else {
                    assert(plabels[j] == l);
                    assert(plabels.contains(l));
                    assert(label_present(prefix, l));
                }
            }
        }
        assert forall|i: int| 0 <= i < out.len() implies label_summary(out, #[trigger] labels[i])
            == single_summary(out[i]) by {
            if i == out.len() - 1 {
                assert(label_summary(out, ll) == single_summary(out.last()));
            } else {
                assert(labels[i] != ll);
                assert(label_summary(prefix, plabels[i]) == single_summary(prefix[i]));
            }
        }
        assert forall|l: Seq<char>| !labels.contains(l) implies #[trigger] label_summary(out, l)
            == empty_summary() by {
            assert(!label_present(out, l));
            lemma_label_priceless_sums(out, l);
            lemma_label_absent(out, l);
        }
    }
}

/// Aggregation is idempotent: the aggregation output rolls up, label
/// for label, to exactly what its input rolled up to, so aggregating a
/// second time reproduces the same summaries and the same label order.
pub proof fn lemma_aggregation_idempotent(out: Seq<Resource>, s: Seq<Resource>)
    requires
        is_aggregation(out, s),
        sum_hour_prices(s) <= u64::MAX,
        sum_month_prices(s) <= u64::MAX,
        sum_counts(s) <= u64::MAX,
    ensures
        distinct_labels(out) == distinct_labels(s),
        forall|l: Seq<char>| #[trigger] label_summary(out, l) == label_summary(s, l),
{
    let labels = distinct_labels(s);
    lemma_distinct_labels_nodup(s);
    assert(forall|i: int| 0 <= i < out.len() ==> agg_label(#[trigger] out[i]) == labels[i]);
    lemma_labelled_rows(out, labels);
    assert forall|l: Seq<char>| #[trigger] label_summary(out, l) == label_summary(s, l) by {
        lemma_distinct_labels_present(s, l);
        if labels.contains(l) {
            let i = choose|i: int| 0 <= i < labels.len() && labels[i] == l;
            assert(label_summary(out, labels[i]) == single_summary(out[i]));
            lemma_label_sums_bounds(s, l);
            assert(out[i] matches Resource::Aggregate(a) && entry_ok(a, s, labels[i]));
        } else {
            assert(label_summary(out, l) == empty_summary());
            assert(!label_present(s, l));
            lemma_label_priceless_sums(s, l);
            lemma_label_absent(s, l);
        }
    }
}

/// When every contributor of a label carries both prices or neither,
/// with the monthly price exactly the hourly one times the hours per
/// month, the label's aggregated prices keep that exact relation — so
/// the relation survives aggregation into the roll-up kind.
pub proof fn lemma_aggregation_preserves_rate(s: Seq<Resource>, l: Seq<char>)
    requires
        forall|i: int|
            0 <= i < s.len() ==> {
                &&& ((#[trigger] s[i]).hour_price() is Some <==> s[i].month_price() is Some)
                &&& (s[i].hour_price() is Some ==> month_or_zero(s[i]) == hour_or_zero(s[i])
                    * (crate::pricing::HOURS_PER_MONTH as int))
            },
    ensures
        label_has_month(s, l) <==> label_has_hour(s, l),
        label_month_sum(s, l) == label_hour_sum(s, l) * (crate::pricing::HOURS_PER_MONTH as int),
    decreases s.len(),
{
    if s.len() > 0 {
        assert(forall|i: int|
            0 <= i < s.len() - 1 ==> {
                &&& ((#[trigger] s.drop_last()[i]).hour_price() is Some <==> s.drop_last()[
                i].month_price() is Some)
                &&& (s.drop_last()[i].hour_price() is Some ==> month_or_zero(s.drop_last()[i])
                    == hour_or_zero(s.drop_last()[i]) * (crate::pricing::HOURS_PER_MONTH as int))
            });
        lemma_aggregation_preserves_rate(s.drop_last(), l);
        assert(s[s.len() - 1] == s.last());
        if agg_label(s.last()) == l {
            if s.last().hour_price() is None {
                assert(month_or_zero(s.last()) == 0);
                assert(hour_or_zero(s.last()) == 0);
            }
            assert(label_month_sum(s, l) == label_month_sum(s.drop_last(), l) + month_or_zero(
                s.last(),
            ));
            assert((label_hour_sum(s.drop_last(), l) + hour_or_zero(s.last())) * (
            crate::pricing::HOURS_PER_MONTH as int) == label_hour_sum(s.drop_last(), l) * (
            crate::pricing::HOURS_PER_MONTH as int) + hour_or_zero(s.last()) * (
            crate::pricing::HOURS_PER_MONTH as int)) by (nonlinear_arith);
        }
    }
}

} // verus!



