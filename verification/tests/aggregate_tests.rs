//! Category aggregation: sums, counts, label order, and the partition
//! and idempotence properties on concrete values.
use osc_cost::resources::{Aggregate, LoadBalancer, Resource, Resources, Vpn};

fn lb(hour: Option<u64>, month: Option<u64>) -> Resource {
    Resource::LoadBalancer(LoadBalancer {
        osc_cost_version: Some("0.1.0".to_string()),
        account_id: Some("acc".to_string()),
        read_date_rfc3339: None,
        region: Some("eu-west-2".to_string()),
        resource_id: Some("lb".to_string()),
        price_per_hour: hour,
        price_per_month: month,
    })
}

fn vpn(hour: Option<u64>, month: Option<u64>) -> Resource {
    Resource::Vpn(Vpn {
        osc_cost_version: None,
        account_id: None,
        read_date_rfc3339: None,
        region: None,
        resource_id: Some("vpn".to_string()),
        price_per_hour: hour,
        price_per_month: month,
    })
}

fn agg_of(resources: &Resources, label: &str) -> Aggregate {
    for r in &resources.resources {
        if let Resource::Aggregate(a) = r {
            if a.aggregated_resource_type == label {
                return a.clone();
            }
        }
    }
    panic!("no aggregate for label");
}

#[test]
fn aggregation_sums_per_label() {
    let resources = Resources {
        resources: vec![
            lb(Some(10), Some(7_300)),
            vpn(Some(5), Some(3_650)),
            lb(Some(20), Some(14_600)),
        ],
    };
    let out = resources.aggregate();
    assert_eq!(out.resources.len(), 2);
    let lbs = agg_of(&out, "LoadBalancer");
    assert_eq!(lbs.price_per_hour, Some(30));
    assert_eq!(lbs.price_per_month, Some(21_900));
    assert_eq!(lbs.count, 2);
    let vpns = agg_of(&out, "Vpn");
    assert_eq!(vpns.price_per_hour, Some(5));
    assert_eq!(vpns.count, 1);
    // First-occurrence order and the first contributor's envelope.
    match &out.resources[0] {
        Resource::Aggregate(a) => {
            assert_eq!(a.aggregated_resource_type, "LoadBalancer");
            assert_eq!(a.account_id.as_deref(), Some("acc"));
            assert_eq!(a.region.as_deref(), Some("eu-west-2"));
        }
        _ => panic!("expected an aggregate"),
    }
}

#[test]
fn unpriced_category_stays_unpriced() {
    let resources = Resources {
        resources: vec![lb(None, None), lb(None, None)],
    };
    let out = resources.aggregate();
    let lbs = agg_of(&out, "LoadBalancer");
    assert_eq!(lbs.price_per_hour, None);
    assert_eq!(lbs.price_per_month, None);
    assert_eq!(lbs.count, 2);
}

#[test]
fn first_unpriced_contribution_adopts_the_next_price() {
    let resources = Resources {
        resources: vec![lb(None, None), lb(Some(7), Some(5_110)), lb(None, None)],
    };
    let out = resources.aggregate();
    let lbs = agg_of(&out, "LoadBalancer");
    assert_eq!(lbs.price_per_hour, Some(7));
    assert_eq!(lbs.price_per_month, Some(5_110));
    assert_eq!(lbs.count, 3);
}

#[test]
fn aggregate_inputs_pass_through_label_and_count() {
    let carried = Resource::Aggregate(Aggregate {
        osc_cost_version: None,
        account_id: None,
        read_date_rfc3339: None,
        region: None,
        price_per_hour: Some(100),
        price_per_month: Some(73_000),
        aggregated_resource_type: "Vm".to_string(),
        count: 7,
    });
    let resources = Resources {
        resources: vec![carried],
    };
    let out = resources.aggregate();
    let vms = agg_of(&out, "Vm");
    assert_eq!(vms.count, 7);
    assert_eq!(vms.price_per_hour, Some(100));
}

fn summary(resources: &Resources, label: &str) -> (Option<u64>, Option<u64>, u64) {
    let a = agg_of(resources, label);
    (a.price_per_hour, a.price_per_month, a.count)
}

#[test]
fn any_partition_aggregates_to_the_whole() {
    let all = vec![
        lb(Some(10), Some(7_300)),
        vpn(Some(5), None),
        lb(None, Some(14_600)),
        vpn(Some(2), Some(1_460)),
    ];
    // Aggregate the whole list at once.
    let whole = Resources {
        resources: all.clone(),
    }
    .aggregate();
    // Aggregate two pieces, then fold the piecewise outputs.
    let first = Resources {
        resources: all[0..2].to_vec(),
    }
    .aggregate();
    let second = Resources {
        resources: all[2..4].to_vec(),
    }
    .aggregate();
    let mut folded_input = first.resources;
    folded_input.extend(second.resources);
    let folded = Resources {
        resources: folded_input,
    }
    .aggregate();
    for label in ["LoadBalancer", "Vpn"] {
        assert_eq!(summary(&whole, label), summary(&folded, label));
    }
    assert_eq!(whole.resources.len(), folded.resources.len());
}

#[test]
fn aggregation_is_idempotent() {
    let resources = Resources {
        resources: vec![lb(Some(10), Some(7_300)), vpn(None, None), lb(Some(1), None)],
    };
    let once = resources.aggregate();
    let labels_once: Vec<String> = once
        .resources
        .iter()
        .map(|r| match r {
            Resource::Aggregate(a) => a.aggregated_resource_type.clone(),
            _ => panic!("expected an aggregate"),
        })
        .collect();
    let summaries_once: Vec<_> = labels_once.iter().map(|l| summary(&once, l)).collect();
    let twice = Resources {
        resources: once.resources,
    }
    .aggregate();
    let labels_twice: Vec<String> = twice
        .resources
        .iter()
        .map(|r| match r {
            Resource::Aggregate(a) => a.aggregated_resource_type.clone(),
            _ => panic!("expected an aggregate"),
        })
        .collect();
    let summaries_twice: Vec<_> = labels_twice.iter().map(|l| summary(&twice, l)).collect();
    assert_eq!(labels_once, labels_twice);
    assert_eq!(summaries_once, summaries_twice);
}

#[test]
fn from_resource_labels_every_kind() {
    let a = Aggregate::from_resource(&lb(Some(1), Some(730)));
    assert_eq!(a.aggregated_resource_type, "LoadBalancer");
    assert_eq!(a.count, 1);
    assert_eq!(a.price_per_hour, Some(1));
    let a = Aggregate::from_resource(&vpn(None, None));
    assert_eq!(a.aggregated_resource_type, "Vpn");
    assert_eq!(a.price_per_hour, None);
}
