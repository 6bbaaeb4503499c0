use pirate_finops::catalog::{is_related, ResourceType};

#[test]
fn waste_costs_match_table() {
    assert_eq!(ResourceType::IdleGPUCluster.waste_cost(), 450);
    assert_eq!(ResourceType::OverprovisionedOpenShift.waste_cost(), 320);
    assert_eq!(ResourceType::MissedReservation.waste_cost(), 280);
    assert_eq!(ResourceType::IdleVM.waste_cost(), 150);
    assert_eq!(ResourceType::UntaggedResource.waste_cost(), 10);
    assert_eq!(ResourceType::Empty.waste_cost(), 0);
}

#[test]
fn fix_sprints_match_table() {
    assert_eq!(ResourceType::IdleGPUCluster.fix_sprints(), 3);
    assert_eq!(ResourceType::OverprovisionedCosmosDB.fix_sprints(), 3);
    assert_eq!(ResourceType::IdleVM.fix_sprints(), 2);
    assert_eq!(ResourceType::OrphanedDisk.fix_sprints(), 1);
    assert_eq!(ResourceType::Empty.fix_sprints(), 0);
}

#[test]
fn savings_ranges_match_table() {
    assert_eq!(ResourceType::IdleGPUCluster.savings_range(), (600, 750));
    assert_eq!(ResourceType::UntaggedResource.savings_range(), (10, 12));
    assert_eq!(ResourceType::Empty.savings_range(), (0, 0));
}

#[test]
fn avg_savings_is_truncated_mean() {
    assert_eq!(ResourceType::IdleGPUCluster.avg_savings(), 675);
    assert_eq!(ResourceType::StaleSnapshot.avg_savings(), 31); // (28 + 35) / 2
    assert_eq!(ResourceType::Empty.avg_savings(), 0);
}

#[test]
fn relatedness_is_symmetric_on_samples() {
    let pairs = [
        (ResourceType::IdleVM, ResourceType::IdleGPUCluster),
        (ResourceType::OrphanedDisk, ResourceType::StaleSnapshot),
        (ResourceType::UnusedSQLDatabase, ResourceType::OverprovisionedCosmosDB),
        (ResourceType::UnusedPublicIP, ResourceType::IdleCDNEndpoint),
        (ResourceType::LogIngestionBloat, ResourceType::ExpiredBackups),
    ];
    for (a, b) in pairs {
        assert!(is_related(a, b));
        assert!(is_related(b, a));
    }
}

#[test]
fn unrelated_kinds_are_not_related() {
    assert!(!is_related(
        ResourceType::IdleGPUCluster,
        ResourceType::UnusedSQLDatabase
    ));
    assert!(!is_related(
        ResourceType::UntaggedResource,
        ResourceType::IdleVM
    ));
}

#[test]
fn empty_is_related_to_nothing() {
    let all = [
        ResourceType::OverprovisionedOpenShift,
        ResourceType::MissedReservation,
        ResourceType::IdleGPUCluster,
        ResourceType::IdleVM,
        ResourceType::OversizedAppService,
        ResourceType::UnusedSQLDatabase,
        ResourceType::OverprovisionedCosmosDB,
        ResourceType::LogIngestionBloat,
        ResourceType::ExpiredBackups,
        ResourceType::RedundantLoadBalancer,
        ResourceType::OrphanedDisk,
        ResourceType::StaleSnapshot,
        ResourceType::UnusedPublicIP,
        ResourceType::UntaggedResource,
        ResourceType::IdleCDNEndpoint,
        ResourceType::EmptyStorageAccount,
        ResourceType::Empty,
    ];
    for k in all {
        assert!(!is_related(ResourceType::Empty, k));
        assert!(!is_related(k, ResourceType::Empty));
    }
}
