//! Static economics table per resource kind: waste cost, fix duration,
//! savings range, and the symmetric relatedness relation used by the combo
//! system.

use vstd::prelude::*;

verus! {

/// A kind of waste-producing cloud resource that can occupy a grid tile.
/// `Empty` marks a tile with no resource; it carries zero cost, duration and
/// savings and is related to nothing.
#[derive(Clone, Copy, Debug, PartialEq, Eq, Structural)]
pub enum ResourceType {
    // Critical value
    OverprovisionedOpenShift,
    MissedReservation,
    IdleGPUCluster,
    // High value
    IdleVM,
    OversizedAppService,
    UnusedSQLDatabase,
    OverprovisionedCosmosDB,
    // Medium value
    LogIngestionBloat,
    ExpiredBackups,
    RedundantLoadBalancer,
    // Low value
    OrphanedDisk,
    StaleSnapshot,
    UnusedPublicIP,
    UntaggedResource,
    IdleCDNEndpoint,
    EmptyStorageAccount,
    // No resource
    Empty,
}

/// Monthly waste cost of an unfixed resource, in currency units.
pub open spec fn spec_waste_cost(k: ResourceType) -> int {
    match k {
        ResourceType::OverprovisionedOpenShift => 320,
        ResourceType::MissedReservation => 280,
        ResourceType::IdleGPUCluster => 450,
        ResourceType::IdleVM => 150,
        ResourceType::OversizedAppService => 120,
        ResourceType::UnusedSQLDatabase => 180,
        ResourceType::OverprovisionedCosmosDB => 160,
        ResourceType::LogIngestionBloat => 80,
        ResourceType::ExpiredBackups => 60,
        ResourceType::RedundantLoadBalancer => 90,
        ResourceType::OrphanedDisk => 30,
        ResourceType::StaleSnapshot => 25,
        ResourceType::UnusedPublicIP => 20,
        ResourceType::UntaggedResource => 10,
        ResourceType::IdleCDNEndpoint => 35,
        ResourceType::EmptyStorageAccount => 15,
        ResourceType::Empty => 0,
    }
}

/// Number of sprints a fix of this kind takes; 0 only for `Empty`.
pub open spec fn spec_fix_sprints(k: ResourceType) -> int {
    match k {
        ResourceType::OverprovisionedOpenShift => 3,
        ResourceType::IdleGPUCluster => 3,
        ResourceType::OverprovisionedCosmosDB => 3,
        ResourceType::IdleVM => 2,
        ResourceType::MissedReservation => 2,
        ResourceType::OversizedAppService => 2,
        ResourceType::UnusedSQLDatabase => 2,
        ResourceType::LogIngestionBloat => 2,
        ResourceType::RedundantLoadBalancer => 2,
        ResourceType::OrphanedDisk => 1,
        ResourceType::StaleSnapshot => 1,
        ResourceType::UnusedPublicIP => 1,
        ResourceType::UntaggedResource => 1,
        ResourceType::ExpiredBackups => 1,
        ResourceType::IdleCDNEndpoint => 1,
        ResourceType::EmptyStorageAccount => 1,
        ResourceType::Empty => 0,
    }
}

/// Inclusive range of monthly savings unlocked by fixing this kind.
pub open spec fn spec_savings_range(k: ResourceType) -> (int, int) {
    match k {
        ResourceType::IdleGPUCluster => (600, 750),
        ResourceType::OverprovisionedOpenShift => (420, 520),
        ResourceType::MissedReservation => (380, 480),
        ResourceType::UnusedSQLDatabase => (240, 300),
        ResourceType::OverprovisionedCosmosDB => (210, 280),
        ResourceType::IdleVM => (200, 250),
        ResourceType::OversizedAppService => (160, 200),
        ResourceType::RedundantLoadBalancer => (110, 140),
        ResourceType::LogIngestionBloat => (100, 130),
        ResourceType::ExpiredBackups => (75, 95),
        ResourceType::IdleCDNEndpoint => (40, 50),
        ResourceType::OrphanedDisk => (35, 45),
        ResourceType::StaleSnapshot => (28, 35),
        ResourceType::UnusedPublicIP => (22, 28),
        ResourceType::EmptyStorageAccount => (16, 20),
        ResourceType::UntaggedResource => (10, 12),
        ResourceType::Empty => (0, 0),
    }
}

/// Truncated mean of the savings range; the per-tile savings figure.
pub open spec fn spec_avg_savings(k: ResourceType) -> int {
    (spec_savings_range(k).0 + spec_savings_range(k).1) / 2
}

/// One direction of the relatedness table; the public relation is its
/// symmetric closure.
pub open spec fn spec_related_one_way(a: ResourceType, b: ResourceType) -> bool {
    // Compute
    ||| (a is IdleVM && b is IdleGPUCluster)
    ||| (a is IdleVM && b is MissedReservation)
    // Storage
    ||| (a is OrphanedDisk && b is StaleSnapshot)
    ||| (a is OrphanedDisk && b is ExpiredBackups)
    ||| (a is EmptyStorageAccount && b is OrphanedDisk)
    // Databases
    ||| (a is UnusedSQLDatabase && b is OverprovisionedCosmosDB)
    // Containers
    ||| (a is OverprovisionedOpenShift && b is OversizedAppService)
    ||| (a is OverprovisionedOpenShift && b is RedundantLoadBalancer)
    // Networking
    ||| (a is UnusedPublicIP && b is RedundantLoadBalancer)
    ||| (a is UnusedPublicIP && b is IdleCDNEndpoint)
    // Logging
    ||| (a is LogIngestionBloat && b is ExpiredBackups)
}

/// Two kinds are related when either orientation appears in the pair table.
pub open spec fn spec_is_related(a: ResourceType, b: ResourceType) -> bool {
    spec_related_one_way(a, b) || spec_related_one_way(b, a)
}

impl ResourceType {
    /// Monthly waste cost of an unfixed resource of this kind.
    pub fn waste_cost(&self) -> (r: i32)
        ensures
            r == spec_waste_cost(*self),
            0 <= r <= MAX_WASTE_COST_I32,
    {
        match self {
            Self::OverprovisionedOpenShift => 320,
            Self::MissedReservation => 280,
            Self::IdleGPUCluster => 450,
            Self::IdleVM => 150,
            Self::OversizedAppService => 120,
            Self::UnusedSQLDatabase => 180,
            Self::OverprovisionedCosmosDB => 160,
            Self::LogIngestionBloat => 80,
            Self::ExpiredBackups => 60,
            Self::RedundantLoadBalancer => 90,
            Self::OrphanedDisk => 30,
            Self::StaleSnapshot => 25,
            Self::UnusedPublicIP => 20,
            Self::UntaggedResource => 10,
            Self::IdleCDNEndpoint => 35,
            Self::EmptyStorageAccount => 15,
            Self::Empty => 0,
        }
    }

    /// How many sprints a fix of this kind takes.
    pub fn fix_sprints(&self) -> (r: u8)
        ensures
            r == spec_fix_sprints(*self),
            r <= 3,
    {
        match self {
            Self::OverprovisionedOpenShift => 3,
            Self::IdleGPUCluster => 3,
            Self::OverprovisionedCosmosDB => 3,
            Self::IdleVM => 2,
            Self::MissedReservation => 2,
            Self::OversizedAppService => 2,
            Self::UnusedSQLDatabase => 2,
            Self::LogIngestionBloat => 2,
            Self::RedundantLoadBalancer => 2,
            Self::OrphanedDisk => 1,
            Self::StaleSnapshot => 1,
            Self::UnusedPublicIP => 1,
            Self::UntaggedResource => 1,
            Self::ExpiredBackups => 1,
            Self::IdleCDNEndpoint => 1,
            Self::EmptyStorageAccount => 1,
            Self::Empty => 0,
        }
    }

    /// Inclusive monthly savings range unlocked by fixing this kind.
    pub fn savings_range(&self) -> (r: (i32, i32))
        ensures
            r.0 == spec_savings_range(*self).0,
            r.1 == spec_savings_range(*self).1,
            0 <= r.0 <= r.1 <= MAX_SAVINGS_MAX_I32,
    {
        match self {
            Self::IdleGPUCluster => (600, 750),
            Self::OverprovisionedOpenShift => (420, 520),
            Self::MissedReservation => (380, 480),
            Self::UnusedSQLDatabase => (240, 300),
            Self::OverprovisionedCosmosDB => (210, 280),
            Self::IdleVM => (200, 250),
            Self::OversizedAppService => (160, 200),
            Self::RedundantLoadBalancer => (110, 140),
            Self::LogIngestionBloat => (100, 130),
            Self::ExpiredBackups => (75, 95),
            Self::IdleCDNEndpoint => (40, 50),
            Self::OrphanedDisk => (35, 45),
            Self::StaleSnapshot => (28, 35),
            Self::UnusedPublicIP => (22, 28),
            Self::EmptyStorageAccount => (16, 20),
            Self::UntaggedResource => (10, 12),
            Self::Empty => (0, 0),
        }
    }

    /// Truncated mean of the savings range.
    pub fn avg_savings(&self) -> (r: i32)
        ensures
            r == spec_avg_savings(*self),
            0 <= r <= MAX_SAVINGS_MAX_I32,
    {
        let (lo, hi) = self.savings_range();
        (lo + hi) / 2
    }
}

/// Largest value `waste_cost` can return.
pub const MAX_WASTE_COST_I32: i32 = 450;

/// Largest value either end of `savings_range` can take.
pub const MAX_SAVINGS_MAX_I32: i32 = 750;

/// Whether fixing `a` right after `b` (or `b` after `a`) continues a combo:
/// the relation is the symmetric closure of a small explicit pair table.
pub fn is_related(a: ResourceType, b: ResourceType) -> (r: bool)
    ensures
        r == spec_is_related(a, b),
{
    match (a, b) {
        (ResourceType::IdleVM, ResourceType::IdleGPUCluster)
        | (ResourceType::IdleGPUCluster, ResourceType::IdleVM) => true,
        (ResourceType::IdleVM, ResourceType::MissedReservation)
        | (ResourceType::MissedReservation, ResourceType::IdleVM) => true,
        (ResourceType::OrphanedDisk, ResourceType::StaleSnapshot)
        | (ResourceType::StaleSnapshot, ResourceType::OrphanedDisk) => true,
        (ResourceType::OrphanedDisk, ResourceType::ExpiredBackups)
        | (ResourceType::ExpiredBackups, ResourceType::OrphanedDisk) => true,
        (ResourceType::EmptyStorageAccount, ResourceType::OrphanedDisk)
        | (ResourceType::OrphanedDisk, ResourceType::EmptyStorageAccount) => true,
        (ResourceType::UnusedSQLDatabase, ResourceType::OverprovisionedCosmosDB)
        | (ResourceType::OverprovisionedCosmosDB, ResourceType::UnusedSQLDatabase) => true,
        (ResourceType::OverprovisionedOpenShift, ResourceType::OversizedAppService)
        | (ResourceType::OversizedAppService, ResourceType::OverprovisionedOpenShift) => true,
        (ResourceType::OverprovisionedOpenShift, ResourceType::RedundantLoadBalancer)
        | (ResourceType::RedundantLoadBalancer, ResourceType::OverprovisionedOpenShift) => true,
        (ResourceType::UnusedPublicIP, ResourceType::RedundantLoadBalancer)
        | (ResourceType::RedundantLoadBalancer, ResourceType::UnusedPublicIP) => true,
        (ResourceType::UnusedPublicIP, ResourceType::IdleCDNEndpoint)
        | (ResourceType::IdleCDNEndpoint, ResourceType::UnusedPublicIP) => true,
        (ResourceType::LogIngestionBloat, ResourceType::ExpiredBackups)
        | (ResourceType::ExpiredBackups, ResourceType::LogIngestionBloat) => true,
        _ => false,
    }
}

/// The relatedness relation is symmetric.
pub proof fn lemma_is_related_symmetric(a: ResourceType, b: ResourceType)
    ensures
        spec_is_related(a, b) == spec_is_related(b, a),
{
}

/// `Empty` is related to nothing, and costs nothing to hold or to fix.
pub proof fn lemma_empty_is_inert(k: ResourceType)
    ensures
        !spec_is_related(ResourceType::Empty, k),
        !spec_is_related(k, ResourceType::Empty),
        spec_waste_cost(ResourceType::Empty) == 0,
        spec_fix_sprints(ResourceType::Empty) == 0,
        spec_avg_savings(ResourceType::Empty) == 0,
{
}

} // verus!
