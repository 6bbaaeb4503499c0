//! Procedural grid generation: positions are shuffled uniformly, the first
//! 40% (floored) of them receive a resource kind drawn from a fixed pool in
//! which commoner kinds appear as repeated entries, and every other tile is
//! `Empty`.

use vstd::prelude::*;

use crate::catalog::ResourceType;
use crate::rng::{choose_kind, shuffle_positions};

verus! {

broadcast use vstd::seq_lib::group_to_multiset_ensures;

/// How many tiles of an `n`-tile grid carry a resource: 40%, floored.
pub open spec fn spec_resource_count(n: int) -> int {
    n * 2 / 5
}

/// Number of non-`Empty` cells in a grid, row-major.
pub open spec fn count_resources(g: Seq<ResourceType>) -> int
    decreases g.len(),
{
    if g.len() == 0 {
        0
    } else {
        count_resources(g.drop_last()) + if g.last() is Empty {
            0int
        } else {
            1int
        }
    }
}

/// The draw pool: one entry per appearance, so that kinds listed several
/// times are proportionally likelier. Critical kinds appear once.
pub open spec fn spec_kind_pool() -> Seq<ResourceType> {
    seq![
        ResourceType::IdleGPUCluster,
        ResourceType::OverprovisionedOpenShift,
        ResourceType::MissedReservation,
        ResourceType::IdleVM,
        ResourceType::IdleVM,
        ResourceType::OversizedAppService,
        ResourceType::UnusedSQLDatabase,
        ResourceType::OverprovisionedCosmosDB,
        ResourceType::LogIngestionBloat,
        ResourceType::LogIngestionBloat,
        ResourceType::ExpiredBackups,
        ResourceType::RedundantLoadBalancer,
        ResourceType::OrphanedDisk,
        ResourceType::OrphanedDisk,
        ResourceType::StaleSnapshot,
        ResourceType::StaleSnapshot,
        ResourceType::UnusedPublicIP,
        ResourceType::UntaggedResource,
        ResourceType::UntaggedResource,
        ResourceType::IdleCDNEndpoint,
        ResourceType::EmptyStorageAccount,
    ]
}

/// Builds the draw pool as a vector.
fn kind_pool() -> (r: Vec<ResourceType>)
    ensures
        r@ == spec_kind_pool(),
        r@.len() == 21,
{
    let r: Vec<ResourceType> = vec![
        ResourceType::IdleGPUCluster,
        ResourceType::OverprovisionedOpenShift,
        ResourceType::MissedReservation,
        ResourceType::IdleVM,
        ResourceType::IdleVM,
        ResourceType::OversizedAppService,
        ResourceType::UnusedSQLDatabase,
        ResourceType::OverprovisionedCosmosDB,
        ResourceType::LogIngestionBloat,
        ResourceType::LogIngestionBloat,
        ResourceType::ExpiredBackups,
        ResourceType::RedundantLoadBalancer,
        ResourceType::OrphanedDisk,
        ResourceType::OrphanedDisk,
        ResourceType::StaleSnapshot,
        ResourceType::StaleSnapshot,
        ResourceType::UnusedPublicIP,
        ResourceType::UntaggedResource,
        ResourceType::UntaggedResource,
        ResourceType::IdleCDNEndpoint,
        ResourceType::EmptyStorageAccount,
    ];
    proof {
        assert(r@ =~= spec_kind_pool());
    }
    r
}

/// No entry of the pool is `Empty`.
pub proof fn lemma_pool_has_no_empty()
    ensures
        forall|j: int| 0 <= j < spec_kind_pool().len() ==> spec_kind_pool()[j] !is Empty,
{
}

/// Updating an `Empty` cell to a resource raises the resource count by one.
proof fn lemma_count_update(g: Seq<ResourceType>, i: int, k: ResourceType)
    requires
        0 <= i < g.len(),
        g[i] is Empty,
        k !is Empty,
    ensures
        count_resources(g.update(i, k)) == count_resources(g) + 1,
    decreases g.len(),
{
    let g2 = g.update(i, k);
    if i == g.len() - 1 {
        assert(g2.drop_last() =~= g.drop_last());
    } else {
        assert(g2.drop_last() =~= g.drop_last().update(i, k));
        lemma_count_update(g.drop_last(), i, k);
    }
}

/// An all-`Empty` grid has no resources.
pub proof fn lemma_count_all_empty(g: Seq<ResourceType>)
    requires
        forall|j: int| 0 <= j < g.len() ==> g[j] is Empty,
    ensures
        count_resources(g) == 0,
    decreases g.len(),
{
    if g.len() > 0 {
        lemma_count_all_empty(g.drop_last());
    }
}

/// Generates a fresh `size` x `size` grid, row-major (cell `(x, y)` at index
/// `x * size + y`). Exactly 40% of the cells (floored) carry a resource kind
/// drawn from the pool; the remainder are `Empty`.
pub fn generate_random_grid(size: u8, rng: &mut rand::rngs::StdRng) -> (g: Vec<ResourceType>)
    ensures
        g@.len() == size as int * size as int,
        count_resources(g@) == spec_resource_count(size as int * size as int),
        forall|j: int| 0 <= j < g@.len() && g@[j] !is Empty ==> spec_kind_pool().contains(g@[j]),
{
    proof {
        assert(size as int * size as int <= 65025) by (nonlinear_arith)
            requires
                size <= 255,
        ;
    }
    let n: usize = size as usize * size as usize;
    let mut grid: Vec<ResourceType> = vec![ResourceType::Empty; n];
    assert(forall|j: int| 0 <= j < n ==> grid@[j] is Empty);

    let mut positions: Vec<u16> = Vec::new();
    let mut i: usize = 0;
    while i < n
        invariant
            n <= 65025,
            i <= n,
            positions@.len() == i,
            forall|j: int| 0 <= j < i ==> positions@[j] == j as u16,
        decreases n - i,
    {
        positions.push(i as u16);
        i = i + 1;
    }
    assert(positions@.no_duplicates());
    proof {
        positions@.lemma_multiset_has_no_duplicates();
    }

    let ghost pre_shuffle = positions@;
    shuffle_positions(&mut positions, rng);
    proof {
        assert forall|j: int| 0 <= j < positions@.len() implies positions@[j] < n by {
            let x = positions@[j];
            assert(positions@.contains(x));
            assert(positions@.to_multiset().count(x) > 0);
            assert(pre_shuffle.to_multiset().count(x) > 0);
            assert(pre_shuffle.contains(x));
            let jj = choose|jj: int| 0 <= jj < pre_shuffle.len() && pre_shuffle[jj] == x;
            assert(pre_shuffle[jj] == jj as u16);
        }
        positions@.lemma_multiset_has_no_duplicates_conv();
    }

    let pool = kind_pool();
    let count: usize = n * 2 / 5;
    assert(count <= n);
    proof {
        lemma_count_all_empty(grid@);
    }

    let mut t: usize = 0;
    while t < count
        invariant
            count <= n,
            t <= count,
            positions@.len() == n,
            grid@.len() == n,
            pool@ == spec_kind_pool(),
            positions@.no_duplicates(),
            forall|j: int| 0 <= j < n ==> positions@[j] < n,
            count_resources(grid@) == t,
            forall|j: int| t <= j < count ==> grid@[positions@[j] as int] is Empty,
            forall|j: int| 0 <= j < n && grid@[j] !is Empty ==> spec_kind_pool().contains(
                grid@[j],
            ),
        decreases count - t,
    {
        let p = positions[t] as usize;
        let k = choose_kind(&pool, rng).unwrap();
        proof {
            lemma_pool_has_no_empty();
            assert(spec_kind_pool().contains(k));
            let jk = choose|jj: int|
                0 <= jj < spec_kind_pool().len() && spec_kind_pool()[jj] == k;
            assert(spec_kind_pool()[jk] !is Empty);
            lemma_count_update(grid@, p as int, k);
            assert(forall|j: int| t + 1 <= j < count ==> positions@[j] != positions@[t as int]);
        }
        grid[p] = k;
        t = t + 1;
    }
    grid
}

} // verus!
