//! The live game: an `8 x 8` (configurable) grid of resource tiles driven by
//! the tick-based economy. One tick runs, in order: the decay-epoch check,
//! the per-tile fixing countdown, the full waste and savings recompute, the
//! processing of newly completed fixes (combo, adjacency, combo-weighted
//! savings), and the win check.

use vstd::prelude::*;

use crate::catalog::{
    is_related, spec_avg_savings, spec_fix_sprints, spec_is_related, spec_waste_cost, ResourceType,
};
use crate::economy::{
    spec_burn_rate, spec_waste_pct_tenths, spec_win_numbers, Difficulty, GameData, TileState,
    COMBO_MAX, COMBO_MIN, DECAY_CAP, MAX_ADJACENCY_BONUS, MAX_INITIAL_BUDGET, MAX_MONTHLY_SAVINGS,
    MAX_TILE_WASTE, MAX_TOTAL_WASTE, MOVE_COST,
};
use crate::grid::generate_random_grid;

verus! {

/// Cell `(x, y)` of a `size` x `size` grid lives at row-major index
/// `x * size + y`.
pub open spec fn spec_index(size: int, x: int, y: int) -> int {
    x * size + y
}

/// Whether `(x, y)` lies on the grid.
pub open spec fn spec_in_bounds(size: int, x: int, y: int) -> bool {
    0 <= x < size && 0 <= y < size
}

/// Whether `(x, y)` is on the grid and holds a resource.
pub open spec fn spec_res_at(kinds: Seq<ResourceType>, size: int, x: int, y: int) -> bool {
    spec_in_bounds(size, x, y) && kinds[spec_index(size, x, y)] !is Empty
}

/// Numerator a neighbouring cell contributes to the neighbour multiplier:
/// 9 (x0.9) for a fixed resource, 11 (x1.1) for an unfixed one, 1 for
/// everything else (off-grid or empty).
pub open spec fn spec_nbr_num(
    kinds: Seq<ResourceType>,
    states: Seq<TileState>,
    size: int,
    x: int,
    y: int,
) -> int {
    if spec_res_at(kinds, size, x, y) {
        if states[spec_index(size, x, y)].fixed {
            9
        } else {
            11
        }
    } else {
        1
    }
}

/// Denominator a neighbouring cell contributes: 10 for any resource
/// neighbour, 1 otherwise.
pub open spec fn spec_nbr_den(kinds: Seq<ResourceType>, size: int, x: int, y: int) -> int {
    if spec_res_at(kinds, size, x, y) {
        10
    } else {
        1
    }
}

/// Product of the numerators of the four orthogonal neighbours of `(x, y)`.
pub open spec fn spec_neighbor_num(
    kinds: Seq<ResourceType>,
    states: Seq<TileState>,
    size: int,
    x: int,
    y: int,
) -> int {
    spec_nbr_num(kinds, states, size, x - 1, y) * spec_nbr_num(kinds, states, size, x + 1, y)
        * spec_nbr_num(kinds, states, size, x, y - 1) * spec_nbr_num(kinds, states, size, x, y + 1)
}

/// Product of the denominators of the four orthogonal neighbours of `(x, y)`.
pub open spec fn spec_neighbor_den(kinds: Seq<ResourceType>, size: int, x: int, y: int) -> int {
    spec_nbr_den(kinds, size, x - 1, y) * spec_nbr_den(kinds, size, x + 1, y) * spec_nbr_den(
        kinds,
        size,
        x,
        y - 1,
    ) * spec_nbr_den(kinds, size, x, y + 1)
}

/// The decay multiplier a tile is read with: an unset (0) value counts as
/// one whole unit.
pub open spec fn spec_effective_decay(d: u64) -> int {
    if d == 0 {
        1000
    } else {
        d as int
    }
}

/// One decay epoch: the effective multiplier grows by 20% (floored in
/// thousandths) and saturates at `DECAY_CAP`.
pub open spec fn spec_decay_step(d: u64) -> int {
    let e = spec_effective_decay(d);
    if e * 6 / 5 > DECAY_CAP {
        DECAY_CAP as int
    } else {
        e * 6 / 5
    }
}

/// Waste contributed by the tile at index `i`: zero if empty or fixed, else
/// the floor of `base x decay x neighbour multiplier` computed as one exact
/// rational.
pub open spec fn spec_tile_waste(
    kinds: Seq<ResourceType>,
    states: Seq<TileState>,
    size: int,
    i: int,
) -> int {
    let x = i / size;
    let y = i % size;
    if kinds[i] is Empty || states[i].fixed {
        0
    } else {
        spec_waste_cost(kinds[i]) * spec_effective_decay(states[i].decay_multiplier)
            * spec_neighbor_num(kinds, states, size, x, y) / (spec_neighbor_den(kinds, size, x, y)
            * 1000)
    }
}

/// Sum of `spec_tile_waste` over the first `n` tiles.
pub open spec fn spec_waste_sum(
    kinds: Seq<ResourceType>,
    states: Seq<TileState>,
    size: int,
    n: int,
) -> int
    decreases n,
{
    if n <= 0 {
        0
    } else {
        spec_waste_sum(kinds, states, size, n - 1) + spec_tile_waste(kinds, states, size, n - 1)
    }
}

/// The authoritative total waste: every tile's contribution, recomputed from
/// scratch.
pub open spec fn spec_total_waste(
    kinds: Seq<ResourceType>,
    states: Seq<TileState>,
    size: int,
) -> int {
    spec_waste_sum(kinds, states, size, size * size)
}

/// Sum over the first `n` tiles of the plain average savings of each fixed
/// tile (no combo weighting).
pub open spec fn spec_savings_sum(kinds: Seq<ResourceType>, states: Seq<TileState>, n: int) -> int
    decreases n,
{
    if n <= 0 {
        0
    } else {
        spec_savings_sum(kinds, states, n - 1) + if states[n - 1].fixed {
            spec_avg_savings(kinds[n - 1])
        } else {
            0
        }
    }
}

/// Sum of the base waste costs of the first `n` cells: the ground-truth
/// initial waste of a freshly generated grid.
pub open spec fn spec_base_waste_sum(kinds: Seq<ResourceType>, n: int) -> int
    decreases n,
{
    if n <= 0 {
        0
    } else {
        spec_base_waste_sum(kinds, n - 1) + spec_waste_cost(kinds[n - 1])
    }
}

/// Number of fixed tiles among the first `n`.
pub open spec fn spec_count_fixed(states: Seq<TileState>, n: int) -> int
    decreases n,
{
    if n <= 0 {
        0
    } else {
        spec_count_fixed(states, n - 1) + if states[n - 1].fixed {
            1int
        } else {
            0int
        }
    }
}

/// Number of revealed tiles among the first `n`.
pub open spec fn spec_count_revealed(states: Seq<TileState>, n: int) -> int
    decreases n,
{
    if n <= 0 {
        0
    } else {
        spec_count_revealed(states, n - 1) + if states[n - 1].revealed {
            1int
        } else {
            0int
        }
    }
}

/// A read-only view of the aggregates the presentation layer renders. The
/// reported budget clamps at zero for display; the real budget may be
/// transiently negative when the loss latches.
#[derive(Clone, Copy, Debug, PartialEq, Eq, Structural)]
pub struct EconomySnapshot {
    pub budget: i64,
    pub sprint: u32,
    pub total_waste: i64,
    pub monthly_savings: i64,
    /// Tenths (10 = x1.0).
    pub combo_multiplier: u32,
    /// Tenths of a percent.
    pub waste_percentage: i64,
    pub game_won: bool,
    pub game_lost: bool,
}

/// A movement or fix command that was refused: the state is unchanged.
#[derive(Clone, Copy, Debug, PartialEq, Eq, Structural)]
pub struct Rejected;

/// A movement direction on the grid; `Up` increases `y`.
#[derive(Clone, Copy, Debug, PartialEq, Eq, Structural)]
pub enum Direction {
    Up,
    Down,
    Left,
    Right,
}

/// A tile state as freshly created: hidden, unfixed, no decay.
pub open spec fn spec_fresh_tile() -> TileState {
    TileState { revealed: false, fixed: false, fixing_sprints_left: 0, decay_multiplier: 0 }
}

/// One live game: the immutable resource layout, the mutable per-tile
/// states, and the aggregate economy.
pub struct Game {
    pub data: GameData,
    /// Resource kind of each cell, row-major; fixed at generation.
    pub kinds: Vec<ResourceType>,
    /// Mutable state of each cell, same indexing.
    pub states: Vec<TileState>,
}

impl Game {
    /// Tiles on the grid.
    pub open spec fn n_tiles(self) -> int {
        self.data.grid_size as int * self.data.grid_size as int
    }

    /// Well-formedness: the aggregate bounds of `GameData::wf`, matching
    /// layout lengths, per-tile bounds, and the counters that tie the
    /// accumulated bonuses to the number of fixed tiles.
    pub open spec fn wf(self) -> bool {
        &&& self.data.wf()
        &&& self.kinds@.len() == self.n_tiles()
        &&& self.states@.len() == self.n_tiles()
        &&& forall|j: int|
            0 <= j < self.states@.len() ==> (#[trigger] self.states@[j]).decay_multiplier
                <= DECAY_CAP
        &&& forall|j: int|
            0 <= j < self.states@.len() ==> (#[trigger] self.states@[j]).fixing_sprints_left <= 3
        &&& forall|j: int|
            0 <= j < self.states@.len() && (#[trigger] self.states@[j]).fixed
                ==> self.states@[j].fixing_sprints_left == 0
        &&& self.data.tiles_revealed_count == spec_count_revealed(
            self.states@,
            self.states@.len() as int,
        )
        &&& self.data.combo_weighted_savings <= 1350 * spec_count_fixed(
            self.states@,
            self.states@.len() as int,
        )
        &&& self.data.adjacency_bonus <= 200 * spec_count_fixed(
            self.states@,
            self.states@.len() as int,
        )
    }

    /// Builds a game over an already generated grid: the player starts at
    /// the centre, every tile hidden and unfixed, and `total_waste` set to
    /// the ground-truth sum of all base waste costs, revealed or not.
    pub fn from_grid(grid_size: u8, initial_budget: i64, kinds: Vec<ResourceType>) -> (g: Game)
        requires
            1 <= grid_size,
            1 <= initial_budget <= MAX_INITIAL_BUDGET,
            kinds@.len() == grid_size as int * grid_size as int,
        ensures
            g.wf(),
            g.kinds@ == kinds@,
            g.data.grid_size == grid_size,
            g.data.budget == initial_budget,
            g.data.sprint == 0,
            g.data.monthly_savings == 0,
            g.data.combo_multiplier == COMBO_MIN,
            !g.data.game_won,
            !g.data.game_lost,
            g.data.player_x == grid_size / 2,
            g.data.player_y == grid_size / 2,
            g.data.resources_fixed_in_order@.len() == 0,
            g.data.adjacency_bonus == 0,
            g.data.combo_weighted_savings == 0,
            g.data.last_decay_sprint == 0,
            g.data.tiles_revealed_count == 0,
            g.data.total_waste == spec_base_waste_sum(kinds@, kinds@.len() as int),
            forall|j: int|
                0 <= j < g.states@.len() ==> (#[trigger] g.states@[j]) == spec_fresh_tile(),
    {
        let n: usize = kinds.len();
        proof {
            assert(grid_size as int * grid_size as int <= 65025) by (nonlinear_arith)
                requires
                    grid_size <= 255,
            ;
        }
        let mut data = GameData::new(Difficulty::Normal);
        data.grid_size = grid_size;
        data.budget = initial_budget;
        data.player_x = grid_size / 2;
        data.player_y = grid_size / 2;

        let mut states: Vec<TileState> = Vec::new();
        let mut i: usize = 0;
        while i < n
            invariant
                i <= n,
                states@.len() == i,
                forall|j: int| 0 <= j < i ==> (#[trigger] states@[j]) == spec_fresh_tile(),
            decreases n - i,
        {
            states.push(TileState::new());
            i = i + 1;
        }

        let mut total: i64 = 0;
        let mut t: usize = 0;
        while t < n
            invariant
                t <= n,
                n == kinds@.len(),
                n <= 65025,
                total == spec_base_waste_sum(kinds@, t as int),
                0 <= total <= t * 450,
            decreases n - t,
        {
            let c = kinds[t].waste_cost();
            total = total + c as i64;
            t = t + 1;
        }
        data.total_waste = total;

        let g = Game { data, kinds, states };
        proof {
            assert(total <= MAX_TOTAL_WASTE);
            lemma_count_revealed_all_hidden(g.states@, g.states@.len() as int);
            lemma_count_fixed_nonneg(g.states@, g.states@.len() as int);
        }
        g
    }

    /// Starts a fresh game: generates the random grid and hands it to
    /// `from_grid`. The grid the game owns is a genuine generator outcome:
    /// the right size, exactly 40% (floored) resource-bearing, every
    /// resource drawn from the pool.
    pub fn initialize(
        grid_size: u8,
        initial_budget: i64,
        rng: &mut rand::rngs::StdRng,
    ) -> (g: Game)
        requires
            1 <= grid_size,
            1 <= initial_budget <= MAX_INITIAL_BUDGET,
        ensures
            g.wf(),
            g.data.grid_size == grid_size,
            g.data.budget == initial_budget,
            g.data.sprint == 0,
            g.data.monthly_savings == 0,
            g.data.combo_multiplier == COMBO_MIN,
            !g.data.game_won,
            !g.data.game_lost,
            g.data.player_x == grid_size / 2,
            g.data.player_y == grid_size / 2,
            g.data.resources_fixed_in_order@.len() == 0,
            g.data.adjacency_bonus == 0,
            g.data.combo_weighted_savings == 0,
            g.data.last_decay_sprint == 0,
            g.data.tiles_revealed_count == 0,
            g.kinds@.len() == grid_size as int * grid_size as int,
            crate::grid::count_resources(g.kinds@) == crate::grid::spec_resource_count(
                g.kinds@.len() as int,
            ),
            forall|j: int|
                0 <= j < g.kinds@.len() && g.kinds@[j] !is Empty
                    ==> crate::grid::spec_kind_pool().contains(g.kinds@[j]),
            g.data.total_waste == spec_base_waste_sum(g.kinds@, g.kinds@.len() as int),
            forall|j: int|
                0 <= j < g.states@.len() ==> (#[trigger] g.states@[j]) == spec_fresh_tile(),
    {
        let kinds = generate_random_grid(grid_size, rng);
        Game::from_grid(grid_size, initial_budget, kinds)
    }

    /// The aggregates as the presentation layer sees them, with the budget
    /// clamped at zero for display.
    pub fn snapshot(&self) -> (snap: EconomySnapshot)
        requires
            self.wf(),
        ensures
            snap.budget == if self.data.budget >= 0 {
                self.data.budget as int
            } else {
                0
            },
            snap.sprint == self.data.sprint,
            snap.total_waste == self.data.total_waste,
            snap.monthly_savings == self.data.monthly_savings,
            snap.combo_multiplier == self.data.combo_multiplier,
            snap.waste_percentage == spec_waste_pct_tenths(self.data.total_waste as int),
            snap.game_won == self.data.game_won,
            snap.game_lost == self.data.game_lost,
    {
        EconomySnapshot {
            budget: if self.data.budget >= 0 {
                self.data.budget
            } else {
                0
            },
            sprint: self.data.sprint,
            total_waste: self.data.total_waste,
            monthly_savings: self.data.monthly_savings,
            combo_multiplier: self.data.combo_multiplier,
            waste_percentage: self.data.waste_percentage(),
            game_won: self.data.game_won,
            game_lost: self.data.game_lost,
        }
    }
}

/// All-hidden tile states count zero revealed tiles.
proof fn lemma_count_revealed_all_hidden(states: Seq<TileState>, n: int)
    requires
        forall|j: int| 0 <= j < states.len() ==> !(#[trigger] states[j]).revealed,
        n <= states.len(),
    ensures
        spec_count_revealed(states, n) == 0,
    decreases n,
{
    if n > 0 {
        lemma_count_revealed_all_hidden(states, n - 1);
    }
}

/// The fixed-tile count is never negative.
proof fn lemma_count_fixed_nonneg(states: Seq<TileState>, n: int)
    ensures
        spec_count_fixed(states, n) >= 0,
    decreases n,
{
    if n > 0 {
        lemma_count_fixed_nonneg(states, n - 1);
    }
}

/// What `recompute_waste` does to the aggregates: `total_waste` and
/// `monthly_savings` are replaced by their from-scratch sums over the
/// current tiles; nothing else moves.
pub open spec fn spec_recompute(
    d: GameData,
    kinds: Seq<ResourceType>,
    states: Seq<TileState>,
    size: int,
) -> GameData {
    GameData {
        total_waste: spec_total_waste(kinds, states, size) as i64,
        monthly_savings: spec_savings_sum(kinds, states, size * size) as i64,
        ..d
    }
}

/// Recomputing from an already recomputed state changes nothing: the sums
/// depend only on the tiles, which the recompute leaves untouched.
pub proof fn lemma_recompute_idempotent(
    d: GameData,
    kinds: Seq<ResourceType>,
    states: Seq<TileState>,
    size: int,
)
    ensures
        spec_recompute(spec_recompute(d, kinds, states, size), kinds, states, size)
            == spec_recompute(d, kinds, states, size),
{
}

/// Neighbour factor of the in-bounds cell `(x, y)` as a
/// (numerator, denominator) pair.
fn nbr_factor(kinds: &Vec<ResourceType>, states: &Vec<TileState>, size: u8, x: u8, y: u8) -> (f: (
    i64,
    i64,
))
    requires
        kinds@.len() == size as int * size as int,
        states@.len() == kinds@.len(),
        x < size,
        y < size,
    ensures
        f.0 == spec_nbr_num(kinds@, states@, size as int, x as int, y as int),
        f.1 == spec_nbr_den(kinds@, size as int, x as int, y as int),
        1 <= f.0 <= 11,
        1 <= f.1 <= 10,
{
    proof {
        assert((x as int * size as int + y as int) < (size as int) * (size as int)
            && (x as int * size as int + y as int) < 65025) by (nonlinear_arith)
            requires
                x < size,
                y < size,
                size <= 255,
        ;
    }
    let i: usize = x as usize * size as usize + y as usize;
    if kinds[i] == ResourceType::Empty {
        (1, 1)
    } else if states[i].fixed {
        (9, 10)
    } else {
        (11, 10)
    }
}

/// Computes the exact neighbour multiplier of the cell `(x, y)` as a
/// (numerator, denominator) pair over its up-to-four orthogonal
/// neighbours.
#[verifier::rlimit(50)]
fn neighbor_factors(kinds: &Vec<ResourceType>, states: &Vec<TileState>, size: u8, x: u8, y: u8) -> (f: (
    i64,
    i64,
))
    requires
        kinds@.len() == size as int * size as int,
        states@.len() == kinds@.len(),
        x < size,
        y < size,
    ensures
        f.0 == spec_neighbor_num(kinds@, states@, size as int, x as int, y as int),
        f.1 == spec_neighbor_den(kinds@, size as int, x as int, y as int),
        1 <= f.0 <= 14641,
        1 <= f.1 <= 10000,
{
    let ghost sz = size as int;
    let ghost n1 = spec_nbr_num(kinds@, states@, sz, x as int - 1, y as int);
    let ghost n2 = spec_nbr_num(kinds@, states@, sz, x as int + 1, y as int);
    let ghost n3 = spec_nbr_num(kinds@, states@, sz, x as int, y as int - 1);
    let ghost n4 = spec_nbr_num(kinds@, states@, sz, x as int, y as int + 1);
    let ghost d1 = spec_nbr_den(kinds@, sz, x as int - 1, y as int);
    let ghost d2 = spec_nbr_den(kinds@, sz, x as int + 1, y as int);
    let ghost d3 = spec_nbr_den(kinds@, sz, x as int, y as int - 1);
    let ghost d4 = spec_nbr_den(kinds@, sz, x as int, y as int + 1);
    let mut num: i64 = 1;
    let mut den: i64 = 1;
    if x > 0 {
        let f = nbr_factor(kinds, states, size, x - 1, y);
        num = num * f.0;
        den = den * f.1;
    }
    proof {
        assert(num == n1);
        assert(den == d1);
    }
    if x + 1 < size {
        let f = nbr_factor(kinds, states, size, x + 1, y);
        proof {
            assert(num * f.0 <= 121 && num * f.0 >= 1 && den * f.1 <= 100 && den * f.1 >= 1)
                by (nonlinear_arith)
                requires
                    1 <= num <= 11,
                    1 <= f.0 <= 11,
                    1 <= den <= 10,
                    1 <= f.1 <= 10,
            ;
        }
        num = num * f.0;
        den = den * f.1;
    }
    proof {
        assert(num == n1 * n2);
        assert(den == d1 * d2);
    }
    if y > 0 {
        let f = nbr_factor(kinds, states, size, x, y - 1);
        proof {
            assert(num * f.0 <= 1331 && num * f.0 >= 1 && den * f.1 <= 1000 && den * f.1 >= 1)
                by (nonlinear_arith)
                requires
                    1 <= num <= 121,
                    1 <= f.0 <= 11,
                    1 <= den <= 100,
                    1 <= f.1 <= 10,
            ;
        }
        num = num * f.0;
        den = den * f.1;
    }
    proof {
        assert(num == n1 * n2 * n3);
        assert(den == d1 * d2 * d3);
    }
    if y + 1 < size {
        let f = nbr_factor(kinds, states, size, x, y + 1);
        proof {
            assert(num * f.0 <= 14641 && num * f.0 >= 1 && den * f.1 <= 10000 && den * f.1 >= 1)
                by (nonlinear_arith)
                requires
                    1 <= num <= 1331,
                    1 <= f.0 <= 11,
                    1 <= den <= 1000,
                    1 <= f.1 <= 10,
            ;
        }
        num = num * f.0;
        den = den * f.1;
    }
    proof {
        assert(num == n1 * n2 * n3 * n4);
        assert(den == d1 * d2 * d3 * d4);
    }
    (num, den)
}

/// Waste contributed right now by the tile at `(x, y)`.
#[verifier::rlimit(50)]
fn tile_waste(kinds: &Vec<ResourceType>, states: &Vec<TileState>, size: u8, x: u8, y: u8) -> (w:
    i64)
    requires
        kinds@.len() == size as int * size as int,
        states@.len() == kinds@.len(),
        x < size,
        y < size,
        forall|j: int|
            0 <= j < states@.len() ==> (#[trigger] states@[j]).decay_multiplier <= DECAY_CAP,
    ensures
        w == spec_tile_waste(
            kinds@,
            states@,
            size as int,
            spec_index(size as int, x as int, y as int),
        ),
        0 <= w <= MAX_TILE_WASTE,
{
    proof {
        assert((x as int * size as int + y as int) < (size as int) * (size as int)
            && (x as int * size as int + y as int) < 65025) by (nonlinear_arith)
            requires
                x < size,
                y < size,
                size <= 255,
        ;
    }
    let i: usize = x as usize * size as usize + y as usize;
    let ghost ii = i as int;
    let ghost sz = size as int;
    proof {
        vstd::arithmetic::div_mod::lemma_fundamental_div_mod_converse_div(
            ii,
            sz,
            x as int,
            y as int,
        );
        vstd::arithmetic::div_mod::lemma_fundamental_div_mod_converse_mod(
            ii,
            sz,
            x as int,
            y as int,
        );
    }
    if kinds[i] == ResourceType::Empty || states[i].fixed {
        return 0;
    }
    let nd = neighbor_factors(kinds, states, size, x, y);
    let num = nd.0;
    let den = nd.1;
    let eff: i64 = if states[i].decay_multiplier == 0 {
        1000
    } else {
        states[i].decay_multiplier as i64
    };
    let base: i64 = kinds[i].waste_cost() as i64;
    proof {
        assert(0 <= base * eff <= 4_500_000_000i64 && 0 <= base * eff * num
            <= 65_884_500_000_000i64) by (nonlinear_arith)
            requires
                0 <= base <= 450,
                0 <= eff <= 10_000_000,
                1 <= num <= 14641,
        ;
        assert(1000 <= den * 1000 <= 10_000_000) by (nonlinear_arith)
            requires
                1 <= den <= 10000,
        ;
    }
    let w = base * eff * num / (den * 1000);
    proof {
        let xx = base * eff * num;
        let dd = den * 1000;
        vstd::arithmetic::div_mod::lemma_div_pos_is_pos(xx as int, dd as int);
        vstd::arithmetic::div_mod::lemma_div_is_ordered_by_denominator(xx as int, 1000, dd as int);
        vstd::arithmetic::div_mod::lemma_div_is_ordered(xx as int, 65_884_500_000_000, 1000);
        assert(w <= MAX_TILE_WASTE);
    }
    w
}

impl Game {
    /// Full recompute pass: replaces `total_waste` with the sum of every
    /// tile's current waste contribution and `monthly_savings` with the
    /// plain (combo-free) sum of average savings over fixed tiles. This is
    /// the authoritative formula for both figures; the combo-weighted
    /// figure accumulated at fix time is kept apart.
    pub fn recompute_waste(&mut self)
        requires
            old(self).wf(),
        ensures
            final(self).wf(),
            final(self).kinds@ == old(self).kinds@,
            final(self).states@ == old(self).states@,
            final(self).data == spec_recompute(
                old(self).data,
                old(self).kinds@,
                old(self).states@,
                old(self).data.grid_size as int,
            ),
            0 <= spec_total_waste(
                old(self).kinds@,
                old(self).states@,
                old(self).data.grid_size as int,
            ) <= MAX_TOTAL_WASTE,
            0 <= spec_savings_sum(old(self).kinds@, old(self).states@, old(self).states@.len() as int)
                <= MAX_MONTHLY_SAVINGS,
    {
        let size = self.data.grid_size;
        let ghost sz = size as int;
        proof {
            assert(sz * sz <= 65025) by (nonlinear_arith)
                requires
                    0 <= sz <= 255,
            ;
        }
        let mut total: i64 = 0;
        let mut savings: i64 = 0;
        let mut i: usize = 0;
        let mut x: u8 = 0;
        while x < size
            invariant
                x <= size,
                i == x as int * sz,
                sz == size as int,
                sz * sz <= 65025,
                self.wf(),
                size == self.data.grid_size,
                total == spec_waste_sum(self.kinds@, self.states@, sz, i as int),
                0 <= total <= i * MAX_TILE_WASTE,
                savings == spec_savings_sum(self.kinds@, self.states@, i as int),
                0 <= savings <= i * 675,
            decreases size - x,
        {
            let mut y: u8 = 0;
            while y < size
                invariant
                    x < size,
                    y <= size,
                    i == x as int * sz + y as int,
                    sz == size as int,
                    sz * sz <= 65025,
                    self.wf(),
                    size == self.data.grid_size,
                    total == spec_waste_sum(self.kinds@, self.states@, sz, i as int),
                    0 <= total <= i * MAX_TILE_WASTE,
                    savings == spec_savings_sum(self.kinds@, self.states@, i as int),
                    0 <= savings <= i * 675,
                decreases size - y,
            {
                proof {
                    assert((x as int * sz + y as int) < sz * sz) by (nonlinear_arith)
                        requires
                            0 <= x < sz,
                            0 <= y < sz,
                    ;
                    assert(i < 65025);
                }
                let w = tile_waste(&self.kinds, &self.states, size, x, y);
                total = total + w;
                if self.states[i].fixed {
                    let a = self.kinds[i].avg_savings();
                    savings = savings + a as i64;
                } else {
                    proof {
                        assert(spec_savings_sum(self.kinds@, self.states@, i + 1)
                            == spec_savings_sum(self.kinds@, self.states@, i as int));
                    }
                }
                i = i + 1;
                y = y + 1;
            }
            proof {
                assert((x as int + 1) * sz == x as int * sz + sz) by (nonlinear_arith);
            }
            x = x + 1;
        }
        proof {
            assert(i == sz * sz);
            assert(total <= MAX_TOTAL_WASTE);
            assert(savings <= MAX_MONTHLY_SAVINGS);
        }
        self.data.total_waste = total;
        self.data.monthly_savings = savings;
    }
}

/// What one tick's countdown does to a tile: an active fix loses one sprint
/// and completes (becomes fixed) when the countdown hits zero.
pub open spec fn spec_countdown_tile(t: TileState) -> TileState {
    if t.fixing_sprints_left > 0 {
        TileState {
            fixing_sprints_left: (t.fixing_sprints_left - 1) as u8,
            fixed: t.fixed || t.fixing_sprints_left == 1,
            ..t
        }
    } else {
        t
    }
}

/// Indices (ascending) of the tiles whose fix completes this tick: exactly
/// those with one sprint left on the countdown.
pub open spec fn spec_completed(states: Seq<TileState>, n: int) -> Seq<int>
    decreases n,
{
    if n <= 0 {
        Seq::empty()
    } else if states[n - 1].fixing_sprints_left == 1 {
        spec_completed(states, n - 1).push(n - 1)
    } else {
        spec_completed(states, n - 1)
    }
}

/// The fixed-tile count of a prefix only reads that prefix.
proof fn lemma_count_fixed_prefix(s1: Seq<TileState>, s2: Seq<TileState>, n: int)
    requires
        forall|j: int| 0 <= j < n ==> s1[j] == s2[j],
    ensures
        spec_count_fixed(s1, n) == spec_count_fixed(s2, n),
    decreases n,
{
    if n > 0 {
        lemma_count_fixed_prefix(s1, s2, n - 1);
    }
}

/// The revealed-tile count of a prefix only reads that prefix.
proof fn lemma_count_revealed_prefix(s1: Seq<TileState>, s2: Seq<TileState>, n: int)
    requires
        forall|j: int| 0 <= j < n ==> s1[j] == s2[j],
    ensures
        spec_count_revealed(s1, n) == spec_count_revealed(s2, n),
    decreases n,
{
    if n > 0 {
        lemma_count_revealed_prefix(s1, s2, n - 1);
    }
}

/// At most every tile of a prefix is fixed.
proof fn lemma_count_fixed_le(s: Seq<TileState>, n: int)
    requires
        0 <= n,
    ensures
        spec_count_fixed(s, n) <= n,
        spec_count_fixed(s, n) >= 0,
    decreases n,
{
    if n > 0 {
        lemma_count_fixed_le(s, n - 1);
    }
}

/// Two tile sequences that agree on fixed flags over a prefix count the
/// same fixed tiles there.
proof fn lemma_count_fixed_same_flags(s1: Seq<TileState>, s2: Seq<TileState>, n: int)
    requires
        forall|j: int| 0 <= j < n ==> s1[j].fixed == s2[j].fixed,
    ensures
        spec_count_fixed(s1, n) == spec_count_fixed(s2, n),
    decreases n,
{
    if n > 0 {
        lemma_count_fixed_same_flags(s1, s2, n - 1);
    }
}

/// Fixing more tiles never lowers the fixed count.
proof fn lemma_count_fixed_pointwise_le(s1: Seq<TileState>, s2: Seq<TileState>, n: int)
    requires
        forall|j: int| 0 <= j < n && s1[j].fixed ==> s2[j].fixed,
    ensures
        spec_count_fixed(s1, n) <= spec_count_fixed(s2, n),
    decreases n,
{
    if n > 0 {
        lemma_count_fixed_pointwise_le(s1, s2, n - 1);
    }
}

/// Two tile sequences that agree on revealed flags over a prefix count the
/// same revealed tiles there.
proof fn lemma_count_revealed_same_flags(s1: Seq<TileState>, s2: Seq<TileState>, n: int)
    requires
        forall|j: int| 0 <= j < n ==> s1[j].revealed == s2[j].revealed,
    ensures
        spec_count_revealed(s1, n) == spec_count_revealed(s2, n),
    decreases n,
{
    if n > 0 {
        lemma_count_revealed_same_flags(s1, s2, n - 1);
    }
}

impl Game {
    /// One decay epoch: every unfixed resource tile's decay multiplier grows
    /// by 20% (floored, saturating at the cap); everything else is
    /// untouched. The caller decides when an epoch is due.
    fn decay_pass(&mut self)
        requires
            old(self).wf(),
        ensures
            final(self).wf(),
            final(self).data == old(self).data,
            final(self).kinds@ == old(self).kinds@,
            final(self).states@.len() == old(self).states@.len(),
            forall|j: int|
                0 <= j < old(self).states@.len() ==> final(self).states@[j] == (
                if !old(self).states@[j].fixed && old(self).kinds@[j] !is Empty {
                    TileState {
                        decay_multiplier: spec_decay_step(
                            old(self).states@[j].decay_multiplier,
                        ) as u64,
                        ..old(self).states@[j]
                    }
                } else {
                    old(self).states@[j]
                }),
            forall|j: int|
                0 <= j < old(self).states@.len() ==> final(self).states@[j].decay_multiplier
                    >= old(self).states@[j].decay_multiplier,
    {
        let n = self.states.len();
        let ghost s0 = self.states@;
        let mut i: usize = 0;
        while i < n
            invariant
                i <= n,
                n == s0.len(),
                self.wf(),
                self.kinds@ == old(self).kinds@,
                self.data == old(self).data,
                self.states@.len() == n,
                s0 == old(self).states@,
                forall|j: int|
                    i <= j < n ==> self.states@[j] == s0[j],
                forall|j: int|
                    0 <= j < i ==> self.states@[j] == (
                    if !s0[j].fixed && old(self).kinds@[j] !is Empty {
                        TileState {
                            decay_multiplier: spec_decay_step(s0[j].decay_multiplier) as u64,
                            ..s0[j]
                        }
                    } else {
                        s0[j]
                    }),
                forall|j: int|
                    0 <= j < i ==> self.states@[j].decay_multiplier >= s0[j].decay_multiplier,
            decreases n - i,
        {
            let ghost pre = self.states@;
            if !self.states[i].fixed && self.kinds[i] != ResourceType::Empty {
                let d = self.states[i].decay_multiplier;
                let eff: u64 = if d == 0 {
                    1000
                } else {
                    d
                };
                let mut nd: u64 = eff * 6 / 5;
                if nd > DECAY_CAP {
                    nd = DECAY_CAP;
                }
                let mut st = self.states[i];
                st.decay_multiplier = nd;
                self.states[i] = st;
                proof {
                    assert(nd >= d) by {
                        if d != 0 {
                            vstd::arithmetic::div_mod::lemma_div_is_ordered(
                                5 * (d as int),
                                6 * (d as int),
                                5,
                            );
                            vstd::arithmetic::div_mod::lemma_div_multiples_vanish(d as int, 5);
                        }
                    }
                }
            }
            proof {
                lemma_count_revealed_same_flags(self.states@, pre, n as int);
                lemma_count_fixed_same_flags(self.states@, pre, n as int);
            }
            i = i + 1;
        }
    }

    /// One tick's countdown: every active fix loses one sprint; tiles whose
    /// countdown reaches zero become fixed, and their indices are returned
    /// in ascending order.
    fn countdown_pass(&mut self) -> (completed: Vec<usize>)
        requires
            old(self).wf(),
        ensures
            final(self).wf(),
            final(self).data == old(self).data,
            final(self).kinds@ == old(self).kinds@,
            final(self).states@.len() == old(self).states@.len(),
            forall|j: int|
                0 <= j < old(self).states@.len() ==> final(self).states@[j]
                    == spec_countdown_tile(old(self).states@[j]),
            completed@.map_values(|u: usize| u as int) == spec_completed(
                old(self).states@,
                old(self).states@.len() as int,
            ),
            spec_count_fixed(final(self).states@, final(self).states@.len() as int)
                == spec_count_fixed(old(self).states@, old(self).states@.len() as int)
                + completed@.len(),
            forall|m: int| 0 <= m < completed@.len() ==> 0 <= #[trigger] completed@[m]
                < old(self).states@.len(),
    {
        let n = self.states.len();
        let ghost s0 = self.states@;
        let mut completed: Vec<usize> = Vec::new();
        let mut i: usize = 0;
        while i < n
            invariant
                i <= n,
                n == s0.len(),
                self.wf(),
                self.kinds@ == old(self).kinds@,
                self.data == old(self).data,
                self.states@.len() == n,
                s0 == old(self).states@,
                forall|j: int| i <= j < n ==> self.states@[j] == s0[j],
                forall|j: int|
                    0 <= j < i ==> self.states@[j] == spec_countdown_tile(s0[j]),
                completed@.map_values(|u: usize| u as int) == spec_completed(s0, i as int),
                spec_count_fixed(self.states@, i as int) == spec_count_fixed(s0, i as int)
                    + completed@.len(),
                forall|m: int| 0 <= m < completed@.len() ==> 0 <= #[trigger] completed@[m] < i,
            decreases n - i,
        {
            let ghost pre = self.states@;
            let ghost precomp = completed@;
            let st = self.states[i];
            if st.fixing_sprints_left > 0 {
                let mut t = st;
                t.fixing_sprints_left = st.fixing_sprints_left - 1;
                if t.fixing_sprints_left == 0 {
                    t.fixed = true;
                    completed.push(i);
                }
                self.states[i] = t;
            }
            proof {
                lemma_count_fixed_prefix(self.states@, pre, i as int);
                lemma_count_revealed_same_flags(self.states@, pre, n as int);
                lemma_count_fixed_pointwise_le(pre, self.states@, n as int);
                lemma_count_fixed_le(s0, n as int);
                assert(completed@.map_values(|u: usize| u as int) =~= spec_completed(
                    s0,
                    i + 1,
                ));
                lemma_count_fixed_le(s0, n as int);
            }
            i = i + 1;
        }
        proof {
            lemma_count_fixed_le(s0, n as int);
        }
        completed
    }
}

/// 1 if the condition holds, else 0.
pub open spec fn b2i(b: bool) -> int {
    if b {
        1
    } else {
        0
    }
}

/// The positions `(x, y)` of the fixed tiles among the first `n`, ascending
/// by index.
pub open spec fn spec_fixed_positions(states: Seq<TileState>, size: int, n: int) -> Seq<(u8, u8)>
    decreases n,
{
    if n <= 0 {
        Seq::empty()
    } else if states[n - 1].fixed {
        spec_fixed_positions(states, size, n - 1).push(
            (((n - 1) / size) as u8, ((n - 1) % size) as u8),
        )
    } else {
        spec_fixed_positions(states, size, n - 1)
    }
}

/// How many of the four orthogonal neighbours of `(x, y)` appear in the
/// position list `snap`.
pub open spec fn spec_adj_in_list(snap: Seq<(u8, u8)>, size: int, x: int, y: int) -> int {
    b2i(x - 1 >= 0 && snap.contains((((x - 1) as u8), (y as u8)))) + b2i(
        x + 1 < size && snap.contains((((x + 1) as u8), (y as u8))),
    ) + b2i(y - 1 >= 0 && snap.contains(((x as u8), ((y - 1) as u8)))) + b2i(
        y + 1 < size && snap.contains(((x as u8), ((y + 1) as u8))),
    )
}

/// The combo rule at one fix: with no prior fix the multiplier is left
/// alone; fixing a kind equal or related to the previous fix raises it by
/// 0.2 (in tenths, clamped at x2.0); anything else resets it to x1.0.
pub open spec fn spec_combo_step(c: int, hist: Seq<ResourceType>, k: ResourceType) -> int {
    if hist.len() == 0 {
        c
    } else if k == hist.last() || spec_is_related(k, hist.last()) {
        if c + 2 <= COMBO_MAX {
            c + 2
        } else {
            COMBO_MAX as int
        }
    } else {
        COMBO_MIN as int
    }
}

/// Processing the completed fixes at indices `todo`, in order: each one
/// steps the combo, appends its kind to the history, credits the adjacency
/// bonus against the pre-tick snapshot `snap`, and adds its combo-weighted
/// savings. Returns the final
/// (combo, history, adjacency bonus, combo-weighted savings).
pub open spec fn spec_fix_fold(
    kinds: Seq<ResourceType>,
    snap: Seq<(u8, u8)>,
    size: int,
    combo: int,
    hist: Seq<ResourceType>,
    adj: int,
    cws: int,
    todo: Seq<int>,
) -> (int, Seq<ResourceType>, int, int)
    decreases todo.len(),
{
    if todo.len() == 0 {
        (combo, hist, adj, cws)
    } else {
        let i = todo[0];
        let k = kinds[i];
        let c = spec_combo_step(combo, hist, k);
        spec_fix_fold(
            kinds,
            snap,
            size,
            c,
            hist.push(k),
            adj + 50 * spec_adj_in_list(snap, size, i / size, i % size),
            cws + spec_avg_savings(k) * c / 10,
            todo.drop_first(),
        )
    }
}

/// Whether the position `(x, y)` appears in the list.
fn pos_in_list(snap: &Vec<(u8, u8)>, x: u8, y: u8) -> (r: bool)
    ensures
        r == snap@.contains((x, y)),
{
    let n = snap.len();
    let mut m: usize = 0;
    while m < n
        invariant
            m <= n,
            n == snap@.len(),
            forall|t: int| 0 <= t < m ==> snap@[t] != (x, y),
        decreases n - m,
    {
        let e = snap[m];
        if e.0 == x && e.1 == y {
            return true;
        }
        m = m + 1;
    }
    false
}

/// Counts the fixed tiles orthogonally adjacent to `(x, y)`, reading the
/// position snapshot taken before this tick's countdown.
fn count_adjacent_fixed_from_positions(snap: &Vec<(u8, u8)>, x: u8, y: u8, size: u8) -> (c: u8)
    requires
        x < size,
        y < size,
    ensures
        c == spec_adj_in_list(snap@, size as int, x as int, y as int),
        c <= 4,
{
    let mut c: u8 = 0;
    if x > 0 {
        if pos_in_list(snap, x - 1, y) {
            c = c + 1;
        }
    }
    if x + 1 < size {
        if pos_in_list(snap, x + 1, y) {
            c = c + 1;
        }
    }
    if y > 0 {
        if pos_in_list(snap, x, y - 1) {
            c = c + 1;
        }
    }
    if y + 1 < size {
        if pos_in_list(snap, x, y + 1) {
            c = c + 1;
        }
    }
    c
}

impl Game {
    /// Collects the positions of the currently fixed tiles, ascending by
    /// index: the "already fixed" snapshot that adjacency bonuses are
    /// counted against.
    fn collect_fixed_positions(&self) -> (snap: Vec<(u8, u8)>)
        requires
            self.wf(),
        ensures
            snap@ == spec_fixed_positions(
                self.states@,
                self.data.grid_size as int,
                self.states@.len() as int,
            ),
    {
        let n = self.states.len();
        let size = self.data.grid_size;
        let mut snap: Vec<(u8, u8)> = Vec::new();
        let mut i: usize = 0;
        while i < n
            invariant
                i <= n,
                n == self.states@.len(),
                n == self.n_tiles(),
                size == self.data.grid_size,
                1 <= size,
                snap@ == spec_fixed_positions(self.states@, size as int, i as int),
            decreases n - i,
        {
            if self.states[i].fixed {
                proof {
                    assert(i < (size as int) * (size as int));
                    vstd::arithmetic::div_mod::lemma_div_is_ordered(
                        i as int,
                        (size as int) * (size as int) - 1,
                        size as int,
                    );
                    assert((size as int) * (size as int) - 1 == (size as int - 1) * (size as int)
                        + (size as int - 1)) by (nonlinear_arith);
                    vstd::arithmetic::div_mod::lemma_fundamental_div_mod_converse_div(
                        (size as int) * (size as int) - 1,
                        size as int,
                        size as int - 1,
                        size as int - 1,
                    );
                    vstd::arithmetic::div_mod::lemma_div_pos_is_pos(i as int, size as int);
                    assert(0 <= i as int % (size as int) < size as int) by {
                        vstd::arithmetic::div_mod::lemma_mod_bound(i as int, size as int);
                    }
                }
                let px: u8 = (i / size as usize) as u8;
                let py: u8 = (i % size as usize) as u8;
                snap.push((px, py));
            }
            i = i + 1;
        }
        snap
    }

    /// Books one newly completed fix of the tile at index `idx`: appends its
    /// kind to the fix history, steps the combo multiplier (equal or related
    /// to the previous fix: +0.2 clamped at x2.0; unrelated: reset to x1.0;
    /// first fix: unchanged), credits 50 per adjacent already-fixed tile
    /// from the pre-tick snapshot, and adds the combo-weighted average
    /// savings of the kind. Tile states and every other aggregate are
    /// untouched.
    pub fn complete_fix(&mut self, idx: usize, snap: &Vec<(u8, u8)>)
        requires
            old(self).wf(),
            idx < old(self).states@.len(),
            old(self).data.combo_weighted_savings + 1350 <= MAX_MONTHLY_SAVINGS,
            old(self).data.adjacency_bonus + 200 <= MAX_ADJACENCY_BONUS,
        ensures
            final(self).kinds@ == old(self).kinds@,
            final(self).states@ == old(self).states@,
            final(self).data.resources_fixed_in_order@
                == old(self).data.resources_fixed_in_order@.push(old(self).kinds@[idx as int]),
            final(self).data.combo_multiplier == spec_combo_step(
                old(self).data.combo_multiplier as int,
                old(self).data.resources_fixed_in_order@,
                old(self).kinds@[idx as int],
            ),
            COMBO_MIN <= final(self).data.combo_multiplier <= COMBO_MAX,
            final(self).data.adjacency_bonus == old(self).data.adjacency_bonus + 50
                * spec_adj_in_list(
                snap@,
                old(self).data.grid_size as int,
                idx as int / old(self).data.grid_size as int,
                idx as int % old(self).data.grid_size as int,
            ),
            final(self).data.combo_weighted_savings == old(self).data.combo_weighted_savings
                + spec_avg_savings(old(self).kinds@[idx as int]) * (
            final(self).data.combo_multiplier as int) / 10,
            final(self).data.budget == old(self).data.budget,
            final(self).data.sprint == old(self).data.sprint,
            final(self).data.total_waste == old(self).data.total_waste,
            final(self).data.monthly_savings == old(self).data.monthly_savings,
            final(self).data.grid_size == old(self).data.grid_size,
            final(self).data.difficulty == old(self).data.difficulty,
            final(self).data.game_won == old(self).data.game_won,
            final(self).data.game_lost == old(self).data.game_lost,
            final(self).data.player_x == old(self).data.player_x,
            final(self).data.player_y == old(self).data.player_y,
            final(self).data.last_decay_sprint == old(self).data.last_decay_sprint,
            final(self).data.hidden_waste_discovered == old(self).data.hidden_waste_discovered,
            final(self).data.cascade_failures@ == old(self).data.cascade_failures@,
            final(self).data.failed_fix_attempts == old(self).data.failed_fix_attempts,
            final(self).data.bonus_credits_earned == old(self).data.bonus_credits_earned,
            final(self).data.tiles_revealed_count == old(self).data.tiles_revealed_count,
            final(self).data.critical_resources_found == old(self).data.critical_resources_found,
            final(self).data.wf(),
    {
        let size = self.data.grid_size;
        proof {
            assert(idx < (size as int) * (size as int));
            vstd::arithmetic::div_mod::lemma_div_is_ordered(
                idx as int,
                (size as int) * (size as int) - 1,
                size as int,
            );
            assert((size as int) * (size as int) - 1 == (size as int - 1) * (size as int) + (
            size as int - 1)) by (nonlinear_arith);
            vstd::arithmetic::div_mod::lemma_fundamental_div_mod_converse_div(
                (size as int) * (size as int) - 1,
                size as int,
                size as int - 1,
                size as int - 1,
            );
            vstd::arithmetic::div_mod::lemma_div_pos_is_pos(idx as int, size as int);
            vstd::arithmetic::div_mod::lemma_mod_bound(idx as int, size as int);
        }
        let x: u8 = (idx / size as usize) as u8;
        let y: u8 = (idx % size as usize) as u8;
        let kind = self.kinds[idx];

        if self.data.resources_fixed_in_order.len() > 0 {
            let last = self.data.resources_fixed_in_order[self.data.resources_fixed_in_order.len()
                - 1];
            if kind == last || is_related(kind, last) {
                let bumped = self.data.combo_multiplier + 2;
                self.data.combo_multiplier = if bumped <= COMBO_MAX {
                    bumped
                } else {
                    COMBO_MAX
                };
            } else {
                self.data.combo_multiplier = COMBO_MIN;
            }
        }
        self.data.resources_fixed_in_order.push(kind);

        let adjacent = count_adjacent_fixed_from_positions(snap, x, y, size);
        self.data.adjacency_bonus = self.data.adjacency_bonus + 50 * adjacent as i64;

        let avg = kind.avg_savings() as i64;
        proof {
            assert(0 <= avg * (self.data.combo_multiplier as i64) <= 13500) by (nonlinear_arith)
                requires
                    0 <= avg <= 675,
                    10 <= self.data.combo_multiplier <= 20,
            ;
        }
        let add = avg * self.data.combo_multiplier as i64 / 10;
        self.data.combo_weighted_savings = self.data.combo_weighted_savings + add;
    }
}

/// Whether a decay epoch is due: five or more sprints have passed since the
/// last one (and the game has started).
pub open spec fn spec_epoch_due(d: GameData) -> bool {
    d.sprint > 0 && d.sprint - d.last_decay_sprint >= 5
}

/// What one tick does to a single tile: decay (when an epoch is due, on
/// unfixed resource tiles), then the fixing countdown.
pub open spec fn spec_tick_tile(t: TileState, k: ResourceType, epoch: bool) -> TileState {
    let t1 = if epoch && !t.fixed && k !is Empty {
        TileState { decay_multiplier: spec_decay_step(t.decay_multiplier) as u64, ..t }
    } else {
        t
    };
    spec_countdown_tile(t1)
}

/// Which tiles complete is decided by the countdown values alone.
proof fn lemma_completed_same_left(s1: Seq<TileState>, s2: Seq<TileState>, n: int)
    requires
        forall|j: int| 0 <= j < n ==> s1[j].fixing_sprints_left == s2[j].fixing_sprints_left,
    ensures
        spec_completed(s1, n) == spec_completed(s2, n),
    decreases n,
{
    if n > 0 {
        lemma_completed_same_left(s1, s2, n - 1);
    }
}

impl Game {
    /// One tick of the live economy, driven by a discrete external trigger.
    /// In order: the decay-epoch check, the per-tile fixing countdown, the
    /// authoritative waste and savings recompute, the processing of newly
    /// completed fixes, and the win check. A finished game is left
    /// untouched. The tick does not advance the sprint counter or charge
    /// the budget; moves and fix commands do that through
    /// `process_sprint`.
    #[verifier::rlimit(100)]
    pub fn tick(&mut self) -> (snap: EconomySnapshot)
        requires
            old(self).wf(),
        ensures
            final(self).wf(),
            (old(self).data.game_won || old(self).data.game_lost) ==> *final(self) == *old(self),
            final(self).kinds@ == old(self).kinds@,
            final(self).states@.len() == old(self).states@.len(),
            final(self).data.budget == old(self).data.budget,
            final(self).data.sprint == old(self).data.sprint,
            final(self).data.game_lost == old(self).data.game_lost,
            final(self).data.grid_size == old(self).data.grid_size,
            final(self).data.player_x == old(self).data.player_x,
            final(self).data.player_y == old(self).data.player_y,
            final(self).data.tiles_revealed_count == old(self).data.tiles_revealed_count,
            final(self).data.difficulty == old(self).data.difficulty,
            final(self).data.hidden_waste_discovered == old(self).data.hidden_waste_discovered,
            final(self).data.cascade_failures@ == old(self).data.cascade_failures@,
            final(self).data.failed_fix_attempts == old(self).data.failed_fix_attempts,
            final(self).data.bonus_credits_earned == old(self).data.bonus_credits_earned,
            final(self).data.critical_resources_found == old(self).data.critical_resources_found,
            old(self).data.sprint < 5 ==> final(self).data.game_won == old(self).data.game_won,
            forall|j: int|
                0 <= j < old(self).states@.len() ==> final(self).states@[j].decay_multiplier
                    >= old(self).states@[j].decay_multiplier,
            !(old(self).data.game_won || old(self).data.game_lost) ==> {
                &&& forall|j: int|
                    0 <= j < old(self).states@.len() ==> final(self).states@[j] == spec_tick_tile(
                        old(self).states@[j],
                        old(self).kinds@[j],
                        spec_epoch_due(old(self).data),
                    )
                &&& !spec_epoch_due(old(self).data) ==> forall|j: int|
                    0 <= j < old(self).states@.len()
                        ==> final(self).states@[j].decay_multiplier
                        == old(self).states@[j].decay_multiplier
                &&& final(self).data.last_decay_sprint == if spec_epoch_due(old(self).data) {
                    old(self).data.sprint as int
                } else {
                    old(self).data.last_decay_sprint as int
                }
                &&& final(self).data.total_waste == spec_total_waste(
                    old(self).kinds@,
                    final(self).states@,
                    old(self).data.grid_size as int,
                )
                &&& final(self).data.monthly_savings == spec_savings_sum(
                    old(self).kinds@,
                    final(self).states@,
                    old(self).states@.len() as int,
                )
                &&& final(self).data.combo_multiplier as int == spec_fix_fold(
                    old(self).kinds@,
                    spec_fixed_positions(
                        old(self).states@,
                        old(self).data.grid_size as int,
                        old(self).states@.len() as int,
                    ),
                    old(self).data.grid_size as int,
                    old(self).data.combo_multiplier as int,
                    old(self).data.resources_fixed_in_order@,
                    old(self).data.adjacency_bonus as int,
                    old(self).data.combo_weighted_savings as int,
                    spec_completed(old(self).states@, old(self).states@.len() as int),
                ).0
                &&& final(self).data.resources_fixed_in_order@ == spec_fix_fold(
                    old(self).kinds@,
                    spec_fixed_positions(
                        old(self).states@,
                        old(self).data.grid_size as int,
                        old(self).states@.len() as int,
                    ),
                    old(self).data.grid_size as int,
                    old(self).data.combo_multiplier as int,
                    old(self).data.resources_fixed_in_order@,
                    old(self).data.adjacency_bonus as int,
                    old(self).data.combo_weighted_savings as int,
                    spec_completed(old(self).states@, old(self).states@.len() as int),
                ).1
                &&& final(self).data.adjacency_bonus as int == spec_fix_fold(
                    old(self).kinds@,
                    spec_fixed_positions(
                        old(self).states@,
                        old(self).data.grid_size as int,
                        old(self).states@.len() as int,
                    ),
                    old(self).data.grid_size as int,
                    old(self).data.combo_multiplier as int,
                    old(self).data.resources_fixed_in_order@,
                    old(self).data.adjacency_bonus as int,
                    old(self).data.combo_weighted_savings as int,
                    spec_completed(old(self).states@, old(self).states@.len() as int),
                ).2
                &&& final(self).data.combo_weighted_savings as int == spec_fix_fold(
                    old(self).kinds@,
                    spec_fixed_positions(
                        old(self).states@,
                        old(self).data.grid_size as int,
                        old(self).states@.len() as int,
                    ),
                    old(self).data.grid_size as int,
                    old(self).data.combo_multiplier as int,
                    old(self).data.resources_fixed_in_order@,
                    old(self).data.adjacency_bonus as int,
                    old(self).data.combo_weighted_savings as int,
                    spec_completed(old(self).states@, old(self).states@.len() as int),
                ).3
                &&& final(self).data.game_won == (old(self).data.sprint >= 5 && spec_win_numbers(
                    final(self).data.total_waste as int,
                    final(self).data.monthly_savings as int,
                ))
            },
            snap.budget == if final(self).data.budget >= 0 {
                final(self).data.budget as int
            } else {
                0
            },
            snap.sprint == final(self).data.sprint,
            snap.total_waste == final(self).data.total_waste,
            snap.monthly_savings == final(self).data.monthly_savings,
            snap.combo_multiplier == final(self).data.combo_multiplier,
            snap.waste_percentage == spec_waste_pct_tenths(final(self).data.total_waste as int),
            snap.game_won == final(self).data.game_won,
            snap.game_lost == final(self).data.game_lost,
    {
        if self.data.game_won || self.data.game_lost {
            return self.snapshot();
        }
        let ghost g0 = *old(self);
        let ghost n = self.states@.len() as int;
        let ghost sz = self.data.grid_size as int;

        let snap_fixed = self.collect_fixed_positions();
        let ghost snap_seq = snap_fixed@;

        let epoch = self.data.sprint > 0 && self.data.sprint - self.data.last_decay_sprint >= 5;
        let ghost s_decayed: Seq<TileState>;
        if epoch {
            self.data.last_decay_sprint = self.data.sprint;
            self.decay_pass();
        }
        proof {
            s_decayed = self.states@;
            lemma_completed_same_left(s_decayed, g0.states@, n);
            lemma_count_fixed_same_flags(s_decayed, g0.states@, n);
            assert(n <= 65025) by (nonlinear_arith)
                requires
                    n == sz * sz,
                    0 <= sz <= 255,
            ;
        }

        let completed = self.countdown_pass();
        let ghost todo = completed@.map_values(|u: usize| u as int);
        proof {
            assert(todo == spec_completed(g0.states@, n));
        }

        self.recompute_waste();

        let ghost c0 = self.data.combo_multiplier as int;
        let ghost h0 = self.data.resources_fixed_in_order@;
        let ghost a0 = self.data.adjacency_bonus as int;
        let ghost w0 = self.data.combo_weighted_savings as int;
        let ghost cf_pre = spec_count_fixed(g0.states@, n);
        let ghost cf_now = spec_count_fixed(self.states@, n);
        proof {
            assert(cf_now == cf_pre + completed@.len());
            lemma_count_fixed_le(self.states@, n);
            lemma_count_fixed_le(g0.states@, n);
            assert(self.data.combo_weighted_savings <= 1350 * cf_pre);
            assert(self.data.adjacency_bonus <= 200 * cf_pre);
        }

        let k = completed.len();
        proof {
            assert(todo.skip(0) =~= todo);
        }
        let mut m: usize = 0;
        while m < k
            invariant
                m <= k,
                k == completed@.len(),
                todo == completed@.map_values(|u: usize| u as int),
                todo.len() == k,
                snap_seq == snap_fixed@,
                forall|t: int| 0 <= t < k ==> 0 <= #[trigger] todo[t] < self.states@.len(),
                self.wf(),
                self.kinds@ == g0.kinds@,
                self.states@.len() == n,
                cf_now == spec_count_fixed(self.states@, n),
                cf_pre + k == cf_now,
                cf_now <= n,
                n <= 65025,
                sz == self.data.grid_size as int,
                self.data.combo_weighted_savings <= 1350 * (cf_pre + m),
                self.data.adjacency_bonus <= 200 * (cf_pre + m),
                0 <= cf_pre,
                spec_fix_fold(
                    g0.kinds@,
                    snap_seq,
                    sz,
                    self.data.combo_multiplier as int,
                    self.data.resources_fixed_in_order@,
                    self.data.adjacency_bonus as int,
                    self.data.combo_weighted_savings as int,
                    todo.skip(m as int),
                ) == spec_fix_fold(g0.kinds@, snap_seq, sz, c0, h0, a0, w0, todo),
                self.data.budget == g0.data.budget,
                self.data.sprint == g0.data.sprint,
                self.data.game_lost == g0.data.game_lost,
                self.data.game_won == g0.data.game_won,
                self.data.total_waste == spec_total_waste(g0.kinds@, self.states@, sz),
                self.data.monthly_savings == spec_savings_sum(g0.kinds@, self.states@, n),
                self.data.last_decay_sprint == if spec_epoch_due(g0.data) {
                    g0.data.sprint as int
                } else {
                    g0.data.last_decay_sprint as int
                },
                self.data.grid_size == g0.data.grid_size,
                self.data.player_x == g0.data.player_x,
                self.data.player_y == g0.data.player_y,
                self.data.tiles_revealed_count == g0.data.tiles_revealed_count,
                self.data.difficulty == g0.data.difficulty,
                self.data.hidden_waste_discovered == g0.data.hidden_waste_discovered,
                self.data.cascade_failures@ == g0.data.cascade_failures@,
                self.data.failed_fix_attempts == g0.data.failed_fix_attempts,
                self.data.bonus_credits_earned == g0.data.bonus_credits_earned,
                self.data.critical_resources_found == g0.data.critical_resources_found,
                forall|j: int|
                    0 <= j < n ==> self.states@[j] == spec_tick_tile(
                        g0.states@[j],
                        g0.kinds@[j],
                        spec_epoch_due(g0.data),
                    ),
            decreases k - m,
        {
            let idx = completed[m];
            let ghost pre_data = self.data;
            proof {
                assert(todo[m as int] == idx as int);
                assert(todo.skip(m as int)[0] == todo[m as int]);
                assert(1350 * (cf_pre + m) + 1350 <= 1350 * cf_now <= 1350 * 65025);
                assert(200 * (cf_pre + m) + 200 <= 200 * cf_now <= 200 * 65025);
            }
            self.complete_fix(idx, &snap_fixed);
            proof {
                assert(todo.skip(m as int).drop_first() =~= todo.skip(m as int + 1));
                let tsk = todo.skip(m as int);
                let kk0 = g0.kinds@[idx as int];
                assert(tsk.len() > 0);
                assert(tsk[0] == idx as int);
                assert(self.data.combo_multiplier as int == spec_combo_step(
                    pre_data.combo_multiplier as int,
                    pre_data.resources_fixed_in_order@,
                    kk0,
                ));
                assert(self.data.resources_fixed_in_order@
                    == pre_data.resources_fixed_in_order@.push(kk0));
                assert(self.data.adjacency_bonus as int == pre_data.adjacency_bonus + 50
                    * spec_adj_in_list(snap_seq, sz, idx as int / sz, idx as int % sz));
                assert(self.data.combo_weighted_savings as int == pre_data.combo_weighted_savings
                    + spec_avg_savings(kk0) * (self.data.combo_multiplier as int) / 10);
                assert(spec_fix_fold(
                    g0.kinds@,
                    snap_seq,
                    sz,
                    pre_data.combo_multiplier as int,
                    pre_data.resources_fixed_in_order@,
                    pre_data.adjacency_bonus as int,
                    pre_data.combo_weighted_savings as int,
                    todo.skip(m as int),
                ) == spec_fix_fold(
                    g0.kinds@,
                    snap_seq,
                    sz,
                    self.data.combo_multiplier as int,
                    self.data.resources_fixed_in_order@,
                    self.data.adjacency_bonus as int,
                    self.data.combo_weighted_savings as int,
                    todo.skip(m as int + 1),
                ));
                let kk = g0.kinds@[idx as int];
                assert(0 <= spec_avg_savings(kk) <= 675);
                assert(spec_avg_savings(kk) * (self.data.combo_multiplier as int) <= 13500)
                    by (nonlinear_arith)
                    requires
                        0 <= spec_avg_savings(kk) <= 675,
                        self.data.combo_multiplier <= 20,
                ;
                assert(spec_avg_savings(kk) * (self.data.combo_multiplier as int) / 10 <= 1350);
                assert(spec_adj_in_list(snap_seq, sz, idx as int / sz, idx as int % sz) <= 4);
            }
            m = m + 1;
        }
        proof {
            assert(todo.skip(k as int) =~= Seq::<int>::empty());
        }

        if !self.data.game_lost && !self.data.game_won {
            self.data.check_win_condition();
        }
        self.snapshot()
    }
}

/// The cell one step from `(x, y)` in a direction; `Up` increases `y`.
pub open spec fn spec_dir_delta(facing: Option<Direction>) -> (int, int) {
    match facing {
        Some(Direction::Up) => (0, 1),
        Some(Direction::Down) => (0, -1),
        Some(Direction::Left) => (-1, 0),
        Some(Direction::Right) => (1, 0),
        None => (0, 0),
    }
}

/// Whether `(x, y)` falls in the reveal scan of a player at `(px, py)`
/// facing `facing`: the player's own tile, the tile one step ahead, and the
/// two tiles flanking it across the movement axis.
pub open spec fn spec_in_scan(px: int, py: int, facing: Option<Direction>, x: int, y: int) -> bool {
    let d = spec_dir_delta(facing);
    let cx = px + d.0;
    let cy = py + d.1;
    ||| (x == px && y == py)
    ||| (x == cx && y == cy)
    ||| (d.1 != 0 && (x == cx - 1 || x == cx + 1) && y == cy)
    ||| (d.0 != 0 && x == cx && (y == cy - 1 || y == cy + 1))
}

/// Whether a move in `dir` is accepted: the game is still running and the
/// target cell lies on the grid.
pub open spec fn spec_move_ok(d: GameData, dir: Direction) -> bool {
    let delta = spec_dir_delta(Some(dir));
    &&& !d.game_won
    &&& !d.game_lost
    &&& 0 <= d.player_x + delta.0 < d.grid_size
    &&& 0 <= d.player_y + delta.1 < d.grid_size
}

/// Whether a fix attempt on the player's tile is accepted: the game is
/// still running and the tile is revealed, unfixed and not already being
/// fixed.
pub open spec fn spec_fix_ok(g: Game) -> bool {
    let idx = spec_index(g.data.grid_size as int, g.data.player_x as int, g.data.player_y as int);
    &&& !g.data.game_won
    &&& !g.data.game_lost
    &&& g.states[idx].revealed
    &&& !g.states[idx].fixed
    &&& g.states[idx].fixing_sprints_left == 0
}

/// Flipping one revealed flag moves the revealed count by exactly that
/// flag's change.
proof fn lemma_count_revealed_update(s: Seq<TileState>, i: int, t: TileState, n: int)
    requires
        0 <= i < n <= s.len(),
    ensures
        spec_count_revealed(s.update(i, t), n) == spec_count_revealed(s, n) - b2i(
            s[i].revealed,
        ) + b2i(t.revealed),
    decreases n,
{
    if n > 0 {
        if i == n - 1 {
            lemma_count_revealed_prefix(s.update(i, t), s, n - 1);
        } else {
            lemma_count_revealed_update(s, i, t, n - 1);
        }
    }
}

/// The revealed count never exceeds the number of tiles.
proof fn lemma_count_revealed_le(s: Seq<TileState>, n: int)
    requires
        0 <= n,
    ensures
        0 <= spec_count_revealed(s, n) <= n,
    decreases n,
{
    if n > 0 {
        lemma_count_revealed_le(s, n - 1);
    }
}

/// Fixing a kind neither equal nor related to the previous fix resets the
/// combo multiplier to x1.0, whatever it was.
pub proof fn lemma_combo_reset_on_unrelated(c: int, hist: Seq<ResourceType>, k: ResourceType)
    requires
        hist.len() > 0,
        k != hist.last(),
        !spec_is_related(k, hist.last()),
    ensures
        spec_combo_step(c, hist, k) == COMBO_MIN,
{
}

/// When exactly one tile completes in a tick, the completion fold is the
/// single combo step: the combo is stepped against the previous fix, the
/// kind is appended to the history, the adjacency bonus is credited against
/// the snapshot, and the combo-weighted savings grow by the stepped-combo
/// share. Together with `tick`'s fold clause this pins the per-fix
/// behaviour of the live engine.
pub proof fn lemma_fix_fold_single(
    kinds: Seq<ResourceType>,
    snap: Seq<(u8, u8)>,
    size: int,
    combo: int,
    hist: Seq<ResourceType>,
    adj: int,
    cws: int,
    i: int,
)
    ensures
        ({
            let k = kinds[i];
            let c = spec_combo_step(combo, hist, k);
            spec_fix_fold(kinds, snap, size, combo, hist, adj, cws, seq![i]) == (
                c,
                hist.push(k),
                adj + 50 * spec_adj_in_list(snap, size, i / size, i % size),
                cws + spec_avg_savings(k) * c / 10,
            )
        }),
{
    let k = kinds[i];
    let c = spec_combo_step(combo, hist, k);
    let adj1 = adj + 50 * spec_adj_in_list(snap, size, i / size, i % size);
    let cws1 = cws + spec_avg_savings(k) * c / 10;
    let todo = seq![i];
    assert(todo.len() == 1 && todo[0] == i);
    assert(todo.drop_first() =~= Seq::<int>::empty());
    assert(spec_fix_fold(kinds, snap, size, c, hist.push(k), adj1, cws1, todo.drop_first()) == (
        c,
        hist.push(k),
        adj1,
        cws1,
    ));
}

/// The combo multiplier always lies within [x1.0, x2.0]: it is part of the
/// aggregate well-formedness that every public operation preserves.
pub proof fn lemma_combo_clamped(d: GameData)
    requires
        d.wf(),
    ensures
        COMBO_MIN <= d.combo_multiplier <= COMBO_MAX,
{
}

/// One decay epoch never lowers the stored decay multiplier, and keeps it
/// under the cap: the per-tile decay is monotonically non-decreasing, and
/// it moves only when an epoch is due.
pub proof fn lemma_decay_step_monotone(d: u64)
    requires
        d <= DECAY_CAP,
    ensures
        spec_decay_step(d) >= d,
        spec_decay_step(d) >= spec_effective_decay(d),
        spec_decay_step(d) <= DECAY_CAP,
{
    let e = spec_effective_decay(d);
    assert(e * 6 / 5 >= e) by {
        vstd::arithmetic::div_mod::lemma_div_is_ordered(e * 5, e * 6, 5);
        vstd::arithmetic::div_mod::lemma_div_multiples_vanish(e, 5);
    }
}

/// The neighbour multiplier's parts are bounded: each of the four factors
/// is 1, 9 or 11 over 1 or 10, so the products stay within [1, 11^4] and
/// [1, 10^4].
pub proof fn lemma_neighbor_factor_bounds(
    kinds: Seq<ResourceType>,
    states: Seq<TileState>,
    size: int,
    x: int,
    y: int,
)
    ensures
        1 <= spec_neighbor_num(kinds, states, size, x, y) <= 14641,
        1 <= spec_neighbor_den(kinds, size, x, y) <= 10000,
{
    let n1 = spec_nbr_num(kinds, states, size, x - 1, y);
    let n2 = spec_nbr_num(kinds, states, size, x + 1, y);
    let n3 = spec_nbr_num(kinds, states, size, x, y - 1);
    let n4 = spec_nbr_num(kinds, states, size, x, y + 1);
    assert(1 <= n1 * n2 * n3 * n4 <= 14641) by (nonlinear_arith)
        requires
            1 <= n1 <= 11,
            1 <= n2 <= 11,
            1 <= n3 <= 11,
            1 <= n4 <= 11,
    ;
    let d1 = spec_nbr_den(kinds, size, x - 1, y);
    let d2 = spec_nbr_den(kinds, size, x + 1, y);
    let d3 = spec_nbr_den(kinds, size, x, y - 1);
    let d4 = spec_nbr_den(kinds, size, x, y + 1);
    assert(1 <= d1 * d2 * d3 * d4 <= 10000) by (nonlinear_arith)
        requires
            1 <= d1 <= 10,
            1 <= d2 <= 10,
            1 <= d3 <= 10,
            1 <= d4 <= 10,
    ;
}

/// The general decay-epoch law: below the saturation cap, one epoch on an
/// otherwise-unchanged unfixed resource tile makes its waste exactly
/// `floor(base x (eff x 6/5 thousandths) x neighbour multiplier)` - the
/// multiplier grown by exactly 20%, floored in thousandths, with the usual
/// single floor in the waste formula - and never lowers it. The
/// `lemma_decay_epoch_isolated_tile` corollary gives the clean
/// `base -> base x 6/5` form for a fresh isolated tile.
pub proof fn lemma_decay_epoch_tile_general(
    kinds: Seq<ResourceType>,
    s0: Seq<TileState>,
    s1: Seq<TileState>,
    size: int,
    i: int,
)
    requires
        0 <= i < kinds.len(),
        i < s0.len(),
        i < s1.len(),
        kinds[i] !is Empty,
        !s0[i].fixed,
        !s1[i].fixed,
        s0[i].decay_multiplier == 0 || s0[i].decay_multiplier >= 1000,
        spec_effective_decay(s0[i].decay_multiplier) * 6 / 5 <= DECAY_CAP,
        s1[i].decay_multiplier == spec_decay_step(s0[i].decay_multiplier) as u64,
        spec_neighbor_num(kinds, s1, size, i / size, i % size) == spec_neighbor_num(
            kinds,
            s0,
            size,
            i / size,
            i % size,
        ),
    ensures
        spec_tile_waste(kinds, s1, size, i) == spec_waste_cost(kinds[i]) * (spec_effective_decay(
            s0[i].decay_multiplier,
        ) * 6 / 5) * spec_neighbor_num(kinds, s0, size, i / size, i % size) / (spec_neighbor_den(
            kinds,
            size,
            i / size,
            i % size,
        ) * 1000),
        spec_tile_waste(kinds, s1, size, i) >= spec_tile_waste(kinds, s0, size, i),
{
    let x = i / size;
    let y = i % size;
    let base = spec_waste_cost(kinds[i]);
    let e0 = spec_effective_decay(s0[i].decay_multiplier);
    let e1 = e0 * 6 / 5;
    let num = spec_neighbor_num(kinds, s0, size, x, y);
    let den = spec_neighbor_den(kinds, size, x, y);
    assert(0 <= base <= 450);
    assert(e0 >= 1000);
    assert(e1 >= 1200) by {
        assert(e0 * 6 >= 1200 * 5);
        vstd::arithmetic::div_mod::lemma_div_is_ordered(1200int * 5, e0 * 6, 5);
        vstd::arithmetic::div_mod::lemma_div_multiples_vanish(1200int, 5);
    }
    assert(spec_decay_step(s0[i].decay_multiplier) == e1);
    assert(spec_effective_decay(s1[i].decay_multiplier) == e1);
    lemma_neighbor_factor_bounds(kinds, s0, size, x, y);
    lemma_decay_step_monotone(s0[i].decay_multiplier);
    assert(e1 >= e0);
    assert(base * e0 * num <= base * e1 * num) by (nonlinear_arith)
        requires
            0 <= base,
            0 <= e0 <= e1,
            1 <= num,
    ;
    assert(den * 1000 >= 1000);
    vstd::arithmetic::div_mod::lemma_div_is_ordered(base * e0 * num, base * e1 * num, den * 1000);
}

/// One decay epoch on a fresh, isolated, unfixed tile raises its waste by
/// exactly 20%, floored: from `base` to `base * 6 / 5`.
pub proof fn lemma_decay_epoch_isolated_tile(
    kinds: Seq<ResourceType>,
    s0: Seq<TileState>,
    s1: Seq<TileState>,
    size: int,
    i: int,
)
    requires
        0 <= i < kinds.len(),
        i < s0.len(),
        i < s1.len(),
        kinds[i] !is Empty,
        !s0[i].fixed,
        !s1[i].fixed,
        s0[i].decay_multiplier == 0,
        s1[i].decay_multiplier == spec_decay_step(s0[i].decay_multiplier),
        spec_neighbor_num(kinds, s0, size, i / size, i % size) == 1,
        spec_neighbor_num(kinds, s1, size, i / size, i % size) == 1,
        spec_neighbor_den(kinds, size, i / size, i % size) == 1,
    ensures
        s1[i].decay_multiplier == 1200,
        spec_tile_waste(kinds, s0, size, i) == spec_waste_cost(kinds[i]),
        spec_tile_waste(kinds, s1, size, i) == spec_waste_cost(kinds[i]) * 6 / 5,
{
    let base = spec_waste_cost(kinds[i]);
    assert(0 <= base <= 450);
    assert(spec_decay_step(0) == 1200);
    assert(spec_tile_waste(kinds, s0, size, i) == base * 1000 * 1 / (1int * 1000));
    assert(base * 1000 / 1000 == base) by {
        assert(base * 1000 == 1000 * base);
        vstd::arithmetic::div_mod::lemma_div_multiples_vanish(base, 1000);
    }
    assert(spec_tile_waste(kinds, s1, size, i) == base * 1200 * 1 / (1int * 1000));
    assert(base * 1200 / 1000 == base * 6 / 5) by {
        vstd::arithmetic::div_mod::lemma_div_multiples_vanish_quotient(200, base * 6, 5);
        assert(base * 1200 == 200 * (base * 6)) by (nonlinear_arith);
        assert(1000 == 200 * 5);
    }
}

impl Game {
    /// Applies one movement command. A move that would leave the grid, or
    /// arrives after the game has ended, is rejected with no cost and no
    /// state change; an accepted move updates the player position, charges
    /// the flat movement cost, and latches the loss if the budget runs out.
    pub fn apply_move(&mut self, dir: Direction) -> (r: Result<(u8, u8), Rejected>)
        requires
            old(self).wf(),
        ensures
            final(self).wf(),
            r is Ok <==> spec_move_ok(old(self).data, dir),
            !spec_move_ok(old(self).data, dir) ==> *final(self) == *old(self),
            spec_move_ok(old(self).data, dir) ==> {
                let delta = spec_dir_delta(Some(dir));
                &&& final(self).kinds@ == old(self).kinds@
                &&& final(self).states@ == old(self).states@
                &&& final(self).data == (GameData {
                    player_x: (old(self).data.player_x + delta.0) as u8,
                    player_y: (old(self).data.player_y + delta.1) as u8,
                    budget: (old(self).data.budget - MOVE_COST) as i64,
                    game_lost: old(self).data.budget - MOVE_COST <= 0,
                    ..old(self).data
                })
                &&& r == Ok::<(u8, u8), Rejected>(
                    (
                        (old(self).data.player_x + delta.0) as u8,
                        (old(self).data.player_y + delta.1) as u8,
                    ),
                )
            },
    {
        if self.data.game_won || self.data.game_lost {
            return Err(Rejected);
        }
        let size = self.data.grid_size;
        let x = self.data.player_x;
        let y = self.data.player_y;
        let ok: bool = match dir {
            Direction::Up => y + 1 < size,
            Direction::Down => y > 0,
            Direction::Left => x > 0,
            Direction::Right => x + 1 < size,
        };
        if !ok {
            return Err(Rejected);
        }
        let (nx, ny): (u8, u8) = match dir {
            Direction::Up => (x, y + 1),
            Direction::Down => (x, y - 1),
            Direction::Left => (x - 1, y),
            Direction::Right => (x + 1, y),
        };
        self.data.player_x = nx;
        self.data.player_y = ny;
        self.data.budget = self.data.budget - MOVE_COST;
        if self.data.budget <= 0 {
            self.data.game_lost = true;
        }
        Ok((nx, ny))
    }

    /// Attempts to start fixing the tile under the player. When the tile is
    /// revealed, unfixed and idle, the fix countdown starts at the kind's
    /// fix duration and one sprint is charged; otherwise nothing changes.
    /// Starting a fix on an `Empty` tile is accepted (its duration is zero,
    /// so nothing ever completes) and still advances the sprint.
    pub fn apply_fix_attempt(&mut self) -> (r: Result<(), Rejected>)
        requires
            old(self).wf(),
        ensures
            final(self).wf(),
            r is Ok <==> spec_fix_ok(*old(self)),
            !spec_fix_ok(*old(self)) ==> *final(self) == *old(self),
            spec_fix_ok(*old(self)) ==> {
                let idx = spec_index(
                    old(self).data.grid_size as int,
                    old(self).data.player_x as int,
                    old(self).data.player_y as int,
                );
                &&& final(self).kinds@ == old(self).kinds@
                &&& final(self).states@ == old(self).states@.update(
                    idx,
                    TileState {
                        fixing_sprints_left: spec_fix_sprints(old(self).kinds@[idx]) as u8,
                        ..old(self).states@[idx]
                    },
                )
                &&& final(self).data == old(self).data.spec_process_sprint()
            },
    {
        if self.data.game_won || self.data.game_lost {
            return Err(Rejected);
        }
        let size = self.data.grid_size;
        let x = self.data.player_x;
        let y = self.data.player_y;
        proof {
            assert((x as int * size as int + y as int) < (size as int) * (size as int)
                && (x as int * size as int + y as int) < 65025) by (nonlinear_arith)
                requires
                    x < size,
                    y < size,
                    size <= 255,
            ;
        }
        let idx: usize = x as usize * size as usize + y as usize;
        let st = self.states[idx];
        if !(st.revealed && !st.fixed && st.fixing_sprints_left == 0) {
            return Err(Rejected);
        }
        let ghost pre = self.states@;
        let kind = self.kinds[idx];
        let mut t = st;
        t.fixing_sprints_left = kind.fix_sprints();
        self.states[idx] = t;
        proof {
            lemma_count_revealed_same_flags(self.states@, pre, pre.len() as int);
            lemma_count_fixed_same_flags(self.states@, pre, pre.len() as int);
        }
        self.data.process_sprint();
        Ok(())
    }

    /// Reveals the player's tile and the up-to-three tiles in the scan arc
    /// ahead of the facing direction (`None`: only the player's tile). No
    /// economic side effect; only `revealed` flags and the reveal counter
    /// move.
    pub fn auto_reveal(&mut self, facing: Option<Direction>)
        requires
            old(self).wf(),
        ensures
            final(self).wf(),
            final(self).kinds@ == old(self).kinds@,
            final(self).states@.len() == old(self).states@.len(),
            forall|j: int|
                0 <= j < old(self).states@.len() ==> final(self).states@[j] == (TileState {
                    revealed: old(self).states@[j].revealed || spec_in_scan(
                        old(self).data.player_x as int,
                        old(self).data.player_y as int,
                        facing,
                        j / old(self).data.grid_size as int,
                        j % old(self).data.grid_size as int,
                    ),
                    ..old(self).states@[j]
                }),
            final(self).data == (GameData {
                tiles_revealed_count: final(self).data.tiles_revealed_count,
                ..old(self).data
            }),
    {
        let size = self.data.grid_size;
        let px = self.data.player_x;
        let py = self.data.player_y;
        let ghost sz = size as int;
        let ghost s0 = self.states@;
        let n = self.states.len();
        proof {
            assert(sz * sz <= 65025) by (nonlinear_arith)
                requires
                    0 <= sz <= 255,
            ;
        }
        let (dx, dy): (i32, i32) = match facing {
            Some(Direction::Up) => (0, 1),
            Some(Direction::Down) => (0, -1),
            Some(Direction::Left) => (-1, 0),
            Some(Direction::Right) => (1, 0),
            None => (0, 0),
        };
        let cx: i32 = px as i32 + dx;
        let cy: i32 = py as i32 + dy;
        proof {
            lemma_count_revealed_le(s0, n as int);
        }
        let mut count = self.data.tiles_revealed_count;
        let mut i: usize = 0;
        let mut x: u8 = 0;
        while x < size
            invariant
                x <= size,
                i == x as int * sz,
                sz == size as int,
                sz * sz <= 65025,
                n == s0.len(),
                s0 == old(self).states@,
                self.wf(),
                size == self.data.grid_size,
                px == self.data.player_x,
                py == self.data.player_y,
                self.data == (GameData {
                    tiles_revealed_count: self.data.tiles_revealed_count,
                    ..old(self).data
                }),
                self.data.tiles_revealed_count == count,
                self.kinds@ == old(self).kinds@,
                self.states@.len() == n,
                n == self.n_tiles(),
                cx == px as int + spec_dir_delta(facing).0,
                cy == py as int + spec_dir_delta(facing).1,
                (dx as int, dy as int) == spec_dir_delta(facing),
                count == spec_count_revealed(self.states@, n as int),
                count <= 65025,
                forall|j: int| i <= j < n ==> self.states@[j] == s0[j],
                forall|j: int|
                    0 <= j < i ==> self.states@[j] == (TileState {
                        revealed: s0[j].revealed || spec_in_scan(
                            px as int,
                            py as int,
                            facing,
                            j / sz,
                            j % sz,
                        ),
                        ..s0[j]
                    }),
            decreases size - x,
        {
            let mut y: u8 = 0;
            while y < size
                invariant
                    x < size,
                    y <= size,
                    i == x as int * sz + y as int,
                    sz == size as int,
                    sz * sz <= 65025,
                    n == s0.len(),
                    s0 == old(self).states@,
                    self.wf(),
                    size == self.data.grid_size,
                    px == self.data.player_x,
                    py == self.data.player_y,
                    self.data == (GameData {
                        tiles_revealed_count: self.data.tiles_revealed_count,
                        ..old(self).data
                    }),
                    self.data.tiles_revealed_count == count,
                    self.kinds@ == old(self).kinds@,
                    self.states@.len() == n,
                    n == self.n_tiles(),
                    cx == px as int + spec_dir_delta(facing).0,
                    cy == py as int + spec_dir_delta(facing).1,
                    (dx as int, dy as int) == spec_dir_delta(facing),
                    count == spec_count_revealed(self.states@, n as int),
                    count <= 65025,
                    forall|j: int| i <= j < n ==> self.states@[j] == s0[j],
                    forall|j: int|
                        0 <= j < i ==> self.states@[j] == (TileState {
                            revealed: s0[j].revealed || spec_in_scan(
                                px as int,
                                py as int,
                                facing,
                                j / sz,
                                j % sz,
                            ),
                            ..s0[j]
                        }),
                decreases size - y,
            {
                proof {
                    assert((x as int * sz + y as int) < sz * sz) by (nonlinear_arith)
                        requires
                            0 <= x < sz,
                            0 <= y < sz,
                    ;
                    vstd::arithmetic::div_mod::lemma_fundamental_div_mod_converse_div(
                        i as int,
                        sz,
                        x as int,
                        y as int,
                    );
                    vstd::arithmetic::div_mod::lemma_fundamental_div_mod_converse_mod(
                        i as int,
                        sz,
                        x as int,
                        y as int,
                    );
                }
                let xi: i32 = x as i32;
                let yi: i32 = y as i32;
                let in_scan: bool = (x == px && y == py) || (xi == cx && yi == cy) || (dy != 0 && (
                xi == cx - 1 || xi == cx + 1) && yi == cy) || (dx != 0 && xi == cx && (yi == cy - 1
                    || yi == cy + 1));
                proof {
                    assert(in_scan == spec_in_scan(px as int, py as int, facing, x as int, y as int));
                }
                let ghost pre = self.states@;
                let st = self.states[i];
                if in_scan && !st.revealed {
                    let mut t = st;
                    t.revealed = true;
                    self.states[i] = t;
                    proof {
                        lemma_count_revealed_update(pre, i as int, t, n as int);
                        lemma_count_revealed_le(self.states@, n as int);
                        lemma_count_fixed_same_flags(self.states@, pre, n as int);
                    }
                    count = count + 1;
                }
                proof {
                    assert(self.states@[i as int] == (TileState {
                        revealed: s0[i as int].revealed || spec_in_scan(
                            px as int,
                            py as int,
                            facing,
                            i as int / sz,
                            i as int % sz,
                        ),
                        ..s0[i as int]
                    }));
                }
                self.data.tiles_revealed_count = count;
                i = i + 1;
                y = y + 1;
            }
            proof {
                assert((x as int + 1) * sz == x as int * sz + sz) by (nonlinear_arith);
            }
            x = x + 1;
        }
    }
}

} // verus!
