//! The economic core: per-game aggregate state (`GameData`), per-tile state
//! (`TileState`), budget burn, the waste percentage, and the win check.
//!
//! Multipliers are exact integers: the combo multiplier is held in tenths
//! (10 = x1.0, 20 = x2.0) and per-tile decay in thousandths (1000 = x1.0).
//! Every derived quantity is the floor of the corresponding rational value.

use vstd::prelude::*;

use crate::catalog::ResourceType;

verus! {

/// Combo multiplier floor, in tenths (x1.0).
pub const COMBO_MIN: u32 = 10;

/// Combo multiplier ceiling, in tenths (x2.0).
pub const COMBO_MAX: u32 = 20;

/// Ceiling for the stored decay multiplier, in thousandths (x10000). The
/// compounding 20% growth saturates here so that every waste figure stays
/// well inside `i64`.
pub const DECAY_CAP: u64 = 10_000_000;

/// Upper bound on the waste a single tile can contribute:
/// 450 x (DECAY_CAP/1000) x 11^4 / 10^0 rounds up to this.
pub const MAX_TILE_WASTE: i64 = 66_000_000_000;

/// Upper bound on `total_waste`: every tile at its per-tile maximum.
pub const MAX_TOTAL_WASTE: i64 = 66_000_000_000 * (255 * 255);

/// Largest starting budget the engine accepts.
pub const MAX_INITIAL_BUDGET: i64 = 10_000_000_000;

/// The budget can undershoot zero by at most one burn charge, which this
/// comfortably bounds from below.
pub const MIN_BUDGET: i64 = -10_000_000_000_000_000;

/// Upper bound on `monthly_savings` however it is accumulated: at most
/// 2 x 675 per tile.
pub const MAX_MONTHLY_SAVINGS: i64 = 100_000_000;

/// Upper bound on the adjacency bonus: at most 4 x 50 per fixed tile.
pub const MAX_ADJACENCY_BONUS: i64 = 200 * (255 * 255);

/// Budget charged on every successful player move.
pub const MOVE_COST: i64 = 50;

/// Budget drained per sprint before any waste contribution.
pub const BASE_BURN: i64 = 30;

/// The one supported difficulty setting.
#[derive(Clone, Copy, Debug, PartialEq, Eq, Structural)]
pub enum Difficulty {
    Normal,
}

/// Mutable state a tile carries on top of its fixed resource kind.
/// `decay_multiplier` is in thousandths; 0 means "not yet set" and is read as
/// one whole unit (1000).
#[derive(Clone, Copy, Debug, PartialEq, Eq, Structural)]
pub struct TileState {
    pub revealed: bool,
    pub fixed: bool,
    pub fixing_sprints_left: u8,
    pub decay_multiplier: u64,
}

impl TileState {
    /// A hidden, unfixed tile with no decay applied yet.
    pub fn new() -> (r: TileState)
        ensures
            r == (TileState {
                revealed: false,
                fixed: false,
                fixing_sprints_left: 0,
                decay_multiplier: 0,
            }),
    {
        TileState { revealed: false, fixed: false, fixing_sprints_left: 0, decay_multiplier: 0 }
    }
}

/// Budget drained in one sprint: a base charge plus 40% of the current total
/// waste, floored.
pub open spec fn spec_burn_rate(total_waste: int) -> int {
    BASE_BURN + total_waste * 2 / 5
}

/// Waste as a share of the burn rate, in tenths of a percent, floored;
/// 0 when the burn rate is 0.
pub open spec fn spec_waste_pct_tenths(total_waste: int) -> int {
    if spec_burn_rate(total_waste) == 0 {
        0
    } else {
        total_waste * 1000 / spec_burn_rate(total_waste)
    }
}

/// The win threshold: waste is at most 30% of the burn rate (compared as
/// exact rationals: 100 x waste <= 30 x burn) and savings have reached 1500.
pub open spec fn spec_win_numbers(total_waste: int, monthly_savings: int) -> bool {
    &&& total_waste * 10 <= 3 * spec_burn_rate(total_waste)
    &&& monthly_savings >= 1500
}

/// Aggregate economic state of one game.
///
/// `monthly_savings` is always the plain (combo-free) sum over fixed tiles,
/// fully recomputed each tick; the combo-weighted figure accumulated at fix
/// time is kept apart in `combo_weighted_savings`. The win check reads
/// `monthly_savings`.
#[derive(Debug)]
pub struct GameData {
    pub budget: i64,
    pub sprint: u32,
    pub total_waste: i64,
    pub monthly_savings: i64,
    pub grid_size: u8,
    pub difficulty: Difficulty,
    pub game_won: bool,
    pub game_lost: bool,
    pub player_x: u8,
    pub player_y: u8,
    /// Tenths: always within [COMBO_MIN, COMBO_MAX].
    pub combo_multiplier: u32,
    /// Append-only log of fixed kinds, used for the combo lookback.
    pub resources_fixed_in_order: Vec<ResourceType>,
    pub adjacency_bonus: i64,
    /// Sprint at which decay last compounded.
    pub last_decay_sprint: u32,
    /// Savings credited at fix time, weighted by the combo multiplier.
    pub combo_weighted_savings: i64,
    pub hidden_waste_discovered: i64,
    pub cascade_failures: Vec<(u8, u8)>,
    pub failed_fix_attempts: u32,
    pub bonus_credits_earned: i64,
    pub tiles_revealed_count: u32,
    pub critical_resources_found: u32,
}

impl GameData {
    /// Numeric sanity of the aggregate state: every bound the arithmetic of
    /// the engine needs, plus the combo clamp and the latched-loss floor.
    pub open spec fn wf(self) -> bool {
        &&& 1 <= self.grid_size
        &&& COMBO_MIN <= self.combo_multiplier <= COMBO_MAX
        &&& 0 <= self.total_waste <= MAX_TOTAL_WASTE
        &&& MIN_BUDGET <= self.budget
        &&& self.budget + 30 * self.sprint <= MAX_INITIAL_BUDGET
        &&& !self.game_lost ==> self.budget >= 1
        &&& 0 <= self.monthly_savings <= MAX_MONTHLY_SAVINGS
        &&& 0 <= self.combo_weighted_savings <= MAX_MONTHLY_SAVINGS
        &&& 0 <= self.adjacency_bonus <= MAX_ADJACENCY_BONUS
        &&& self.last_decay_sprint <= self.sprint
        &&& self.player_x < self.grid_size
        &&& self.player_y < self.grid_size
    }

    /// What one sprint advance does: nothing once the game is over;
    /// otherwise the sprint counter rises, the burn rate is charged, and a
    /// non-positive budget latches the loss.
    pub open spec fn spec_process_sprint(self) -> GameData {
        if self.game_won || self.game_lost {
            self
        } else {
            GameData {
                sprint: (self.sprint + 1) as u32,
                budget: (self.budget - spec_burn_rate(self.total_waste as int)) as i64,
                game_lost: self.budget - spec_burn_rate(self.total_waste as int) <= 0,
                ..self
            }
        }
    }

    /// What the win check does: before sprint 5 nothing; from sprint 5 on it
    /// latches the win exactly when the win numbers hold.
    pub open spec fn spec_check_win(self) -> GameData {
        if self.sprint < 5 {
            self
        } else if spec_win_numbers(self.total_waste as int, self.monthly_savings as int) {
            GameData { game_won: true, ..self }
        } else {
            self
        }
    }

    /// Fresh state for a new game: the fixed starting budget and grid size,
    /// the player at the grid centre, and every counter at rest.
    pub fn new(difficulty: Difficulty) -> (r: GameData)
        ensures
            r.wf(),
            r.budget == 30000,
            r.sprint == 0,
            r.total_waste == 0,
            r.monthly_savings == 0,
            r.grid_size == 8,
            r.difficulty == difficulty,
            !r.game_won,
            !r.game_lost,
            r.player_x == 4,
            r.player_y == 4,
            r.combo_multiplier == COMBO_MIN,
            r.resources_fixed_in_order@ == Seq::<ResourceType>::empty(),
            r.adjacency_bonus == 0,
            r.last_decay_sprint == 0,
            r.combo_weighted_savings == 0,
            r.hidden_waste_discovered == 0,
            r.cascade_failures@ == Seq::<(u8, u8)>::empty(),
            r.failed_fix_attempts == 0,
            r.bonus_credits_earned == 0,
            r.tiles_revealed_count == 0,
            r.critical_resources_found == 0,
    {
        let grid_size: u8 = 8;
        GameData {
            budget: 30000,
            sprint: 0,
            total_waste: 0,
            monthly_savings: 0,
            grid_size,
            difficulty,
            game_won: false,
            game_lost: false,
            player_x: grid_size / 2,
            player_y: grid_size / 2,
            combo_multiplier: COMBO_MIN,
            resources_fixed_in_order: Vec::new(),
            adjacency_bonus: 0,
            last_decay_sprint: 0,
            combo_weighted_savings: 0,
            hidden_waste_discovered: 0,
            cascade_failures: Vec::new(),
            failed_fix_attempts: 0,
            bonus_credits_earned: 0,
            tiles_revealed_count: 0,
            critical_resources_found: 0,
        }
    }

    /// Budget drained per sprint at the current waste level.
    pub fn calculate_burn_rate(&self) -> (r: i64)
        requires
            0 <= self.total_waste <= MAX_TOTAL_WASTE,
        ensures
            r == spec_burn_rate(self.total_waste as int),
            BASE_BURN <= r <= BASE_BURN + MAX_TOTAL_WASTE * 2 / 5,
    {
        let waste_burn: i64 = self.total_waste * 2 / 5;
        BASE_BURN + waste_burn
    }

    /// Waste as a share of the burn rate, in tenths of a percent, floored.
    pub fn waste_percentage(&self) -> (r: i64)
        requires
            0 <= self.total_waste <= MAX_TOTAL_WASTE,
        ensures
            r == spec_waste_pct_tenths(self.total_waste as int),
            0 <= r <= 2500,
    {
        let burn = self.calculate_burn_rate();
        if burn == 0 {
            return 0;
        }
        let r = self.total_waste * 1000 / burn;
        proof {
            lemma_waste_pct_bounded(self.total_waste as int);
        }
        r
    }

    /// Advances the sprint counter and charges the burn rate; a non-positive
    /// budget latches the loss. A finished game is left untouched.
    pub fn process_sprint(&mut self)
        requires
            old(self).wf(),
        ensures
            final(self).wf(),
            *final(self) == old(self).spec_process_sprint(),
    {
        if self.game_won || self.game_lost {
            return ;
        }
        self.sprint = self.sprint + 1;
        let burn_rate = self.calculate_burn_rate();
        self.budget = self.budget - burn_rate;
        if self.budget <= 0 {
            self.game_lost = true;
        }
    }

    /// From sprint 5 on, latches the win when waste is at most 30% of the
    /// burn rate and monthly savings have reached 1500; does nothing earlier,
    /// whatever the budget or savings are.
    pub fn check_win_condition(&mut self)
        requires
            old(self).wf(),
        ensures
            final(self).wf(),
            *final(self) == old(self).spec_check_win(),
            old(self).sprint < 5 ==> final(self).game_won == old(self).game_won,
    {
        if self.sprint < 5 {
            return ;
        }
        let burn = self.calculate_burn_rate();
        if self.total_waste * 10 <= 3 * burn && self.monthly_savings >= 1500 {
            self.game_won = true;
        }
    }
}

/// The waste percentage never exceeds 250.0%: the burn rate grows at least
/// as fast as 40% of the waste itself.
pub proof fn lemma_waste_pct_bounded(w: int)
    requires
        0 <= w,
    ensures
        0 <= spec_waste_pct_tenths(w) <= 2500,
{
    let burn = spec_burn_rate(w);
    assert(burn >= 30 + (w * 2 - 4) / 5) by {
        assert(w * 2 / 5 >= (w * 2 - 4) / 5);
    }
    if w > 0 {
        assert(w * 1000 / burn <= 2500) by {
            assert(burn * 5 >= 150 + w * 2 - 4);
            assert(w * 1000 <= 2500 * burn) by (nonlinear_arith)
                requires
                    burn * 5 >= 146 + w * 2,
                    w > 0,
            ;
            vstd::arithmetic::div_mod::lemma_div_is_ordered(w * 1000, 2500 * burn, burn);
            vstd::arithmetic::div_mod::lemma_div_multiples_vanish(2500, burn);
        }
    }
}

} // verus!
