use pirate_finops::catalog::ResourceType;
use pirate_finops::game::{Direction, Game};
use rand::SeedableRng;

fn empty_grid() -> Vec<ResourceType> {
    vec![ResourceType::Empty; 64]
}

fn grid_with(placements: &[(u8, u8, ResourceType)]) -> Vec<ResourceType> {
    let mut g = empty_grid();
    for &(x, y, k) in placements {
        g[x as usize * 8 + y as usize] = k;
    }
    g
}

fn fix_tile(game: &mut Game, x: u8, y: u8) {
    game.data.player_x = x;
    game.data.player_y = y;
    game.auto_reveal(None);
    assert!(game.apply_fix_attempt().is_ok());
}

#[test]
fn from_grid_totals_ground_truth_waste() {
    let g = grid_with(&[
        (0, 0, ResourceType::IdleGPUCluster),
        (7, 7, ResourceType::UntaggedResource),
    ]);
    let game = Game::from_grid(8, 30000, g);
    assert_eq!(game.data.total_waste, 460);
    assert_eq!(game.data.budget, 30000);
    assert_eq!(game.data.sprint, 0);
    assert_eq!(game.kinds.len(), 64);
    assert_eq!(game.states.len(), 64);
}

#[test]
fn initialize_generates_a_consistent_game() {
    let mut rng = rand::rngs::StdRng::seed_from_u64(11);
    let game = Game::initialize(8, 30000, &mut rng);
    assert_eq!(game.kinds.len(), 64);
    let sum: i64 = game.kinds.iter().map(|k| k.waste_cost() as i64).sum();
    assert_eq!(game.data.total_waste, sum);
    let resources = game
        .kinds
        .iter()
        .filter(|k| **k != ResourceType::Empty)
        .count();
    assert_eq!(resources, 25); // floor(64 * 0.40)
}

#[test]
fn isolated_fix_runs_to_completion() {
    // One isolated critical resource: reveal, start the fix, and let three
    // countdown ticks finish it.
    let g = grid_with(&[(4, 4, ResourceType::IdleGPUCluster)]);
    let mut game = Game::from_grid(8, 30000, g);
    assert_eq!(game.data.total_waste, 450);

    game.auto_reveal(None);
    assert!(game.states[36].revealed);
    assert_eq!(game.data.tiles_revealed_count, 1);

    assert!(game.apply_fix_attempt().is_ok());
    assert_eq!(game.states[36].fixing_sprints_left, 3);
    assert_eq!(game.data.sprint, 1);
    assert_eq!(game.data.budget, 30000 - 210); // burn 30 + floor(450 * 0.4)

    game.tick();
    assert_eq!(game.states[36].fixing_sprints_left, 2);
    assert_eq!(game.data.total_waste, 450);
    game.tick();
    assert_eq!(game.states[36].fixing_sprints_left, 1);
    let snap = game.tick();

    assert!(game.states[36].fixed);
    assert_eq!(game.data.total_waste, 0); // dropped by exactly 450
    assert_eq!(game.data.monthly_savings, 675); // floor(675 x 1.0)
    assert_eq!(game.data.combo_multiplier, 10); // no prior fix to combo from
    assert_eq!(game.data.combo_weighted_savings, 675);
    assert_eq!(game.data.resources_fixed_in_order.len(), 1);
    assert!(!snap.game_won); // sprint 1 < 5
}

#[test]
fn decay_compounds_only_at_five_sprint_epochs() {
    let g = grid_with(&[(4, 4, ResourceType::IdleGPUCluster)]);
    let mut game = Game::from_grid(8, 30000, g);
    game.data.sprint = 5;

    let snap = game.tick();
    // One epoch: the isolated unfixed tile is worth exactly 20% more.
    assert_eq!(game.states[36].decay_multiplier, 1200);
    assert_eq!(snap.total_waste, 540);
    assert_eq!(game.data.last_decay_sprint, 5);

    // Same sprint, next tick: no new epoch, nothing moves.
    let snap2 = game.tick();
    assert_eq!(game.states[36].decay_multiplier, 1200);
    assert_eq!(snap2.total_waste, 540);

    // Five sprints later the decay compounds again: 1200 * 6 / 5.
    game.data.sprint = 10;
    let snap3 = game.tick();
    assert_eq!(game.states[36].decay_multiplier, 1440);
    assert_eq!(snap3.total_waste, 648);
}

#[test]
fn recompute_waste_is_idempotent() {
    let g = grid_with(&[
        (0, 0, ResourceType::OrphanedDisk),
        (0, 1, ResourceType::OrphanedDisk),
        (5, 5, ResourceType::IdleVM),
    ]);
    let mut game = Game::from_grid(8, 30000, g);
    game.recompute_waste();
    let first = game.data.total_waste;
    let first_savings = game.data.monthly_savings;
    game.recompute_waste();
    assert_eq!(game.data.total_waste, first);
    assert_eq!(game.data.monthly_savings, first_savings);
}

#[test]
fn unfixed_neighbours_raise_waste() {
    // Two adjacent disks (base 30): each sees one unfixed resource
    // neighbour, so each is worth floor(30 x 1.1) = 33.
    let g = grid_with(&[
        (0, 0, ResourceType::OrphanedDisk),
        (0, 1, ResourceType::OrphanedDisk),
    ]);
    let mut game = Game::from_grid(8, 30000, g);
    let snap = game.tick();
    assert_eq!(snap.total_waste, 66);
}

#[test]
fn fixed_neighbour_lowers_waste() {
    let g = grid_with(&[
        (0, 0, ResourceType::OrphanedDisk),
        (0, 1, ResourceType::OrphanedDisk),
    ]);
    let mut game = Game::from_grid(8, 30000, g);
    fix_tile(&mut game, 0, 0); // 1-sprint fix
    game.tick(); // completes the fix and recomputes
    assert!(game.states[0].fixed);
    // The remaining disk sees one fixed neighbour: floor(30 x 0.9) = 27.
    assert_eq!(game.data.total_waste, 27);
    assert_eq!(game.data.monthly_savings, 40); // avg of (35, 45)
}

#[test]
fn combo_builds_on_matching_kinds_and_resets_on_unrelated() {
    let g = grid_with(&[
        (0, 0, ResourceType::IdleGPUCluster),
        (0, 2, ResourceType::IdleGPUCluster),
        (7, 7, ResourceType::UntaggedResource),
    ]);
    let mut game = Game::from_grid(8, 30000, g);

    fix_tile(&mut game, 0, 0);
    game.tick();
    game.tick();
    game.tick();
    assert!(game.states[0].fixed);
    assert_eq!(game.data.combo_multiplier, 10); // first fix: unchanged

    fix_tile(&mut game, 0, 2);
    game.tick();
    game.tick();
    game.tick();
    assert!(game.states[2].fixed);
    assert_eq!(game.data.combo_multiplier, 12); // same kind: +0.2
    assert_eq!(game.data.combo_weighted_savings, 675 + 810); // floor(675 x 1.2)

    fix_tile(&mut game, 7, 7);
    game.tick();
    assert!(game.states[63].fixed);
    assert_eq!(game.data.combo_multiplier, 10); // unrelated kind: reset to x1.0
}

#[test]
fn combo_builds_on_related_kinds() {
    let g = grid_with(&[
        (0, 0, ResourceType::OrphanedDisk),
        (4, 0, ResourceType::StaleSnapshot), // related to OrphanedDisk
    ]);
    let mut game = Game::from_grid(8, 30000, g);
    fix_tile(&mut game, 0, 0);
    game.tick();
    fix_tile(&mut game, 4, 0);
    game.tick();
    assert_eq!(game.data.combo_multiplier, 12);
}

#[test]
fn adjacency_bonus_counts_previously_fixed_neighbours() {
    let g = grid_with(&[
        (3, 3, ResourceType::OrphanedDisk),
        (3, 4, ResourceType::StaleSnapshot),
    ]);
    let mut game = Game::from_grid(8, 30000, g);
    fix_tile(&mut game, 3, 3);
    game.tick();
    assert_eq!(game.data.adjacency_bonus, 0); // nothing was fixed before it
    fix_tile(&mut game, 3, 4);
    game.tick();
    assert_eq!(game.data.adjacency_bonus, 50); // one fixed orthogonal neighbour
}

#[test]
fn win_waits_for_sprint_five() {
    let g = grid_with(&[
        (0, 0, ResourceType::IdleGPUCluster),
        (0, 2, ResourceType::IdleGPUCluster),
        (0, 4, ResourceType::IdleGPUCluster),
    ]);
    let mut game = Game::from_grid(8, 30000, g);
    for (x, y) in [(0u8, 0u8), (0, 2), (0, 4)] {
        fix_tile(&mut game, x, y);
        game.tick();
        game.tick();
        game.tick();
    }
    // All fixed: waste 0, savings 3 x 675 = 2025 >= 1500; but sprint is 3.
    assert_eq!(game.data.total_waste, 0);
    assert_eq!(game.data.monthly_savings, 2025);
    assert_eq!(game.data.sprint, 3);
    assert!(!game.data.game_won);

    game.data.process_sprint();
    game.data.process_sprint();
    assert_eq!(game.data.sprint, 5);
    let snap = game.tick();
    assert!(snap.game_won);
    assert!(game.data.game_won);
}

#[test]
fn moves_charge_fifty_and_reject_leaving_the_grid() {
    let mut game = Game::from_grid(8, 30000, empty_grid());
    assert_eq!(game.apply_move(Direction::Left), Ok((3, 4)));
    assert_eq!(game.data.budget, 29950);
    assert_eq!(game.apply_move(Direction::Left), Ok((2, 4)));
    assert_eq!(game.apply_move(Direction::Left), Ok((1, 4)));
    assert_eq!(game.apply_move(Direction::Left), Ok((0, 4)));
    let budget = game.data.budget;
    // Off-grid: rejected, no cost, no state change.
    assert!(game.apply_move(Direction::Left).is_err());
    assert_eq!(game.data.budget, budget);
    assert_eq!(game.data.player_x, 0);
    assert_eq!(game.apply_move(Direction::Up), Ok((0, 5)));
    assert_eq!(game.apply_move(Direction::Down), Ok((0, 4)));
    assert_eq!(game.apply_move(Direction::Right), Ok((1, 4)));
}

#[test]
fn move_can_exhaust_the_budget() {
    let mut game = Game::from_grid(8, 40, empty_grid());
    assert!(game.apply_move(Direction::Up).is_ok());
    assert!(game.data.game_lost);
    assert_eq!(game.data.budget, -10);
    // Terminal: every further command is rejected and changes nothing.
    assert!(game.apply_move(Direction::Down).is_err());
    assert!(game.apply_fix_attempt().is_err());
    assert_eq!(game.data.budget, -10);
}

#[test]
fn fix_attempt_needs_a_revealed_idle_tile() {
    let g = grid_with(&[(4, 4, ResourceType::IdleVM)]);
    let mut game = Game::from_grid(8, 30000, g);
    // Hidden tile: silently rejected, nothing changes.
    assert!(game.apply_fix_attempt().is_err());
    assert_eq!(game.data.sprint, 0);
    game.auto_reveal(None);
    assert!(game.apply_fix_attempt().is_ok());
    // Already counting down: rejected.
    assert!(game.apply_fix_attempt().is_err());
    assert_eq!(game.data.sprint, 1);
}

#[test]
fn auto_reveal_scans_ahead_of_the_facing_direction() {
    let mut game = Game::from_grid(8, 30000, empty_grid());
    game.auto_reveal(Some(Direction::Up));
    // Player tile, the tile ahead, and its two flanks.
    assert!(game.states[4 * 8 + 4].revealed); // (4,4)
    assert!(game.states[4 * 8 + 5].revealed); // (4,5) ahead
    assert!(game.states[3 * 8 + 5].revealed); // (3,5) flank
    assert!(game.states[5 * 8 + 5].revealed); // (5,5) flank
    assert_eq!(game.data.tiles_revealed_count, 4);
    assert!(!game.states[4 * 8 + 6].revealed);
}

#[test]
fn snapshot_clamps_negative_budget_to_zero() {
    let mut game = Game::from_grid(8, 40, empty_grid());
    assert!(game.apply_move(Direction::Up).is_ok());
    assert!(game.data.game_lost);
    let snap = game.snapshot();
    assert_eq!(snap.budget, 0);
    assert!(snap.game_lost);
}

#[test]
fn tick_leaves_a_finished_game_alone() {
    let g = grid_with(&[(0, 0, ResourceType::IdleGPUCluster)]);
    let mut game = Game::from_grid(8, 30000, g);
    game.data.game_won = true;
    let waste = game.data.total_waste;
    let snap = game.tick();
    assert_eq!(game.data.total_waste, waste);
    assert!(snap.game_won);
}

#[test]
fn combo_clamps_at_double() {
    let spots: [(u8, u8); 7] = [(0, 0), (0, 2), (0, 4), (0, 6), (2, 0), (2, 2), (2, 4)];
    let placements: Vec<(u8, u8, ResourceType)> = spots
        .iter()
        .map(|&(x, y)| (x, y, ResourceType::IdleGPUCluster))
        .collect();
    let mut game = Game::from_grid(8, 30000, grid_with(&placements));
    let expected = [10u32, 12, 14, 16, 18, 20, 20];
    for (k, &(x, y)) in spots.iter().enumerate() {
        fix_tile(&mut game, x, y);
        game.tick();
        game.tick();
        game.tick();
        assert_eq!(game.data.combo_multiplier, expected[k]);
    }
}

#[test]
fn one_by_one_grid_game() {
    let game = Game::from_grid(1, 100, vec![ResourceType::Empty]);
    assert_eq!(game.data.player_x, 0);
    assert_eq!(game.data.player_y, 0);
    assert_eq!(game.data.total_waste, 0);
}
