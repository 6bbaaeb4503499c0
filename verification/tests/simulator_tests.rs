use pirate_finops::catalog::ResourceType;
use pirate_finops::economy::Difficulty;
use pirate_finops::grid::generate_random_grid;
use rand::SeedableRng;
use pirate_finops::simulator::{
    aggregate_results, run_simulation_suite, simulate_single_game, verdict_for, BalanceVerdict,
    SimulationReport, SimulationResult,
};

#[test]
fn suite_is_deterministic_for_a_fixed_seed() {
    let a = run_simulation_suite(100, Difficulty::Normal, 1234);
    let b = run_simulation_suite(100, Difficulty::Normal, 1234);
    assert_eq!(a, b);
}

#[test]
fn suite_accounts_for_every_trial() {
    let r = run_simulation_suite(100, Difficulty::Normal, 7);
    assert_eq!(r.total_games, 100);
    assert_eq!(r.wins + r.losses, 100);
    assert_eq!(r.win_rate, r.wins as u64 * 1000 / 100);
}

#[test]
fn empty_grid_trial_ends_at_once() {
    let grid = vec![ResourceType::Empty; 64];
    let r = simulate_single_game(&grid, Difficulty::Normal);
    assert!(!r.won);
    assert_eq!(r.sprints, 0);
    assert_eq!(r.final_budget, 30000);
    assert_eq!(r.final_waste, 0);
    assert_eq!(r.final_savings, 0);
    assert_eq!(r.waste_percentage, 0);
}

#[test]
fn single_candidate_trial_charges_and_fixes() {
    let mut grid = vec![ResourceType::Empty; 64];
    grid[10] = ResourceType::UntaggedResource; // waste 10, avg 11, 1 sprint
    let r = simulate_single_game(&grid, Difficulty::Normal);
    // Movement 60, then two sprints at burn 30 + floor(10 * 0.4) = 34.
    assert!(!r.won); // 2 sprints < 5: no win possible
    assert_eq!(r.sprints, 2);
    assert_eq!(r.final_budget, 30000 - 60 - 34 - 34);
    assert_eq!(r.final_waste, 0);
    assert_eq!(r.final_savings, 11); // first fix: no combo bonus
}

#[test]
fn later_fixes_get_the_flat_combo_bonus() {
    let mut grid = vec![ResourceType::Empty; 64];
    grid[0] = ResourceType::IdleGPUCluster; // eff (450+675)/3 = 375
    grid[20] = ResourceType::UntaggedResource; // eff (10+11)/1 = 21
    let r = simulate_single_game(&grid, Difficulty::Normal);
    // The cluster is fixed first (higher efficiency); the second fix earns
    // floor(11 * 1.2) = 13.
    assert_eq!(r.final_savings, 675 + 13);
    assert_eq!(r.sprints, 4);
    assert_eq!(r.final_waste, 0);
    assert!(!r.won);
}

#[test]
fn trial_is_deterministic_in_the_grid() {
    let mut grid = vec![ResourceType::Empty; 64];
    grid[3] = ResourceType::IdleVM;
    grid[40] = ResourceType::ExpiredBackups;
    grid[63] = ResourceType::MissedReservation;
    let a = simulate_single_game(&grid, Difficulty::Normal);
    let b = simulate_single_game(&grid, Difficulty::Normal);
    assert_eq!(a, b);
}

fn res(
    won: bool,
    sprints: u32,
    final_budget: i64,
    final_waste: i64,
    final_savings: i64,
    waste_percentage: i64,
) -> SimulationResult {
    SimulationResult { won, sprints, final_budget, final_waste, final_savings, waste_percentage }
}

#[test]
fn aggregation_computes_exact_statistics() {
    let results = vec![
        res(true, 7, 20000, 100, 2000, 200),
        res(true, 11, 10000, 50, 1600, 100),
        res(false, 9, 0, 4000, 300, 2100),
        res(false, 3, 0, 5000, 0, 2300),
    ];
    let r = aggregate_results(&results);
    assert_eq!(r.total_games, 4);
    assert_eq!(r.wins, 2);
    assert_eq!(r.losses, 2);
    assert_eq!(r.win_rate, 500); // 50.0%
    assert_eq!(r.avg_sprints_to_win, 90); // (7 + 11) * 10 / 2 = 9.0 sprints
    assert_eq!(r.avg_sprints_to_lose, 60); // (9 + 3) * 10 / 2
    assert_eq!(r.min_sprints_to_win, 7);
    assert_eq!(r.max_sprints_to_win, 11);
    assert_eq!(r.avg_final_budget_win, 15000);
    assert_eq!(r.avg_final_budget_lose, 0);
    assert_eq!(r.avg_waste_percentage_win, 150);
    assert_eq!(r.avg_savings_win, 1800);
}

#[test]
fn aggregation_with_no_wins_zeroes_win_statistics() {
    let results = vec![res(false, 5, 0, 1000, 200, 1500)];
    let r = aggregate_results(&results);
    assert_eq!(r.wins, 0);
    assert_eq!(r.win_rate, 0);
    assert_eq!(r.avg_sprints_to_win, 0);
    assert_eq!(r.min_sprints_to_win, 0);
    assert_eq!(r.max_sprints_to_win, 0);
    assert_eq!(r.avg_final_budget_win, 0);
    assert_eq!(r.avg_savings_win, 0);
    assert_eq!(r.avg_sprints_to_lose, 50);
}

#[test]
fn verdict_bands_have_exact_boundaries() {
    assert_eq!(verdict_for(99), BalanceVerdict::TooHard); // 9.9%
    assert_eq!(verdict_for(100), BalanceVerdict::Hard); // 10.0%
    assert_eq!(verdict_for(200), BalanceVerdict::Target); // 20.0%
    assert_eq!(verdict_for(300), BalanceVerdict::Target); // 30.0%
    assert_eq!(verdict_for(301), BalanceVerdict::SlightlyEasy); // 30.1%
    assert_eq!(verdict_for(400), BalanceVerdict::SlightlyEasy); // 40.0%
    assert_eq!(verdict_for(401), BalanceVerdict::TooEasy); // 40.1%
}

#[test]
fn report_verdict_uses_its_win_rate() {
    let results = vec![
        res(true, 7, 20000, 100, 2000, 200),
        res(false, 9, 0, 4000, 300, 2100),
        res(false, 9, 0, 4000, 300, 2100),
        res(false, 9, 0, 4000, 300, 2100),
    ];
    let r = aggregate_results(&results);
    assert_eq!(r.win_rate, 250);
    assert_eq!(r.verdict(), BalanceVerdict::Target);
}

#[test]
fn tiny_grids_respect_the_forty_percent_density() {
    let mut rng = rand::rngs::StdRng::seed_from_u64(5);
    let g1 = generate_random_grid(1, &mut rng);
    assert_eq!(g1.len(), 1);
    assert!(g1.iter().all(|k| *k == ResourceType::Empty)); // floor(1 * 0.4) = 0
    let g2 = generate_random_grid(2, &mut rng);
    assert_eq!(g2.len(), 4);
    let resources = g2.iter().filter(|k| **k != ResourceType::Empty).count();
    assert_eq!(resources, 1); // floor(4 * 0.4)
}

#[test]
fn suite_runs_with_a_single_trial() {
    let r = run_simulation_suite(1, Difficulty::Normal, 99);
    assert_eq!(r.total_games, 1);
    assert_eq!(r.wins + r.losses, 1);
}

#[test]
fn report_verdict_bands_the_exact_rate_not_the_floored_tenths() {
    // 3001/10000 = 30.01%: above the 30% target ceiling, even though the
    // floored-tenths figure (300) sits on the boundary.
    let just_above_target = SimulationReport {
        total_games: 10000,
        wins: 3001,
        losses: 6999,
        win_rate: 300,
        avg_sprints_to_win: 0,
        avg_sprints_to_lose: 0,
        min_sprints_to_win: 0,
        max_sprints_to_win: 0,
        avg_final_budget_win: 0,
        avg_final_budget_lose: 0,
        avg_waste_percentage_win: 0,
        avg_savings_win: 0,
    };
    assert_eq!(just_above_target.verdict(), BalanceVerdict::SlightlyEasy);

    // 4001/10000 = 40.01%: beyond the slightly-easy ceiling.
    let just_above_easy = SimulationReport { wins: 4001, losses: 5999, win_rate: 400, ..just_above_target };
    assert_eq!(just_above_easy.verdict(), BalanceVerdict::TooEasy);

    // The closed band edges themselves stay in the lower band.
    let on_target_edge = SimulationReport { wins: 3000, losses: 7000, win_rate: 300, ..just_above_target };
    assert_eq!(on_target_edge.verdict(), BalanceVerdict::Target);
    let on_easy_edge = SimulationReport { wins: 4000, losses: 6000, win_rate: 400, ..just_above_target };
    assert_eq!(on_easy_edge.verdict(), BalanceVerdict::SlightlyEasy);
}

#[test]
fn candidates_are_consumed_by_efficiency_not_position() {
    // The low-value resource sits earlier in enumeration order, but the
    // cluster's efficiency wins: it must be fixed first, so only the
    // low-value fix carries the x1.2 bonus.
    let mut grid = vec![ResourceType::Empty; 64];
    grid[5] = ResourceType::UntaggedResource; // eff 21
    grid[40] = ResourceType::IdleGPUCluster; // eff 375
    let r = simulate_single_game(&grid, Difficulty::Normal);
    assert_eq!(r.final_savings, 675 + 13); // not 11 + 810
}
