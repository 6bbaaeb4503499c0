use pirate_finops::economy::{Difficulty, GameData, TileState};

#[test]
fn new_game_data_defaults() {
    let d = GameData::new(Difficulty::Normal);
    assert_eq!(d.budget, 30000);
    assert_eq!(d.sprint, 0);
    assert_eq!(d.total_waste, 0);
    assert_eq!(d.monthly_savings, 0);
    assert_eq!(d.grid_size, 8);
    assert!(!d.game_won);
    assert!(!d.game_lost);
    assert_eq!(d.player_x, 4);
    assert_eq!(d.player_y, 4);
    assert_eq!(d.combo_multiplier, 10); // tenths: x1.0
    assert!(d.resources_fixed_in_order.is_empty());
    assert_eq!(d.last_decay_sprint, 0);
}

#[test]
fn tile_state_starts_hidden() {
    let t = TileState::new();
    assert!(!t.revealed);
    assert!(!t.fixed);
    assert_eq!(t.fixing_sprints_left, 0);
    assert_eq!(t.decay_multiplier, 0);
}

#[test]
fn burn_rate_is_base_plus_forty_percent_of_waste() {
    let mut d = GameData::new(Difficulty::Normal);
    assert_eq!(d.calculate_burn_rate(), 30);
    d.total_waste = 450;
    assert_eq!(d.calculate_burn_rate(), 30 + 180);
    d.total_waste = 7; // floor(7 * 0.4) = 2
    assert_eq!(d.calculate_burn_rate(), 32);
}

#[test]
fn waste_percentage_in_tenths() {
    let mut d = GameData::new(Difficulty::Normal);
    assert_eq!(d.waste_percentage(), 0);
    d.total_waste = 450; // burn 210; 450 * 1000 / 210 = 2142
    assert_eq!(d.waste_percentage(), 2142);
}

#[test]
fn process_sprint_charges_burn_and_advances() {
    let mut d = GameData::new(Difficulty::Normal);
    d.total_waste = 450;
    d.process_sprint();
    assert_eq!(d.sprint, 1);
    assert_eq!(d.budget, 30000 - 210);
    assert!(!d.game_lost);
}

#[test]
fn process_sprint_latches_loss_on_exhausted_budget() {
    let mut d = GameData::new(Difficulty::Normal);
    d.budget = 25;
    d.process_sprint();
    assert!(d.game_lost);
    assert_eq!(d.budget, -5);
    // A finished game is untouched by further sprints.
    let sprint = d.sprint;
    d.process_sprint();
    assert_eq!(d.sprint, sprint);
    assert_eq!(d.budget, -5);
}

#[test]
fn check_win_never_fires_before_sprint_five() {
    let mut d = GameData::new(Difficulty::Normal);
    d.total_waste = 0;
    d.monthly_savings = 5000;
    d.sprint = 4;
    d.check_win_condition();
    assert!(!d.game_won);
    d.sprint = 5;
    d.check_win_condition();
    assert!(d.game_won);
}

#[test]
fn check_win_needs_both_thresholds() {
    let mut d = GameData::new(Difficulty::Normal);
    d.sprint = 10;
    d.total_waste = 0;
    d.monthly_savings = 1499;
    d.check_win_condition();
    assert!(!d.game_won);
    d.monthly_savings = 1500;
    d.check_win_condition();
    assert!(d.game_won);
}

#[test]
fn check_win_waste_threshold_is_thirty_percent_of_burn() {
    // waste 9, burn 30 + 3 = 33: 9/33 = 27.3% <= 30% -> win.
    let mut d = GameData::new(Difficulty::Normal);
    d.sprint = 5;
    d.total_waste = 9;
    d.monthly_savings = 1500;
    d.check_win_condition();
    assert!(d.game_won);

    // waste 11, burn 30 + 4 = 34: 11/34 = 32.4% > 30% -> no win.
    let mut d2 = GameData::new(Difficulty::Normal);
    d2.sprint = 5;
    d2.total_waste = 11;
    d2.monthly_savings = 1500;
    d2.check_win_condition();
    assert!(!d2.game_won);
}
