use chat_relay::game::{
    building_from_choice, menu_from_choice, resource_from_choice, ActionOutcome, BuildingType,
    Game, GameAction, MenuKind, ResourceType, FARM_PRODUCTION,
};
use chat_relay::text::{choice_from_input, parse_u32_trimmed, side_from_input};

#[test]
fn new_game_starts_empty() {
    let game = Game::new(10);
    assert_eq!(game.current_turn, 0);
    assert_eq!(game.end_turn, 10);
    assert_eq!(game.resources.gold, 0);
    assert_eq!(game.resources.wood, 0);
    assert_eq!(game.resources.food, 0);
    assert!(game.buildings.is_empty());
}

#[test]
fn each_farm_produces_its_food_at_turn_start() {
    let mut game = Game::new(10);
    game.buildings.push(BuildingType::Farm);
    game.buildings.push(BuildingType::Farm);
    game.do_start_of_turn_actions();
    assert_eq!(game.resources.food, 2 * FARM_PRODUCTION);
    game.do_start_of_turn_actions();
    assert_eq!(game.resources.food, 4 * FARM_PRODUCTION);
}

#[test]
fn building_a_farm_costs_gold_and_wood() {
    let mut game = Game::new(10);
    game.do_action(GameAction::Mine(ResourceType::Gold(500)));
    game.do_action(GameAction::Mine(ResourceType::Gold(500)));
    game.do_action(GameAction::Mine(ResourceType::Wood(500)));
    assert_eq!(game.resources.gold, 1000);
    assert_eq!(game.resources.wood, 500);
    let outcome = game.do_action(GameAction::Build(BuildingType::Farm));
    assert_eq!(outcome, ActionOutcome::Built);
    assert_eq!(game.resources.gold, 0);
    assert_eq!(game.resources.wood, 0);
    assert_eq!(game.buildings.len(), 1);
}

#[test]
fn building_without_resources_is_refused() {
    let mut game = Game::new(10);
    let outcome = game.do_action(GameAction::Build(BuildingType::Farm));
    assert_eq!(outcome, ActionOutcome::RefusedBuild);
    assert_eq!(game.buildings.len(), 0);
    assert_eq!(game.resources.gold, 0);
}

#[test]
fn harvest_changes_nothing_yet() {
    let mut game = Game::new(10);
    let outcome = game.do_action(GameAction::Harvest);
    assert_eq!(outcome, ActionOutcome::Harvested);
    assert_eq!(game.resources.gold, 0);
    assert_eq!(game.resources.wood, 0);
    assert_eq!(game.resources.food, 0);
}

#[test]
fn turns_advance_until_the_end() {
    let mut game = Game::new(2);
    assert!(!game.is_finished());
    game.advance_turn();
    game.advance_turn();
    assert!(game.is_finished());
}

#[test]
fn menus_map_their_entries() {
    assert_eq!(menu_from_choice(1), Some(MenuKind::Build));
    assert_eq!(menu_from_choice(2), Some(MenuKind::Harvest));
    assert_eq!(menu_from_choice(3), Some(MenuKind::Mine));
    assert_eq!(menu_from_choice(4), None);
    assert_eq!(building_from_choice(1), Some(BuildingType::Farm));
    assert_eq!(building_from_choice(2), None);
    assert_eq!(resource_from_choice(1), Some(ResourceType::Gold(500)));
    assert_eq!(resource_from_choice(2), Some(ResourceType::Wood(500)));
    assert_eq!(resource_from_choice(3), None);
}

#[test]
fn decimal_parsing_accepts_exactly_fitting_digit_runs() {
    assert_eq!(parse_u32_trimmed("42"), Some(42));
    assert_eq!(parse_u32_trimmed("  42\n"), Some(42));
    assert_eq!(parse_u32_trimmed("007"), Some(7));
    assert_eq!(parse_u32_trimmed("0"), Some(0));
    assert_eq!(parse_u32_trimmed("4294967295"), Some(u32::MAX));
    assert_eq!(parse_u32_trimmed("4294967296"), None);
    assert_eq!(parse_u32_trimmed("99999999999999999999"), None);
    assert_eq!(parse_u32_trimmed(""), None);
    assert_eq!(parse_u32_trimmed("  "), None);
    assert_eq!(parse_u32_trimmed("12a"), None);
    assert_eq!(parse_u32_trimmed("-3"), None);
}

#[test]
fn side_prompt_rejects_zero_and_junk() {
    assert_eq!(side_from_input("17\n"), Some(17));
    assert_eq!(side_from_input("0\n"), None);
    assert_eq!(side_from_input("seventeen\n"), None);
}

#[test]
fn choice_prompt_accepts_only_offered_entries() {
    assert_eq!(choice_from_input("1\n", 3), Some(1));
    assert_eq!(choice_from_input("3\n", 3), Some(3));
    assert_eq!(choice_from_input("4\n", 3), None);
    assert_eq!(choice_from_input("0\n", 3), None);
    assert_eq!(choice_from_input("x\n", 3), None);
}
