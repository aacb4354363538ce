use correspondence_arcs::actions;
use correspondence_arcs::board;
use correspondence_arcs::data::game_state::{
    Action, ActionCard, ActionError, ActionType, AmbitionTypes, BasicAction, BuildType, Color, GameState, ReserveType,
};
use correspondence_arcs::data::setup_cards::{two_player_frontiers, SetupCard};
use correspondence_arcs::data::system::{BuildingSlot, BuildingType, Ships, System};

fn construction_card() -> ActionCard {
    ActionCard { action_type: ActionType::Construction, number: 2, pips: 4, declared_ambition: Some(AmbitionTypes::Tycoon) }
}

fn build_actions(target_system: u8, build_type: BuildType) -> Vec<Action> {
    vec![
        Action::PlayLeadCard { card: construction_card(), declare: None },
        Action::EndPrelude,
        Action::MainAction { basic_action: BasicAction::Build { target_system, build_type } },
    ]
}

#[test]
fn test_building_ships() {
    let test_setup: SetupCard = two_player_frontiers();
    let mut game_state: GameState = board::setup_game(&test_setup).unwrap();

    game_state.add_action_cards(&Color::Red, vec![construction_card()]);

    let target_system = 17;
    let build_type = BuildType::Ship;

    let new_game_state = actions::execute_actions(&game_state, build_actions(target_system, build_type)).unwrap();

    match &new_game_state.systems[target_system as usize] {
        System::Used { ships, controlled_by, .. } => {
            assert_eq!(ships, &vec![Ships { player: Color::Red, fresh: 4, damaged: 0 }, Ships { player: Color::Blue, fresh: 0, damaged: 0 }]);
            assert_eq!(controlled_by, &Some(Color::Red));
        }
        _ => panic!("Expected Used system variant"),
    }
}

#[test]
fn test_execute_building_action() {
    let test_setup: SetupCard = two_player_frontiers();
    let mut game_state: GameState = board::setup_game(&test_setup).unwrap();

    game_state.add_action_cards(&Color::Red, vec![construction_card()]);

    let target_system = 17;
    let build_type = BuildType::Ship;

    let new_game_state = actions::execute_actions(&game_state, build_actions(target_system, build_type)).unwrap();

    match &new_game_state.systems[target_system as usize] {
        System::Used { ships, controlled_by, .. } => {
            assert_eq!(ships, &vec![Ships { player: Color::Red, fresh: 4, damaged: 0 }, Ships { player: Color::Blue, fresh: 0, damaged: 0 }]);
            assert_eq!(controlled_by, &Some(Color::Red));
        }
        _ => panic!("Expected Used system variant"),
    }
}

#[test]
fn test_building_city() {
    let test_setup: SetupCard = SetupCard { players: 2, cluster_out_of_play: vec![0, 5], a_locations: vec![20, 11], b_locations: vec![17, 18], c_locations: vec![2, 4, 14, 15] };
    let mut game_state: GameState = board::setup_game(&test_setup).unwrap();

    game_state.add_action_cards(&Color::Red, vec![construction_card()]);

    let target_system = 16;
    let build_type = BuildType::City;

    let game_state = actions::moving::move_ships(&game_state, 17, 16, 2, 0).unwrap();

    let new_game_state = actions::execute_actions(&game_state, build_actions(target_system, build_type)).unwrap();

    match &new_game_state.systems[target_system as usize] {
        System::Used { building_slots, controlled_by, .. } => {
            assert_eq!(building_slots, &vec![BuildingSlot::Occupied { fresh: true, player: Color::Red, building_type: BuildingType::City, used: false }, BuildingSlot::Empty]);
            assert_eq!(controlled_by, &Some(Color::Red));
        }
        _ => panic!("Expected Used system variant"),
    }
}

#[test]
fn building_starport() {
    let test_setup: SetupCard = two_player_frontiers();
    let mut game_state: GameState = board::setup_game(&test_setup).unwrap();

    game_state.add_action_cards(&Color::Red, vec![construction_card()]);

    let target_system: u8 = 15;
    let build_type = BuildType::Starport;

    let g1 = actions::moving::move_ships(&game_state, 17, 16, 2, 0).unwrap();
    let g2 = actions::moving::move_ships(&g1, 16, 15, 2, 0).unwrap();

    let new_game_state = actions::execute_actions(&g2, build_actions(target_system, build_type)).unwrap();

    match &new_game_state.systems[target_system as usize] {
        System::Used { building_slots, controlled_by, .. } => {
            assert_eq!(building_slots, &vec![BuildingSlot::Occupied { fresh: true, player: Color::Red, building_type: BuildingType::Starport, used: false }, BuildingSlot::Empty]);
            //Should be controlled by no one, because of two blue ships
            assert_eq!(controlled_by, &None);
        }
        _ => panic!("Expected Used system variant"),
    }
}

#[test]
fn building_in_gate() {
    let test_setup: SetupCard = two_player_frontiers();
    let mut game_state: GameState = board::setup_game(&test_setup).unwrap();

    game_state.add_action_cards(&Color::Red, vec![construction_card()]);

    let target_system = 3;
    let build_type = BuildType::Starport;

    let g1 = actions::moving::move_ships(&game_state, 17, 3, 2, 0).unwrap();
    let outcome = actions::execute_actions(&g1, build_actions(target_system, build_type));
    assert_eq!(outcome, Err(ActionError::NoSlots));
}

#[test]
fn build_in_full_system() {
    let test_setup: SetupCard = two_player_frontiers();
    let mut game_state: GameState = board::setup_game(&test_setup).unwrap();

    game_state.add_action_cards(&Color::Red, vec![construction_card()]);

    let target_system = 17;
    let build_type = BuildType::Starport;

    let outcome = actions::execute_actions(&game_state, build_actions(target_system, build_type));
    assert_eq!(outcome, Err(ActionError::NoSlotAvailable));
}

#[test]
fn build_starport_with_both_slots_occupied_changes_nothing() {
    let test_setup: SetupCard = two_player_frontiers();
    let game_state: GameState = board::setup_game(&test_setup).unwrap();
    // Red moves to 16, a planet with two slots, and fills both.
    let g1 = actions::moving::move_ships(&game_state, 17, 16, 2, 0).unwrap();
    let g2 = actions::building::build(&g1, 16, BuildType::City).unwrap();
    let g3 = actions::building::build(&g2, 16, BuildType::Starport).unwrap();
    match &g3.systems[16] {
        System::Used { building_slots, .. } => {
            assert_eq!(building_slots, &vec![
                BuildingSlot::Occupied { fresh: true, player: Color::Red, building_type: BuildingType::City, used: false },
                BuildingSlot::Occupied { fresh: true, player: Color::Red, building_type: BuildingType::Starport, used: false },
            ]);
        }
        _ => panic!("Expected Used system variant"),
    }
    let before = g3.clone();
    assert_eq!(actions::building::build(&g3, 16, BuildType::Starport), Err(ActionError::NoSlotAvailable));
    assert_eq!(g3, before);
}

#[test]
fn build_without_presence_is_rejected() {
    let game_state: GameState = board::setup_game(&two_player_frontiers()).unwrap();
    assert_eq!(actions::building::build(&game_state, 16, BuildType::Ship), Err(ActionError::NoPresence));
    assert_eq!(actions::building::build(&game_state, 0, BuildType::Ship), Err(ActionError::NoPresence));
    assert_eq!(actions::building::build(&game_state, 24, BuildType::Ship), Err(ActionError::UnknownEntity));
}

#[test]
fn build_takes_the_piece_from_the_reserve() {
    let game_state: GameState = board::setup_game(&two_player_frontiers()).unwrap();
    let g1 = actions::building::build(&game_state, 17, BuildType::Ship).unwrap();
    let red = g1.get_player_area(&Color::Red).unwrap();
    assert_eq!(red.reserve.get(&ReserveType::Ships), 14);
    assert_eq!(red.reserve.get(&ReserveType::Cities), 5);
    let g2 = actions::moving::move_ships(&g1, 17, 16, 1, 0).unwrap();
    let g3 = actions::building::build(&g2, 16, BuildType::City).unwrap();
    let red = g3.get_player_area(&Color::Red).unwrap();
    assert_eq!(red.reserve.get(&ReserveType::Cities), 4);
    assert_eq!(red.reserve.get(&ReserveType::Starports), 5);
}

#[test]
fn build_with_empty_reserve_is_rejected() {
    let mut game_state: GameState = board::setup_game(&two_player_frontiers()).unwrap();
    game_state.players[0].reserve.ships = 0;
    assert_eq!(actions::building::build(&game_state, 17, BuildType::Ship), Err(ActionError::InsufficientReserve));
}

#[test]
fn ship_built_in_a_rival_system_arrives_damaged() {
    let game_state: GameState = board::setup_game(&two_player_frontiers()).unwrap();
    // System 18 belongs to Blue, who has three ships there.
    let g1 = actions::moving::move_ships(&game_state, 17, 3, 1, 0).unwrap();
    let g2 = actions::moving::move_ships(&g1, 3, 4, 1, 0).unwrap();
    let g3 = actions::moving::move_ships(&g2, 4, 18, 1, 0).unwrap();
    let g4 = actions::building::build(&g3, 18, BuildType::Ship).unwrap();
    match &g4.systems[18] {
        System::Used { ships, controlled_by, .. } => {
            assert_eq!(ships, &vec![Ships { player: Color::Red, fresh: 1, damaged: 1 }, Ships { player: Color::Blue, fresh: 3, damaged: 0 }]);
            assert_eq!(controlled_by, &Some(Color::Blue));
        }
        _ => panic!("Expected Used system variant"),
    }
}

#[test]
fn building_a_ship_uses_an_unused_starport() {
    let game_state: GameState = board::setup_game(&two_player_frontiers()).unwrap();
    let g1 = actions::building::build(&game_state, 17, BuildType::Ship).unwrap();
    match &g1.systems[17] {
        System::Used { building_slots, .. } => {
            assert_eq!(building_slots, &vec![BuildingSlot::Occupied { fresh: true, player: Color::Red, building_type: BuildingType::Starport, used: true }]);
        }
        _ => panic!("Expected Used system variant"),
    }
    // With the starport used, a second ship is still built.
    let g2 = actions::building::build(&g1, 17, BuildType::Ship).unwrap();
    assert_eq!(g2.systems[17].get_all_ships(&Color::Red), 5);
}
