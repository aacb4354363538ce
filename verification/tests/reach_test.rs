use correspondence_arcs::actions;
use correspondence_arcs::actions::moving::{bfs_search_systems, catapult};
use correspondence_arcs::board;
use correspondence_arcs::data::game_state::{
    Action, ActionCard, ActionError, ActionType, AmbitionTypes, BasicAction, BuildType, Color, GameState, ResourceType,
    TurnState,
};
use correspondence_arcs::data::setup_cards::two_player_frontiers;
use correspondence_arcs::data::system::{BuildingSlot, BuildingType, System, SystemType};

fn game() -> GameState {
    board::setup_game(&two_player_frontiers()).unwrap()
}

#[test]
fn red_reaches_through_gates_that_are_free_or_its_own() {
    let game_state = game();
    // Gate 3 is free, gate 2 is Red's, gate 1 is free; gate 4 is Blue's and bars the way on.
    assert_eq!(bfs_search_systems(&game_state.systems, 17, &Color::Red), vec![1, 2, 3, 4, 9, 10, 11, 12, 13, 14, 15, 16, 17]);
    // The search starts at the cluster gate, whichever system of the cluster is named.
    assert_eq!(bfs_search_systems(&game_state.systems, 3, &Color::Red), bfs_search_systems(&game_state.systems, 15, &Color::Red));
}

#[test]
fn blue_reaches_other_systems_than_red() {
    let game_state = game();
    assert_eq!(bfs_search_systems(&game_state.systems, 18, &Color::Blue), vec![1, 2, 3, 4, 9, 10, 11, 15, 16, 17, 18, 19, 20]);
}

#[test]
fn nothing_is_reached_through_a_cluster_gate_that_a_rival_holds() {
    let mut game_state = game();
    // Gate 4 is Blue's: Red reaches nothing from its cluster, not even its planets.
    assert_eq!(bfs_search_systems(&game_state.systems, 18, &Color::Red), vec![]);
    assert_eq!(bfs_search_systems(&game_state.systems, 4, &Color::Red), vec![]);
    // Gate 2 is Red's: Blue reaches nothing from there.
    assert_eq!(bfs_search_systems(&game_state.systems, 12, &Color::Blue), vec![]);
    // A planet is no gate to set out from.
    match &mut game_state.systems[3] {
        System::Used { system_type, .. } => *system_type = SystemType::Planet { resource: ResourceType::Fuel },
        System::Unused => panic!("Expected Used system"),
    }
    assert_eq!(bfs_search_systems(&game_state.systems, 17, &Color::Red), vec![]);
}

#[test]
fn catapult_from_a_cluster_whose_gate_a_rival_holds_is_rejected() {
    let mut game_state = game();
    match &mut game_state.systems[3] {
        System::Used { ships, .. } => ships[1].fresh = 1,
        System::Unused => panic!("Expected Used system"),
    }
    game_state.systems[3] = game_state.systems[3].update_control();
    assert_eq!(catapult(&game_state, 17, vec![(16, 1, 0)]), Err(ActionError::UnreachableTarget));
    assert_eq!(catapult(&game_state, 17, vec![(3, 1, 0)]), Err(ActionError::UnreachableTarget));
    assert_eq!(catapult(&game_state, 17, vec![]), Ok(game_state.clone()));
}

#[test]
fn catapult_needs_a_starport_that_was_not_used() {
    let game_state = game();
    // Building a ship uses Red's only starport in system 17.
    let built = actions::building::build(&game_state, 17, BuildType::Ship).unwrap();
    assert_eq!(catapult(&built, 17, vec![]), Err(ActionError::NotController));
    assert_eq!(catapult(&built, 17, vec![(2, 1, 0)]), Err(ActionError::NotController));
    // A damaged starport that was not used still serves.
    let mut damaged = game_state.clone();
    match &mut damaged.systems[17] {
        System::Used { building_slots, .. } => {
            building_slots[0] = BuildingSlot::Occupied { fresh: false, player: Color::Red, building_type: BuildingType::Starport, used: false }
        }
        System::Unused => panic!("Expected Used system"),
    }
    assert!(catapult(&damaged, 17, vec![(2, 1, 0)]).is_ok());
    // Blue's starport does not serve Red.
    let mut blue = game_state.clone();
    match &mut blue.systems[17] {
        System::Used { building_slots, .. } => {
            building_slots[0] = BuildingSlot::Occupied { fresh: true, player: Color::Blue, building_type: BuildingType::Starport, used: false }
        }
        System::Unused => panic!("Expected Used system"),
    }
    assert_eq!(catapult(&blue, 17, vec![(2, 1, 0)]), Err(ActionError::NotController));
}

#[test]
fn nothing_is_reached_from_outside_the_board_or_from_a_cluster_out_of_play() {
    let game_state = game();
    assert_eq!(bfs_search_systems(&game_state.systems, 24, &Color::Red), vec![]);
    assert_eq!(bfs_search_systems(&game_state.systems, 6, &Color::Red), vec![]);
    assert_eq!(bfs_search_systems(&vec![], 3, &Color::Red), vec![]);
}

#[test]
fn search_ends_on_a_ring_of_gates() {
    let mut game_state = game();
    // With every gate free, the ring of gates 1 to 4 is walked once.
    for gate in [2usize, 4] {
        match &mut game_state.systems[gate] {
            System::Used { controlled_by, .. } => *controlled_by = None,
            System::Unused => panic!("Expected Used system"),
        }
    }
    let mut all_in_play: Vec<u8> = vec![1, 2, 3, 4];
    all_in_play.extend(9..=20);
    assert_eq!(bfs_search_systems(&game_state.systems, 9, &Color::Yellow), all_in_play);
}

#[test]
fn catapult_sends_ships_to_several_systems() {
    let game_state = game();
    let after = catapult(&game_state, 17, vec![(12, 1, 0), (2, 1, 0), (1, 1, 0)]).unwrap();
    assert_eq!(after.systems[17].get_all_ships(&Color::Red), 0);
    assert_eq!(after.systems[12].get_all_ships(&Color::Red), 1);
    assert_eq!(after.systems[2].get_all_ships(&Color::Red), 3);
    assert_eq!(after.systems[1].get_all_ships(&Color::Red), 1);
    match &after.systems[17] {
        System::Used { controlled_by, .. } => assert_eq!(controlled_by, &None),
        System::Unused => panic!("Expected Used system"),
    }
    match &after.systems[1] {
        System::Used { controlled_by, .. } => assert_eq!(controlled_by, &Some(Color::Red)),
        System::Unused => panic!("Expected Used system"),
    }
    assert_eq!(catapult(&game_state, 17, vec![]), Ok(game_state.clone()));
}

#[test]
fn catapult_rules() {
    let game_state = game();
    // Two planets.
    assert_eq!(catapult(&game_state, 17, vec![(12, 1, 0), (13, 1, 0)]), Err(ActionError::UnreachableTarget));
    // Behind Blue's gate.
    assert_eq!(catapult(&game_state, 17, vec![(18, 1, 0)]), Err(ActionError::UnreachableTarget));
    // More ships than there are, in all.
    assert_eq!(catapult(&game_state, 17, vec![(2, 2, 0), (3, 2, 0)]), Err(ActionError::InsufficientUnits));
    assert_eq!(catapult(&game_state, 17, vec![(2, 0, 1)]), Err(ActionError::InsufficientUnits));
    // System 20 holds Red's city, no starport.
    assert_eq!(catapult(&game_state, 20, vec![(4, 1, 0)]), Err(ActionError::NotController));
    assert_eq!(catapult(&game_state, 17, vec![(30, 1, 0)]), Err(ActionError::UnknownEntity));
    assert_eq!(catapult(&game_state, 0, vec![(1, 1, 0)]), Err(ActionError::UnknownEntity));
    assert_eq!(catapult(&game_state, 24, vec![(1, 1, 0)]), Err(ActionError::UnknownEntity));
}

#[test]
fn catapult_is_a_main_action_of_mobilization_and_costs_a_pip() {
    let mut game_state = game();
    let lead = ActionCard { action_type: ActionType::Mobilization, number: 2, pips: 4, declared_ambition: Some(AmbitionTypes::Tycoon) };
    game_state.add_action_cards(&Color::Red, vec![lead]);
    let after = actions::execute_actions(&game_state, vec![
        Action::PlayLeadCard { card: lead, declare: None },
        Action::EndPrelude,
        Action::MainAction { basic_action: BasicAction::Catapult { origin_system: 17, destination_systems: vec![(13, 2, 0), (4, 1, 0)] } },
    ]).unwrap();
    assert_eq!(after.turn_state, TurnState::Actions { action_type: ActionType::Mobilization, pips_left: 3 });
    assert_eq!(after.systems[13].get_all_ships(&Color::Red), 2);
    assert_eq!(after.systems[4].get_all_ships(&Color::Red), 1);
}
