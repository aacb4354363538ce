use correspondence_arcs::actions;
use correspondence_arcs::board;
use correspondence_arcs::data::game_state::{
    Action, ActionCard, ActionType, AmbitionTypes, BasicAction, BuildType, Color, GameState, ReserveType,
};
use correspondence_arcs::data::setup_cards::two_player_frontiers;
use correspondence_arcs::data::system::{derive_control, BuildingSlot, BuildingType, System};

fn ships_in_all(game_state: &GameState, color: Color) -> u32 {
    let on_board: u32 = game_state.systems.iter().map(|s| s.get_all_ships(&color) as u32).sum();
    on_board + game_state.get_player_area(&color).unwrap().reserve.get(&ReserveType::Ships) as u32
}

fn buildings_in_all(game_state: &GameState, color: Color, building_type: BuildingType, kind: ReserveType) -> u32 {
    let on_board: usize = game_state.systems.iter().map(|s| match s {
        System::Used { building_slots, .. } => building_slots.iter().filter(|b| matches!(b, BuildingSlot::Occupied { player, building_type: t, .. } if *player == color && *t == building_type)).count(),
        System::Unused => 0,
    }).sum();
    on_board as u32 + game_state.get_player_area(&color).unwrap().reserve.get(&kind) as u32
}

fn control_is_current(game_state: &GameState) -> bool {
    game_state.systems.iter().all(|s| match s {
        System::Used { ships, controlled_by, .. } => *controlled_by == derive_control(ships),
        System::Unused => true,
    })
}

fn in_seating_order(game_state: &GameState) -> bool {
    let seats = [Color::Red, Color::Blue, Color::White, Color::Yellow];
    let n = game_state.players.len();
    let players = n >= 1 && n <= 4 && game_state.players.iter().zip(seats).all(|(area, seat)| area.player == seat);
    let units = game_state.systems.iter().all(|s| match s {
        System::Used { ships, .. } => ships.len() == n && ships.iter().zip(seats).all(|(e, seat)| e.player == seat),
        System::Unused => true,
    });
    let agents = game_state.court.iter().chain(&game_state.court_draw_pile).chain(&game_state.court_discard_pile).all(|card| {
        card.agents().len() == n && card.agents().iter().zip(seats).all(|(a, seat)| a.color == seat)
    });
    players && units && agents
}

fn totals(game_state: &GameState) -> Vec<u32> {
    let mut all = vec![];
    for color in [Color::Red, Color::Blue] {
        all.push(ships_in_all(game_state, color));
        all.push(buildings_in_all(game_state, color, BuildingType::City, ReserveType::Cities));
        all.push(buildings_in_all(game_state, color, BuildingType::Starport, ReserveType::Starports));
    }
    all
}

#[test]
fn setup_totals() {
    let game_state = board::setup_game(&two_player_frontiers()).unwrap();
    // Ten ships, a city and a starport on the board; fifteen ships and five of each building in reserve.
    assert_eq!(totals(&game_state), vec![25, 6, 6, 25, 6, 6]);
    assert!(control_is_current(&game_state));
    assert!(in_seating_order(&game_state));
}

#[test]
fn moving_building_and_repairing_keep_the_totals() {
    let mut game_state = board::setup_game(&two_player_frontiers()).unwrap();
    let mobilization = ActionCard { action_type: ActionType::Mobilization, number: 2, pips: 4, declared_ambition: Some(AmbitionTypes::Tycoon) };
    let construction = ActionCard { action_type: ActionType::Construction, number: 3, pips: 4, declared_ambition: Some(AmbitionTypes::Tycoon) };
    let follow = ActionCard { action_type: ActionType::Construction, number: 1, pips: 4, declared_ambition: None };
    game_state.add_action_cards(&Color::Red, vec![mobilization, construction]);
    game_state.add_action_cards(&Color::Blue, vec![follow, follow]);
    // A damaged ship and a damaged starport of Red in system 17.
    match &mut game_state.systems[17] {
        System::Used { ships, building_slots, .. } => {
            ships[0].fresh = 2;
            ships[0].damaged = 1;
            building_slots[0] = BuildingSlot::Occupied { fresh: false, player: Color::Red, building_type: BuildingType::Starport, used: false };
        }
        System::Unused => panic!("Expected Used system"),
    }
    let start = totals(&game_state);
    game_state.systems[17] = game_state.systems[17].update_control();
    assert!(control_is_current(&game_state));

    let mut g = game_state.clone();
    let turns: Vec<Vec<Action>> = vec![
        vec![
            Action::PlayLeadCard { card: mobilization, declare: None },
            Action::EndPrelude,
            Action::MainAction { basic_action: BasicAction::Move { origin_id: 17, destination_id: 16, fresh_ships: 1, damaged_ships: 1 } },
            Action::MainAction { basic_action: BasicAction::Move { origin_id: 16, destination_id: 15, fresh_ships: 1, damaged_ships: 0 } },
            Action::MainAction { basic_action: BasicAction::Move { origin_id: 14, destination_id: 2, fresh_ships: 2, damaged_ships: 0 } },
            Action::EndTurn,
        ],
        vec![
            Action::Pivot { card: follow, seize: None },
            Action::EndPrelude,
            Action::MainAction { basic_action: BasicAction::Build { target_system: 18, build_type: BuildType::Ship } },
            Action::EndTurn,
        ],
        vec![
            Action::PlayLeadCard { card: construction, declare: None },
            Action::EndPrelude,
            Action::MainAction { basic_action: BasicAction::Repair { target_system: 16, build_type: BuildType::Ship } },
            Action::MainAction { basic_action: BasicAction::Repair { target_system: 17, build_type: BuildType::Starport } },
            Action::MainAction { basic_action: BasicAction::Build { target_system: 16, build_type: BuildType::City } },
            Action::MainAction { basic_action: BasicAction::Build { target_system: 15, build_type: BuildType::Ship } },
            Action::EndTurn,
        ],
        vec![
            Action::Copy { card: follow, seize: None },
            Action::EndPrelude,
            Action::MainAction { basic_action: BasicAction::Build { target_system: 15, build_type: BuildType::Starport } },
        ],
    ];
    for turn in turns {
        for action in turn {
            g = actions::execute_action(&g, action).unwrap();
            assert_eq!(totals(&g), start);
            assert!(control_is_current(&g));
            assert!(in_seating_order(&g));
        }
    }
    assert_ne!(g.systems, game_state.systems);
    assert_eq!(g.get_player_area(&Color::Red).unwrap().reserve.get(&ReserveType::Ships), 14);
    assert_eq!(g.get_player_area(&Color::Red).unwrap().reserve.get(&ReserveType::Cities), 4);
    assert_eq!(g.get_player_area(&Color::Blue).unwrap().reserve.get(&ReserveType::Starports), 4);
}

#[test]
fn a_move_within_one_system_changes_no_count() {
    let mut game_state = board::setup_game(&two_player_frontiers()).unwrap();
    match &mut game_state.systems[17] {
        System::Used { connects_to, .. } => connects_to.push(17),
        System::Unused => panic!("Expected Used system"),
    }
    let g1 = actions::moving::move_ships(&game_state, 17, 17, 2, 0).unwrap();
    assert_eq!(g1.systems[17].get_all_ships(&Color::Red), 3);
    assert_eq!(totals(&g1), totals(&game_state));
}
