use correspondence_arcs::actions;
use correspondence_arcs::board::setup_game_with_set_seed;
use correspondence_arcs::data::court_cards::{CourtCard, Guild, VoxEffect, VoxPayload};
use correspondence_arcs::data::game_state::{
    Action, ActionCard, ActionError, ActionType, AmbitionTypes, BasicAction, Color, GameState, ReserveType, Trophy,
};
use correspondence_arcs::data::setup_cards::two_player_frontiers;

fn administration_card() -> ActionCard {
    ActionCard { action_type: ActionType::Administration, number: 2, pips: 4, declared_ambition: Some(AmbitionTypes::Tycoon) }
}

fn agression_card() -> ActionCard {
    ActionCard { action_type: ActionType::Agression, number: 2, pips: 3, declared_ambition: Some(AmbitionTypes::Tycoon) }
}

fn mobilization_card() -> ActionCard {
    ActionCard { action_type: ActionType::Mobilization, number: 6, pips: 2, declared_ambition: Some(AmbitionTypes::Empath) }
}

fn agents_in_reserve(game_state: &GameState, color: Color) -> u8 {
    game_state.get_player_area(&color).unwrap().reserve.get(&ReserveType::Agents)
}

/// Red puts two agents on the card, Blue one, and the round ends.
fn influenced_game(card_id: u8) -> GameState {
    let mut game_state = setup_game_with_set_seed(&two_player_frontiers(), 11).unwrap();

    game_state.add_action_cards(&Color::Red, vec![administration_card(), agression_card()]);
    game_state.add_action_cards(&Color::Blue, vec![mobilization_card()]);

    let g1 = actions::execute_actions(&game_state, vec![
        Action::PlayLeadCard { card: administration_card(), declare: None },
        Action::EndPrelude,
        Action::MainAction { basic_action: BasicAction::Influence { card_id } },
        Action::MainAction { basic_action: BasicAction::Influence { card_id } },
        Action::EndTurn,
    ]).unwrap();

    actions::execute_actions(&g1, vec![
        Action::Pivot { card: mobilization_card(), seize: None },
        Action::EndPrelude,
        Action::MainAction { basic_action: BasicAction::Influence { card_id } },
        Action::EndTurn,
    ]).unwrap()
}

#[test]
fn secure_guild_card() {
    let g2 = influenced_game(0);

    assert_eq!(agents_in_reserve(&g2, Color::Red), 8);
    assert_eq!(agents_in_reserve(&g2, Color::Blue), 9);

    let g3 = actions::execute_actions(&g2, vec![
        Action::PlayLeadCard { card: agression_card(), declare: None },
        Action::EndPrelude,
        Action::MainAction { basic_action: BasicAction::Secure { card_id: 0, vox_payload: None } },
    ]).unwrap();

    assert_eq!(agents_in_reserve(&g3, Color::Red), 10);
    // Blue's agent earns Red a trophy and goes back to Blue's reserve.
    assert_eq!(agents_in_reserve(&g3, Color::Blue), 10);

    let empty: Vec<Guild> = vec![];
    assert_ne!(g3.get_player_area(&Color::Red).unwrap().guild_cards, empty);
    assert_eq!(g3.get_player_area(&Color::Red).unwrap().tropies, vec![Trophy { trophy_type: ReserveType::Agents, count: 1, player: Color::Blue }])
}

#[test]
fn secure_mass_uprising() {
    let g2 = influenced_game(1);

    assert_eq!(agents_in_reserve(&g2, Color::Red), 8);
    assert_eq!(agents_in_reserve(&g2, Color::Blue), 9);

    let g3 = actions::execute_actions(&g2, vec![
        Action::PlayLeadCard { card: agression_card(), declare: None },
        Action::EndPrelude,
        Action::MainAction { basic_action: BasicAction::Secure { card_id: 1, vox_payload: Some(VoxPayload::MassUprising { target_systems: vec![2, 12, 13, 14] }) } },
    ]).unwrap();

    assert_eq!(agents_in_reserve(&g3, Color::Red), 10);
    // Blue's agent earns Red a trophy and goes back to Blue's reserve.
    assert_eq!(agents_in_reserve(&g3, Color::Blue), 10);

    assert_eq!(g3.get_player_area(&Color::Red).unwrap().tropies, vec![Trophy { trophy_type: ReserveType::Agents, count: 1, player: Color::Blue }]);
    assert_eq!(g3.systems[2].get_all_ships(&Color::Red), 3);
    assert_eq!(g3.systems[12].get_all_ships(&Color::Red), 1);
    assert_eq!(g3.systems[12].get_all_ships(&Color::Blue), 3);
    assert_eq!(g3.systems[13].get_all_ships(&Color::Red), 1);
    assert_eq!(g3.systems[14].get_all_ships(&Color::Red), 3);
    // The four ships come from Red's reserve.
    assert_eq!(g3.get_player_area(&Color::Red).unwrap().reserve.get(&ReserveType::Ships), 11);
}

#[test]
fn secure_not_controlled_guild_card() {
    let mut game_state = setup_game_with_set_seed(&two_player_frontiers(), 11).unwrap();

    game_state.add_action_cards(&Color::Red, vec![agression_card()]);

    let outcome = actions::execute_actions(&game_state, vec![
        Action::PlayLeadCard { card: agression_card(), declare: None },
        Action::EndPrelude,
        Action::MainAction { basic_action: BasicAction::Secure { card_id: 0, vox_payload: None } },
    ]);
    assert_eq!(outcome, Err(ActionError::NotController));
}

#[test]
fn court_of_seed_eleven_shows_the_uprising_second() {
    let game_state = setup_game_with_set_seed(&two_player_frontiers(), 11).unwrap();
    assert_eq!(game_state.court.len(), 3);
    assert_eq!(game_state.court_draw_pile.len(), 23);
    assert!(matches!(game_state.court[0], CourtCard::GuildCard { .. }));
    match &game_state.court[1] {
        CourtCard::VoxCard { vox, .. } => assert_eq!(vox.on_secure, VoxEffect::MassUprising),
        _ => panic!("Expected the Vox card"),
    }
}

#[test]
fn secured_card_keeps_no_agents() {
    let g2 = influenced_game(0);
    let g3 = actions::execute_actions(&g2, vec![
        Action::PlayLeadCard { card: agression_card(), declare: None },
        Action::EndPrelude,
        Action::MainAction { basic_action: BasicAction::Secure { card_id: 0, vox_payload: None } },
    ]).unwrap();
    assert_eq!(g3.court[0].agents().iter().map(|a| a.count).collect::<Vec<u8>>(), vec![0, 0]);
    assert_eq!(g3.court[0].controlled_by(), None);
}

#[test]
fn vox_card_needs_a_payload_of_its_own_kind() {
    let g2 = influenced_game(1);
    let g3 = actions::execute_actions(&g2, vec![
        Action::PlayLeadCard { card: agression_card(), declare: None },
        Action::EndPrelude,
    ]).unwrap();
    assert_eq!(actions::securing::secure(&g3, 1, None), Err(ActionError::PayloadMismatch));
    assert_eq!(actions::securing::secure(&g3, 1, Some(VoxPayload::CallToAction)), Err(ActionError::PayloadMismatch));
    // Four ships in reserve or more: exactly four systems are to be named.
    assert_eq!(
        actions::securing::secure(&g3, 1, Some(VoxPayload::MassUprising { target_systems: vec![12, 13, 14] })),
        Err(ActionError::PayloadMismatch)
    );
    // Systems 12 and 15 lie in different clusters.
    assert_eq!(
        actions::securing::secure(&g3, 1, Some(VoxPayload::MassUprising { target_systems: vec![2, 12, 13, 15] })),
        Err(ActionError::PayloadMismatch)
    );
    assert_eq!(
        actions::securing::secure(&g3, 1, Some(VoxPayload::MassUprising { target_systems: vec![2, 12, 13, 24] })),
        Err(ActionError::UnknownEntity)
    );
    assert_eq!(actions::securing::secure(&g3, 9, None), Err(ActionError::UnknownEntity));
}

#[test]
fn mass_uprising_with_few_ships_in_reserve() {
    let g2 = influenced_game(1);
    let mut g3 = actions::execute_actions(&g2, vec![
        Action::PlayLeadCard { card: agression_card(), declare: None },
        Action::EndPrelude,
    ]).unwrap();
    g3.players[0].reserve.ships = 2;
    assert_eq!(
        actions::securing::secure(&g3, 1, Some(VoxPayload::MassUprising { target_systems: vec![12, 13, 14] })),
        Err(ActionError::InsufficientReserve)
    );
    let g4 = actions::securing::secure(&g3, 1, Some(VoxPayload::MassUprising { target_systems: vec![12, 13] })).unwrap();
    assert_eq!(g4.get_player_area(&Color::Red).unwrap().reserve.get(&ReserveType::Ships), 0);
    assert_eq!(g4.systems[12].get_all_ships(&Color::Red), 1);
    assert_eq!(g4.systems[13].get_all_ships(&Color::Red), 1);
    assert_eq!(g4.systems[14].get_all_ships(&Color::Red), 2);
}
