use correspondence_arcs::actions;
use correspondence_arcs::board;
use correspondence_arcs::data::game_state::{
    Action, ActionCard, ActionError, ActionType, Ambition, AmbitionMarker, AmbitionTypes, BasicAction, BuildType, Color,
    GameState, ReserveType, ResourceSlot, ResourceType, TurnState,
};
use correspondence_arcs::data::setup_cards::{two_player_frontiers, SetupCard};
use correspondence_arcs::data::system::{BuildingSlot, BuildingType, Ships, System, SystemType};

fn card(action_type: ActionType, number: u8, pips: u8, ambition: AmbitionTypes) -> ActionCard {
    ActionCard { action_type, number, pips, declared_ambition: Some(ambition) }
}

fn four_player_setup() -> SetupCard {
    SetupCard {
        players: 4,
        cluster_out_of_play: vec![],
        a_locations: vec![6, 9, 12, 15],
        b_locations: vec![7, 10, 13, 16],
        c_locations: vec![0, 1, 2, 3, 4, 5, 8, 11],
    }
}

#[test]
fn mobilization_then_construction() {
    let mut game_state = board::setup_game(&two_player_frontiers()).unwrap();

    game_state.add_action_cards(&Color::Red, vec![
        ActionCard { action_type: ActionType::Mobilization, number: 2, pips: 4, declared_ambition: Some(AmbitionTypes::Tycoon) },
        ActionCard { action_type: ActionType::Construction, number: 2, pips: 4, declared_ambition: Some(AmbitionTypes::Tycoon) },
    ]);

    game_state.add_action_cards(&Color::Blue, vec![
        ActionCard { action_type: ActionType::Construction, number: 6, pips: 2, declared_ambition: Some(AmbitionTypes::Empath) },
        ActionCard { action_type: ActionType::Construction, number: 3, pips: 3, declared_ambition: Some(AmbitionTypes::Tyrant) },
    ]);

    assert_eq!(game_state.current_player, Color::Red);

    let g1: GameState = actions::execute_actions(&game_state, vec![
        Action::PlayLeadCard { card: ActionCard { action_type: ActionType::Mobilization, number: 2, pips: 4, declared_ambition: Some(AmbitionTypes::Tycoon) }, declare: None },
        Action::EndPrelude,
        Action::MainAction { basic_action: BasicAction::Move { origin_id: 17, destination_id: 16, fresh_ships: 2, damaged_ships: 0 } },
        Action::EndTurn,
    ]).unwrap();

    assert_eq!(g1.turn_state, TurnState::TrickTaking);
    assert_eq!(g1.initiative, Color::Red);
    assert_eq!(g1.current_player, Color::Blue);

    let g2: GameState = actions::execute_actions(&g1, vec![
        Action::Pivot { card: ActionCard { action_type: ActionType::Construction, number: 3, pips: 3, declared_ambition: Some(AmbitionTypes::Tyrant) }, seize: None },
        Action::EndPrelude,
        Action::MainAction { basic_action: BasicAction::Build { target_system: 18, build_type: BuildType::Ship } },
        Action::EndTurn,
    ]).unwrap();

    assert_eq!(g2.initiative, Color::Red);
    assert_eq!(g2.current_player, Color::Red);

    let g3: GameState = actions::execute_actions(&g2, vec![
        Action::PlayLeadCard { card: ActionCard { action_type: ActionType::Construction, number: 2, pips: 4, declared_ambition: Some(AmbitionTypes::Tycoon) }, declare: None },
        Action::EndPrelude,
        Action::MainAction { basic_action: BasicAction::Build { target_system: 16, build_type: BuildType::Starport } },
        Action::EndTurn,
    ]).unwrap();

    let g4: GameState = actions::execute_actions(&g3, vec![
        Action::Surpass { card: ActionCard { action_type: ActionType::Construction, number: 6, pips: 2, declared_ambition: Some(AmbitionTypes::Empath) }, seize: None },
        Action::EndPrelude,
        Action::MainAction { basic_action: BasicAction::Build { target_system: 18, build_type: BuildType::Ship } },
    ]).unwrap();

    let g4 = actions::execute_action(&g4, Action::EndTurn).unwrap();

    assert_eq!(g4.initiative, Color::Blue);
    // Blue holds the initiative; the turn has passed to the next seat.
    assert_eq!(g4.current_player, Color::Red);

    match &g4.systems[17] {
        System::Unused => panic!("Expected Used System"),
        System::Used { system_id, system_type, building_slots, ships, controlled_by, connects_to } => {
            assert_eq!(system_id, &17);
            assert_eq!(system_type, &SystemType::Planet { resource: ResourceType::Material });
            assert_eq!(building_slots, &vec![BuildingSlot::Occupied { fresh: true, player: Color::Red, building_type: BuildingType::Starport, used: false }]);
            assert_eq!(ships, &vec![Ships { player: Color::Red, fresh: 1, damaged: 0 }, Ships { player: Color::Blue, fresh: 0, damaged: 0 }]);
            assert_eq!(controlled_by, &Some(Color::Red));
            assert_eq!(connects_to, &vec![3, 16])
        }
    }

    match &g4.systems[16] {
        System::Unused => panic!("Expected Used System"),
        System::Used { system_id, system_type, building_slots, ships, controlled_by, connects_to } => {
            assert_eq!(system_id, &16);
            assert_eq!(system_type, &SystemType::Planet { resource: ResourceType::Fuel });
            assert_eq!(building_slots, &vec![BuildingSlot::Occupied { fresh: true, player: Color::Red, building_type: BuildingType::Starport, used: false }, BuildingSlot::Empty]);
            assert_eq!(ships, &vec![Ships { player: Color::Red, fresh: 2, damaged: 0 }, Ships { player: Color::Blue, fresh: 0, damaged: 0 }]);
            assert_eq!(controlled_by, &Some(Color::Red));
            assert_eq!(connects_to, &vec![3, 15, 17])
        }
    }

    match &g4.systems[18] {
        System::Unused => panic!("Expected Used System"),
        System::Used { system_id, system_type, building_slots, ships, controlled_by, connects_to } => {
            assert_eq!(system_id, &18);
            assert_eq!(system_type, &SystemType::Planet { resource: ResourceType::Weapons });
            assert_eq!(building_slots, &vec![BuildingSlot::Occupied { fresh: true, player: Color::Blue, building_type: BuildingType::Starport, used: false }]);
            assert_eq!(ships, &vec![Ships { player: Color::Red, fresh: 0, damaged: 0 }, Ships { player: Color::Blue, fresh: 5, damaged: 0 }]);
            assert_eq!(controlled_by, &Some(Color::Blue));
            assert_eq!(connects_to, &vec![4, 19])
        }
    }
}

#[test]
fn declare_ambition() {
    let mut game_state = board::setup_game(&two_player_frontiers()).unwrap();

    game_state.add_action_cards(&Color::Red, vec![
        ActionCard { action_type: ActionType::Mobilization, number: 2, pips: 4, declared_ambition: Some(AmbitionTypes::Tycoon) },
        ActionCard { action_type: ActionType::Construction, number: 2, pips: 4, declared_ambition: Some(AmbitionTypes::Tycoon) },
    ]);

    game_state.add_action_cards(&Color::Blue, vec![
        ActionCard { action_type: ActionType::Construction, number: 6, pips: 2, declared_ambition: Some(AmbitionTypes::Empath) },
        ActionCard { action_type: ActionType::Construction, number: 3, pips: 3, declared_ambition: Some(AmbitionTypes::Tyrant) },
    ]);

    assert_eq!(game_state.current_player, Color::Red);

    let new_game_state = actions::execute_action(&game_state, Action::PlayLeadCard { card: ActionCard { action_type: ActionType::Mobilization, number: 2, pips: 4, declared_ambition: Some(AmbitionTypes::Tycoon) }, declare: Some(AmbitionTypes::Tycoon) }).unwrap();

    assert_eq!(new_game_state.ambition_markers, vec![AmbitionMarker { first_place: 2, second_place: 0, flipped: false, first_place_flipped: 4, second_place_flipped: 2 }, AmbitionMarker { first_place: 3, second_place: 2, flipped: false, first_place_flipped: 6, second_place_flipped: 4 }]);
    assert_eq!(new_game_state.ambitions.iter().find(|a| a.ambition_type == AmbitionTypes::Tycoon), Some(&Ambition { ambition_type: AmbitionTypes::Tycoon, markers: vec![AmbitionMarker { first_place: 5, second_place: 3, flipped: false, first_place_flipped: 9, second_place_flipped: 5 }], discarded_resources: vec![] }));
    // The card was played as well.
    assert_eq!(new_game_state.turn_state, TurnState::Prelude { action_type: ActionType::Mobilization, pips_left: 4 });
    assert_eq!(new_game_state.get_player_area(&Color::Red).unwrap().action_cards.len(), 1);
}

#[test]
fn declaring_needs_a_card_that_names_the_ambition() {
    let mut game_state = board::setup_game(&two_player_frontiers()).unwrap();
    let tycoon = card(ActionType::Mobilization, 2, 4, AmbitionTypes::Tycoon);
    let plain = ActionCard { action_type: ActionType::Construction, number: 1, pips: 4, declared_ambition: None };
    game_state.add_action_cards(&Color::Red, vec![tycoon, plain]);
    assert_eq!(
        actions::execute_action(&game_state, Action::PlayLeadCard { card: tycoon, declare: Some(AmbitionTypes::Keeper) }),
        Err(ActionError::IllegalCard)
    );
    assert_eq!(
        actions::execute_action(&game_state, Action::PlayLeadCard { card: plain, declare: Some(AmbitionTypes::Tycoon) }),
        Err(ActionError::IllegalCard)
    );
    game_state.ambition_markers = vec![];
    assert_eq!(
        actions::execute_action(&game_state, Action::PlayLeadCard { card: tycoon, declare: Some(AmbitionTypes::Tycoon) }),
        Err(ActionError::IllegalCard)
    );
}

#[test]
fn highest_marker_is_claimed_flipped_or_not() {
    let mut game_state = board::setup_game(&two_player_frontiers()).unwrap();
    let tyrant = card(ActionType::Mobilization, 2, 4, AmbitionTypes::Tyrant);
    game_state.add_action_cards(&Color::Red, vec![tyrant]);
    // Flipped, the first marker is worth four, more than the unflipped second; the third is gone.
    game_state.ambition_markers = vec![
        AmbitionMarker { first_place: 2, second_place: 0, flipped: true, first_place_flipped: 4, second_place_flipped: 2 },
        AmbitionMarker { first_place: 3, second_place: 2, flipped: false, first_place_flipped: 6, second_place_flipped: 4 },
    ];
    let g1 = actions::execute_action(&game_state, Action::PlayLeadCard { card: tyrant, declare: Some(AmbitionTypes::Tyrant) }).unwrap();
    assert_eq!(g1.ambition_markers, vec![AmbitionMarker { first_place: 3, second_place: 2, flipped: false, first_place_flipped: 6, second_place_flipped: 4 }]);
    assert_eq!(g1.ambitions[1].ambition_type, AmbitionTypes::Tyrant);
    assert_eq!(g1.ambitions[1].markers, vec![AmbitionMarker { first_place: 2, second_place: 0, flipped: true, first_place_flipped: 4, second_place_flipped: 2 }]);
}

#[test]
fn actions_out_of_phase_are_rejected() {
    let mut game_state = board::setup_game(&two_player_frontiers()).unwrap();
    let lead = card(ActionType::Construction, 2, 4, AmbitionTypes::Tycoon);
    game_state.add_action_cards(&Color::Red, vec![lead]);
    let before = game_state.clone();

    // Card play: nothing but playing a card.
    assert_eq!(actions::execute_action(&game_state, Action::EndPrelude), Err(ActionError::IllegalPhase));
    assert_eq!(actions::execute_action(&game_state, Action::EndTurn), Err(ActionError::IllegalPhase));
    assert_eq!(actions::execute_action(&game_state, Action::Pass), Err(ActionError::IllegalPhase));
    assert_eq!(actions::execute_action(&game_state, Action::AllocateResources { configuration: vec![] }), Err(ActionError::IllegalPhase));
    assert_eq!(actions::execute_action(&game_state, Action::AllocateDiceResults { own_hits: vec![] }), Err(ActionError::IllegalPhase));
    assert_eq!(
        actions::execute_action(&game_state, Action::MainAction { basic_action: BasicAction::Build { target_system: 17, build_type: BuildType::Ship } }),
        Err(ActionError::IllegalPhase)
    );
    // Following needs a lead.
    assert_eq!(actions::execute_action(&game_state, Action::Surpass { card: lead, seize: None }), Err(ActionError::IllegalPhase));
    assert_eq!(actions::execute_action(&game_state, Action::Copy { card: lead, seize: None }), Err(ActionError::IllegalPhase));
    assert_eq!(actions::execute_action(&game_state, Action::Pivot { card: lead, seize: None }), Err(ActionError::IllegalPhase));
    assert_eq!(game_state, before);

    // Prelude.
    let prelude = actions::execute_action(&game_state, Action::PlayLeadCard { card: lead, declare: None }).unwrap();
    assert_eq!(prelude.turn_state, TurnState::Prelude { action_type: ActionType::Construction, pips_left: 4 });
    assert_eq!(actions::execute_action(&prelude, Action::EndTurn), Err(ActionError::IllegalPhase));
    assert_eq!(actions::execute_action(&prelude, Action::PlayLeadCard { card: lead, declare: None }), Err(ActionError::IllegalPhase));
    assert_eq!(
        actions::execute_action(&prelude, Action::MainAction { basic_action: BasicAction::Build { target_system: 17, build_type: BuildType::Ship } }),
        Err(ActionError::IllegalPhase)
    );

    // Actions: a construction card does not allow a move.
    let acting = actions::execute_action(&prelude, Action::EndPrelude).unwrap();
    assert_eq!(acting.turn_state, TurnState::Actions { action_type: ActionType::Construction, pips_left: 4 });
    assert_eq!(actions::execute_action(&acting, Action::EndPrelude), Err(ActionError::IllegalPhase));
    assert_eq!(
        actions::execute_action(&acting, Action::MainAction { basic_action: BasicAction::Move { origin_id: 17, destination_id: 16, fresh_ships: 1, damaged_ships: 0 } }),
        Err(ActionError::IllegalPhase)
    );
    assert_eq!(
        actions::execute_action(&acting, Action::MainAction { basic_action: BasicAction::Influence { card_id: 0 } }),
        Err(ActionError::IllegalPhase)
    );
}

#[test]
fn a_lead_card_cannot_be_played_onto_a_lead() {
    let mut game_state = board::setup_game(&two_player_frontiers()).unwrap();
    let lead = card(ActionType::Construction, 2, 4, AmbitionTypes::Tycoon);
    let other = card(ActionType::Construction, 5, 2, AmbitionTypes::Tycoon);
    game_state.add_action_cards(&Color::Red, vec![lead]);
    game_state.add_action_cards(&Color::Blue, vec![other]);
    let g1 = actions::execute_actions(&game_state, vec![
        Action::PlayLeadCard { card: lead, declare: None },
        Action::EndPrelude,
        Action::EndTurn,
    ]).unwrap();
    assert_eq!(g1.current_player, Color::Blue);
    assert_eq!(actions::execute_action(&g1, Action::PlayLeadCard { card: other, declare: None }), Err(ActionError::IllegalPhase));
}

#[test]
fn pips_go_down_by_one_and_never_below_zero() {
    let mut game_state = board::setup_game(&two_player_frontiers()).unwrap();
    let lead = card(ActionType::Construction, 2, 4, AmbitionTypes::Tycoon);
    game_state.add_action_cards(&Color::Red, vec![lead]);
    let mut g = actions::execute_actions(&game_state, vec![
        Action::PlayLeadCard { card: lead, declare: None },
        Action::EndPrelude,
    ]).unwrap();
    for left in [3u8, 2, 1, 0] {
        g = actions::execute_action(&g, Action::MainAction { basic_action: BasicAction::Build { target_system: 17, build_type: BuildType::Ship } }).unwrap();
        assert_eq!(g.turn_state, TurnState::Actions { action_type: ActionType::Construction, pips_left: left });
    }
    let before = g.clone();
    assert_eq!(
        actions::execute_action(&g, Action::MainAction { basic_action: BasicAction::Build { target_system: 17, build_type: BuildType::Ship } }),
        Err(ActionError::NoPipsLeft)
    );
    // With no pip left even an action that the card does not allow is rejected for want of pips.
    assert_eq!(
        actions::execute_action(&g, Action::MainAction { basic_action: BasicAction::Influence { card_id: 0 } }),
        Err(ActionError::NoPipsLeft)
    );
    assert_eq!(g, before);
    assert_eq!(g.systems[17].get_all_ships(&Color::Red), 7);
    assert_eq!(actions::use_action_pip(&g), Err(ActionError::NoPipsLeft));
    assert_eq!(actions::use_action_pip(&game_state), Err(ActionError::IllegalPhase));
    // The turn can still be ended.
    assert!(actions::execute_action(&g, Action::EndTurn).is_ok());
}

#[test]
fn a_rejected_action_rejects_the_whole_batch() {
    let mut game_state = board::setup_game(&two_player_frontiers()).unwrap();
    let lead = card(ActionType::Construction, 2, 4, AmbitionTypes::Tycoon);
    game_state.add_action_cards(&Color::Red, vec![lead]);
    let before = game_state.clone();
    let outcome = actions::execute_actions(&game_state, vec![
        Action::PlayLeadCard { card: lead, declare: None },
        Action::EndPrelude,
        Action::MainAction { basic_action: BasicAction::Build { target_system: 17, build_type: BuildType::Ship } },
        Action::MainAction { basic_action: BasicAction::Build { target_system: 16, build_type: BuildType::Ship } },
        Action::EndTurn,
    ]);
    assert_eq!(outcome, Err(ActionError::NoPresence));
    assert_eq!(game_state, before);
    assert_eq!(actions::execute_actions(&game_state, vec![]), Ok(before));
}

#[test]
fn turn_passes_round_the_table() {
    let mut game_state = board::setup_game(&four_player_setup()).unwrap();
    assert_eq!(game_state.players.len(), 4);
    assert_eq!(game_state.players_in_round, 4);
    game_state.lead_card = Some((card(ActionType::Construction, 2, 4, AmbitionTypes::Tycoon), true, Color::Red));
    game_state.turn_state = TurnState::Actions { action_type: ActionType::Construction, pips_left: 0 };
    let g1 = actions::ending::end_turn(&game_state).unwrap();
    assert_eq!(g1.current_player, Color::Blue);
    assert_eq!(g1.turn_state, TurnState::TrickTaking);
    let g2 = actions::ending::end_turn(&g1).unwrap();
    assert_eq!(g2.current_player, Color::White);
    let g3 = actions::ending::end_turn(&g2).unwrap();
    assert_eq!(g3.current_player, Color::Yellow);
    // After the last seat comes the first.
    let g4 = actions::ending::end_turn(&g3).unwrap();
    assert_eq!(g4.current_player, Color::Red);
}

#[test]
fn turn_passes_to_the_next_seat_when_the_round_ends() {
    let mut game_state = board::setup_game(&four_player_setup()).unwrap();
    let lead = card(ActionType::Construction, 2, 4, AmbitionTypes::Tycoon);
    let high = card(ActionType::Construction, 7, 1, AmbitionTypes::Tycoon);
    game_state.players[0].action_cards = vec![lead];
    game_state.lead_card = Some((lead, true, Color::White));
    game_state.follow_cards = vec![(high, true, Color::Yellow), (high, false, Color::Red)];
    game_state.players_in_round = 3;
    game_state.current_player = Color::Blue;
    let after = actions::ending::end_turn(&game_state).unwrap();
    assert_eq!(after.initiative, Color::Yellow);
    assert_eq!(after.current_player, Color::White);
    assert_eq!(after.lead_card, None);
    // From the last seat the turn passes to the first, also at the end of a round and of a chapter.
    game_state.current_player = Color::Yellow;
    game_state.players[0].action_cards = vec![];
    game_state.seized = Some(Color::White);
    let after = actions::ending::end_turn(&game_state).unwrap();
    assert_eq!(after.initiative, Color::White);
    assert_eq!(after.current_player, Color::Red);
    assert_eq!(after.players_in_round, 0);
}

#[test]
fn turn_of_a_player_without_a_seat_cannot_end() {
    let mut game_state = board::setup_game(&two_player_frontiers()).unwrap();
    game_state.current_player = Color::White;
    assert_eq!(actions::ending::end_turn(&game_state), Err(ActionError::UnknownEntity));
}

#[test]
fn end_of_turn_refreshes_buildings() {
    let mut game_state = board::setup_game(&two_player_frontiers()).unwrap();
    game_state.lead_card = Some((card(ActionType::Construction, 2, 4, AmbitionTypes::Tycoon), true, Color::Red));
    let built = actions::building::build(&game_state, 17, BuildType::Ship).unwrap();
    assert_eq!(built.systems[17].has_unused_building(BuildingType::Starport, &Color::Red), None);
    let g1 = actions::ending::end_turn(&built).unwrap();
    assert_eq!(g1.systems[17].has_unused_building(BuildingType::Starport, &Color::Red), Some(0));
}

#[test]
fn surpass_copy_and_pivot_rules() {
    let mut game_state = board::setup_game(&two_player_frontiers()).unwrap();
    let lead = card(ActionType::Construction, 4, 3, AmbitionTypes::Tycoon);
    let low = card(ActionType::Construction, 3, 4, AmbitionTypes::Tycoon);
    let level = card(ActionType::Construction, 4, 2, AmbitionTypes::Keeper);
    let other = card(ActionType::Agression, 7, 2, AmbitionTypes::Warlord);
    game_state.add_action_cards(&Color::Red, vec![lead]);
    game_state.add_action_cards(&Color::Blue, vec![low, level, other]);
    let g1 = actions::execute_actions(&game_state, vec![
        Action::PlayLeadCard { card: lead, declare: None },
        Action::EndPrelude,
        Action::EndTurn,
    ]).unwrap();

    assert_eq!(actions::execute_action(&g1, Action::Surpass { card: low, seize: None }), Err(ActionError::IllegalCard));
    assert_eq!(actions::execute_action(&g1, Action::Surpass { card: other, seize: None }), Err(ActionError::IllegalCard));
    assert_eq!(actions::execute_action(&g1, Action::Pivot { card: low, seize: None }), Err(ActionError::IllegalCard));
    let missing = card(ActionType::Construction, 9, 1, AmbitionTypes::Tycoon);
    assert_eq!(actions::execute_action(&g1, Action::Copy { card: missing, seize: None }), Err(ActionError::UnknownEntity));

    // A card of the same number surpasses and brings its own pips.
    let surpassed = actions::execute_action(&g1, Action::Surpass { card: level, seize: None }).unwrap();
    assert_eq!(surpassed.turn_state, TurnState::Prelude { action_type: ActionType::Construction, pips_left: 2 });
    assert_eq!(surpassed.follow_cards, vec![(level, true, Color::Blue)]);
    assert_eq!(surpassed.seized, None);
    assert_eq!(surpassed.get_player_area(&Color::Blue).unwrap().action_cards, vec![low, other]);

    // A copy takes the type of the lead and one pip, and does not count for the initiative.
    let copied = actions::execute_action(&g1, Action::Copy { card: other, seize: Some(low) }).unwrap();
    assert_eq!(copied.turn_state, TurnState::Prelude { action_type: ActionType::Construction, pips_left: 1 });
    assert_eq!(copied.follow_cards, vec![(other, false, Color::Blue)]);
    assert_eq!(copied.seized, Some(Color::Blue));

    // A pivot takes the type of the card and one pip.
    let pivoted = actions::execute_action(&g1, Action::Pivot { card: other, seize: None }).unwrap();
    assert_eq!(pivoted.turn_state, TurnState::Prelude { action_type: ActionType::Agression, pips_left: 1 });
    assert_eq!(pivoted.follow_cards, vec![(other, true, Color::Blue)]);
}

#[test]
fn round_end_settles_the_initiative() {
    let mut game_state = board::setup_game(&two_player_frontiers()).unwrap();
    let lead = card(ActionType::Construction, 4, 3, AmbitionTypes::Tycoon);
    let spare = card(ActionType::Construction, 1, 4, AmbitionTypes::Tycoon);
    let level = card(ActionType::Construction, 4, 2, AmbitionTypes::Keeper);
    let other = card(ActionType::Agression, 7, 2, AmbitionTypes::Warlord);
    game_state.add_action_cards(&Color::Red, vec![lead, spare]);
    game_state.add_action_cards(&Color::Blue, vec![level, other]);
    let g1 = actions::execute_actions(&game_state, vec![
        Action::PlayLeadCard { card: lead, declare: None },
        Action::EndPrelude,
        Action::EndTurn,
    ]).unwrap();

    // A card that surpasses with the number of the lead does not take the initiative.
    let tie = actions::execute_actions(&g1, vec![Action::Surpass { card: level, seize: None }, Action::EndPrelude, Action::EndTurn]).unwrap();
    assert_eq!(tie.initiative, Color::Red);
    assert_eq!(tie.current_player, Color::Red);
    assert_eq!(tie.lead_card, None);
    assert_eq!(tie.follow_cards, vec![]);
    assert_eq!(tie.action_discard, vec![lead, level]);
    assert_eq!(tie.players_in_round, 2);
    assert_eq!(tie.turn_state, TurnState::TrickTaking);

    // Seizing takes the initiative whatever the cards say.
    let seized = actions::execute_actions(&g1, vec![Action::Pivot { card: other, seize: Some(level) }, Action::EndPrelude, Action::EndTurn]).unwrap();
    assert_eq!(seized.initiative, Color::Blue);
    // The end of the round settles the initiative; the turn passes to the next seat all the same.
    assert_eq!(seized.current_player, Color::Red);
    assert_eq!(seized.seized, None);
}

#[test]
fn prelude_actions_are_paid_with_resources() {
    let mut game_state = board::setup_game(&two_player_frontiers()).unwrap();
    let lead = card(ActionType::Administration, 2, 4, AmbitionTypes::Tycoon);
    game_state.add_action_cards(&Color::Red, vec![lead]);
    game_state.players[0].resource_slots[0] = ResourceSlot::Used { keys: 3, resource: ResourceType::Material };
    game_state.players[0].resource_slots[1] = ResourceSlot::Used { keys: 1, resource: ResourceType::Fuel };
    let prelude = actions::execute_action(&game_state, Action::PlayLeadCard { card: lead, declare: None }).unwrap();

    // Material pays for a build under any lead.
    let built = actions::execute_action(&prelude, Action::PreludeResourceAction { basic_action: BasicAction::Build { target_system: 17, build_type: BuildType::Ship }, used_resource: 0 }).unwrap();
    assert_eq!(built.systems[17].get_all_ships(&Color::Red), 4);
    assert_eq!(built.get_player_area(&Color::Red).unwrap().resource_slots[0], ResourceSlot::Unused { keys: 3 });
    assert_eq!(built.turn_state, TurnState::Prelude { action_type: ActionType::Administration, pips_left: 4 });

    // Fuel does not pay for a build; an empty slot pays for nothing.
    assert_eq!(
        actions::execute_action(&prelude, Action::PreludeResourceAction { basic_action: BasicAction::Build { target_system: 17, build_type: BuildType::Ship }, used_resource: 1 }),
        Err(ActionError::IncompatibleResource)
    );
    assert_eq!(
        actions::execute_action(&built, Action::PreludeResourceAction { basic_action: BasicAction::Build { target_system: 17, build_type: BuildType::Ship }, used_resource: 0 }),
        Err(ActionError::IncompatibleResource)
    );
    assert_eq!(
        actions::execute_action(&prelude, Action::PreludeResourceAction { basic_action: BasicAction::Build { target_system: 17, build_type: BuildType::Ship }, used_resource: 6 }),
        Err(ActionError::UnknownEntity)
    );
    // Fuel pays for a move.
    let moved = actions::execute_action(&built, Action::PreludeResourceAction { basic_action: BasicAction::Move { origin_id: 17, destination_id: 16, fresh_ships: 4, damaged_ships: 0 }, used_resource: 1 }).unwrap();
    assert_eq!(moved.systems[16].get_all_ships(&Color::Red), 4);
    assert_eq!(moved.get_player_area(&Color::Red).unwrap().reserve.get(&ReserveType::Ships), 14);
}
