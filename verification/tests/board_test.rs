use correspondence_arcs::board::{create_reach, get_cluster, setup_game, setup_game_with_deck, setup_game_with_set_seed, setup_player_area};
use correspondence_arcs::data::court_cards::{
    are_on_board, create_court_deck, create_court_deck_with_seed, in_same_cluster, CourtCard, GuildName, Vox, VoxEffect,
};
use correspondence_arcs::data::game_state::{
    ActionError, Agents, AmbitionMarker, AmbitionTypes, Color, Reserve, ResourceReserve, ResourceSlot, ResourceType, TurnState,
};
use correspondence_arcs::data::setup_cards::{two_player_frontiers, SetupCard};
use correspondence_arcs::data::system::{BuildingSlot, BuildingType, Ships, System, SystemType};

fn catalog(players: &Vec<Color>) -> Vec<CourtCard> {
    let agents: Vec<Agents> = players.iter().map(|c| Agents { color: *c, count: 0 }).collect();
    let mut cards = vec![CourtCard::VoxCard { vox: Vox { on_secure: VoxEffect::MassUprising }, agents: agents.clone() }];
    for index in 0..25 {
        cards.push(CourtCard::GuildCard { guild: GuildName::from_index(index).card(), agents: agents.clone() });
    }
    cards
}

fn sort_key(card: &CourtCard) -> String {
    format!("{:?}", card)
}

#[test]
fn clusters() {
    for gate in 0..6 {
        assert_eq!(get_cluster(gate), gate);
    }
    assert_eq!(get_cluster(6), 0);
    assert_eq!(get_cluster(8), 0);
    assert_eq!(get_cluster(9), 1);
    assert_eq!(get_cluster(12), 2);
    assert_eq!(get_cluster(14), 2);
    assert_eq!(get_cluster(17), 3);
    assert_eq!(get_cluster(23), 5);
}

#[test]
fn systems_of_one_cluster() {
    assert!(in_same_cluster(&vec![]));
    assert!(in_same_cluster(&vec![7]));
    assert!(in_same_cluster(&vec![2, 12, 13, 14]));
    assert!(in_same_cluster(&vec![14, 14, 2]));
    assert!(!in_same_cluster(&vec![2, 12, 13, 15]));
    assert!(!in_same_cluster(&vec![11, 12]));
    // The first and the last differ though each pair but one is of one cluster.
    assert!(!in_same_cluster(&vec![12, 13, 3, 15]));
    assert!(are_on_board(&vec![0, 23]));
    assert!(!are_on_board(&vec![0, 24]));
}

#[test]
fn the_board_for_two() {
    let reach = create_reach(&two_player_frontiers());
    assert_eq!(reach.len(), 24);
    let no_ships = vec![Ships { player: Color::Red, fresh: 0, damaged: 0 }, Ships { player: Color::Blue, fresh: 0, damaged: 0 }];
    for out in [0usize, 5, 6, 7, 8, 21, 22, 23] {
        assert_eq!(reach[out], System::Unused);
    }
    // Gate 1 skips the gates out of play on both sides of the ring.
    assert_eq!(reach[1], System::Used { system_id: 1, system_type: SystemType::Gate, building_slots: vec![], ships: no_ships.clone(), controlled_by: None, connects_to: vec![4, 2, 9, 10, 11] });
    assert_eq!(reach[4], System::Used { system_id: 4, system_type: SystemType::Gate, building_slots: vec![], ships: no_ships.clone(), controlled_by: None, connects_to: vec![3, 1, 18, 19, 20] });
    assert_eq!(reach[3], System::Used { system_id: 3, system_type: SystemType::Gate, building_slots: vec![], ships: no_ships.clone(), controlled_by: None, connects_to: vec![2, 4, 15, 16, 17] });
    // Planet 11 borders on planet 12 of the next cluster; planet 20 would border on 21, which is out of play.
    assert_eq!(reach[11], System::Used { system_id: 11, system_type: SystemType::Planet { resource: ResourceType::Relics }, building_slots: vec![BuildingSlot::Empty, BuildingSlot::Empty], ships: no_ships.clone(), controlled_by: None, connects_to: vec![1, 10, 12] });
    assert_eq!(reach[12], System::Used { system_id: 12, system_type: SystemType::Planet { resource: ResourceType::Material }, building_slots: vec![BuildingSlot::Empty], ships: no_ships.clone(), controlled_by: None, connects_to: vec![2, 13, 11] });
    assert_eq!(reach[20], System::Used { system_id: 20, system_type: SystemType::Planet { resource: ResourceType::Psionics }, building_slots: vec![BuildingSlot::Empty, BuildingSlot::Empty], ships: no_ships.clone(), controlled_by: None, connects_to: vec![4, 19] });
    assert_eq!(reach[9], System::Used { system_id: 9, system_type: SystemType::Planet { resource: ResourceType::Psionics }, building_slots: vec![BuildingSlot::Empty], ships: no_ships.clone(), controlled_by: None, connects_to: vec![1, 10] });
}

#[test]
fn the_whole_board() {
    let card = SetupCard { players: 4, cluster_out_of_play: vec![], a_locations: vec![], b_locations: vec![], c_locations: vec![] };
    let reach = create_reach(&card);
    let resources = [
        ResourceType::Weapons, ResourceType::Fuel, ResourceType::Material, ResourceType::Psionics, ResourceType::Weapons, ResourceType::Relics,
        ResourceType::Material, ResourceType::Fuel, ResourceType::Weapons, ResourceType::Relics, ResourceType::Fuel, ResourceType::Material,
        ResourceType::Weapons, ResourceType::Relics, ResourceType::Psionics, ResourceType::Material, ResourceType::Fuel, ResourceType::Psionics,
    ];
    let slots = [2, 1, 2, 1, 1, 2, 1, 1, 2, 2, 2, 1, 1, 1, 2, 1, 2, 1];
    for (index, system) in reach.iter().enumerate() {
        match system {
            System::Used { system_id, system_type, building_slots, ships, controlled_by, connects_to } => {
                assert_eq!(*system_id as usize, index);
                assert_eq!(ships.len(), 4);
                assert_eq!(ships[3], Ships { player: Color::Yellow, fresh: 0, damaged: 0 });
                assert_eq!(controlled_by, &None);
                if index < 6 {
                    assert_eq!(system_type, &SystemType::Gate);
                    assert_eq!(building_slots.len(), 0);
                    let gate = index as u8;
                    assert_eq!(connects_to, &vec![(gate + 5) % 6, (gate + 1) % 6, 6 + 3 * gate, 7 + 3 * gate, 8 + 3 * gate]);
                } else {
                    assert_eq!(system_type, &SystemType::Planet { resource: resources[index - 6] });
                    assert_eq!(building_slots, &vec![BuildingSlot::Empty; slots[index - 6]]);
                    assert_eq!(connects_to[0], get_cluster(index as u8));
                }
            }
            System::Unused => panic!("Expected Used system"),
        }
    }
    match (&reach[6], &reach[7], &reach[8], &reach[20], &reach[21]) {
        (System::Used { connects_to: a, .. }, System::Used { connects_to: b, .. }, System::Used { connects_to: c, .. }, System::Used { connects_to: d, .. }, System::Used { connects_to: e, .. }) => {
            assert_eq!(a, &vec![0, 7]);
            assert_eq!(b, &vec![0, 6, 8]);
            assert_eq!(c, &vec![0, 7]);
            assert_eq!(d, &vec![4, 19, 21]);
            assert_eq!(e, &vec![5, 22, 20]);
        }
        _ => panic!("Expected Used systems"),
    }
}

#[test]
fn a_player_starts_with_a_full_reserve() {
    let area = setup_player_area(&Color::White);
    assert_eq!(area.player, Color::White);
    assert_eq!(area.power, 0);
    assert!(!area.initiative);
    assert_eq!(area.reserve, Reserve { ships: 15, agents: 10, starports: 5, cities: 5 });
    assert_eq!(area.resource_slots, vec![ResourceSlot::Unused { keys: 3 }, ResourceSlot::Unused { keys: 1 }, ResourceSlot::Covered { keys: 1 }, ResourceSlot::Covered { keys: 2 }, ResourceSlot::Covered { keys: 1 }, ResourceSlot::Covered { keys: 3 }]);
    assert!(area.action_cards.is_empty() && area.guild_cards.is_empty() && area.captives.is_empty() && area.tropies.is_empty());
}

#[test]
fn the_game_for_two() {
    let game_state = setup_game(&two_player_frontiers()).unwrap();
    assert_eq!(game_state.players.len(), 2);
    assert_eq!(game_state.players[0].player, Color::Red);
    assert!(game_state.players[0].initiative);
    assert_eq!(game_state.players[1].player, Color::Blue);
    assert!(!game_state.players[1].initiative);
    assert_eq!((game_state.current_player, game_state.initiative, game_state.seized), (Color::Red, Color::Red, None));
    assert_eq!((game_state.players_in_round, game_state.chapter, game_state.zero_marker), (2, 1, false));
    assert_eq!(game_state.turn_state, TurnState::TrickTaking);
    assert_eq!(game_state.next_turn_states, vec![]);
    assert_eq!(game_state.resource_reserve, ResourceReserve { fuel: 5, material: 5, weapons: 5, relics: 5, psionics: 5 });
    assert_eq!(game_state.ambition_markers, vec![
        AmbitionMarker { first_place: 2, second_place: 0, flipped: false, first_place_flipped: 4, second_place_flipped: 2 },
        AmbitionMarker { first_place: 3, second_place: 2, flipped: false, first_place_flipped: 6, second_place_flipped: 4 },
        AmbitionMarker { first_place: 5, second_place: 3, flipped: false, first_place_flipped: 9, second_place_flipped: 5 },
    ]);
    assert_eq!(
        game_state.ambitions.iter().map(|a| a.ambition_type).collect::<Vec<AmbitionTypes>>(),
        vec![AmbitionTypes::Tycoon, AmbitionTypes::Tyrant, AmbitionTypes::Warlord, AmbitionTypes::Keeper, AmbitionTypes::Empath]
    );
    assert!(game_state.ambitions.iter().all(|a| a.markers.is_empty() && a.discarded_resources.is_empty()));
    assert_eq!((game_state.court.len(), game_state.court_draw_pile.len(), game_state.court_discard_pile.len()), (3, 23, 0));
    assert_eq!(game_state.lead_card, None);

    let city = |player| BuildingSlot::Occupied { fresh: true, player, building_type: BuildingType::City, used: false };
    let starport = |player| BuildingSlot::Occupied { fresh: true, player, building_type: BuildingType::Starport, used: false };
    let expect = |index: usize, red: u8, blue: u8, slots: Vec<BuildingSlot>, controller: Option<Color>| match &game_state.systems[index] {
        System::Used { building_slots, ships, controlled_by, .. } => {
            assert_eq!(ships, &vec![Ships { player: Color::Red, fresh: red, damaged: 0 }, Ships { player: Color::Blue, fresh: blue, damaged: 0 }]);
            assert_eq!(building_slots, &slots);
            assert_eq!(controlled_by, &controller);
        }
        System::Unused => panic!("Expected Used system"),
    };
    expect(20, 3, 0, vec![city(Color::Red), BuildingSlot::Empty], Some(Color::Red));
    expect(12, 0, 3, vec![city(Color::Blue)], Some(Color::Blue));
    expect(17, 3, 0, vec![starport(Color::Red)], Some(Color::Red));
    expect(18, 0, 3, vec![starport(Color::Blue)], Some(Color::Blue));
    expect(2, 2, 0, vec![], Some(Color::Red));
    expect(4, 0, 2, vec![], Some(Color::Blue));
    expect(14, 2, 0, vec![BuildingSlot::Empty, BuildingSlot::Empty], Some(Color::Red));
    expect(15, 0, 2, vec![BuildingSlot::Empty, BuildingSlot::Empty], Some(Color::Blue));
    expect(16, 0, 0, vec![BuildingSlot::Empty, BuildingSlot::Empty], None);
}

#[test]
fn setups_that_cannot_be_laid_out_are_rejected() {
    let with = |players: u8, a: Vec<u8>| SetupCard { players, cluster_out_of_play: vec![0, 5], a_locations: a, b_locations: vec![17, 18], c_locations: vec![2, 4, 14, 15] };
    assert_eq!(setup_game(&with(0, vec![20, 12])), Err(ActionError::UnknownEntity));
    assert_eq!(setup_game(&with(5, vec![20, 12])), Err(ActionError::UnknownEntity));
    // A city in a cluster out of play, outside the board, at a gate, and where the starport will not fit any more.
    assert_eq!(setup_game(&with(2, vec![6, 12])), Err(ActionError::UnknownEntity));
    assert_eq!(setup_game(&with(2, vec![20, 24])), Err(ActionError::UnknownEntity));
    assert_eq!(setup_game(&with(2, vec![3, 12])), Err(ActionError::NoSlots));
    assert_eq!(setup_game(&with(2, vec![17, 12])), Err(ActionError::NoSlotAvailable));
    // With one player the locations of the others stay empty.
    let alone = setup_game(&with(1, vec![20, 12])).unwrap();
    assert_eq!(alone.players.len(), 1);
    assert_eq!(alone.court.len(), 4);
    assert_eq!(alone.systems[12].get_all_ships(&Color::Red), 0);
    assert_eq!(alone.systems[2].get_all_ships(&Color::Red), 2);
    assert_eq!(alone.systems[4].get_all_ships(&Color::Red), 2);
    assert_eq!(alone.systems[14].get_all_ships(&Color::Red), 0);
}

#[test]
fn the_deck_holds_every_card_once() {
    let players = vec![Color::Red, Color::Blue, Color::White];
    let mut expected = catalog(&players);
    expected.sort_by_key(sort_key);
    for seed in [0u64, 1, 11, 42, 1000] {
        let deck = create_court_deck_with_seed(players.clone(), seed);
        assert_eq!(deck.len(), 26);
        let mut sorted = deck.clone();
        sorted.sort_by_key(sort_key);
        assert_eq!(sorted, expected);
    }
    assert_eq!(create_court_deck(players.clone()), create_court_deck_with_seed(players.clone(), 42));
    // The shuffle does shuffle, and differently for different seeds.
    assert_ne!(create_court_deck_with_seed(players.clone(), 42), catalog(&players));
    assert_ne!(create_court_deck_with_seed(players.clone(), 42), create_court_deck_with_seed(players.clone(), 43));
}

#[test]
fn guild_cards_of_the_catalog() {
    let card = GuildName::from_index(0).card();
    assert_eq!((card.name, card.resource, card.keys), (GuildName::LoyalEngineers, ResourceType::Material, 3));
    let card = GuildName::from_index(7).card();
    assert_eq!((card.name, card.resource, card.keys), (GuildName::GateKeepers, ResourceType::Fuel, 2));
    let card = GuildName::from_index(14).card();
    assert_eq!((card.name, card.resource, card.keys), (GuildName::LoyalMarines, ResourceType::Weapons, 3));
    let card = GuildName::from_index(18).card();
    assert_eq!((card.name, card.resource, card.keys), (GuildName::SilverTounges, ResourceType::Psionics, 2));
    let card = GuildName::from_index(21).card();
    assert_eq!((card.name, card.resource, card.keys), (GuildName::SwornGuardians, ResourceType::Relics, 1));
    let card = GuildName::from_index(24).card();
    assert_eq!((card.name, card.resource, card.keys), (GuildName::GalacticBards, ResourceType::Relics, 1));
    let keys: u32 = (0..25).map(|i| GuildName::from_index(i).card().keys as u32).sum();
    assert_eq!(keys, 5 * 3 + 2 + 18 * 2);
}

#[test]
fn titles_of_the_cards() {
    assert_eq!(VoxEffect::MassUprising.title(), "Mass Uprising");
    assert_eq!(
        VoxEffect::MassUprising.description(),
        "When Secured: Choose a cluster on the map. You place 1 ship in each system of that cluster. Discard this card."
    );
    let titles: Vec<&str> = (0..25).map(|i| GuildName::from_index(i).title()).collect();
    assert_eq!(titles, vec![
        "Loyal Engineers", "Mining_Interest", "Material Cartel", "Admin Union", "Construction Union",
        "Fuel Cartel", "Loyal Pilots", "Gate Keepers", "Shipping Interests", "Spacing Union",
        "Arms Union", "Prison Wardens", "Skirmishers", "Court Enforcers", "Loyal Marines",
        "Lattice Spies", "Farseers", "Secret Order", "Silver Tounges", "Loyal Empaths",
        "Loyal Keepers", "Sworn Guardians", "Elder Broker", "Relic Fence", "Galactic Bards",
    ]);
    let game_state = setup_game_with_set_seed(&two_player_frontiers(), 11).unwrap();
    let court: Vec<&str> = game_state.court.iter().map(|c| c.title()).collect();
    assert_eq!(court, vec!["Construction Union", "Mass Uprising", "Mining_Interest"]);
}

#[test]
fn the_court_is_filled_from_the_top_of_the_deck() {
    let players = vec![Color::Red, Color::Blue];
    let deck = catalog(&players);
    let game_state = setup_game_with_deck(&two_player_frontiers(), deck.clone()).unwrap();
    assert_eq!(game_state.court, deck[0..3].to_vec());
    assert_eq!(game_state.court_draw_pile, deck[3..].to_vec());
    // A full court draws nothing; a short deck is drawn to the end.
    assert_eq!(game_state.redraw_court_cards(), game_state);
    let mut short = game_state.clone();
    short.court = vec![deck[0].clone()];
    short.court_draw_pile = vec![deck[5].clone()];
    let refilled = short.redraw_court_cards();
    assert_eq!(refilled.court, vec![deck[0].clone(), deck[5].clone()]);
    assert_eq!(refilled.court_draw_pile, vec![]);
    let same = setup_game_with_set_seed(&two_player_frontiers(), 7).unwrap();
    assert_eq!(same, setup_game_with_set_seed(&two_player_frontiers(), 7).unwrap());
}
