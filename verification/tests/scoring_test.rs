use correspondence_arcs::actions::ending::{end_chapter, end_round, score_ambition};
use correspondence_arcs::board;
use correspondence_arcs::data::court_cards::GuildName;
use correspondence_arcs::data::game_state::{
    ActionCard, ActionError, ActionType, Agents, AmbitionMarker, AmbitionTypes, Color, GameState, ReserveType,
    ResourceSlot, ResourceType, Trophy, TurnState,
};
use correspondence_arcs::data::setup_cards::SetupCard;

fn three_player_setup() -> SetupCard {
    SetupCard {
        players: 3,
        cluster_out_of_play: vec![5],
        a_locations: vec![6, 9, 12],
        b_locations: vec![7, 10, 13],
        c_locations: vec![0, 1, 2, 3, 4, 8],
    }
}

fn marker(first_place: u8, second_place: u8, flipped: bool) -> AmbitionMarker {
    AmbitionMarker { first_place, second_place, flipped, first_place_flipped: 2 * first_place, second_place_flipped: second_place + 2 }
}

fn used(resource: ResourceType) -> ResourceSlot {
    ResourceSlot::Used { keys: 1, resource }
}

/// A game of three with the markers 5/3 and, flipped, 3/2 (worth 6/4) on a track.
fn game_with_markers_on(track: usize) -> GameState {
    let mut game_state = board::setup_game(&three_player_setup()).unwrap();
    game_state.ambitions[track].markers = vec![marker(5, 3, false), marker(3, 2, true)];
    game_state
}

fn powers(game_state: &GameState) -> Vec<u8> {
    game_state.players.iter().map(|p| p.power).collect()
}

fn give_relics(game_state: &mut GameState, counts: [usize; 3]) {
    for (seat, count) in counts.iter().enumerate() {
        game_state.players[seat].resource_slots = vec![used(ResourceType::Relics); *count];
    }
}

#[test]
fn the_sole_best_gets_the_first_place_and_the_next_the_second() {
    let mut game_state = game_with_markers_on(3);
    give_relics(&mut game_state, [1, 3, 2]);
    let after = score_ambition(&game_state, AmbitionTypes::Keeper).unwrap();
    // Blue: 5 + 6. White has one entrant above: 3 + 4. Red has two above.
    assert_eq!(powers(&after), vec![0, 11, 7]);
}

#[test]
fn players_level_at_the_top_get_the_second_place() {
    let mut game_state = game_with_markers_on(3);
    give_relics(&mut game_state, [3, 3, 1]);
    let after = score_ambition(&game_state, AmbitionTypes::Keeper).unwrap();
    assert_eq!(powers(&after), vec![7, 7, 0]);
}

#[test]
fn the_discard_pile_is_an_entrant() {
    let mut game_state = game_with_markers_on(3);
    give_relics(&mut game_state, [2, 1, 0]);
    game_state.ambitions[3].discarded_resources = vec![ResourceType::Relics; 3];
    let after = score_ambition(&game_state, AmbitionTypes::Keeper).unwrap();
    // The pile stands above all: Red is second, Blue has two above.
    assert_eq!(powers(&after), vec![7, 0, 0]);
    game_state.ambitions[3].discarded_resources = vec![ResourceType::Relics; 2];
    let after = score_ambition(&game_state, AmbitionTypes::Keeper).unwrap();
    // Red is level with the pile at the top: the second place. Blue has both above.
    assert_eq!(powers(&after), vec![7, 0, 0]);
    game_state.ambitions[3].discarded_resources = vec![ResourceType::Relics; 1];
    let after = score_ambition(&game_state, AmbitionTypes::Keeper).unwrap();
    // Red stands above all; Blue, level with the pile, has one entrant above.
    assert_eq!(powers(&after), vec![11, 7, 0]);
}

#[test]
fn the_winner_gets_a_bonus_for_few_cities_in_reserve() {
    let mut game_state = game_with_markers_on(4);
    game_state.players[2].resource_slots = vec![used(ResourceType::Psionics), used(ResourceType::Fuel)];
    game_state.players[2].power = 10;
    game_state.players[2].reserve.cities = 0;
    assert_eq!(powers(&score_ambition(&game_state, AmbitionTypes::Empath).unwrap()), vec![7, 7, 10 + 11 + 5]);
    game_state.players[2].reserve.cities = 1;
    assert_eq!(powers(&score_ambition(&game_state, AmbitionTypes::Empath).unwrap()), vec![7, 7, 10 + 11 + 2]);
    game_state.players[2].reserve.cities = 2;
    assert_eq!(powers(&score_ambition(&game_state, AmbitionTypes::Empath).unwrap()), vec![7, 7, 10 + 11]);
    // The bonus goes with the first place only.
    game_state.players[0].reserve.cities = 0;
    assert_eq!(powers(&score_ambition(&game_state, AmbitionTypes::Empath).unwrap()), vec![7, 7, 10 + 11]);
}

#[test]
fn tycoon_counts_fuel_and_material_and_guild_cards() {
    let mut game_state = game_with_markers_on(0);
    game_state.players[0].resource_slots = vec![used(ResourceType::Fuel), used(ResourceType::Material), used(ResourceType::Relics)];
    game_state.players[1].resource_slots = vec![used(ResourceType::Fuel)];
    game_state.players[1].guild_cards = vec![GuildName::FuelCartel.card(), GuildName::MiningInterest.card(), GuildName::LoyalKeepers.card()];
    assert_eq!(game_state.players[0].get_resource_count(ResourceType::Fuel), 1);
    assert_eq!(game_state.players[0].get_resource_count(ResourceType::Relics), 1);
    assert_eq!(game_state.players[1].get_resource_count(ResourceType::Fuel), 2);
    assert_eq!(game_state.players[1].get_resource_count(ResourceType::Material), 1);
    assert_eq!(game_state.players[1].get_resource_count(ResourceType::Relics), 1);
    assert_eq!(game_state.players[1].get_resource_count(ResourceType::Weapons), 0);
    let after = score_ambition(&game_state, AmbitionTypes::Tycoon).unwrap();
    // Blue has three, Red two, White none.
    assert_eq!(powers(&after), vec![7, 11, 0]);
}

#[test]
fn warlord_counts_trophies_and_sends_them_home() {
    let mut game_state = game_with_markers_on(2);
    game_state.players[0].tropies = vec![
        Trophy { trophy_type: ReserveType::Ships, count: 2, player: Color::Blue },
        Trophy { trophy_type: ReserveType::Agents, count: 1, player: Color::White },
    ];
    game_state.players[1].tropies = vec![Trophy { trophy_type: ReserveType::Cities, count: 1, player: Color::Red }];
    game_state.players[1].reserve.ships = 3;
    game_state.players[2].reserve.agents = 7;
    game_state.players[0].reserve.cities = 2;
    game_state.players[0].captives = vec![Agents { color: Color::Blue, count: 1 }];
    assert_eq!(game_state.players[0].get_trophies(), 3);
    let after = score_ambition(&game_state, AmbitionTypes::Warlord).unwrap();
    assert_eq!(powers(&after), vec![11, 7, 0]);
    assert_eq!(after.players[1].reserve.ships, 5);
    assert_eq!(after.players[2].reserve.agents, 8);
    assert_eq!(after.players[0].reserve.cities, 3);
    assert!(after.players.iter().all(|p| p.tropies.is_empty()));
    // Captives stay where they are.
    assert_eq!(after.players[0].captives, vec![Agents { color: Color::Blue, count: 1 }]);
}

#[test]
fn tyrant_counts_captives_and_sends_them_home() {
    let mut game_state = game_with_markers_on(1);
    game_state.players[2].captives = vec![Agents { color: Color::Red, count: 2 }, Agents { color: Color::Blue, count: 1 }];
    game_state.players[0].reserve.agents = 8;
    game_state.players[1].reserve.agents = 9;
    game_state.players[2].tropies = vec![Trophy { trophy_type: ReserveType::Ships, count: 2, player: Color::Blue }];
    assert_eq!(game_state.players[2].get_captives(), 3);
    let after = score_ambition(&game_state, AmbitionTypes::Tyrant).unwrap();
    // Red and Blue stand level below White, each with one entrant above.
    assert_eq!(powers(&after), vec![7, 7, 11]);
    assert_eq!(after.players[0].reserve.agents, 10);
    assert_eq!(after.players[1].reserve.agents, 10);
    assert!(after.players.iter().all(|p| p.captives.is_empty()));
    assert_eq!(after.players[2].tropies.len(), 1);
}

#[test]
fn power_must_stay_in_range() {
    let mut game_state = game_with_markers_on(3);
    give_relics(&mut game_state, [1, 0, 0]);
    game_state.players[0].power = 244;
    assert_eq!(powers(&score_ambition(&game_state, AmbitionTypes::Keeper).unwrap()), vec![255, 7, 7]);
    game_state.players[0].power = 245;
    assert_eq!(score_ambition(&game_state, AmbitionTypes::Keeper), Err(ActionError::CountOverflow));
}

#[test]
fn a_track_that_is_missing_cannot_be_scored() {
    let mut game_state = game_with_markers_on(3);
    game_state.ambitions.remove(3);
    assert_eq!(score_ambition(&game_state, AmbitionTypes::Keeper), Err(ActionError::UnknownEntity));
}

#[test]
fn chapter_end_scores_the_declared_ambitions_in_order() {
    let mut game_state = game_with_markers_on(3);
    give_relics(&mut game_state, [1, 3, 2]);
    // The Warlord track is scored before the Keeper track.
    game_state.ambitions[2].markers = vec![marker(2, 1, false)];
    game_state.players[0].tropies = vec![Trophy { trophy_type: ReserveType::Ships, count: 1, player: Color::Blue }];
    let after = end_chapter(&game_state).unwrap();
    // Warlord: Red first (2), Blue and White level with one above (1 each). Keeper as before.
    assert_eq!(powers(&after), vec![2, 1 + 11, 1 + 7]);
    assert!(after.players[0].tropies.is_empty());
    // Without markers nothing is scored.
    let plain = board::setup_game(&three_player_setup()).unwrap();
    assert_eq!(end_chapter(&plain), Ok(plain.clone()));
}

#[test]
fn round_end_without_cards_ends_the_chapter() {
    let mut game_state = game_with_markers_on(3);
    give_relics(&mut game_state, [0, 1, 0]);
    let lead = ActionCard { action_type: ActionType::Construction, number: 2, pips: 4, declared_ambition: None };
    let follow = ActionCard { action_type: ActionType::Construction, number: 5, pips: 2, declared_ambition: None };
    game_state.lead_card = Some((lead, true, Color::Red));
    game_state.follow_cards = vec![(follow, true, Color::White), (follow, true, Color::Blue)];
    let after = end_round(&game_state).unwrap();
    assert_eq!(powers(&after), vec![7, 11, 7]);
    // Of two cards with the highest number the later one wins.
    assert_eq!(after.initiative, Color::Blue);
    assert_eq!(after.players_in_round, 0);
    assert_eq!(after.turn_state, TurnState::TrickTaking);

    game_state.players[2].action_cards = vec![lead];
    let after = end_round(&game_state).unwrap();
    assert_eq!(powers(&after), vec![0, 0, 0]);
    assert_eq!(after.players_in_round, 1);
    assert_eq!(after.action_discard, vec![lead, follow, follow]);

    game_state.lead_card = None;
    assert_eq!(end_round(&game_state), Err(ActionError::IllegalPhase));
}
