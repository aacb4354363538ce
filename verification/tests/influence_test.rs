use correspondence_arcs::actions::{execute_action, execute_actions};
use correspondence_arcs::actions::influencing::influence;
use correspondence_arcs::board;
use correspondence_arcs::data::court_cards::{CourtCard, GuildName};
use correspondence_arcs::data::game_state::{
    Action, ActionCard, ActionError, ActionType, Agents, AmbitionTypes, BasicAction, Color, ReserveType,
};
use correspondence_arcs::data::setup_cards::two_player_frontiers;

#[test]
fn influence_once_then_twice() {
    let mut game_state = board::setup_game(&two_player_frontiers()).unwrap();

    game_state.add_action_cards(&Color::Red, vec![
        ActionCard { action_type: ActionType::Administration, number: 2, pips: 4, declared_ambition: Some(AmbitionTypes::Tycoon) },
    ]);

    game_state.add_action_cards(&Color::Blue, vec![
        ActionCard { action_type: ActionType::Administration, number: 6, pips: 2, declared_ambition: Some(AmbitionTypes::Empath) },
    ]);

    println!("{:?}", game_state.court[0]);
    assert_eq!(game_state.court[0].controlled_by(), None);
    assert_eq!(game_state.get_player_area(&Color::Red).unwrap().reserve.get(&ReserveType::Agents), 10);

    let g1 = execute_actions(&game_state, vec![
        Action::PlayLeadCard { card: ActionCard { action_type: ActionType::Administration, number: 2, pips: 4, declared_ambition: Some(AmbitionTypes::Tycoon) }, declare: None },
        Action::EndPrelude,
        Action::MainAction { basic_action: BasicAction::Influence { card_id: 0 } },
        Action::EndTurn,
    ]).unwrap();

    println!("{:?}", game_state.lead_card);
    assert_eq!(g1.court[0].controlled_by(), Some(Color::Red));
    assert_eq!(g1.get_player_area(&Color::Red).unwrap().reserve.get(&ReserveType::Agents), 9);

    let g2 = execute_actions(&g1, vec![
        Action::Surpass { card: ActionCard { action_type: ActionType::Administration, number: 6, pips: 2, declared_ambition: Some(AmbitionTypes::Empath) }, seize: None },
        Action::EndPrelude,
        Action::MainAction { basic_action: BasicAction::Influence { card_id: 0 } },
    ]).unwrap();

    assert_eq!(g2.court[0].controlled_by(), None);
    assert_eq!(g2.get_player_area(&Color::Red).unwrap().reserve.get(&ReserveType::Agents), 9);
    assert_eq!(g2.get_player_area(&Color::Blue).unwrap().reserve.get(&ReserveType::Agents), 9);

    let g3 = execute_action(&g2, Action::MainAction { basic_action: BasicAction::Influence { card_id: 0 } }).unwrap();

    assert_eq!(g3.get_player_area(&Color::Red).unwrap().reserve.get(&ReserveType::Agents), 9);
    assert_eq!(g3.get_player_area(&Color::Blue).unwrap().reserve.get(&ReserveType::Agents), 8);
    assert_eq!(g3.court[0].controlled_by(), Some(Color::Blue));
}

#[test]
fn influence_without_agents_or_card_is_rejected() {
    let mut game_state = board::setup_game(&two_player_frontiers()).unwrap();
    assert_eq!(influence(&game_state, 3), Err(ActionError::UnknownEntity));
    game_state.players[0].reserve.agents = 0;
    assert_eq!(influence(&game_state, 0), Err(ActionError::InsufficientReserve));
}

#[test]
fn three_way_tie_on_a_card_has_no_controller() {
    let card = |counts: [u8; 3]| CourtCard::GuildCard {
        guild: GuildName::FuelCartel.card(),
        agents: vec![
            Agents { color: Color::Red, count: counts[0] },
            Agents { color: Color::Blue, count: counts[1] },
            Agents { color: Color::White, count: counts[2] },
        ],
    };
    assert_eq!(card([0, 0, 0]).controlled_by(), None);
    assert_eq!(card([2, 2, 1]).controlled_by(), None);
    assert_eq!(card([2, 2, 3]).controlled_by(), Some(Color::White));
    assert_eq!(card([1, 0, 0]).controlled_by(), Some(Color::Red));
    assert_eq!(card([1, 4, 4]).controlled_by(), None);
}
