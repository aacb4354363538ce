use correspondence_arcs::actions::allocating::{allocate_dice_results, allocate_resources};
use correspondence_arcs::board;
use correspondence_arcs::data::game_state::{
    ActionError, ActionType, Color, GameState, HitTarget, ResourceReserve, ResourceSlot, ResourceType, TurnState,
};
use correspondence_arcs::data::setup_cards::two_player_frontiers;

const KINDS: [ResourceType; 5] = [ResourceType::Fuel, ResourceType::Material, ResourceType::Weapons, ResourceType::Relics, ResourceType::Psionics];

fn held(slots: &Vec<ResourceSlot>, kind: ResourceType) -> u32 {
    slots.iter().filter(|s| matches!(s, ResourceSlot::Used { resource, .. } if *resource == kind)).count() as u32
}

/// Blue is to allocate two granted resources, holding three already, with five open slots.
fn game_in_allocation() -> GameState {
    let mut game_state = board::setup_game(&two_player_frontiers()).unwrap();
    game_state.players[1].resource_slots = vec![
        ResourceSlot::Used { keys: 3, resource: ResourceType::Fuel },
        ResourceSlot::Unused { keys: 1 },
        ResourceSlot::Used { keys: 1, resource: ResourceType::Fuel },
        ResourceSlot::Covered { keys: 2 },
        ResourceSlot::Used { keys: 1, resource: ResourceType::Relics },
        ResourceSlot::Unused { keys: 3 },
    ];
    game_state.resource_reserve = ResourceReserve { fuel: 2, material: 0, weapons: 5, relics: 4, psionics: 255 };
    game_state.turn_state = TurnState::AllocateResources { player: Color::Blue, resources: vec![ResourceType::Weapons, ResourceType::Fuel] };
    game_state.next_turn_states = vec![
        TurnState::Actions { action_type: ActionType::Administration, pips_left: 1 },
        TurnState::Prelude { action_type: ActionType::Administration, pips_left: 9 },
    ];
    game_state
}

#[test]
fn allocation_rewrites_the_slots_and_returns_the_rest() {
    let game_state = game_in_allocation();
    let after = allocate_resources(&game_state, vec![(5, ResourceType::Fuel), (0, ResourceType::Weapons), (1, ResourceType::Fuel)]).unwrap();
    assert_eq!(after.get_player_area(&Color::Blue).unwrap().resource_slots, vec![
        ResourceSlot::Used { keys: 3, resource: ResourceType::Weapons },
        ResourceSlot::Used { keys: 1, resource: ResourceType::Fuel },
        ResourceSlot::Unused { keys: 1 },
        ResourceSlot::Covered { keys: 2 },
        ResourceSlot::Unused { keys: 1 },
        ResourceSlot::Used { keys: 3, resource: ResourceType::Fuel },
    ]);
    // One Fuel and the Relics go back.
    assert_eq!(after.resource_reserve, ResourceReserve { fuel: 3, material: 0, weapons: 5, relics: 5, psionics: 255 });
    assert_eq!(after.turn_state, TurnState::Actions { action_type: ActionType::Administration, pips_left: 1 });
    assert_eq!(after.next_turn_states, vec![TurnState::Prelude { action_type: ActionType::Administration, pips_left: 9 }]);
    // Red is not touched.
    assert_eq!(after.get_player_area(&Color::Red), game_state.get_player_area(&Color::Red));
}

#[test]
fn allocation_loses_and_makes_nothing() {
    let game_state = game_in_allocation();
    let before_slots = game_state.players[1].resource_slots.clone();
    let granted = vec![ResourceType::Weapons, ResourceType::Fuel];
    let configurations: Vec<Vec<(u8, ResourceType)>> = vec![
        vec![],
        vec![(0, ResourceType::Fuel)],
        vec![(0, ResourceType::Relics), (1, ResourceType::Weapons)],
        vec![(0, ResourceType::Fuel), (1, ResourceType::Fuel), (2, ResourceType::Fuel), (4, ResourceType::Weapons), (5, ResourceType::Relics)],
    ];
    for configuration in configurations {
        let after = allocate_resources(&game_state, configuration.clone()).unwrap();
        let after_slots = after.get_player_area(&Color::Blue).unwrap().resource_slots;
        for kind in KINDS {
            let available = held(&before_slots, kind) + granted.iter().filter(|r| **r == kind).count() as u32;
            let asked = configuration.iter().filter(|(_, r)| *r == kind).count() as u32;
            assert_eq!(held(&after_slots, kind), asked);
            assert!(held(&after_slots, kind) <= available);
            assert_eq!(
                after.resource_reserve.get(&kind) as u32 + held(&after_slots, kind),
                game_state.resource_reserve.get(&kind) as u32 + available
            );
        }
    }
}

#[test]
fn allocations_that_break_a_rule_are_rejected() {
    let game_state = game_in_allocation();
    let before = game_state.clone();
    // Four Fuel asked for, three available.
    assert_eq!(
        allocate_resources(&game_state, vec![(0, ResourceType::Fuel), (1, ResourceType::Fuel), (2, ResourceType::Fuel), (4, ResourceType::Fuel)]),
        Err(ActionError::InvalidAllocation)
    );
    assert_eq!(allocate_resources(&game_state, vec![(0, ResourceType::Material)]), Err(ActionError::InvalidAllocation));
    // A slot named twice, also with another entry between.
    assert_eq!(
        allocate_resources(&game_state, vec![(0, ResourceType::Fuel), (1, ResourceType::Weapons), (0, ResourceType::Fuel)]),
        Err(ActionError::InvalidAllocation)
    );
    // Six entries for five open slots.
    assert_eq!(
        allocate_resources(&game_state, vec![(0, ResourceType::Fuel), (1, ResourceType::Fuel), (2, ResourceType::Fuel), (3, ResourceType::Weapons), (4, ResourceType::Relics), (5, ResourceType::Fuel)]),
        Err(ActionError::InvalidAllocation)
    );
    assert_eq!(allocate_resources(&game_state, vec![(3, ResourceType::Fuel)]), Err(ActionError::SlotCovered));
    assert_eq!(allocate_resources(&game_state, vec![(0, ResourceType::Fuel), (6, ResourceType::Weapons)]), Err(ActionError::UnknownEntity));
    assert_eq!(game_state, before);
}

#[test]
fn allocation_needs_its_phase_and_a_phase_to_resume() {
    let mut game_state = game_in_allocation();
    game_state.next_turn_states = vec![];
    assert_eq!(allocate_resources(&game_state, vec![]), Err(ActionError::IllegalPhase));
    let mut game_state = game_in_allocation();
    game_state.turn_state = TurnState::TrickTaking;
    assert_eq!(allocate_resources(&game_state, vec![]), Err(ActionError::IllegalPhase));
    let mut game_state = game_in_allocation();
    game_state.turn_state = TurnState::AllocateResources { player: Color::Yellow, resources: vec![] };
    assert_eq!(allocate_resources(&game_state, vec![]), Err(ActionError::UnknownEntity));
}

#[test]
fn returned_resources_must_fit_into_the_reserve() {
    let mut game_state = game_in_allocation();
    game_state.turn_state = TurnState::AllocateResources { player: Color::Blue, resources: vec![ResourceType::Psionics] };
    assert_eq!(allocate_resources(&game_state, vec![]), Err(ActionError::CountOverflow));
    assert!(allocate_resources(&game_state, vec![(0, ResourceType::Psionics)]).is_ok());
}

#[test]
fn hits_on_own_units_must_all_be_assigned() {
    let mut game_state = board::setup_game(&two_player_frontiers()).unwrap();
    game_state.turn_state = TurnState::AllocateDiceResults { target_system: 15, target_player: Color::Blue, self_hits: 3, hits: 1, building_hits: 0, keys: 0 };
    game_state.next_turn_states = vec![TurnState::Actions { action_type: ActionType::Agression, pips_left: 0 }];
    assert_eq!(allocate_dice_results(&game_state, vec![HitTarget::Fresh, HitTarget::Damaged]), Err(ActionError::InvalidAllocation));
    assert_eq!(allocate_dice_results(&game_state, vec![HitTarget::Destroyed, HitTarget::Destroyed, HitTarget::Building { slot: 1 }]), Err(ActionError::InvalidAllocation));
    let after = allocate_dice_results(&game_state, vec![HitTarget::Destroyed, HitTarget::Damaged]).unwrap();
    assert_eq!(after.turn_state, TurnState::Actions { action_type: ActionType::Agression, pips_left: 0 });
    assert_eq!(after.next_turn_states, vec![]);
    assert_eq!(after.systems, game_state.systems);
    game_state.next_turn_states = vec![];
    assert_eq!(allocate_dice_results(&game_state, vec![HitTarget::Destroyed, HitTarget::Damaged]), Err(ActionError::IllegalPhase));
    game_state.turn_state = TurnState::TrickTaking;
    assert_eq!(allocate_dice_results(&game_state, vec![]), Err(ActionError::IllegalPhase));
}
