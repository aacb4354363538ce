//! Taxing cities.

use vstd::prelude::*;
use crate::actions::building::with_slots;
use crate::data::game_state::{
    ActionError, Color, GameState, GameStateView, PlayerAreaView, ReserveType, ResourceType, Trophy, TurnState,
    TurnStateView, trophies_added,
};
use crate::data::system::{BuildingType, System, SystemType, SystemView, find_unused_fresh, slots_used_at};
use crate::data::{viewed, views};

verus! {

/// The state after the current player took one agent of `rival` as a trophy from the rival's reserve.
pub open spec fn agent_captured(s: GameStateView, rival: Color) -> Result<GameStateView, ActionError> {
    match s.update_players_reserve(rival, ReserveType::Agents, -1i8) {
        Err(e) => Err(e),
        Ok(s1) => match s1.player_area(s.current_player) {
            None => Err(ActionError::UnknownEntity),
            Some(area) => match trophies_added(
                area.tropies,
                seq![Trophy { trophy_type: ReserveType::Agents, count: 1, player: rival }],
            ) {
                Err(e) => Err(e),
                Ok(tropies) => Ok(s1.with_player(PlayerAreaView { tropies, ..area })),
            },
        },
    }
}

/// The state after the tax was collected: where the shared reserve holds the
/// resource, one unit leaves it and the current player is to allocate it.
pub open spec fn tax_collected(s: GameStateView, resource: ResourceType) -> GameStateView {
    if s.resource_reserve.count(resource) > 0 {
        GameStateView {
            resource_reserve: s.resource_reserve.with_count(resource, (s.resource_reserve.count(resource) - 1) as u8),
            ..s
        }.deferred(TurnStateView::AllocateResources { player: s.current_player, resources: seq![resource] })
    } else {
        s
    }
}

/// The state after the current player's claim on the taxed player was
/// settled: a rival loses an agent to the current player; the player's own
/// city costs nothing.
pub open spec fn tax_claimed(s: GameStateView, target_player: Color) -> Result<GameStateView, ActionError> {
    if target_player != s.current_player {
        agent_captured(s, target_player)
    } else {
        Ok(s)
    }
}

/// The state after the current player taxed a city of `target_player` in
/// `target_system`. To tax a rival, the player must control the node: that
/// is asked first. Then the rival loses an agent to the player. Then the
/// node must hold a city of the taxed player that is undamaged and was not
/// used this round; it is marked as used and the tax is collected.
pub open spec fn tax_result(s: GameStateView, target_system: u8, target_player: Color) -> Result<GameStateView, ActionError> {
    if target_system >= s.systems.len() {
        Err(ActionError::UnknownEntity)
    } else {
        let system = s.systems[target_system as int];
        match system {
            SystemView::Unused => Err(ActionError::UnknownEntity),
            SystemView::Used { system_type, building_slots, controlled_by, .. } => if target_player != s.current_player
                && controlled_by != Some(s.current_player) {
                Err(ActionError::NotController)
            } else {
                match tax_claimed(s, target_player) {
                    Err(e) => Err(e),
                    Ok(claimed) => match system.unused_building(BuildingType::City, target_player) {
                        None => Err(ActionError::NoUnusedBuilding),
                        Some(city) => match system_type {
                            SystemType::Gate => Err(ActionError::NoSlots),
                            SystemType::Planet { resource } => Ok(
                                tax_collected(
                                    claimed.with_system(
                                        target_system as int,
                                        system.with_slots(slots_used_at(building_slots, city)),
                                    ),
                                    resource,
                                ),
                            ),
                        },
                    },
                }
            },
        }
    }
}

/// Takes one agent of `rival` from the rival's reserve as a trophy of the current player.
pub fn capture_agent(game_state: &GameState, rival: &Color) -> (r: Result<GameState, ActionError>)
    ensures
        viewed(r) == agent_captured(game_state@, *rival),
{
    let actor = game_state.current_player;
    let mut g = match game_state.update_players_reserve(rival, &ReserveType::Agents, -1) {
        Err(e) => { return Err(e); },
        Ok(g) => g,
    };
    let mut area = match g.get_player_area(&actor) {
        None => { return Err(ActionError::UnknownEntity); },
        Some(area) => area,
    };
    let mut earned: Vec<Trophy> = Vec::new();
    earned.push(Trophy { trophy_type: ReserveType::Agents, count: 1, player: *rival });
    proof {
        assert(earned@ =~= seq![Trophy { trophy_type: ReserveType::Agents, count: 1, player: *rival }]);
    }
    let tropies = match area.add_trophies(earned) {
        Err(e) => { return Err(e); },
        Ok(tropies) => tropies,
    };
    area.tropies = tropies;
    g.set_player(area);
    Ok(g)
}

/// Collects the tax on `resource` for the current player.
pub fn collect_tax(game_state: GameState, resource: ResourceType) -> (r: GameState)
    ensures
        r@ == tax_collected(game_state@, resource),
{
    let mut g = game_state;
    let count = g.resource_reserve.get(&resource);
    if count > 0 {
        g.resource_reserve = g.resource_reserve.with(&resource, count - 1);
        let mut granted: Vec<ResourceType> = Vec::new();
        granted.push(resource);
        proof {
            assert(granted@ =~= seq![resource]);
        }
        let player = g.current_player;
        g.defer_to(TurnState::AllocateResources { player, resources: granted });
    }
    g
}

/// Taxes an unused, undamaged city of `target_player` in `target_system`.
pub fn tax(game_state: &GameState, target_system: u8, target_player: Color) -> (r: Result<GameState, ActionError>)
    ensures
        viewed(r) == tax_result(game_state@, target_system, target_player),
{
    let target = target_system as usize;
    if target >= game_state.systems.len() {
        return Err(ActionError::UnknownEntity);
    }
    let actor = game_state.current_player;
    let system = &game_state.systems[target];
    match system {
        System::Unused => Err(ActionError::UnknownEntity),
        System::Used { system_type, building_slots, controlled_by, .. } => {
            let rival = target_player != actor;
            if rival && !(*controlled_by == Some(actor)) {
                return Err(ActionError::NotController);
            }
            let mut g = if rival {
                match capture_agent(game_state, &target_player) {
                    Err(e) => { return Err(e); },
                    Ok(captured) => captured,
                }
            } else {
                game_state.clone()
            };
            let city = match find_unused_fresh(building_slots, BuildingType::City, &target_player) {
                None => { return Err(ActionError::NoUnusedBuilding); },
                Some(city) => city,
            };
            let resource = match system_type {
                SystemType::Gate => { return Err(ActionError::NoSlots); },
                SystemType::Planet { resource } => *resource,
            };
            let mut slots = building_slots.clone();
            let marked = match building_slots[city].use_building() {
                Some(b) => b,
                None => building_slots[city],
            };
            slots.set(city, marked);
            proof {
                assert(views(g.systems@).len() == views(game_state.systems@).len());
            }
            g.set_system(target, with_slots(system, slots));
            Ok(collect_tax(g, resource))
        },
    }
}

} // verus!
