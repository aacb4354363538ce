//! Building ships, cities and starports.

use vstd::prelude::*;
use crate::actions::{place_building, place_building_result, place_ships, place_ships_result};
use crate::data::game_state::{ActionError, BuildType, GameState, GameStateView, PlayerArea, PlayerAreaView, ReserveType};
use crate::data::system::{BuildingSlot, BuildingType, System, SystemView};
use crate::data::viewed;

verus! {

/// The kind of reserve piece that a build takes.
pub open spec fn piece_of(build_type: BuildType) -> ReserveType {
    match build_type {
        BuildType::Ship => ReserveType::Ships,
        BuildType::City => ReserveType::Cities,
        BuildType::Starport => ReserveType::Starports,
    }
}

/// The area after one piece of a kind left its reserve.
pub open spec fn piece_taken(area: PlayerAreaView, kind: ReserveType) -> PlayerAreaView {
    PlayerAreaView { reserve: area.reserve.with_count(kind, (area.reserve.count(kind) - 1) as u8), ..area }
}

/// The node after the current player built in it, before the piece is paid for.
/// A ship arrives fresh where the node is the builder's or nobody's and
/// damaged otherwise, and uses one of the builder's unused starports there
/// if there is one. A building takes the first empty slot.
pub open spec fn built_system(system: SystemView, player: crate::data::game_state::Color, build_type: BuildType) -> Result<SystemView, ActionError> {
    match system {
        SystemView::Unused => Err(ActionError::NoPresence),
        SystemView::Used { building_slots, ships, controlled_by, .. } => {
            let build_fresh = controlled_by is None || controlled_by == Some(player);
            if !system.has_presence(player) {
                Err(ActionError::NoPresence)
            } else {
                match build_type {
                    BuildType::Ship => match place_ships_result(
                        ships,
                        player,
                        if build_fresh { 1u8 } else { 0u8 },
                        if build_fresh { 0u8 } else { 1u8 },
                    ) {
                        Err(e) => Err(e),
                        Ok(placed) => {
                            let grown = system.with_ships(placed);
                            match grown.use_building(BuildingType::Starport, player) {
                                Some(used) => Ok(used.with_control()),
                                None => Ok(grown.with_control()),
                            }
                        },
                    },
                    BuildType::City => match place_building_result(
                        building_slots,
                        BuildingSlot::Occupied { fresh: build_fresh, player, building_type: BuildingType::City, used: false },
                    ) {
                        Err(e) => Err(e),
                        Ok(slots) => Ok(system.with_slots(slots)),
                    },
                    BuildType::Starport => match place_building_result(
                        building_slots,
                        BuildingSlot::Occupied {
                            fresh: build_fresh,
                            player,
                            building_type: BuildingType::Starport,
                            used: false,
                        },
                    ) {
                        Err(e) => Err(e),
                        Ok(slots) => Ok(system.with_slots(slots)),
                    },
                }
            }
        },
    }
}

/// The state after the current player built in `target_system`. The piece
/// comes from the builder's reserve.
pub open spec fn build_result(s: GameStateView, target_system: u8, build_type: BuildType) -> Result<GameStateView, ActionError> {
    if target_system >= s.systems.len() {
        Err(ActionError::UnknownEntity)
    } else {
        match built_system(s.systems[target_system as int], s.current_player, build_type) {
            Err(e) => Err(e),
            Ok(system) => match s.player_area(s.current_player) {
                None => Err(ActionError::UnknownEntity),
                Some(area) => if area.reserve.count(piece_of(build_type)) == 0 {
                    Err(ActionError::InsufficientReserve)
                } else {
                    Ok(s.with_system(target_system as int, system).with_player(piece_taken(area, piece_of(build_type))))
                },
            },
        }
    }
}

/// The node with other building slots.
pub fn with_slots(system: &System, slots: Vec<BuildingSlot>) -> (r: System)
    ensures
        r@ == system@.with_slots(slots@),
{
    match system {
        System::Unused => System::Unused,
        System::Used { system_id, system_type, building_slots: _, ships, controlled_by, connects_to } => System::Used {
            system_id: *system_id,
            system_type: *system_type,
            building_slots: slots,
            ships: ships.clone(),
            controlled_by: *controlled_by,
            connects_to: connects_to.clone(),
        },
    }
}

/// The node with other units; the controller stays as it is recorded.
pub fn with_ships_only(system: &System, new_ships: Vec<crate::data::system::Ships>) -> (r: System)
    ensures
        r@ == system@.with_ships(new_ships@),
{
    match system {
        System::Unused => System::Unused,
        System::Used { system_id, system_type, building_slots, ships: _, controlled_by, connects_to } => System::Used {
            system_id: *system_id,
            system_type: *system_type,
            building_slots: building_slots.clone(),
            ships: new_ships,
            controlled_by: *controlled_by,
            connects_to: connects_to.clone(),
        },
    }
}

/// Builds in one node for `player`.
pub fn build_in_system(system: &System, player: &crate::data::game_state::Color, build_type: BuildType) -> (r: Result<System, ActionError>)
    ensures
        viewed(r) == built_system(system@, *player, build_type),
{
    if !system.has_presence(player) {
        return Err(ActionError::NoPresence);
    }
    match system {
        System::Unused => Err(ActionError::NoPresence),
        System::Used { building_slots, ships, controlled_by, .. } => {
            let build_fresh = match controlled_by {
                None => true,
                Some(c) => *c == *player,
            };
            match build_type {
                BuildType::Ship => {
                    let placed = match place_ships(
                        ships,
                        player,
                        if build_fresh { 1 } else { 0 },
                        if build_fresh { 0 } else { 1 },
                    ) {
                        Err(e) => { return Err(e); },
                        Ok(placed) => placed,
                    };
                    let grown = with_ships_only(system, placed);
                    match grown.use_building(&BuildingType::Starport, player) {
                        Some(used) => Ok(used.update_control()),
                        None => Ok(grown.update_control()),
                    }
                },
                BuildType::City => {
                    let building = BuildingSlot::Occupied {
                        fresh: build_fresh,
                        player: *player,
                        building_type: BuildingType::City,
                        used: false,
                    };
                    match place_building(building_slots, building) {
                        Err(e) => Err(e),
                        Ok(slots) => Ok(with_slots(system, slots)),
                    }
                },
                BuildType::Starport => {
                    let building = BuildingSlot::Occupied {
                        fresh: build_fresh,
                        player: *player,
                        building_type: BuildingType::Starport,
                        used: false,
                    };
                    match place_building(building_slots, building) {
                        Err(e) => Err(e),
                        Ok(slots) => Ok(with_slots(system, slots)),
                    }
                },
            }
        },
    }
}

/// Takes one piece of `kind` from the reserve of an area that holds one.
pub(crate) fn take_piece(area: &PlayerArea, kind: &ReserveType) -> (r: PlayerArea)
    requires
        area.reserve.count(*kind) > 0,
    ensures
        r@ == piece_taken(area@, *kind),
{
    let mut out = area.clone();
    out.reserve = area.reserve.with(kind, area.reserve.get(kind) - 1);
    out
}

/// Builds a ship, a city or a starport for the current player in `target_system`.
pub fn build(game_state: &GameState, target_system: u8, build_type: BuildType) -> (r: Result<GameState, ActionError>)
    ensures
        viewed(r) == build_result(game_state@, target_system, build_type),
{
    let target = target_system as usize;
    if target >= game_state.systems.len() {
        return Err(ActionError::UnknownEntity);
    }
    let player = game_state.current_player;
    let system = match build_in_system(&game_state.systems[target], &player, build_type) {
        Err(e) => { return Err(e); },
        Ok(system) => system,
    };
    let area = match game_state.get_player_area(&player) {
        None => { return Err(ActionError::UnknownEntity); },
        Some(area) => area,
    };
    let kind = match build_type {
        BuildType::Ship => ReserveType::Ships,
        BuildType::City => ReserveType::Cities,
        BuildType::Starport => ReserveType::Starports,
    };
    if area.reserve.get(&kind) == 0 {
        return Err(ActionError::InsufficientReserve);
    }
    let mut g = game_state.clone();
    g.set_system(target, system);
    g.set_player(take_piece(&area, &kind));
    Ok(g)
}

} // verus!
