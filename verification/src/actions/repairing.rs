//! Repairing damaged units and buildings.

use vstd::prelude::*;
use crate::actions::building::with_slots;
use crate::actions::moving::with_ships;
use crate::data::game_state::{ActionError, BuildType, Color, GameState, GameStateView};
use crate::data::system::{BuildingSlot, BuildingType, Ships, System, SystemView, find_ships, ships_entry, ships_placed};
use crate::data::viewed;
use crate::lookup::{first_index, is_first, none_satisfies, lemma_first_index_found, lemma_first_index_missing};

verus! {

/// The test for a damaged building of `player` and `building_type`.
pub open spec fn damaged_test(building_type: BuildingType, player: Color) -> spec_fn(BuildingSlot) -> bool {
    |b: BuildingSlot| b.is_damaged(building_type, player)
}

/// The slots after the first damaged building of `player` and `building_type` was repaired.
pub open spec fn repair_building_result(slots: Seq<BuildingSlot>, building_type: BuildingType, player: Color) -> Result<Seq<BuildingSlot>, ActionError> {
    match first_index(slots, damaged_test(building_type, player)) {
        None => Err(ActionError::NoRepairTarget),
        Some(i) => Ok(slots.update(i, slots[i].repaired())),
    }
}

/// The units after one damaged unit of `player` became fresh.
pub open spec fn repair_ship_result(ships: Seq<Ships>, player: Color) -> Result<Seq<Ships>, ActionError> {
    match ships_entry(ships, player) {
        None => Err(ActionError::NoRepairTarget),
        Some(e) => if e.damaged == 0 {
            Err(ActionError::NoRepairTarget)
        } else if e.fresh == 255 {
            Err(ActionError::CountOverflow)
        } else {
            Ok(ships_placed(ships, player, 1, -1))
        },
    }
}

/// The node after a repair in it.
pub open spec fn repaired_system(system: SystemView, player: Color, build_type: BuildType) -> Result<SystemView, ActionError> {
    match system {
        SystemView::Unused => Err(ActionError::UnknownEntity),
        SystemView::Used { building_slots, ships, .. } => match build_type {
            BuildType::Ship => match repair_ship_result(ships, player) {
                Err(e) => Err(e),
                Ok(mended) => Ok(system.with_ships(mended).with_control()),
            },
            BuildType::City => match repair_building_result(building_slots, BuildingType::City, player) {
                Err(e) => Err(e),
                Ok(slots) => Ok(system.with_slots(slots)),
            },
            BuildType::Starport => match repair_building_result(building_slots, BuildingType::Starport, player) {
                Err(e) => Err(e),
                Ok(slots) => Ok(system.with_slots(slots)),
            },
        },
    }
}

/// The state after the current player repaired in `target_system`.
pub open spec fn repair_result(s: GameStateView, target_system: u8, build_type: BuildType) -> Result<GameStateView, ActionError> {
    if target_system >= s.systems.len() {
        Err(ActionError::UnknownEntity)
    } else {
        match repaired_system(s.systems[target_system as int], s.current_player, build_type) {
            Err(e) => Err(e),
            Ok(system) => Ok(s.with_system(target_system as int, system)),
        }
    }
}

/// Repairs the first damaged building of `player` and `building_type`.
pub fn repair_building(slots: &Vec<BuildingSlot>, building_type: BuildingType, player: &Color) -> (r: Result<Vec<BuildingSlot>, ActionError>)
    ensures
        viewed(r) == repair_building_result(slots@, building_type, *player),
{
    let ghost p = damaged_test(building_type, *player);
    let mut i: usize = 0;
    while i < slots.len()
        invariant
            i <= slots.len(),
            p == damaged_test(building_type, *player),
            forall|j: int| 0 <= j < i ==> !p(#[trigger] slots@[j]),
        decreases slots.len() - i,
    {
        match slots[i] {
            BuildingSlot::Occupied { fresh, player: owner, building_type: kind, used } => {
                if !fresh && owner == *player && kind == building_type {
                    proof {
                        assert(is_first(slots@, p, i as int));
                        lemma_first_index_found(slots@, p, i as int);
                    }
                    let mut out = slots.clone();
                    out.set(i, BuildingSlot::Occupied { fresh: true, player: owner, building_type: kind, used });
                    return Ok(out);
                }
            },
            BuildingSlot::Empty => {},
        }
        i += 1;
    }
    proof {
        assert(none_satisfies(slots@, p));
        lemma_first_index_missing(slots@, p);
    }
    Err(ActionError::NoRepairTarget)
}

/// Turns one damaged unit of `player` into a fresh one.
pub fn repair_ship(ships: &Vec<Ships>, player: &Color) -> (r: Result<Vec<Ships>, ActionError>)
    ensures
        viewed(r) == repair_ship_result(ships@, *player),
{
    match find_ships(ships, player) {
        None => Err(ActionError::NoRepairTarget),
        Some(e) => {
            if e.damaged == 0 {
                Err(ActionError::NoRepairTarget)
            } else if e.fresh == 255 {
                Err(ActionError::CountOverflow)
            } else {
                let mut out = ships.clone();
                out.set(player.index(), Ships { player: *player, fresh: e.fresh + 1, damaged: e.damaged - 1 });
                Ok(out)
            }
        },
    }
}

/// Repairs a ship, a city or a starport of the current player in `target_system`.
pub fn repair(game_state: &GameState, target_system: u8, build_type: BuildType) -> (r: Result<GameState, ActionError>)
    ensures
        viewed(r) == repair_result(game_state@, target_system, build_type),
{
    let target = target_system as usize;
    if target >= game_state.systems.len() {
        return Err(ActionError::UnknownEntity);
    }
    let player = game_state.current_player;
    let system = &game_state.systems[target];
    let mended = match system {
        System::Unused => { return Err(ActionError::UnknownEntity); },
        System::Used { building_slots, ships, .. } => match build_type {
            BuildType::Ship => match repair_ship(ships, &player) {
                Err(e) => { return Err(e); },
                Ok(mended) => with_ships(system, mended),
            },
            BuildType::City => match repair_building(building_slots, BuildingType::City, &player) {
                Err(e) => { return Err(e); },
                Ok(slots) => with_slots(system, slots),
            },
            BuildType::Starport => match repair_building(building_slots, BuildingType::Starport, &player) {
                Err(e) => { return Err(e); },
                Ok(slots) => with_slots(system, slots),
            },
        },
    };
    let mut g = game_state.clone();
    g.set_system(target, mended);
    Ok(g)
}

} // verus!
