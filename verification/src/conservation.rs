//! Pieces are neither made nor lost by moving, building and repairing: what
//! a player has on the board and in reserve stays the same in total.

use vstd::prelude::*;
use crate::actions::building::{build_result, built_system, piece_of, piece_taken};
use crate::actions::moving::{move_ships_result, relocate_result};
use crate::actions::repairing::{repair_result, repaired_system, damaged_test};
use crate::actions::{
    basic_action_result, empty_test, lemma_run_unfolds, pip_spent, place_ships_result, remove_ships_result, run, step,
};
use crate::data::game_state::{Action, ActionError, BasicAction, BuildType, Color, GameStateView, ReserveType};
use crate::data::system::{BuildingSlot, BuildingType, SystemView, first_unused, unused_test};
use crate::lookup::{first_index, lemma_first_index_meaning};

verus! {

/// The buildings of `player` and `building_type` among the slots, used or not, damaged or not.
pub open spec fn buildings_in(slots: Seq<BuildingSlot>, building_type: BuildingType, player: Color) -> int
    decreases slots.len(),
{
    if slots.len() == 0 {
        0
    } else {
        buildings_in(slots.drop_last(), building_type, player) + if is_building(slots.last(), building_type, player) {
            1int
        } else {
            0int
        }
    }
}

/// The slot holds a building of `player` and `building_type`.
pub open spec fn is_building(slot: BuildingSlot, building_type: BuildingType, player: Color) -> bool {
    match slot {
        BuildingSlot::Occupied { player: p, building_type: b, .. } => p == player && b == building_type,
        BuildingSlot::Empty => false,
    }
}

/// The pieces of `kind` that `player` has in one node. Agents never stand in a node.
pub open spec fn pieces_in(system: SystemView, kind: ReserveType, player: Color) -> int {
    match system {
        SystemView::Unused => 0,
        SystemView::Used { building_slots, .. } => match kind {
            ReserveType::Ships => system.all_ships(player),
            ReserveType::Cities => buildings_in(building_slots, BuildingType::City, player),
            ReserveType::Starports => buildings_in(building_slots, BuildingType::Starport, player),
            ReserveType::Agents => 0,
        },
    }
}

/// The pieces of `kind` that `player` has in all the nodes together.
pub open spec fn pieces_on_board(systems: Seq<SystemView>, kind: ReserveType, player: Color) -> int
    decreases systems.len(),
{
    if systems.len() == 0 {
        0
    } else {
        pieces_on_board(systems.drop_last(), kind, player) + pieces_in(systems.last(), kind, player)
    }
}

/// The pieces of `kind` that `player` has in reserve; none for one who does not take part.
pub open spec fn pieces_in_reserve(s: GameStateView, kind: ReserveType, player: Color) -> int {
    match s.player_area(player) {
        Some(area) => area.reserve.count(kind) as int,
        None => 0,
    }
}

/// The pieces of `kind` that `player` has on the board and in reserve.
pub open spec fn total_pieces(s: GameStateView, kind: ReserveType, player: Color) -> int {
    pieces_on_board(s.systems, kind, player) + pieces_in_reserve(s, kind, player)
}

/// Replacing one slot changes the number of buildings by what the slot gained or lost.
pub proof fn lemma_buildings_update(slots: Seq<BuildingSlot>, index: int, slot: BuildingSlot, building_type: BuildingType, player: Color)
    requires
        0 <= index < slots.len(),
    ensures
        buildings_in(slots.update(index, slot), building_type, player) == buildings_in(slots, building_type, player)
            - (if is_building(slots[index], building_type, player) { 1int } else { 0int })
            + (if is_building(slot, building_type, player) { 1int } else { 0int }),
    decreases slots.len(),
{
    let changed = slots.update(index, slot);
    if index == slots.len() - 1 {
        assert(changed.drop_last() =~= slots.drop_last());
    } else {
        lemma_buildings_update(slots.drop_last(), index, slot, building_type, player);
        assert(changed.drop_last() =~= slots.drop_last().update(index, slot));
    }
}

/// Replacing one node changes the pieces on the board by what the node gained or lost.
pub proof fn lemma_board_update(systems: Seq<SystemView>, index: int, system: SystemView, kind: ReserveType, player: Color)
    requires
        0 <= index < systems.len(),
    ensures
        pieces_on_board(systems.update(index, system), kind, player) == pieces_on_board(systems, kind, player)
            - pieces_in(systems[index], kind, player) + pieces_in(system, kind, player),
    decreases systems.len(),
{
    let changed = systems.update(index, system);
    if index == systems.len() - 1 {
        assert(changed.drop_last() =~= systems.drop_last());
    } else {
        lemma_board_update(systems.drop_last(), index, system, kind, player);
        assert(changed.drop_last() =~= systems.drop_last().update(index, system));
    }
}

/// Replacing the area of a player changes that player's reserve and no other.
pub proof fn lemma_reserve_update(s: GameStateView, actor: Color, kind: ReserveType, player: Color)
    requires
        s.has_player(actor),
        s.players[actor.seat()].reserve.count(kind) > 0,
    ensures
        pieces_in_reserve(s.with_player(piece_taken(s.players[actor.seat()], kind)), kind, player) == pieces_in_reserve(
            s,
            kind,
            player,
        ) - if player == actor {
            1int
        } else {
            0int
        },
        forall|other: ReserveType| other != kind ==> pieces_in_reserve(
            s.with_player(piece_taken(s.players[actor.seat()], kind)),
            other,
            player,
        ) == pieces_in_reserve(s, other, player),
{
}

/// A move leaves every player's total of every kind of piece as it was.
pub proof fn law_move_conserves_pieces(s: GameStateView, origin: u8, destination: u8, fresh: u8, damaged: u8, kind: ReserveType, player: Color)
    requires
        move_ships_result(s, origin, destination, fresh, damaged) is Ok,
    ensures
        total_pieces(move_ships_result(s, origin, destination, fresh, damaged).unwrap(), kind, player) == total_pieces(
            s,
            kind,
            player,
        ),
{
    lemma_relocate_conserves_pieces(s, origin, destination, fresh, damaged, kind, player);
}

/// Taking units from one node to another leaves every player's totals as they were.
pub proof fn lemma_relocate_conserves_pieces(s: GameStateView, origin: u8, destination: u8, fresh: u8, damaged: u8, kind: ReserveType, player: Color)
    requires
        relocate_result(s, origin, destination, fresh, damaged) is Ok,
    ensures
        total_pieces(relocate_result(s, origin, destination, fresh, damaged).unwrap(), kind, player) == total_pieces(
            s,
            kind,
            player,
        ),
{
    let actor = s.current_player;
    let o = s.systems[origin as int];
    let left = remove_ships_result(o->ships, actor, fresh, damaged).unwrap();
    let o1 = o.with_ships(left).with_control();
    let s1 = s.with_system(origin as int, o1);
    let d = s1.systems[destination as int];
    let arrived = place_ships_result(d->ships, actor, fresh, damaged).unwrap();
    let d1 = d.with_ships(arrived).with_control();
    let s2 = s1.with_system(destination as int, d1);
    assert(relocate_result(s, origin, destination, fresh, damaged) == Ok::<GameStateView, ActionError>(s2));
    lemma_board_update(s.systems, origin as int, o1, kind, player);
    lemma_board_update(s1.systems, destination as int, d1, kind, player);
    assert(pieces_in(o1, kind, player) == pieces_in(o, kind, player) - if kind == ReserveType::Ships && player == actor {
        fresh + damaged
    } else {
        0
    });
    assert(pieces_in(d1, kind, player) == pieces_in(d, kind, player) + if kind == ReserveType::Ships && player == actor {
        fresh + damaged
    } else {
        0
    });
}

/// A build leaves every player's total of every kind of piece as it was:
/// what appears on the board has left the builder's reserve.
pub proof fn law_build_conserves_pieces(s: GameStateView, target_system: u8, build_type: BuildType, kind: ReserveType, player: Color)
    requires
        build_result(s, target_system, build_type) is Ok,
    ensures
        total_pieces(build_result(s, target_system, build_type).unwrap(), kind, player) == total_pieces(s, kind, player),
{
    let actor = s.current_player;
    let old_system = s.systems[target_system as int];
    let system = built_system(old_system, actor, build_type).unwrap();
    let area = s.player_area(actor).unwrap();
    let s1 = s.with_system(target_system as int, system);
    let s2 = s1.with_player(piece_taken(area, piece_of(build_type)));
    assert(build_result(s, target_system, build_type) == Ok::<GameStateView, ActionError>(s2));
    lemma_board_update(s.systems, target_system as int, system, kind, player);
    lemma_reserve_update(s1, actor, piece_of(build_type), player);
    lemma_built_system_pieces(old_system, actor, build_type, kind, player);
}

/// What a build adds to a node: one piece of the kind built, for the builder.
pub proof fn lemma_built_system_pieces(system: SystemView, actor: Color, build_type: BuildType, kind: ReserveType, player: Color)
    requires
        built_system(system, actor, build_type) is Ok,
    ensures
        pieces_in(built_system(system, actor, build_type).unwrap(), kind, player) == pieces_in(system, kind, player) + if kind
            == piece_of(build_type) && player == actor {
            1int
        } else {
            0int
        },
{
    let slots = system->building_slots;
    let ships = system->ships;
    let build_fresh = system->controlled_by is None || system->controlled_by == Some(actor);
    match build_type {
        BuildType::Ship => {
            let placed = place_ships_result(
                ships,
                actor,
                if build_fresh { 1u8 } else { 0u8 },
                if build_fresh { 0u8 } else { 1u8 },
            ).unwrap();
            let grown = system.with_ships(placed);
            match first_unused(slots, BuildingType::Starport, actor) {
                Some(i) => {
                    lemma_first_index_meaning(slots, unused_test(BuildingType::Starport, actor));
                    lemma_buildings_update(slots, i, slots[i].used_up(), BuildingType::City, player);
                    lemma_buildings_update(slots, i, slots[i].used_up(), BuildingType::Starport, player);
                },
                None => {},
            }
        },
        BuildType::City => {
            let building = BuildingSlot::Occupied { fresh: build_fresh, player: actor, building_type: BuildingType::City, used: false };
            lemma_first_index_meaning(slots, empty_test());
            let i = first_index(slots, empty_test()).unwrap();
            lemma_buildings_update(slots, i, building, BuildingType::City, player);
            lemma_buildings_update(slots, i, building, BuildingType::Starport, player);
        },
        BuildType::Starport => {
            let building = BuildingSlot::Occupied {
                fresh: build_fresh,
                player: actor,
                building_type: BuildingType::Starport,
                used: false,
            };
            lemma_first_index_meaning(slots, empty_test());
            let i = first_index(slots, empty_test()).unwrap();
            lemma_buildings_update(slots, i, building, BuildingType::City, player);
            lemma_buildings_update(slots, i, building, BuildingType::Starport, player);
        },
    }
}

/// A repair leaves every player's total of every kind of piece as it was.
pub proof fn law_repair_conserves_pieces(s: GameStateView, target_system: u8, build_type: BuildType, kind: ReserveType, player: Color)
    requires
        repair_result(s, target_system, build_type) is Ok,
    ensures
        total_pieces(repair_result(s, target_system, build_type).unwrap(), kind, player) == total_pieces(s, kind, player),
{
    let actor = s.current_player;
    let old_system = s.systems[target_system as int];
    let system = repaired_system(old_system, actor, build_type).unwrap();
    lemma_board_update(s.systems, target_system as int, system, kind, player);
    let slots = old_system->building_slots;
    match build_type {
        BuildType::Ship => {},
        BuildType::City => {
            lemma_first_index_meaning(slots, damaged_test(BuildingType::City, actor));
            let i = first_index(slots, damaged_test(BuildingType::City, actor)).unwrap();
            lemma_buildings_update(slots, i, slots[i].repaired(), BuildingType::City, player);
            lemma_buildings_update(slots, i, slots[i].repaired(), BuildingType::Starport, player);
        },
        BuildType::Starport => {
            lemma_first_index_meaning(slots, damaged_test(BuildingType::Starport, actor));
            let i = first_index(slots, damaged_test(BuildingType::Starport, actor)).unwrap();
            lemma_buildings_update(slots, i, slots[i].repaired(), BuildingType::City, player);
            lemma_buildings_update(slots, i, slots[i].repaired(), BuildingType::Starport, player);
        },
    }
}


/// The primitive action moves, builds or repairs.
pub open spec fn moves_builds_or_repairs(action: BasicAction) -> bool {
    action is Move || action is Build || action is Repair
}

/// The action is a move, a build or a repair, as a main action or in the prelude.
pub open spec fn is_conserving(action: Action) -> bool {
    match action {
        Action::MainAction { basic_action } => moves_builds_or_repairs(basic_action),
        Action::PreludeResourceAction { basic_action, .. } => moves_builds_or_repairs(basic_action),
        _ => false,
    }
}

/// A move, a build or a repair leaves every player's total of every kind of piece as it was.
pub proof fn lemma_primitive_conserves_pieces(s: GameStateView, action: BasicAction, rolls: Seq<usize>, kind: ReserveType, player: Color)
    requires
        moves_builds_or_repairs(action),
        basic_action_result(s, action, rolls) is Ok,
    ensures
        total_pieces(basic_action_result(s, action, rolls).unwrap(), kind, player) == total_pieces(s, kind, player),
{
    match action {
        BasicAction::Move { origin_id, destination_id, fresh_ships, damaged_ships } => {
            law_move_conserves_pieces(s, origin_id, destination_id, fresh_ships, damaged_ships, kind, player);
        },
        BasicAction::Build { target_system, build_type } => {
            law_build_conserves_pieces(s, target_system, build_type, kind, player);
        },
        BasicAction::Repair { target_system, build_type } => {
            law_repair_conserves_pieces(s, target_system, build_type, kind, player);
        },
        _ => {},
    }
}

/// An action that moves, builds or repairs, as a main action or in the
/// prelude, leaves every player's total of every kind of piece as it was.
pub proof fn law_action_conserves_pieces(s: GameStateView, action: Action, rolls: Seq<usize>, kind: ReserveType, player: Color)
    requires
        is_conserving(action),
        step(s, action, rolls) is Ok,
    ensures
        total_pieces(step(s, action, rolls).unwrap(), kind, player) == total_pieces(s, kind, player),
{
    match action {
        Action::MainAction { basic_action } => {
            let s1 = pip_spent(s).unwrap();
            assert(s1.systems == s.systems && s1.players == s.players);
            lemma_primitive_conserves_pieces(s1, basic_action, rolls, kind, player);
        },
        Action::PreludeResourceAction { basic_action, used_resource } => {
            let area = s.player_area(s.current_player).unwrap();
            let resource = area.resource_at(used_resource).unwrap();
            let s1 = s.remove_resource(s.current_player, used_resource, resource).unwrap();
            assert(s1.systems == s.systems);
            assert(pieces_in_reserve(s1, kind, player) == pieces_in_reserve(s, kind, player));
            lemma_primitive_conserves_pieces(s1, basic_action, rolls, kind, player);
        },
        _ => {},
    }
}

/// Any sequence of actions that move, build or repair leaves every player's
/// total of every kind of piece as it was.
pub proof fn law_sequence_conserves_pieces(s: GameStateView, actions: Seq<Action>, rolls: Seq<Seq<usize>>, n: int, kind: ReserveType, player: Color)
    requires
        0 <= n <= actions.len(),
        forall|i: int| 0 <= i < n ==> is_conserving(#[trigger] actions[i]),
        run(s, actions, rolls, n) is Ok,
    ensures
        total_pieces(run(s, actions, rolls, n).unwrap(), kind, player) == total_pieces(s, kind, player),
    decreases n,
{
    lemma_run_unfolds(s, actions, rolls, n);
    if n > 0 {
        law_sequence_conserves_pieces(s, actions, rolls, n - 1, kind, player);
        let s1 = run(s, actions, rolls, n - 1).unwrap();
        assert(is_conserving(actions[n - 1]));
        law_action_conserves_pieces(s1, actions[n - 1], rolls[n - 1], kind, player);
    }
}

} // verus!
