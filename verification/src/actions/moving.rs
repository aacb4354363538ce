//! Moving units between nodes.

use vstd::prelude::*;
use crate::actions::{place_ships, place_ships_result, remove_ships, remove_ships_result};
use crate::board::{BOARD_SIZE, cluster_of, get_cluster};
use crate::data::game_state::{ActionError, Color, GameState, GameStateView};
use crate::data::system::{
    BuildingType, System, SystemType, SystemView, find_ships, find_unused, first_unused, ships_entry,
};
use crate::data::{viewed, views};
use crate::lookup::contains_id;

verus! {

/// The state after the current player's units went from `origin` to
/// `destination`, whether or not the two are neighbours. The units leave the
/// origin first; control is derived anew at both ends.
pub open spec fn relocate_result(s: GameStateView, origin: u8, destination: u8, fresh: u8, damaged: u8) -> Result<GameStateView, ActionError> {
    if origin >= s.systems.len() || destination >= s.systems.len() {
        Err(ActionError::UnknownEntity)
    } else {
        match s.systems[origin as int] {
            SystemView::Unused => Err(ActionError::UnknownEntity),
            SystemView::Used { ships, .. } => match remove_ships_result(ships, s.current_player, fresh, damaged) {
                Err(e) => Err(e),
                Ok(left) => {
                    let s1 = s.with_system(origin as int, s.systems[origin as int].with_ships(left).with_control());
                    match s1.systems[destination as int] {
                        SystemView::Unused => Err(ActionError::UnknownEntity),
                        SystemView::Used { ships, .. } => match place_ships_result(ships, s.current_player, fresh, damaged) {
                            Err(e) => Err(e),
                            Ok(arrived) => Ok(
                                s1.with_system(
                                    destination as int,
                                    s1.systems[destination as int].with_ships(arrived).with_control(),
                                ),
                            ),
                        },
                    }
                },
            },
        }
    }
}

/// The state after a move: the destination must be a neighbour of the origin.
pub open spec fn move_ships_result(s: GameStateView, origin: u8, destination: u8, fresh: u8, damaged: u8) -> Result<GameStateView, ActionError> {
    if origin >= s.systems.len() || destination >= s.systems.len() {
        Err(ActionError::UnknownEntity)
    } else {
        match s.systems[origin as int] {
            SystemView::Unused => Err(ActionError::UnknownEntity),
            SystemView::Used { connects_to, .. } => if !connects_to.contains(destination) {
                Err(ActionError::NotAdjacent)
            } else {
                relocate_result(s, origin, destination, fresh, damaged)
            },
        }
    }
}

/// The node with other units and its controller derived from them.
pub fn with_ships(system: &System, new_ships: Vec<crate::data::system::Ships>) -> (r: System)
    ensures
        r@ == system@.with_ships(new_ships@).with_control(),
{
    match system {
        System::Unused => System::Unused,
        System::Used { system_id, system_type, building_slots, ships: _, controlled_by, connects_to } => {
            let changed = System::Used {
                system_id: *system_id,
                system_type: *system_type,
                building_slots: building_slots.clone(),
                ships: new_ships,
                controlled_by: *controlled_by,
                connects_to: connects_to.clone(),
            };
            changed.update_control()
        },
    }
}

/// Takes units of the current player from `origin_system_id` to
/// `destination_system_id` without asking whether the two are neighbours.
pub fn relocate_ships(game_state: &GameState, origin_system_id: u8, destination_system_id: u8, fresh: u8, damaged: u8) -> (r: Result<GameState, ActionError>)
    ensures
        viewed(r) == relocate_result(game_state@, origin_system_id, destination_system_id, fresh, damaged),
{
    let origin = origin_system_id as usize;
    let destination = destination_system_id as usize;
    if origin >= game_state.systems.len() || destination >= game_state.systems.len() {
        return Err(ActionError::UnknownEntity);
    }
    let player = game_state.current_player;
    let mut g = game_state.clone();
    let left = match &game_state.systems[origin] {
        System::Unused => { return Err(ActionError::UnknownEntity); },
        System::Used { ships, .. } => match remove_ships(ships, &player, fresh, damaged) {
            Err(e) => { return Err(e); },
            Ok(left) => left,
        },
    };
    let new_origin = with_ships(&game_state.systems[origin], left);
    g.set_system(origin, new_origin);
    let arrived = match &g.systems[destination] {
        System::Unused => { return Err(ActionError::UnknownEntity); },
        System::Used { ships, .. } => match place_ships(ships, &player, fresh, damaged) {
            Err(e) => { return Err(e); },
            Ok(arrived) => arrived,
        },
    };
    let new_destination = with_ships(&g.systems[destination], arrived);
    g.set_system(destination, new_destination);
    Ok(g)
}

/// Moves units of the current player to a neighbouring node.
pub fn move_ships(game_state: &GameState, origin_system_id: u8, destination_system_id: u8, fresh: u8, damaged: u8) -> (r: Result<GameState, ActionError>)
    ensures
        viewed(r) == move_ships_result(game_state@, origin_system_id, destination_system_id, fresh, damaged),
{
    let origin = origin_system_id as usize;
    let destination = destination_system_id as usize;
    if origin >= game_state.systems.len() || destination >= game_state.systems.len() {
        return Err(ActionError::UnknownEntity);
    }
    match &game_state.systems[origin] {
        System::Unused => Err(ActionError::UnknownEntity),
        System::Used { connects_to, .. } => {
            if !contains_id(connects_to, destination_system_id) {
                Err(ActionError::NotAdjacent)
            } else {
                relocate_ships(game_state, origin_system_id, destination_system_id, fresh, damaged)
            }
        },
    }
}


// ---------------------------------------------------------------------------
// Reachability through gates
// ---------------------------------------------------------------------------

/// The node exists and is in play.
pub open spec fn in_play(systems: Seq<SystemView>, id: u8) -> bool {
    id < systems.len() && systems[id as int] is Used
}

/// The node is a gate in play that `actor` may pass: one that the actor controls or that nobody controls.
pub open spec fn passable(systems: Seq<SystemView>, actor: Color, id: u8) -> bool {
    &&& in_play(systems, id)
    &&& systems[id as int]->system_type is Gate
    &&& (systems[id as int]->controlled_by is None || systems[id as int]->controlled_by == Some(actor))
}

/// The node `from` is in play and lists `to` as a neighbour.
pub open spec fn linked(systems: Seq<SystemView>, from: u8, to: u8) -> bool {
    in_play(systems, from) && systems[from as int]->connects_to.contains(to)
}

/// `path` leads from `seed`, a passable gate, through passable gates, each a neighbour of the one before.
pub open spec fn is_route(systems: Seq<SystemView>, actor: Color, seed: u8, path: Seq<u8>) -> bool {
    &&& path.len() >= 1
    &&& path[0] == seed
    &&& passable(systems, actor, seed)
    &&& forall|k: int| 1 <= k < path.len() ==> passable(systems, actor, #[trigger] path[k]) && linked(systems, path[k - 1], path[k])
}

/// A route from `seed` ends at `id`.
pub open spec fn routed(systems: Seq<SystemView>, actor: Color, seed: u8, id: u8) -> bool {
    exists|path: Seq<u8>| #[trigger] is_route(systems, actor, seed, path) && path.last() == id
}

/// `target` is in play and a neighbour of a gate that a route from `seed`
/// leads to: of `seed` itself, if the actor may pass it, or of a passable
/// gate further on. From a seed that the actor may not pass nothing is reached.
pub open spec fn reachable(systems: Seq<SystemView>, actor: Color, seed: u8, target: u8) -> bool {
    in_play(systems, target) && exists|via: u8| #[trigger] routed(systems, actor, seed, via) && linked(systems, via, target)
}

/// What is known of a neighbour once the search has looked at it.
pub open spec fn neighbour_seen(systems: Seq<SystemView>, actor: Color, visited: Seq<bool>, found: Seq<bool>, id: u8) -> bool {
    in_play(systems, id) ==> found[id as int] && (passable(systems, actor, id) ==> visited[id as int])
}

/// What is known of a node once the search has gone through its neighbours.
pub open spec fn expanded(systems: Seq<SystemView>, actor: Color, visited: Seq<bool>, found: Seq<bool>, id: u8) -> bool {
    forall|to: u8| #[trigger] linked(systems, id, to) ==> neighbour_seen(systems, actor, visited, found, to)
}

/// The number of nodes not yet visited.
pub open spec fn unvisited(flags: Seq<bool>) -> int
    decreases flags.len(),
{
    if flags.len() == 0 {
        0
    } else {
        unvisited(flags.drop_last()) + if flags.last() {
            0int
        } else {
            1int
        }
    }
}

/// Visiting one more node leaves one node fewer to visit.
pub proof fn lemma_visit(flags: Seq<bool>, index: int)
    requires
        0 <= index < flags.len(),
        !flags[index],
    ensures
        unvisited(flags.update(index, true)) == unvisited(flags) - 1,
        unvisited(flags) >= 1,
    decreases flags.len(),
{
    let changed = flags.update(index, true);
    if index == flags.len() - 1 {
        assert(changed.drop_last() =~= flags.drop_last());
        lemma_unvisited_bound(flags.drop_last());
    } else {
        lemma_visit(flags.drop_last(), index);
        assert(changed.drop_last() =~= flags.drop_last().update(index, true));
    }
}

/// The number of nodes not yet visited is not negative.
pub proof fn lemma_unvisited_bound(flags: Seq<bool>)
    ensures
        unvisited(flags) >= 0,
    decreases flags.len(),
{
    if flags.len() > 0 {
        lemma_unvisited_bound(flags.drop_last());
    }
}

/// Where every visited node has been gone through, every node on a route is visited.
pub proof fn lemma_route_is_visited(systems: Seq<SystemView>, actor: Color, seed: u8, visited: Seq<bool>, found: Seq<bool>, path: Seq<u8>, k: int)
    requires
        is_route(systems, actor, seed, path),
        0 <= k < path.len(),
        visited.len() == systems.len(),
        visited[seed as int],
        forall|id: u8| id < visited.len() && #[trigger] visited[id as int] ==> expanded(systems, actor, visited, found, id),
    ensures
        path[k] < visited.len(),
        visited[path[k] as int],
    decreases k,
{
    if k > 0 {
        lemma_route_is_visited(systems, actor, seed, visited, found, path, k - 1);
        let from = path[k - 1];
        let to = path[k];
        assert(passable(systems, actor, to) && linked(systems, from, to));
        assert(expanded(systems, actor, visited, found, from));
        assert(neighbour_seen(systems, actor, visited, found, to));
    }
}

/// A list of `n` flags, none of them set.
pub fn cleared_flags(n: usize) -> (r: Vec<bool>)
    ensures
        r@.len() == n,
        forall|i: int| 0 <= i < n ==> !r@[i],
{
    let mut flags: Vec<bool> = Vec::new();
    let mut i: usize = 0;
    while i < n
        invariant
            i <= n,
            flags@.len() == i,
            forall|j: int| 0 <= j < i ==> !flags@[j],
        decreases n - i,
    {
        flags.push(false);
        i += 1;
    }
    flags
}

/// Searches the graph breadth first from a gate, `seed`, going on through
/// every gate that `color` may pass, and flags each node that is reached.
/// Every gate is asked whether `color` may pass it, the seed too.
pub fn search_from(systems: &Vec<System>, seed: u8, color: &Color) -> (found: Vec<bool>)
    ensures
        found@.len() == systems@.len(),
        forall|id: u8| id < found@.len() ==> #[trigger] found@[id as int] == reachable(views(systems@), *color, seed, id),
{
    let n = systems.len();
    let ghost sv = views(systems@);
    let actor = *color;
    let mut found = cleared_flags(n);
    let mut visited = cleared_flags(n);
    let mut queue: Vec<u8> = Vec::new();
    let seed_passable = (seed as usize) < n && match &systems[seed as usize] {
        System::Used { system_type: SystemType::Gate, controlled_by, .. } => match controlled_by {
            None => true,
            Some(c) => *c == actor,
        },
        _ => false,
    };
    proof {
        if (seed as usize) < n {
            assert(sv[seed as int] == systems@[seed as int]@);
        }
    }
    if !seed_passable {
        proof {
            assert forall|id: u8| id < found@.len() implies #[trigger] found@[id as int] == reachable(sv, actor, seed, id) by {
                if reachable(sv, actor, seed, id) {
                    let via = choose|via: u8| #[trigger] routed(sv, actor, seed, via) && linked(sv, via, id);
                    let path = choose|path: Seq<u8>| #[trigger] is_route(sv, actor, seed, path) && path.last() == via;
                    assert(passable(sv, actor, seed));
                }
            }
        }
        return found;
    }
    visited.set(seed as usize, true);
    queue.push(seed);
    proof {
        let path = seq![seed];
        assert(is_route(sv, actor, seed, path) && path.last() == seed);
        assert(routed(sv, actor, seed, seed));
        assert(queue@[0] == seed);
    }
    let mut head: usize = 0;
    while head < queue.len()
        invariant
            n == systems@.len(),
            sv == views(systems@),
            actor == *color,
            found@.len() == n,
            visited@.len() == n,
            head <= queue@.len(),
            passable(sv, actor, seed),
            visited@[seed as int],
            forall|k: int| 0 <= k < queue@.len() ==> in_play(sv, #[trigger] queue@[k]) && visited@[queue@[k] as int],
            forall|id: u8| id < n && #[trigger] visited@[id as int] ==> queue@.contains(id),
            forall|id: u8| id < n && #[trigger] visited@[id as int] ==> routed(sv, actor, seed, id),
            forall|id: u8| id < n && #[trigger] found@[id as int] ==> reachable(sv, actor, seed, id),
            forall|k: int| 0 <= k < head ==> expanded(sv, actor, visited@, found@, #[trigger] queue@[k]),
        decreases 2 * unvisited(visited@) + queue@.len() - head,
    {
        let from = queue[head];
        let ghost measure = 2 * unvisited(visited@) + queue@.len();
        assert(sv[from as int] == systems@[from as int]@);
        match &systems[from as usize] {
            System::Unused => {},
            System::Used { connects_to, .. } => {
                let mut j: usize = 0;
                while j < connects_to.len()
                    invariant
                        n == systems@.len(),
                        sv == views(systems@),
                        actor == *color,
                        found@.len() == n,
                        visited@.len() == n,
                        head < queue@.len(),
                        from == queue@[head as int],
                        j <= connects_to@.len(),
                        sv[from as int] is Used,
                        connects_to@ == sv[from as int]->connects_to,
                        passable(sv, actor, seed),
                        in_play(sv, from),
                        routed(sv, actor, seed, from),
                        visited@[seed as int],
                        2 * unvisited(visited@) + queue@.len() <= measure,
                        forall|k: int| 0 <= k < queue@.len() ==> in_play(sv, #[trigger] queue@[k]) && visited@[queue@[k] as int],
                        forall|id: u8| id < n && #[trigger] visited@[id as int] ==> queue@.contains(id),
                        forall|id: u8| id < n && #[trigger] visited@[id as int] ==> routed(sv, actor, seed, id),
                        forall|id: u8| id < n && #[trigger] found@[id as int] ==> reachable(sv, actor, seed, id),
                        forall|k: int| 0 <= k < head ==> expanded(sv, actor, visited@, found@, #[trigger] queue@[k]),
                        forall|m: int| 0 <= m < j ==> neighbour_seen(sv, actor, visited@, found@, #[trigger] connects_to@[m]),
                    decreases connects_to.len() - j,
                {
                    let to = connects_to[j];
                    let ghost old_visited = visited@;
                    let ghost old_found = found@;
                    let ghost old_queue = queue@;
                    if (to as usize) < n {
                        assert(sv[to as int] == systems@[to as int]@);
                        match &systems[to as usize] {
                            System::Unused => {},
                            System::Used { system_type, controlled_by, .. } => {
                                proof {
                                    assert(linked(sv, from, to));
                                    assert(reachable(sv, actor, seed, to));
                                }
                                found.set(to as usize, true);
                                let is_gate = match system_type {
                                    SystemType::Gate => true,
                                    SystemType::Planet { .. } => false,
                                };
                                let open = match controlled_by {
                                    None => true,
                                    Some(c) => *c == actor,
                                };
                                if is_gate && open && !visited[to as usize] {
                                    proof {
                                        lemma_visit(visited@, to as int);
                                        let path = choose|path: Seq<u8>| #[trigger] is_route(sv, actor, seed, path) && path.last() == from;
                                        let longer = path.push(to);
                                        assert forall|k: int| 1 <= k < longer.len() implies passable(sv, actor, #[trigger] longer[k])
                                            && linked(sv, longer[k - 1], longer[k]) by {
                                            if k < path.len() {
                                                assert(longer[k] == path[k]);
                                                assert(longer[k - 1] == path[k - 1]);
                                            }
                                        }
                                        assert(is_route(sv, actor, seed, longer) && longer.last() == to);
                                        assert(routed(sv, actor, seed, to));
                                    }
                                    visited.set(to as usize, true);
                                    queue.push(to);
                                    proof {
                                        assert(queue@[queue@.len() - 1] == to);
                                        assert forall|id: u8| id < n && #[trigger] visited@[id as int] implies queue@.contains(id) by {
                                            if id == to {
                                                assert(queue@[queue@.len() - 1] == id);
                                            } else {
                                                assert(old_visited[id as int]);
                                                assert(old_queue.contains(id));
                                                let k = choose|k: int| 0 <= k < old_queue.len() && old_queue[k] == id;
                                                assert(queue@[k] == id);
                                            }
                                        }
                                        assert forall|k: int| 0 <= k < queue@.len() implies in_play(sv, #[trigger] queue@[k])
                                            && visited@[queue@[k] as int] by {
                                            if k < old_queue.len() {
                                                assert(queue@[k] == old_queue[k]);
                                            }
                                        }
                                    }
                                }
                            },
                        }
                    }
                    proof {
                        assert forall|id: u8| id < n && old_visited[id as int] implies visited@[id as int] by {}
                        assert forall|id: u8| id < n && old_found[id as int] implies found@[id as int] by {}
                        assert forall|k: int| 0 <= k < head implies expanded(sv, actor, visited@, found@, #[trigger] queue@[k]) by {
                            assert(queue@[k] == old_queue[k]);
                            assert(expanded(sv, actor, old_visited, old_found, old_queue[k]));
                            assert forall|t: u8| #[trigger] linked(sv, queue@[k], t) implies neighbour_seen(sv, actor, visited@, found@, t) by {
                                assert(neighbour_seen(sv, actor, old_visited, old_found, t));
                            }
                        }
                        assert forall|m: int| 0 <= m < j + 1 implies neighbour_seen(sv, actor, visited@, found@, #[trigger] connects_to@[m]) by {
                            if m < j {
                                assert(neighbour_seen(sv, actor, old_visited, old_found, connects_to@[m]));
                            }
                        }
                    }
                    j += 1;
                }
                proof {
                    assert forall|t: u8| #[trigger] linked(sv, from, t) implies neighbour_seen(sv, actor, visited@, found@, t) by {
                        let m = choose|m: int| 0 <= m < connects_to@.len() && connects_to@[m] == t;
                        assert(neighbour_seen(sv, actor, visited@, found@, connects_to@[m]));
                    }
                    assert(expanded(sv, actor, visited@, found@, from));
                }
            },
        }
        proof {
            lemma_unvisited_bound(visited@);
        }
        head += 1;
    }
    proof {
        assert forall|id: u8| id < visited@.len() && #[trigger] visited@[id as int] implies expanded(sv, actor, visited@, found@, id) by {
            assert(queue@.contains(id));
            let k = choose|k: int| 0 <= k < queue@.len() && queue@[k] == id;
            assert(expanded(sv, actor, visited@, found@, queue@[k]));
        }
        assert forall|id: u8| id < found@.len() implies #[trigger] found@[id as int] == reachable(sv, actor, seed, id) by {
            if reachable(sv, actor, seed, id) {
                let via = choose|via: u8| #[trigger] routed(sv, actor, seed, via) && linked(sv, via, id);
                let path = choose|path: Seq<u8>| #[trigger] is_route(sv, actor, seed, path) && path.last() == via;
                lemma_route_is_visited(sv, actor, seed, visited@, found@, path, path.len() - 1);
                assert(expanded(sv, actor, visited@, found@, via));
                assert(neighbour_seen(sv, actor, visited@, found@, id));
            }
        }
    }
    found
}

/// The nodes that `color` can reach when starting at the cluster gate of
/// `start_system_id`, each listed once, in rising order. A start that is not
/// on the board reaches nothing.
pub fn bfs_search_systems(systems: &Vec<System>, start_system_id: u8, color: &Color) -> (r: Vec<u8>)
    ensures
        forall|id: u8| r@.contains(id) <==> start_system_id < BOARD_SIZE && reachable(
            views(systems@),
            *color,
            cluster_of(start_system_id),
            id,
        ),
        forall|i: int, j: int| 0 <= i < j < r@.len() ==> r@[i] < r@[j],
{
    let mut out: Vec<u8> = Vec::new();
    if start_system_id >= BOARD_SIZE {
        return out;
    }
    let seed = get_cluster(start_system_id);
    let found = search_from(systems, seed, color);
    let ghost sv = views(systems@);
    let mut i: usize = 0;
    while i < found.len() && i < 256
        invariant
            i <= found@.len(),
            i <= 256,
            found@.len() == systems@.len(),
            sv == views(systems@),
            seed == cluster_of(start_system_id),
            forall|id: u8| id < found@.len() ==> #[trigger] found@[id as int] == reachable(sv, *color, seed, id),
            forall|id: u8| out@.contains(id) <==> id < i && reachable(sv, *color, seed, id),
            forall|k: int| 0 <= k < out@.len() ==> out@[k] < i,
            forall|a: int, b: int| 0 <= a < b < out@.len() ==> out@[a] < out@[b],
        decreases found.len() - i,
    {
        let ghost before = out@;
        if found[i] {
            out.push(i as u8);
            proof {
                assert forall|id: u8| out@.contains(id) <==> id < i + 1 && reachable(sv, *color, seed, id) by {
                    if out@.contains(id) {
                        let k = choose|k: int| 0 <= k < out@.len() && out@[k] == id;
                        if k < before.len() {
                            assert(before[k] == id);
                            assert(before.contains(id));
                        }
                    }
                    if id < i + 1 && reachable(sv, *color, seed, id) {
                        if id < i {
                            assert(before.contains(id));
                            let k = choose|k: int| 0 <= k < before.len() && before[k] == id;
                            assert(out@[k] == id);
                        } else {
                            assert(out@[out@.len() - 1] == id);
                        }
                    }
                }
            }
        } else {
            proof {
                assert(!reachable(sv, *color, seed, i as u8));
            }
        }
        i += 1;
    }
    out
}


// ---------------------------------------------------------------------------
// Catapult
// ---------------------------------------------------------------------------

/// The fresh units that a catapult sends out in all.
pub open spec fn fresh_sent(destinations: Seq<(u8, u8, u8)>) -> int
    decreases destinations.len(),
{
    if destinations.len() == 0 {
        0
    } else {
        fresh_sent(destinations.drop_last()) + destinations.last().1
    }
}

/// The damaged units that a catapult sends out in all.
pub open spec fn damaged_sent(destinations: Seq<(u8, u8, u8)>) -> int
    decreases destinations.len(),
{
    if destinations.len() == 0 {
        0
    } else {
        damaged_sent(destinations.drop_last()) + destinations.last().2
    }
}

/// Every destination is a node that exists.
pub open spec fn all_exist(systems: Seq<SystemView>, destinations: Seq<(u8, u8, u8)>) -> bool {
    forall|i: int| 0 <= i < destinations.len() ==> (#[trigger] destinations[i]).0 < systems.len()
}

/// The node is a planet in play.
pub open spec fn is_planet(systems: Seq<SystemView>, id: u8) -> bool {
    in_play(systems, id) && systems[id as int]->system_type is Planet
}

/// The number of destinations that are planets.
pub open spec fn planets_named(systems: Seq<SystemView>, destinations: Seq<(u8, u8, u8)>) -> int
    decreases destinations.len(),
{
    if destinations.len() == 0 {
        0
    } else {
        planets_named(systems, destinations.drop_last()) + if is_planet(systems, destinations.last().0) {
            1int
        } else {
            0int
        }
    }
}

/// Every destination can be reached from `seed`, a gate.
pub open spec fn all_reachable(systems: Seq<SystemView>, actor: Color, seed: u8, destinations: Seq<(u8, u8, u8)>) -> bool {
    forall|i: int| 0 <= i < destinations.len() ==> reachable(systems, actor, seed, (#[trigger] destinations[i]).0)
}

/// The state after the units went from `origin` to the destinations, one destination after the other.
pub open spec fn relocated_all(s: GameStateView, origin: u8, destinations: Seq<(u8, u8, u8)>) -> Result<GameStateView, ActionError>
    decreases destinations.len(),
{
    if destinations.len() == 0 {
        Ok(s)
    } else {
        match relocated_all(s, origin, destinations.drop_last()) {
            Err(e) => Err(e),
            Ok(s1) => relocate_result(s1, origin, destinations.last().0, destinations.last().1, destinations.last().2),
        }
    }
}

/// The state after the current player catapulted units from `origin` to
/// several destinations at once. The player needs a starport at the origin
/// that was not used this round, and cannot send more units than are there; at most one destination is a
/// planet; every destination must be reachable from the origin's cluster
/// gate through gates that the player may pass.
pub open spec fn catapult_result(s: GameStateView, origin: u8, destinations: Seq<(u8, u8, u8)>) -> Result<GameStateView, ActionError> {
    let actor = s.current_player;
    if origin >= s.systems.len() || origin >= BOARD_SIZE {
        Err(ActionError::UnknownEntity)
    } else {
        match s.systems[origin as int] {
            SystemView::Unused => Err(ActionError::UnknownEntity),
            SystemView::Used { building_slots, ships, .. } => if first_unused(building_slots, BuildingType::Starport, actor) is None {
                Err(ActionError::NotController)
            } else {
                match ships_entry(ships, actor) {
                    None => Err(ActionError::UnknownEntity),
                    Some(e) => if fresh_sent(destinations) > e.fresh || damaged_sent(destinations) > e.damaged {
                        Err(ActionError::InsufficientUnits)
                    } else if !all_exist(s.systems, destinations) {
                        Err(ActionError::UnknownEntity)
                    } else if planets_named(s.systems, destinations) > 1 {
                        Err(ActionError::UnreachableTarget)
                    } else if !all_reachable(s.systems, actor, cluster_of(origin), destinations) {
                        Err(ActionError::UnreachableTarget)
                    } else {
                        relocated_all(s, origin, destinations)
                    },
                }
            },
        }
    }
}

/// The fresh and the damaged units that a catapult sends out in all.
pub fn count_sent(destinations: &Vec<(u8, u8, u8)>) -> (r: (u128, u128))
    ensures
        r.0 as int == fresh_sent(destinations@),
        r.1 as int == damaged_sent(destinations@),
{
    let mut fresh: u128 = 0;
    let mut damaged: u128 = 0;
    let mut i: usize = 0;
    while i < destinations.len()
        invariant
            i <= destinations.len(),
            fresh as int == fresh_sent(destinations@.take(i as int)),
            damaged as int == damaged_sent(destinations@.take(i as int)),
            fresh <= 255 * i,
            damaged <= 255 * i,
        decreases destinations.len() - i,
    {
        proof {
            assert(destinations@.take(i + 1).drop_last() =~= destinations@.take(i as int));
            assert(destinations@.take(i + 1).last() == destinations@[i as int]);
        }
        fresh += destinations[i].1 as u128;
        damaged += destinations[i].2 as u128;
        i += 1;
    }
    proof {
        assert(destinations@.take(destinations.len() as int) =~= destinations@);
    }
    (fresh, damaged)
}

/// Whether every destination is a node that exists.
pub fn check_exist(systems: &Vec<System>, destinations: &Vec<(u8, u8, u8)>) -> (r: bool)
    ensures
        r == all_exist(views(systems@), destinations@),
{
    let mut i: usize = 0;
    while i < destinations.len()
        invariant
            i <= destinations.len(),
            forall|j: int| 0 <= j < i ==> (#[trigger] destinations@[j]).0 < systems@.len(),
        decreases destinations.len() - i,
    {
        if destinations[i].0 as usize >= systems.len() {
            return false;
        }
        i += 1;
    }
    true
}

/// The number of destinations, all of them nodes that exist, that are planets.
pub(crate) fn count_planets(systems: &Vec<System>, destinations: &Vec<(u8, u8, u8)>) -> (r: usize)
    requires
        all_exist(views(systems@), destinations@),
    ensures
        r as int == planets_named(views(systems@), destinations@),
{
    let ghost sv = views(systems@);
    let mut total: usize = 0;
    let mut i: usize = 0;
    while i < destinations.len()
        invariant
            i <= destinations.len(),
            sv == views(systems@),
            all_exist(sv, destinations@),
            total as int == planets_named(sv, destinations@.take(i as int)),
            total <= i,
        decreases destinations.len() - i,
    {
        proof {
            assert(destinations@.take(i + 1).drop_last() =~= destinations@.take(i as int));
            assert(destinations@.take(i + 1).last() == destinations@[i as int]);
            assert(destinations@[i as int].0 < systems@.len());
            assert(sv[destinations@[i as int].0 as int] == systems@[destinations@[i as int].0 as int]@);
        }
        let planet = match &systems[destinations[i].0 as usize] {
            System::Used { system_type: SystemType::Planet { .. }, .. } => true,
            _ => false,
        };
        if planet {
            total += 1;
        }
        i += 1;
    }
    proof {
        assert(destinations@.take(destinations.len() as int) =~= destinations@);
    }
    total
}

/// Whether every destination is flagged as found.
pub fn check_reachable(found: &Vec<bool>, destinations: &Vec<(u8, u8, u8)>) -> (r: bool)
    ensures
        r == forall|i: int| 0 <= i < destinations@.len() ==> (#[trigger] destinations@[i]).0 < found@.len() && found@[destinations@[i].0 as int],
{
    let mut i: usize = 0;
    while i < destinations.len()
        invariant
            i <= destinations.len(),
            forall|j: int| 0 <= j < i ==> (#[trigger] destinations@[j]).0 < found@.len() && found@[destinations@[j].0 as int],
        decreases destinations.len() - i,
    {
        let id = destinations[i].0 as usize;
        if id >= found.len() || !found[id] {
            return false;
        }
        i += 1;
    }
    true
}

/// Once sending out has failed for the first destinations, it fails in the same way for all of them.
pub proof fn lemma_relocation_failure_stays(s: GameStateView, origin: u8, destinations: Seq<(u8, u8, u8)>, n: int)
    requires
        0 <= n <= destinations.len(),
        relocated_all(s, origin, destinations.take(n)) is Err,
    ensures
        relocated_all(s, origin, destinations) == relocated_all(s, origin, destinations.take(n)),
    decreases destinations.len() - n,
{
    if n < destinations.len() {
        assert(destinations.take(n + 1).drop_last() =~= destinations.take(n));
        lemma_relocation_failure_stays(s, origin, destinations, n + 1);
    } else {
        assert(destinations.take(n) =~= destinations);
    }
}

/// Sends units of the current player from `origin` to the destinations, one after the other.
pub fn relocate_all(game_state: &GameState, origin: u8, destinations: &Vec<(u8, u8, u8)>) -> (r: Result<GameState, ActionError>)
    ensures
        viewed(r) == relocated_all(game_state@, origin, destinations@),
{
    let mut g = game_state.clone();
    let mut i: usize = 0;
    while i < destinations.len()
        invariant
            i <= destinations.len(),
            relocated_all(game_state@, origin, destinations@.take(i as int)) == Ok::<GameStateView, ActionError>(g@),
        decreases destinations.len() - i,
    {
        proof {
            assert(destinations@.take(i + 1).drop_last() =~= destinations@.take(i as int));
            assert(destinations@.take(i + 1).last() == destinations@[i as int]);
        }
        let (to, fresh, damaged) = destinations[i];
        match relocate_ships(&g, origin, to, fresh, damaged) {
            Err(e) => {
                proof {
                    lemma_relocation_failure_stays(game_state@, origin, destinations@, i + 1);
                }
                return Err(e);
            },
            Ok(next) => {
                g = next;
            },
        }
        i += 1;
    }
    proof {
        assert(destinations@.take(destinations.len() as int) =~= destinations@);
    }
    Ok(g)
}

/// Catapults units of the current player from `origin_system` to several destinations.
pub fn catapult(game_state: &GameState, origin_system: u8, destination_systems: Vec<(u8, u8, u8)>) -> (r: Result<GameState, ActionError>)
    ensures
        viewed(r) == catapult_result(game_state@, origin_system, destination_systems@),
{
    let origin = origin_system as usize;
    if origin >= game_state.systems.len() || origin_system >= BOARD_SIZE {
        return Err(ActionError::UnknownEntity);
    }
    let actor = game_state.current_player;
    let ghost sv = views(game_state.systems@);
    match &game_state.systems[origin] {
        System::Unused => Err(ActionError::UnknownEntity),
        System::Used { building_slots, ships, .. } => {
            if find_unused(building_slots, BuildingType::Starport, &actor).is_none() {
                return Err(ActionError::NotController);
            }
            let e = match find_ships(ships, &actor) {
                None => { return Err(ActionError::UnknownEntity); },
                Some(e) => e,
            };
            let (fresh, damaged) = count_sent(&destination_systems);
            if fresh > e.fresh as u128 || damaged > e.damaged as u128 {
                return Err(ActionError::InsufficientUnits);
            }
            if !check_exist(&game_state.systems, &destination_systems) {
                return Err(ActionError::UnknownEntity);
            }
            if count_planets(&game_state.systems, &destination_systems) > 1 {
                return Err(ActionError::UnreachableTarget);
            }
            let found = search_from(&game_state.systems, get_cluster(origin_system), &actor);
            let within_reach = check_reachable(&found, &destination_systems);
            proof {
                let seed = cluster_of(origin_system);
                if within_reach {
                    assert forall|i: int| 0 <= i < destination_systems@.len() implies reachable(
                        sv,
                        actor,
                        seed,
                        (#[trigger] destination_systems@[i]).0,
                    ) by {
                        assert(found@[destination_systems@[i].0 as int]);
                    }
                } else {
                    let i = choose|i: int| 0 <= i < destination_systems@.len() && !((#[trigger] destination_systems@[i]).0
                        < found@.len() && found@[destination_systems@[i].0 as int]);
                    assert(destination_systems@[i].0 < sv.len());
                    assert(found@[destination_systems@[i].0 as int] == reachable(sv, actor, seed, destination_systems@[i].0));
                    assert(!reachable(sv, actor, seed, destination_systems@[i].0));
                }
            }
            if !within_reach {
                return Err(ActionError::UnreachableTarget);
            }
            relocate_all(game_state, origin_system, &destination_systems)
        },
    }
}

} // verus!
