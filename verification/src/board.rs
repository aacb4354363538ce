//! The board: clusters, the territory graph and the setup of a game.

use vstd::prelude::*;
use crate::actions::building::with_slots;
use crate::actions::{place_building, place_building_result, place_ships, place_ships_result};
use crate::data::court_cards::{CourtCard, CourtCardView, create_court_deck_with_seed, deck_in_order, is_shuffle};
use crate::data::game_state::{
    ActionCard, ActionError, Ambition, AmbitionMarker, AmbitionTypes, AmbitionView, Color, GameState, GameStateView,
    PlayerArea, PlayerAreaView, Reserve, ResourceReserve, ResourceSlot, ResourceType, TurnState, TurnStateView,
};
use crate::data::setup_cards::SetupCard;
use crate::data::system::{BuildingSlot, BuildingType, Ships, System, SystemType, SystemView};
use crate::data::{viewed, views};
use crate::lookup::contains_id;
use crate::seating::{in_seating_order, law_setup_is_in_seating_order, lemma_deck_is_in_order};

verus! {

/// The number of nodes on the board: six gates and three planets at each.
pub const BOARD_SIZE: u8 = 24;

/// The cluster of a node: a gate is its own cluster's number, and the planets
/// follow the gates in threes, cluster by cluster.
pub open spec fn cluster_of(system_id: u8) -> u8 {
    if system_id < 6 {
        system_id
    } else {
        ((system_id - 6) / 3) as u8
    }
}

/// The cluster that a node of the board belongs to.
pub fn get_cluster(system_id: u8) -> (r: u8)
    requires
        system_id < BOARD_SIZE,
    ensures
        r == cluster_of(system_id),
        r < 6,
{
    if system_id < 6 {
        system_id
    } else {
        (system_id - 6) / 3
    }
}


// ---------------------------------------------------------------------------
// The territory graph
// ---------------------------------------------------------------------------

/// The nearest gate in play before `gate` on the ring of six gates, looking
/// at most `step` gates back; `gate` itself where there is none.
pub open spec fn gate_before(out: Seq<u8>, gate: u8, step: int) -> u8
    decreases step,
{
    if step <= 0 {
        gate
    } else if out.contains(((gate + step) % 6) as u8) {
        gate_before(out, gate, step - 1)
    } else {
        ((gate + step) % 6) as u8
    }
}

/// The nearest gate in play after `gate` on the ring of six gates, looking
/// from `step` gates on; `gate` itself where there is none.
pub open spec fn gate_after(out: Seq<u8>, gate: u8, step: int) -> u8
    decreases 6 - step,
{
    if step >= 6 {
        gate
    } else if out.contains(((gate + step) % 6) as u8) {
        gate_after(out, gate, step + 1)
    } else {
        ((gate + step) % 6) as u8
    }
}

/// The resource of a planet, by its place among the eighteen planets.
pub open spec fn planet_resource(planet: int) -> ResourceType {
    if planet == 0 || planet == 4 || planet == 8 || planet == 12 {
        ResourceType::Weapons
    } else if planet == 1 || planet == 7 || planet == 10 || planet == 16 {
        ResourceType::Fuel
    } else if planet == 2 || planet == 6 || planet == 11 || planet == 15 {
        ResourceType::Material
    } else if planet == 3 || planet == 14 || planet == 17 {
        ResourceType::Psionics
    } else {
        ResourceType::Relics
    }
}

/// Whether a planet has two building slots; the others have one.
pub open spec fn planet_has_two_slots(planet: int) -> bool {
    planet == 0 || planet == 2 || planet == 5 || planet == 8 || planet == 9 || planet == 10 || planet == 14 || planet == 16
}

/// An entry without units for each of `players` players, in seating order.
pub open spec fn no_ships(players: int) -> Seq<Ships> {
    Seq::new(players as nat, |i: int| Ships { player: Color::at_seat(i), fresh: 0, damaged: 0 })
}

/// The neighbours of a gate: the gates in play before and after it, and its three planets.
pub open spec fn gate_neighbours(out: Seq<u8>, gate: u8) -> Seq<u8> {
    seq![
        gate_before(out, gate, 5),
        gate_after(out, gate, 1),
        (6 + 3 * gate) as u8,
        (7 + 3 * gate) as u8,
        (8 + 3 * gate) as u8,
    ]
}

/// The neighbours of a planet: its gate, the planets beside it in its
/// cluster, and across two borders a planet of the next cluster, if that is in play.
pub open spec fn planet_neighbours(out: Seq<u8>, planet: int) -> Seq<u8> {
    let gate = seq![(planet / 3) as u8];
    let left = if planet != 0 && planet / 3 == (planet - 1) / 3 {
        gate.push((planet + 5) as u8)
    } else {
        gate
    };
    let right = if planet / 3 == (planet + 1) / 3 {
        left.push((planet + 7) as u8)
    } else {
        left
    };
    let across = if (planet == 5 || planet == 14) && !out.contains(((planet + 1) / 3) as u8) {
        right.push((planet + 7) as u8)
    } else {
        right
    };
    if (planet == 6 || planet == 15) && !out.contains(((planet - 1) / 3) as u8) {
        across.push((planet + 5) as u8)
    } else {
        across
    }
}

/// The node at a place of the board for a setup that leaves the clusters
/// `out` out of play: six gates, then eighteen planets.
pub open spec fn reach_system(out: Seq<u8>, players: int, index: int) -> SystemView {
    if index < 6 {
        if out.contains(index as u8) {
            SystemView::Unused
        } else {
            SystemView::Used {
                system_id: index as u8,
                system_type: SystemType::Gate,
                building_slots: Seq::empty(),
                ships: no_ships(players),
                controlled_by: None,
                connects_to: gate_neighbours(out, index as u8),
            }
        }
    } else {
        let planet = index - 6;
        if out.contains((planet / 3) as u8) {
            SystemView::Unused
        } else {
            SystemView::Used {
                system_id: index as u8,
                system_type: SystemType::Planet { resource: planet_resource(planet) },
                building_slots: if planet_has_two_slots(planet) {
                    seq![BuildingSlot::Empty, BuildingSlot::Empty]
                } else {
                    seq![BuildingSlot::Empty]
                },
                ships: no_ships(players),
                controlled_by: None,
                connects_to: planet_neighbours(out, planet),
            }
        }
    }
}

/// The number of players that a setup seats: as many as it says, four at most.
pub open spec fn seated(players: u8) -> int {
    if players < 4 {
        players as int
    } else {
        4
    }
}

/// The board of a setup, before any piece is placed.
pub open spec fn reach_of(out: Seq<u8>, players: u8) -> Seq<SystemView> {
    Seq::new(BOARD_SIZE as nat, |i: int| reach_system(out, seated(players), i))
}

/// The resource of a planet.
pub fn resource_of_planet(planet: u8) -> (r: ResourceType)
    ensures
        r == planet_resource(planet as int),
{
    if planet == 0 || planet == 4 || planet == 8 || planet == 12 {
        ResourceType::Weapons
    } else if planet == 1 || planet == 7 || planet == 10 || planet == 16 {
        ResourceType::Fuel
    } else if planet == 2 || planet == 6 || planet == 11 || planet == 15 {
        ResourceType::Material
    } else if planet == 3 || planet == 14 || planet == 17 {
        ResourceType::Psionics
    } else {
        ResourceType::Relics
    }
}

/// An entry without units for each of `players` players.
pub fn empty_ships(players: u8) -> (r: Vec<Ships>)
    ensures
        r@ == no_ships(players as int),
{
    let mut out: Vec<Ships> = Vec::new();
    let mut i: u8 = 0;
    while i < players
        invariant
            i <= players,
            out@.len() == i,
            forall|j: int| 0 <= j < i ==> out@[j] == (Ships { player: Color::at_seat(j), fresh: 0, damaged: 0 }),
        decreases players - i,
    {
        out.push(Ships { player: Color::from_index(i as usize), fresh: 0, damaged: 0 });
        i += 1;
    }
    proof {
        assert(out@ =~= no_ships(players as int));
    }
    out
}

/// The neighbours of a gate.
pub(crate) fn neighbours_of_gate(out: &Vec<u8>, gate: u8) -> (r: Vec<u8>)
    requires
        gate < 6,
    ensures
        r@ == gate_neighbours(out@, gate),
{
    let mut back: u8 = 5;
    while back > 0 && contains_id(out, (gate + back) % 6)
        invariant
            back <= 5,
            gate < 6,
            gate_before(out@, gate, back as int) == gate_before(out@, gate, 5),
        decreases back,
    {
        back -= 1;
    }
    let before: u8 = if back == 0 { gate } else { (gate + back) % 6 };
    let mut on: u8 = 1;
    while on < 6 && contains_id(out, (gate + on) % 6)
        invariant
            1 <= on <= 6,
            gate < 6,
            gate_after(out@, gate, on as int) == gate_after(out@, gate, 1),
        decreases 6 - on,
    {
        on += 1;
    }
    let after: u8 = if on >= 6 { gate } else { (gate + on) % 6 };
    let mut connections: Vec<u8> = Vec::new();
    connections.push(before);
    connections.push(after);
    connections.push(6 + 3 * gate);
    connections.push(7 + 3 * gate);
    connections.push(8 + 3 * gate);
    proof {
        assert(connections@ =~= gate_neighbours(out@, gate));
    }
    connections
}

/// The neighbours of a planet.
pub(crate) fn neighbours_of_planet(out: &Vec<u8>, planet: u8) -> (r: Vec<u8>)
    requires
        planet < 18,
    ensures
        r@ == planet_neighbours(out@, planet as int),
{
    let mut connections: Vec<u8> = Vec::new();
    connections.push(planet / 3);
    if planet != 0 && planet / 3 == (planet - 1) / 3 {
        connections.push(planet + 5);
    }
    if planet / 3 == (planet + 1) / 3 {
        connections.push(planet + 7);
    }
    if (planet == 5 || planet == 14) && !contains_id(out, (planet + 1) / 3) {
        connections.push(planet + 7);
    }
    if (planet == 6 || planet == 15) && !contains_id(out, (planet - 1) / 3) {
        connections.push(planet + 5);
    }
    proof {
        assert(connections@ =~= planet_neighbours(out@, planet as int));
    }
    connections
}

/// Lays out the board of a setup: six gates on a ring, three planets at
/// each, without the clusters that are out of play.
pub fn create_reach(setup_card: &SetupCard) -> (r: Vec<System>)
    ensures
        views(r@) == reach_of(setup_card.cluster_out_of_play@, setup_card.players),
{
    let out = &setup_card.cluster_out_of_play;
    let players: u8 = if setup_card.players < 4 { setup_card.players } else { 4 };
    let mut systems: Vec<System> = Vec::new();
    let mut i: u8 = 0;
    while i < 6
        invariant
            i <= 6,
            out@ == setup_card.cluster_out_of_play@,
            players as int == seated(setup_card.players),
            systems@.len() == i,
            forall|j: int| 0 <= j < i ==> systems@[j]@ == reach_system(setup_card.cluster_out_of_play@, players as int, j),
        decreases 6 - i,
    {
        if contains_id(out, i) {
            systems.push(System::Unused);
        } else {
            systems.push(
                System::Used {
                    system_id: i,
                    system_type: SystemType::Gate,
                    building_slots: Vec::new(),
                    ships: empty_ships(players),
                    controlled_by: None,
                    connects_to: neighbours_of_gate(out, i),
                },
            );
            proof {
                assert(systems@[i as int]@->building_slots =~= Seq::<BuildingSlot>::empty());
            }
        }
        i += 1;
    }
    let mut planet: u8 = 0;
    while planet < 18
        invariant
            planet <= 18,
            out@ == setup_card.cluster_out_of_play@,
            players as int == seated(setup_card.players),
            systems@.len() == 6 + planet,
            forall|j: int| 0 <= j < 6 + planet ==> systems@[j]@ == reach_system(setup_card.cluster_out_of_play@, players as int, j),
        decreases 18 - planet,
    {
        if contains_id(out, planet / 3) {
            systems.push(System::Unused);
        } else {
            let two = planet == 0 || planet == 2 || planet == 5 || planet == 8 || planet == 9 || planet == 10 || planet == 14
                || planet == 16;
            let mut slots: Vec<BuildingSlot> = Vec::new();
            slots.push(BuildingSlot::Empty);
            if two {
                slots.push(BuildingSlot::Empty);
            }
            proof {
                if two {
                    assert(slots@ =~= seq![BuildingSlot::Empty, BuildingSlot::Empty]);
                } else {
                    assert(slots@ =~= seq![BuildingSlot::Empty]);
                }
            }
            systems.push(
                System::Used {
                    system_id: 6 + planet,
                    system_type: SystemType::Planet { resource: resource_of_planet(planet) },
                    building_slots: slots,
                    ships: empty_ships(players),
                    controlled_by: None,
                    connects_to: neighbours_of_planet(out, planet),
                },
            );
        }
        planet += 1;
    }
    proof {
        assert(views(systems@) =~= reach_of(setup_card.cluster_out_of_play@, setup_card.players));
    }
    systems
}

// ---------------------------------------------------------------------------
// The players
// ---------------------------------------------------------------------------

/// The area of a player at the start of a game.
pub open spec fn starting_area(player: Color, initiative: bool) -> PlayerAreaView {
    PlayerAreaView {
        player,
        power: 0,
        initiative,
        action_cards: Seq::empty(),
        guild_cards: Seq::empty(),
        reserve: Reserve { ships: 15, agents: 10, starports: 5, cities: 5 },
        resource_slots: seq![
            ResourceSlot::Unused { keys: 3 },
            ResourceSlot::Unused { keys: 1 },
            ResourceSlot::Covered { keys: 1 },
            ResourceSlot::Covered { keys: 2 },
            ResourceSlot::Covered { keys: 1 },
            ResourceSlot::Covered { keys: 3 },
        ],
        captives: Seq::empty(),
        tropies: Seq::empty(),
    }
}

/// The area of a player at the start of a game; nobody holds the initiative yet.
pub fn setup_player_area(player_color: &Color) -> (r: PlayerArea)
    ensures
        r@ == starting_area(*player_color, false),
{
    let mut resource_slots: Vec<ResourceSlot> = Vec::new();
    resource_slots.push(ResourceSlot::Unused { keys: 3 });
    resource_slots.push(ResourceSlot::Unused { keys: 1 });
    resource_slots.push(ResourceSlot::Covered { keys: 1 });
    resource_slots.push(ResourceSlot::Covered { keys: 2 });
    resource_slots.push(ResourceSlot::Covered { keys: 1 });
    resource_slots.push(ResourceSlot::Covered { keys: 3 });
    let area = PlayerArea {
        player: *player_color,
        power: 0,
        initiative: false,
        action_cards: Vec::new(),
        guild_cards: Vec::new(),
        reserve: Reserve { ships: 15, agents: 10, starports: 5, cities: 5 },
        resource_slots,
        captives: Vec::new(),
        tropies: Vec::new(),
    };
    proof {
        assert(area@.resource_slots =~= starting_area(*player_color, false).resource_slots);
        assert(area@.action_cards =~= starting_area(*player_color, false).action_cards);
        assert(area@.guild_cards =~= starting_area(*player_color, false).guild_cards);
        assert(area@.captives =~= starting_area(*player_color, false).captives);
        assert(area@.tropies =~= starting_area(*player_color, false).tropies);
    }
    area
}

// ---------------------------------------------------------------------------
// The setup of a game
// ---------------------------------------------------------------------------

/// The nodes after `color` settled in the node `id`: with a building, if one
/// is given, and with `ships` fresh ships.
pub open spec fn settle_result(systems: Seq<SystemView>, id: u8, color: Color, building: Option<BuildingType>, ships: u8) -> Result<Seq<SystemView>, ActionError> {
    if id >= systems.len() {
        Err(ActionError::UnknownEntity)
    } else {
        match systems[id as int] {
            SystemView::Unused => Err(ActionError::UnknownEntity),
            SystemView::Used { building_slots, ships: units, .. } => {
                let slots = match building {
                    Some(building_type) => place_building_result(
                        building_slots,
                        BuildingSlot::Occupied { fresh: true, player: color, building_type, used: false },
                    ),
                    None => Ok(building_slots),
                };
                match slots {
                    Err(e) => Err(e),
                    Ok(slots) => match place_ships_result(units, color, ships, 0) {
                        Err(e) => Err(e),
                        Ok(placed) => Ok(systems.update(id as int, systems[id as int].with_slots(slots).with_ships(placed))),
                    },
                }
            },
        }
    }
}

/// The nodes after the first `n` locations of a list were settled, by the
/// players in seating order, round and round.
pub open spec fn settled_all(systems: Seq<SystemView>, locations: Seq<u8>, players: int, building: Option<BuildingType>, ships: u8, n: int) -> Result<Seq<SystemView>, ActionError>
    decreases n,
{
    if n <= 0 {
        Ok(systems)
    } else {
        match settled_all(systems, locations, players, building, ships, n - 1) {
            Err(e) => Err(e),
            Ok(before) => settle_result(before, locations[n - 1], Color::at_seat((n - 1) % players), building, ships),
        }
    }
}

/// The smaller of two numbers.
pub open spec fn least(a: int, b: int) -> int {
    if a < b {
        a
    } else {
        b
    }
}

/// The nodes with their controllers derived from their units.
pub open spec fn all_with_control(systems: Seq<SystemView>) -> Seq<SystemView> {
    Seq::new(systems.len(), |i: int| systems[i].with_control())
}

/// The board of a setup with the starting pieces on it: for each player a
/// city with three ships at the first kind of location, a starport with
/// three ships at the second, and two ships at each location of the third
/// kind, which the players take in turns.
pub open spec fn starting_board(card: SetupCard) -> Result<Seq<SystemView>, ActionError> {
    let n = card.players as int;
    match settled_all(
        reach_of(card.cluster_out_of_play@, card.players),
        card.a_locations@,
        n,
        Some(BuildingType::City),
        3,
        least(card.a_locations@.len() as int, n),
    ) {
        Err(e) => Err(e),
        Ok(a) => match settled_all(a, card.b_locations@, n, Some(BuildingType::Starport), 3, least(card.b_locations@.len() as int, n)) {
            Err(e) => Err(e),
            Ok(b) => match settled_all(b, card.c_locations@, n, None, 2, least(card.c_locations@.len() as int, 2 * n)) {
                Err(e) => Err(e),
                Ok(c) => Ok(all_with_control(c)),
            },
        },
    }
}

/// The markers that ambitions are declared with.
pub open spec fn starting_markers() -> Seq<AmbitionMarker> {
    seq![
        AmbitionMarker { first_place: 2, second_place: 0, flipped: false, first_place_flipped: 4, second_place_flipped: 2 },
        AmbitionMarker { first_place: 3, second_place: 2, flipped: false, first_place_flipped: 6, second_place_flipped: 4 },
        AmbitionMarker { first_place: 5, second_place: 3, flipped: false, first_place_flipped: 9, second_place_flipped: 5 },
    ]
}

/// A scoring track with nothing on it.
pub open spec fn empty_track(ambition_type: AmbitionTypes) -> AmbitionView {
    AmbitionView { ambition_type, markers: Seq::empty(), discarded_resources: Seq::empty() }
}

/// The state of a game at its start, with the court deck `deck`. A game has
/// one to four players; Red begins and holds the initiative.
pub open spec fn setup_result(card: SetupCard, deck: Seq<CourtCardView>) -> Result<GameStateView, ActionError> {
    if card.players == 0 || card.players > 4 {
        Err(ActionError::UnknownEntity)
    } else {
        match starting_board(card) {
            Err(e) => Err(e),
            Ok(systems) => Ok(
                GameStateView {
                    players: Seq::new(card.players as nat, |i: int| starting_area(Color::at_seat(i), i == 0)),
                    current_player: Color::Red,
                    players_in_round: card.players,
                    initiative: Color::Red,
                    seized: None,
                    zero_marker: false,
                    turn_state: TurnStateView::TrickTaking,
                    next_turn_states: Seq::empty(),
                    chapter: 1,
                    systems,
                    resource_reserve: ResourceReserve { fuel: 5, material: 5, weapons: 5, relics: 5, psionics: 5 },
                    court: Seq::empty(),
                    court_draw_pile: deck,
                    court_discard_pile: Seq::empty(),
                    action_discard: Seq::empty(),
                    lead_card: None,
                    follow_cards: Seq::empty(),
                    ambition_markers: starting_markers(),
                    ambitions: seq![
                        empty_track(AmbitionTypes::Tycoon),
                        empty_track(AmbitionTypes::Tyrant),
                        empty_track(AmbitionTypes::Warlord),
                        empty_track(AmbitionTypes::Keeper),
                        empty_track(AmbitionTypes::Empath),
                    ],
                }.redraw_court_cards(),
            ),
        }
    }
}

/// Settles one location for `color`.
pub fn settle(systems: Vec<System>, id: u8, color: &Color, building: Option<BuildingType>, ships: u8) -> (r: Result<Vec<System>, ActionError>)
    ensures
        match r {
            Ok(after) => settle_result(views(systems@), id, *color, building, ships) == Ok::<Seq<SystemView>, ActionError>(views(after@)),
            Err(e) => settle_result(views(systems@), id, *color, building, ships) == Err::<Seq<SystemView>, ActionError>(e),
        },
{
    let index = id as usize;
    if index >= systems.len() {
        return Err(ActionError::UnknownEntity);
    }
    let ghost before = views(systems@);
    proof {
        assert(before[id as int] == systems@[id as int]@);
    }
    let settled = match &systems[index] {
        System::Unused => { return Err(ActionError::UnknownEntity); },
        System::Used { system_id, system_type, building_slots, ships: units, controlled_by, connects_to } => {
            let slots = match building {
                Some(building_type) => match place_building(
                    building_slots,
                    BuildingSlot::Occupied { fresh: true, player: *color, building_type, used: false },
                ) {
                    Err(e) => { return Err(e); },
                    Ok(slots) => slots,
                },
                None => building_slots.clone(),
            };
            let placed = match place_ships(units, color, ships, 0) {
                Err(e) => { return Err(e); },
                Ok(placed) => placed,
            };
            System::Used {
                system_id: *system_id,
                system_type: *system_type,
                building_slots: slots,
                ships: placed,
                controlled_by: *controlled_by,
                connects_to: connects_to.clone(),
            }
        },
    };
    let mut after = systems;
    let ghost settled_view = settled@;
    after.set(index, settled);
    proof {
        assert(views(after@) =~= before.update(id as int, settled_view));
    }
    Ok(after)
}

/// Once settling has failed for the first locations, it fails in the same way for all of them.
pub proof fn lemma_settling_failure_stays(systems: Seq<SystemView>, locations: Seq<u8>, players: int, building: Option<BuildingType>, ships: u8, n: int, m: int)
    requires
        0 <= n <= m,
        settled_all(systems, locations, players, building, ships, n) is Err,
    ensures
        settled_all(systems, locations, players, building, ships, m) == settled_all(systems, locations, players, building, ships, n),
    decreases m - n,
{
    if n < m {
        lemma_settling_failure_stays(systems, locations, players, building, ships, n, m - 1);
    }
}

/// Settles the first `count` locations of a list, by the players in seating order, round and round.
pub(crate) fn settle_all(systems: Vec<System>, locations: &Vec<u8>, players: u8, building: Option<BuildingType>, ships: u8, count: usize) -> (r: Result<Vec<System>, ActionError>)
    requires
        1 <= players <= 4,
        count <= locations@.len(),
    ensures
        match r {
            Ok(after) => settled_all(views(systems@), locations@, players as int, building, ships, count as int) == Ok::<
                Seq<SystemView>,
                ActionError,
            >(views(after@)),
            Err(e) => settled_all(views(systems@), locations@, players as int, building, ships, count as int) == Err::<
                Seq<SystemView>,
                ActionError,
            >(e),
        },
{
    let ghost start = views(systems@);
    let mut current = systems;
    let mut i: usize = 0;
    while i < count
        invariant
            i <= count <= locations@.len(),
            1 <= players <= 4,
            start == views(systems@),
            settled_all(start, locations@, players as int, building, ships, i as int) == Ok::<Seq<SystemView>, ActionError>(
                views(current@),
            ),
        decreases count - i,
    {
        let color = Color::from_index(i % (players as usize));
        proof {
            assert(((i as int) % (players as int)) % 4 == (i as int) % (players as int));
        }
        match settle(current, locations[i], &color, building, ships) {
            Err(e) => {
                proof {
                    lemma_settling_failure_stays(start, locations@, players as int, building, ships, i + 1, count as int);
                }
                return Err(e);
            },
            Ok(after) => {
                current = after;
            },
        }
        i += 1;
    }
    Ok(current)
}

/// Derives the controller of every node from its units.
pub fn update_all_control(systems: &Vec<System>) -> (r: Vec<System>)
    ensures
        views(r@) == all_with_control(views(systems@)),
{
    let mut out: Vec<System> = Vec::new();
    let mut i: usize = 0;
    while i < systems.len()
        invariant
            i <= systems.len(),
            out@.len() == i,
            forall|j: int| 0 <= j < i ==> out@[j]@ == systems@[j]@.with_control(),
        decreases systems.len() - i,
    {
        out.push(systems[i].update_control());
        i += 1;
    }
    proof {
        assert(views(out@) =~= all_with_control(views(systems@)));
    }
    out
}

/// Places the starting pieces of a setup for one to four players on its board.
pub(crate) fn settle_board(setup_card: &SetupCard) -> (r: Result<Vec<System>, ActionError>)
    requires
        1 <= setup_card.players <= 4,
    ensures
        match r {
            Ok(systems) => starting_board(*setup_card) == Ok::<Seq<SystemView>, ActionError>(views(systems@)),
            Err(e) => starting_board(*setup_card) == Err::<Seq<SystemView>, ActionError>(e),
        },
{
    let n = setup_card.players;
    let players = n as usize;
    let reach = create_reach(setup_card);
    let a_count = if setup_card.a_locations.len() < players { setup_card.a_locations.len() } else { players };
    let a = match settle_all(reach, &setup_card.a_locations, n, Some(BuildingType::City), 3, a_count) {
        Err(e) => { return Err(e); },
        Ok(a) => a,
    };
    let b_count = if setup_card.b_locations.len() < players { setup_card.b_locations.len() } else { players };
    let b = match settle_all(a, &setup_card.b_locations, n, Some(BuildingType::Starport), 3, b_count) {
        Err(e) => { return Err(e); },
        Ok(b) => b,
    };
    let c_count = if setup_card.c_locations.len() < 2 * players { setup_card.c_locations.len() } else { 2 * players };
    let c = match settle_all(b, &setup_card.c_locations, n, None, 2, c_count) {
        Err(e) => { return Err(e); },
        Ok(c) => c,
    };
    Ok(update_all_control(&c))
}

/// A scoring track with nothing on it.
pub fn new_track(ambition_type: AmbitionTypes) -> (r: Ambition)
    ensures
        r@ == empty_track(ambition_type),
{
    let track = Ambition { ambition_type, markers: Vec::new(), discarded_resources: Vec::new() };
    proof {
        assert(track@.markers =~= Seq::<AmbitionMarker>::empty());
        assert(track@.discarded_resources =~= Seq::<ResourceType>::empty());
    }
    track
}

/// Sets up a game with a court deck that is given.
pub fn setup_game_with_deck(setup_card: &SetupCard, deck: Vec<CourtCard>) -> (r: Result<GameState, ActionError>)
    ensures
        viewed(r) == setup_result(*setup_card, views(deck@)),
{
    if setup_card.players == 0 || setup_card.players > 4 {
        return Err(ActionError::UnknownEntity);
    }
    let systems = match settle_board(setup_card) {
        Err(e) => { return Err(e); },
        Ok(systems) => systems,
    };
    let mut players: Vec<PlayerArea> = Vec::new();
    let mut i: u8 = 0;
    while i < setup_card.players
        invariant
            i <= setup_card.players <= 4,
            players@.len() == i,
            forall|j: int| 0 <= j < i ==> players@[j]@ == starting_area(Color::at_seat(j), j == 0),
        decreases setup_card.players - i,
    {
        let mut area = setup_player_area(&Color::from_index(i as usize));
        if i == 0 {
            area.initiative = true;
        }
        players.push(area);
        i += 1;
    }
    let mut ambition_markers: Vec<AmbitionMarker> = Vec::new();
    ambition_markers.push(
        AmbitionMarker { first_place: 2, second_place: 0, flipped: false, first_place_flipped: 4, second_place_flipped: 2 },
    );
    ambition_markers.push(
        AmbitionMarker { first_place: 3, second_place: 2, flipped: false, first_place_flipped: 6, second_place_flipped: 4 },
    );
    ambition_markers.push(
        AmbitionMarker { first_place: 5, second_place: 3, flipped: false, first_place_flipped: 9, second_place_flipped: 5 },
    );
    let mut ambitions: Vec<Ambition> = Vec::new();
    ambitions.push(new_track(AmbitionTypes::Tycoon));
    ambitions.push(new_track(AmbitionTypes::Tyrant));
    ambitions.push(new_track(AmbitionTypes::Warlord));
    ambitions.push(new_track(AmbitionTypes::Keeper));
    ambitions.push(new_track(AmbitionTypes::Empath));
    let g = GameState {
        players,
        current_player: Color::Red,
        players_in_round: setup_card.players,
        initiative: Color::Red,
        seized: None,
        zero_marker: false,
        turn_state: TurnState::TrickTaking,
        next_turn_states: Vec::new(),
        chapter: 1,
        systems,
        resource_reserve: ResourceReserve { fuel: 5, material: 5, weapons: 5, relics: 5, psionics: 5 },
        court: Vec::new(),
        court_draw_pile: deck,
        court_discard_pile: Vec::new(),
        action_discard: Vec::new(),
        lead_card: None,
        follow_cards: Vec::new(),
        ambition_markers,
        ambitions,
    };
    proof {
        let v = g@;
        assert(v.players =~= Seq::new(setup_card.players as nat, |i: int| starting_area(Color::at_seat(i), i == 0)));
        assert(v.next_turn_states =~= Seq::<TurnStateView>::empty());
        assert(v.court =~= Seq::<CourtCardView>::empty());
        assert(v.court_discard_pile =~= Seq::<CourtCardView>::empty());
        assert(v.action_discard =~= Seq::<ActionCard>::empty());
        assert(v.follow_cards =~= Seq::<(ActionCard, bool, Color)>::empty());
        assert(v.ambition_markers =~= starting_markers());
        assert(v.ambitions =~= seq![
            empty_track(AmbitionTypes::Tycoon),
            empty_track(AmbitionTypes::Tyrant),
            empty_track(AmbitionTypes::Warlord),
            empty_track(AmbitionTypes::Keeper),
            empty_track(AmbitionTypes::Empath),
        ]);
    }
    Ok(g.redraw_court_cards())
}

/// The players of a setup, in seating order.
pub fn seat_players(count: u8) -> (r: Vec<Color>)
    ensures
        r@ == Seq::new(seated(count) as nat, |i: int| Color::at_seat(i)),
{
    let n: u8 = if count < 4 { count } else { 4 };
    let mut out: Vec<Color> = Vec::new();
    let mut i: u8 = 0;
    while i < n
        invariant
            i <= n,
            out@.len() == i,
            forall|j: int| 0 <= j < i ==> out@[j] == Color::at_seat(j),
        decreases n - i,
    {
        out.push(Color::from_index(i as usize));
        i += 1;
    }
    proof {
        assert(out@ =~= Seq::new(seated(count) as nat, |i: int| Color::at_seat(i)));
    }
    out
}

/// Sets up a game whose court deck is shuffled by a generator made from
/// `seed`. Whatever the shuffle gives, the deck holds every card of the
/// catalog once.
pub fn setup_game_with_set_seed(setup_card: &SetupCard, seed: u64) -> (r: Result<GameState, ActionError>)
    ensures
        exists|order: Seq<u8>| #[trigger] is_shuffle(order) && viewed(r) == setup_result(
            *setup_card,
            deck_in_order(order, Seq::new(seated(setup_card.players) as nat, |i: int| Color::at_seat(i))),
        ),
        r is Ok ==> in_seating_order(r.unwrap()@),
{
    let deck = create_court_deck_with_seed(seat_players(setup_card.players), seed);
    proof {
        let order = choose|order: Seq<u8>| #[trigger] is_shuffle(order) && views(deck@) == deck_in_order(
            order,
            Seq::new(seated(setup_card.players) as nat, |i: int| Color::at_seat(i)),
        );
        lemma_deck_is_in_order(order, setup_card.players);
        if setup_result(*setup_card, views(deck@)) is Ok {
            law_setup_is_in_seating_order(*setup_card, views(deck@));
        }
    }
    setup_game_with_deck(setup_card, deck)
}

/// Sets up a game with the court deck shuffled as the standard setup shuffles it.
pub fn setup_game(setup_card: &SetupCard) -> (r: Result<GameState, ActionError>)
    ensures
        exists|order: Seq<u8>| #[trigger] is_shuffle(order) && viewed(r) == setup_result(
            *setup_card,
            deck_in_order(order, Seq::new(seated(setup_card.players) as nat, |i: int| Color::at_seat(i))),
        ),
        r is Ok ==> in_seating_order(r.unwrap()@),
{
    setup_game_with_set_seed(setup_card, 42)
}

} // verus!
