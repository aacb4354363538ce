//! Territory nodes: their units, their building slots and who controls them.

use vstd::prelude::*;
use crate::data::game_state::{Color, ResourceType};
use crate::lookup::{first_index, is_first, none_satisfies, lemma_first_index_found, lemma_first_index_missing};

verus! {

/// The units that one player keeps in one node.
#[derive(Clone, Copy, Debug, PartialEq, Eq, Structural)]
pub struct Ships {
    pub player: Color,
    pub fresh: u8,
    pub damaged: u8,
}

#[derive(Clone, Copy, Debug, PartialEq, Eq, Structural)]
pub enum BuildingType {
    City,
    Starport,
}

#[derive(Clone, Copy, Debug, PartialEq, Eq, Structural)]
pub enum BuildingSlot {
    Occupied { fresh: bool, player: Color, building_type: BuildingType, used: bool },
    Empty,
}

#[derive(Clone, Copy, Debug, PartialEq, Eq, Structural)]
pub enum SystemType {
    Gate,
    Planet { resource: ResourceType },
}

/// A node of the territory graph.
#[derive(Debug, PartialEq, Eq)]
pub enum System {
    Unused,
    Used {
        system_id: u8,
        system_type: SystemType,
        building_slots: Vec<BuildingSlot>,
        ships: Vec<Ships>,
        controlled_by: Option<Color>,
        connects_to: Vec<u8>,
    },
}

/// A group of nodes that share one gate.
#[derive(Clone, Debug, PartialEq, Eq)]
pub struct Cluster {
    pub gate_id: u8,
    pub systems_id: Vec<u8>,
}

/// The mathematical value of a node.
pub enum SystemView {
    Unused,
    Used {
        system_id: u8,
        system_type: SystemType,
        building_slots: Seq<BuildingSlot>,
        ships: Seq<Ships>,
        controlled_by: Option<Color>,
        connects_to: Seq<u8>,
    },
}

impl View for System {
    type V = SystemView;

    open spec fn view(&self) -> SystemView {
        match *self {
            System::Unused => SystemView::Unused,
            System::Used { system_id, system_type, building_slots, ships, controlled_by, connects_to } => SystemView::Used {
                system_id,
                system_type,
                building_slots: building_slots@,
                ships: ships@,
                controlled_by,
                connects_to: connects_to@,
            },
        }
    }
}

// ---------------------------------------------------------------------------
// Units
// ---------------------------------------------------------------------------

/// The entry of `player` in a unit list. Unit lists are kept in seating order
/// (`seating::units_in_order`), so the entry, if there is one, stands at the
/// player's seat.
pub open spec fn ships_entry(ships: Seq<Ships>, player: Color) -> Option<Ships> {
    if player.seat() < ships.len() && ships[player.seat()].player == player {
        Some(ships[player.seat()])
    } else {
        None
    }
}

/// The unit list with `fresh` and `damaged` units added to the entry of `player`.
pub open spec fn ships_placed(ships: Seq<Ships>, player: Color, fresh: int, damaged: int) -> Seq<Ships> {
    let e = ships[player.seat()];
    ships.update(
        player.seat(),
        Ships { player, fresh: (e.fresh + fresh) as u8, damaged: (e.damaged + damaged) as u8 },
    )
}

/// The largest number of fresh units that any entry holds; zero for an empty list.
pub open spec fn max_fresh(ships: Seq<Ships>) -> int
    decreases ships.len(),
{
    if ships.len() == 0 {
        0
    } else {
        let rest = max_fresh(ships.drop_last());
        if ships.last().fresh > rest {
            ships.last().fresh as int
        } else {
            rest
        }
    }
}

/// `player` alone holds the largest number of fresh units, and that number is not zero.
pub open spec fn is_controller(ships: Seq<Ships>, player: Color) -> bool {
    &&& max_fresh(ships) > 0
    &&& exists|i: int| 0 <= i < ships.len() && (#[trigger] ships[i]).fresh == max_fresh(ships) && ships[i].player == player
    &&& forall|i: int| 0 <= i < ships.len() && (#[trigger] ships[i]).fresh == max_fresh(ships) ==> ships[i].player == player
}

/// The player who controls a node with these units: the one who alone holds
/// the most fresh units. A tie, also one at zero, leaves the node to nobody.
pub open spec fn control_of(ships: Seq<Ships>) -> Option<Color> {
    if is_controller(ships, Color::Red) {
        Some(Color::Red)
    } else if is_controller(ships, Color::Blue) {
        Some(Color::Blue)
    } else if is_controller(ships, Color::White) {
        Some(Color::White)
    } else if is_controller(ships, Color::Yellow) {
        Some(Color::Yellow)
    } else {
        None
    }
}

/// No entry holds more fresh units than `max_fresh`, and a non-empty list has an entry that holds as many.
pub proof fn lemma_max_fresh(ships: Seq<Ships>)
    ensures
        0 <= max_fresh(ships) <= 255,
        forall|i: int| 0 <= i < ships.len() ==> (#[trigger] ships[i]).fresh <= max_fresh(ships),
        ships.len() > 0 ==> exists|i: int| 0 <= i < ships.len() && (#[trigger] ships[i]).fresh == max_fresh(ships),
    decreases ships.len(),
{
    if ships.len() > 0 {
        let rest = ships.drop_last();
        lemma_max_fresh(rest);
        assert forall|i: int| 0 <= i < ships.len() implies (#[trigger] ships[i]).fresh <= max_fresh(ships) by {
            if i < ships.len() - 1 {
                assert(rest[i] == ships[i]);
            }
        }
        if ships.last().fresh > max_fresh(rest) {
            assert(ships[ships.len() - 1].fresh == max_fresh(ships));
        } else if rest.len() > 0 {
            let i = choose|i: int| 0 <= i < rest.len() && (#[trigger] rest[i]).fresh == max_fresh(rest);
            assert(ships[i] == rest[i]);
            assert(ships[i].fresh == max_fresh(ships));
        } else {
            assert(ships[ships.len() - 1].fresh == max_fresh(ships));
        }
    }
}

/// At most one player is the controller.
pub proof fn lemma_controller_unique(ships: Seq<Ships>, a: Color, b: Color)
    requires
        is_controller(ships, a),
        is_controller(ships, b),
    ensures
        a == b,
{
    let i = choose|i: int| 0 <= i < ships.len() && (#[trigger] ships[i]).fresh == max_fresh(ships) && ships[i].player == a;
    assert(ships[i].player == b);
}

/// `control_of` names a player exactly when that player is the controller.
pub proof fn lemma_control_of(ships: Seq<Ships>, player: Color)
    ensures
        control_of(ships) == Some(player) <==> is_controller(ships, player),
{
    if is_controller(ships, player) {
        if is_controller(ships, Color::Red) {
            lemma_controller_unique(ships, player, Color::Red);
        } else if is_controller(ships, Color::Blue) {
            lemma_controller_unique(ships, player, Color::Blue);
        } else if is_controller(ships, Color::White) {
            lemma_controller_unique(ships, player, Color::White);
        }
    }
}

/// Deriving control twice gives what deriving it once gives.
pub proof fn law_control_is_stable(system: SystemView)
    ensures
        system.with_control().with_control() == system.with_control(),
{
}

/// Control depends on the units alone, not on the order in which they are listed:
/// two lists that hold the same entries name the same controller.
pub proof fn law_control_depends_on_units_alone(a: Seq<Ships>, b: Seq<Ships>)
    requires
        a.to_multiset() == b.to_multiset(),
    ensures
        max_fresh(a) == max_fresh(b),
        control_of(a) == control_of(b),
{
    a.to_multiset_ensures();
    b.to_multiset_ensures();
    lemma_max_fresh(a);
    lemma_max_fresh(b);
    assert forall|i: int| 0 <= i < a.len() implies b.contains(#[trigger] a[i]) by {
        assert(a.contains(a[i]));
        assert(a.to_multiset().count(a[i]) > 0);
        assert(b.to_multiset().count(a[i]) > 0);
    }
    assert forall|i: int| 0 <= i < b.len() implies a.contains(#[trigger] b[i]) by {
        assert(b.contains(b[i]));
        assert(b.to_multiset().count(b[i]) > 0);
        assert(a.to_multiset().count(b[i]) > 0);
    }
    if a.len() > 0 {
        let i = choose|i: int| 0 <= i < a.len() && (#[trigger] a[i]).fresh == max_fresh(a);
        assert(b.contains(a[i]));
        let j = choose|j: int| 0 <= j < b.len() && b[j] == a[i];
        assert(b[j].fresh <= max_fresh(b));
        assert(b.len() > 0);
    }
    if b.len() > 0 {
        let i = choose|i: int| 0 <= i < b.len() && (#[trigger] b[i]).fresh == max_fresh(b);
        assert(a.contains(b[i]));
        let j = choose|j: int| 0 <= j < a.len() && a[j] == b[i];
        assert(a[j].fresh <= max_fresh(a));
        assert(a.len() > 0);
    }
    assert(max_fresh(a) == max_fresh(b));
    assert forall|c: Color| is_controller(a, c) == is_controller(b, c) by {
        if is_controller(a, c) {
            lemma_controller_carries_over(a, b, c);
        }
        if is_controller(b, c) {
            lemma_controller_carries_over(b, a, c);
        }
    }
}

/// A controller of one list controls every list that holds the same entries.
proof fn lemma_controller_carries_over(a: Seq<Ships>, b: Seq<Ships>, c: Color)
    requires
        max_fresh(a) == max_fresh(b),
        forall|i: int| 0 <= i < a.len() ==> b.contains(#[trigger] a[i]),
        forall|i: int| 0 <= i < b.len() ==> a.contains(#[trigger] b[i]),
        is_controller(a, c),
    ensures
        is_controller(b, c),
{
    let i = choose|i: int| 0 <= i < a.len() && (#[trigger] a[i]).fresh == max_fresh(a) && a[i].player == c;
    assert(b.contains(a[i]));
    let j = choose|j: int| 0 <= j < b.len() && b[j] == a[i];
    assert(b[j].fresh == max_fresh(b) && b[j].player == c);
    assert forall|k: int| 0 <= k < b.len() && (#[trigger] b[k]).fresh == max_fresh(b) implies b[k].player == c by {
        assert(a.contains(b[k]));
        let m = choose|m: int| 0 <= m < a.len() && a[m] == b[k];
        assert(a[m].fresh == max_fresh(a));
    }
}

/// Two players who hold the same number of fresh units, not zero, while
/// nobody holds more, leave the node without a controller.
pub proof fn law_tie_leaves_no_controller(ships: Seq<Ships>, i: int, j: int)
    requires
        0 <= i < ships.len(),
        0 <= j < ships.len(),
        ships[i].player != ships[j].player,
        ships[i].fresh == ships[j].fresh,
        ships[i].fresh > 0,
        forall|k: int| 0 <= k < ships.len() ==> (#[trigger] ships[k]).fresh <= ships[i].fresh,
    ensures
        control_of(ships) is None,
{
    lemma_max_fresh(ships);
    assert(max_fresh(ships) == ships[i].fresh) by {
        if ships.len() > 0 {
            let k = choose|k: int| 0 <= k < ships.len() && (#[trigger] ships[k]).fresh == max_fresh(ships);
            assert(ships[k].fresh <= ships[i].fresh);
            assert(ships[i].fresh <= max_fresh(ships));
        }
    }
    match control_of(ships) {
        Some(c) => {
            lemma_control_of(ships, c);
            assert(ships[i].player == c);
            assert(ships[j].player == c);
        },
        None => {},
    }
}

/// How control changes when one more entry is taken into account.
pub open spec fn control_step(best: Option<Color>, top: int, entry: Ships) -> Option<Color> {
    if entry.fresh > top {
        Some(entry.player)
    } else if entry.fresh == top && top > 0 && best != Some(entry.player) {
        None
    } else {
        best
    }
}

/// Control over a list that grew by one entry follows from control over the list before.
pub proof fn lemma_control_push(ships: Seq<Ships>, entry: Ships)
    ensures
        max_fresh(ships.push(entry)) == if entry.fresh > max_fresh(ships) {
            entry.fresh as int
        } else {
            max_fresh(ships)
        },
        control_of(ships.push(entry)) == control_step(control_of(ships), max_fresh(ships), entry),
{
    let grown = ships.push(entry);
    let top = max_fresh(ships);
    let new_top = max_fresh(grown);
    assert(grown.drop_last() =~= ships);
    assert(grown.last() == entry);
    lemma_max_fresh(ships);
    lemma_max_fresh(grown);
    let n = ships.len() as int;
    assert(grown[n] == entry);
    assert forall|i: int| 0 <= i < n implies grown[i] == ships[i] by {}
    let expected = control_step(control_of(ships), top, entry);
    assert forall|c: Color| (expected == Some(c)) <==> is_controller(grown, c) by {
        lemma_control_of(ships, c);
        lemma_control_of(ships, entry.player);
        if entry.fresh > top {
            if c == entry.player {
                assert(grown[n].fresh == new_top && grown[n].player == c);
                assert forall|i: int| 0 <= i < grown.len() && (#[trigger] grown[i]).fresh == new_top implies grown[i].player == c by {
                    if i < n {
                        assert(ships[i].fresh <= top);
                    }
                }
            } else if is_controller(grown, c) {
                assert(grown[n].fresh == new_top);
                assert(grown[n].player == c);
            }
        } else if entry.fresh == top && top > 0 {
            if is_controller(ships, c) {
                let k = choose|i: int| 0 <= i < ships.len() && (#[trigger] ships[i]).fresh == top && ships[i].player == c;
                assert(grown[k] == ships[k]);
                if c == entry.player {
                    assert(grown[k].fresh == new_top && grown[k].player == c);
                    assert forall|i: int| 0 <= i < grown.len() && (#[trigger] grown[i]).fresh == new_top implies grown[i].player == c by {
                        if i < n {
                            assert(ships[i] == grown[i]);
                        }
                    }
                } else {
                    assert(grown[n].fresh == new_top && grown[n].player != c);
                }
            } else if is_controller(grown, c) {
                assert(grown[n].fresh == new_top);
                assert(c == entry.player);
                let k = choose|i: int| 0 <= i < ships.len() && (#[trigger] ships[i]).fresh == top;
                assert(grown[k] == ships[k]);
                assert(grown[k].player == c);
                assert forall|i: int| 0 <= i < ships.len() && (#[trigger] ships[i]).fresh == top implies ships[i].player == c by {
                    assert(grown[i] == ships[i]);
                }
                assert(ships[k].fresh == top && ships[k].player == c);
                assert(is_controller(ships, c));
            }
        } else {
            if is_controller(ships, c) {
                let k = choose|i: int| 0 <= i < ships.len() && (#[trigger] ships[i]).fresh == top && ships[i].player == c;
                assert(grown[k] == ships[k]);
                assert(grown[k].fresh == new_top && grown[k].player == c);
                assert forall|i: int| 0 <= i < grown.len() && (#[trigger] grown[i]).fresh == new_top implies grown[i].player == c by {
                    if i < n {
                        assert(ships[i] == grown[i]);
                    }
                }
            } else if is_controller(grown, c) {
                let k = choose|i: int| 0 <= i < grown.len() && (#[trigger] grown[i]).fresh == new_top && grown[i].player == c;
                assert(k < n);
                assert(ships[k] == grown[k]);
                assert forall|i: int| 0 <= i < ships.len() && (#[trigger] ships[i]).fresh == top implies ships[i].player == c by {
                    assert(grown[i] == ships[i]);
                }
                assert(ships[k].fresh == top && ships[k].player == c);
            }
        }
    }
    match expected {
        Some(c) => {
            lemma_control_of(grown, c);
        },
        None => {
            match control_of(grown) {
                Some(c) => {
                    lemma_control_of(grown, c);
                },
                None => {},
            }
        },
    }
}


// ---------------------------------------------------------------------------
// Building slots
// ---------------------------------------------------------------------------

impl BuildingSlot {
    /// The slot is a building of `player` and `building_type` that was not used this round.
    pub open spec fn is_unused(self, building_type: BuildingType, player: Color) -> bool {
        match self {
            BuildingSlot::Occupied { player: p, building_type: b, used, .. } => p == player && b == building_type && !used,
            BuildingSlot::Empty => false,
        }
    }

    /// The slot is an undamaged building of `player` and `building_type` that was not used this round.
    pub open spec fn is_unused_fresh(self, building_type: BuildingType, player: Color) -> bool {
        self == (BuildingSlot::Occupied { fresh: true, player, building_type, used: false })
    }

    /// The slot is a damaged building of `player` and `building_type`.
    pub open spec fn is_damaged(self, building_type: BuildingType, player: Color) -> bool {
        match self {
            BuildingSlot::Occupied { fresh, player: p, building_type: b, .. } => !fresh && p == player && b == building_type,
            BuildingSlot::Empty => false,
        }
    }

    /// The slot with its building marked as used.
    pub open spec fn used_up(self) -> BuildingSlot {
        match self {
            BuildingSlot::Occupied { fresh, player, building_type, .. } => BuildingSlot::Occupied {
                fresh,
                player,
                building_type,
                used: true,
            },
            BuildingSlot::Empty => BuildingSlot::Empty,
        }
    }

    /// The slot with its building ready for use again.
    pub open spec fn refreshed(self) -> BuildingSlot {
        match self {
            BuildingSlot::Occupied { fresh, player, building_type, .. } => BuildingSlot::Occupied {
                fresh,
                player,
                building_type,
                used: false,
            },
            BuildingSlot::Empty => BuildingSlot::Empty,
        }
    }

    /// The slot with its building repaired.
    pub open spec fn repaired(self) -> BuildingSlot {
        match self {
            BuildingSlot::Occupied { player, building_type, used, .. } => BuildingSlot::Occupied {
                fresh: true,
                player,
                building_type,
                used,
            },
            BuildingSlot::Empty => BuildingSlot::Empty,
        }
    }

    /// Marks the building as used. An empty slot, or a building that was
    /// used already, cannot be used.
    pub fn use_building(&self) -> (r: Option<BuildingSlot>)
        ensures
            r == match *self {
                BuildingSlot::Occupied { used: false, .. } => Some(self.used_up()),
                _ => None,
            },
    {
        match *self {
            BuildingSlot::Empty => None,
            BuildingSlot::Occupied { fresh, player, building_type, used } => {
                if used {
                    None
                } else {
                    Some(BuildingSlot::Occupied { fresh, player, building_type, used: true })
                }
            },
        }
    }

    /// Makes the building ready for use again; an empty slot stays empty.
    pub fn refresh_building(&self) -> (r: BuildingSlot)
        ensures
            r == self.refreshed(),
    {
        match *self {
            BuildingSlot::Empty => BuildingSlot::Empty,
            BuildingSlot::Occupied { fresh, player, building_type, used: _ } => BuildingSlot::Occupied {
                fresh,
                player,
                building_type,
                used: false,
            },
        }
    }
}

/// The slots with the one at `index` marked as used.
pub open spec fn slots_used_at(slots: Seq<BuildingSlot>, index: int) -> Seq<BuildingSlot> {
    slots.update(index, slots[index].used_up())
}

/// The slots with every building ready for use again.
pub open spec fn slots_refreshed(slots: Seq<BuildingSlot>) -> Seq<BuildingSlot> {
    Seq::new(slots.len(), |i: int| slots[i].refreshed())
}

/// The test for an unused building of `player` and `building_type`.
pub open spec fn unused_test(building_type: BuildingType, player: Color) -> spec_fn(BuildingSlot) -> bool {
    |b: BuildingSlot| b.is_unused(building_type, player)
}

/// The test for an unused, undamaged building of `player` and `building_type`.
pub open spec fn unused_fresh_test(building_type: BuildingType, player: Color) -> spec_fn(BuildingSlot) -> bool {
    |b: BuildingSlot| b.is_unused_fresh(building_type, player)
}

/// The first slot that holds an unused building of `player` and `building_type`.
pub open spec fn first_unused(slots: Seq<BuildingSlot>, building_type: BuildingType, player: Color) -> Option<int> {
    first_index(slots, unused_test(building_type, player))
}

/// The first slot that holds an unused, undamaged building of `player` and `building_type`.
pub open spec fn first_unused_fresh(slots: Seq<BuildingSlot>, building_type: BuildingType, player: Color) -> Option<int> {
    first_index(slots, unused_fresh_test(building_type, player))
}

// ---------------------------------------------------------------------------
// Nodes
// ---------------------------------------------------------------------------

impl SystemView {
    /// `player` has at least one unit in the node.
    pub open spec fn has_presence(self, player: Color) -> bool {
        match self {
            SystemView::Unused => false,
            SystemView::Used { ships, .. } => match ships_entry(ships, player) {
                Some(e) => e.fresh >= 1 || e.damaged >= 1,
                None => false,
            },
        }
    }

    /// The fresh units of `player` in the node.
    pub open spec fn fresh_ships(self, player: Color) -> int {
        match self {
            SystemView::Unused => 0,
            SystemView::Used { ships, .. } => match ships_entry(ships, player) {
                Some(e) => e.fresh as int,
                None => 0,
            },
        }
    }

    /// All units of `player` in the node, fresh and damaged.
    pub open spec fn all_ships(self, player: Color) -> int {
        match self {
            SystemView::Unused => 0,
            SystemView::Used { ships, .. } => match ships_entry(ships, player) {
                Some(e) => e.fresh + e.damaged,
                None => 0,
            },
        }
    }

    /// The node with its controller derived anew from its units.
    pub open spec fn with_control(self) -> SystemView {
        match self {
            SystemView::Unused => SystemView::Unused,
            SystemView::Used { system_id, system_type, building_slots, ships, controlled_by, connects_to } => SystemView::Used {
                system_id,
                system_type,
                building_slots,
                ships,
                controlled_by: control_of(ships),
                connects_to,
            },
        }
    }

    /// The node with other units.
    pub open spec fn with_ships(self, new_ships: Seq<Ships>) -> SystemView {
        match self {
            SystemView::Unused => SystemView::Unused,
            SystemView::Used { system_id, system_type, building_slots, ships, controlled_by, connects_to } => SystemView::Used {
                system_id,
                system_type,
                building_slots,
                ships: new_ships,
                controlled_by,
                connects_to,
            },
        }
    }

    /// The node with other building slots.
    pub open spec fn with_slots(self, new_slots: Seq<BuildingSlot>) -> SystemView {
        match self {
            SystemView::Unused => SystemView::Unused,
            SystemView::Used { system_id, system_type, building_slots, ships, controlled_by, connects_to } => SystemView::Used {
                system_id,
                system_type,
                building_slots: new_slots,
                ships,
                controlled_by,
                connects_to,
            },
        }
    }

    /// The node after `player` used a building of `building_type`: the first
    /// such building that was not yet used is marked. `None` where there is none.
    pub open spec fn use_building(self, building_type: BuildingType, player: Color) -> Option<SystemView> {
        match self {
            SystemView::Unused => None,
            SystemView::Used { building_slots, .. } => match first_unused(building_slots, building_type, player) {
                Some(i) => Some(self.with_slots(slots_used_at(building_slots, i))),
                None => None,
            },
        }
    }

    /// The node with every building ready for use again.
    pub open spec fn refresh_buildings(self) -> SystemView {
        match self {
            SystemView::Unused => SystemView::Unused,
            SystemView::Used { building_slots, .. } => self.with_slots(slots_refreshed(building_slots)),
        }
    }

    /// The first slot with an unused, undamaged building of `player` and `building_type`.
    pub open spec fn unused_building(self, building_type: BuildingType, player: Color) -> Option<int> {
        match self {
            SystemView::Unused => None,
            SystemView::Used { building_slots, .. } => first_unused_fresh(building_slots, building_type, player),
        }
    }
}

/// The entry of `player` in a unit list, if the list has one at the player's seat.
pub fn find_ships(ships: &Vec<Ships>, player: &Color) -> (r: Option<Ships>)
    ensures
        r == ships_entry(ships@, *player),
{
    let seat = player.index();
    if seat < ships.len() {
        let e = ships[seat];
        if e.player == *player {
            Some(e)
        } else {
            None
        }
    } else {
        None
    }
}

/// The first slot that holds an unused building of `player` and `building_type`.
pub fn find_unused(slots: &Vec<BuildingSlot>, building_type: BuildingType, player: &Color) -> (r: Option<usize>)
    ensures
        match r {
            Some(i) => first_unused(slots@, building_type, *player) == Some(i as int) && i < slots@.len()
                && slots@[i as int].is_unused(building_type, *player),
            None => first_unused(slots@, building_type, *player) is None,
        },
{
    let ghost p = unused_test(building_type, *player);
    let mut i: usize = 0;
    while i < slots.len()
        invariant
            i <= slots.len(),
            p == unused_test(building_type, *player),
            forall|j: int| 0 <= j < i ==> !p(#[trigger] slots@[j]),
        decreases slots.len() - i,
    {
        let found = match slots[i] {
            BuildingSlot::Occupied { fresh: _, player: owner, building_type: kind, used } => owner == *player && kind
                == building_type && !used,
            BuildingSlot::Empty => false,
        };
        if found {
            proof {
                assert(is_first(slots@, p, i as int));
                lemma_first_index_found(slots@, p, i as int);
            }
            return Some(i);
        }
        i += 1;
    }
    proof {
        assert(none_satisfies(slots@, p));
        lemma_first_index_missing(slots@, p);
    }
    None
}

/// The first slot that holds an unused, undamaged building of `player` and `building_type`.
pub fn find_unused_fresh(slots: &Vec<BuildingSlot>, building_type: BuildingType, player: &Color) -> (r: Option<usize>)
    ensures
        match r {
            Some(i) => first_unused_fresh(slots@, building_type, *player) == Some(i as int) && i < slots@.len()
                && slots@[i as int].is_unused_fresh(building_type, *player),
            None => first_unused_fresh(slots@, building_type, *player) is None,
        },
{
    let ghost p = unused_fresh_test(building_type, *player);
    let wanted = BuildingSlot::Occupied { fresh: true, player: *player, building_type, used: false };
    let mut i: usize = 0;
    while i < slots.len()
        invariant
            i <= slots.len(),
            wanted == (BuildingSlot::Occupied { fresh: true, player: *player, building_type, used: false }),
            p == unused_fresh_test(building_type, *player),
            forall|j: int| 0 <= j < i ==> !p(#[trigger] slots@[j]),
        decreases slots.len() - i,
    {
        if slots[i] == wanted {
            proof {
                assert(is_first(slots@, p, i as int));
                lemma_first_index_found(slots@, p, i as int);
            }
            return Some(i);
        }
        i += 1;
    }
    proof {
        assert(none_satisfies(slots@, p));
        lemma_first_index_missing(slots@, p);
    }
    None
}

/// The player who alone holds the most fresh units, if there is one.
pub fn derive_control(ships: &Vec<Ships>) -> (r: Option<Color>)
    ensures
        r == control_of(ships@),
{
    let mut best: Option<Color> = None;
    let mut top: u8 = 0;
    let mut i: usize = 0;
    while i < ships.len()
        invariant
            i <= ships.len(),
            top as int == max_fresh(ships@.take(i as int)),
            best == control_of(ships@.take(i as int)),
        decreases ships.len() - i,
    {
        let e = ships[i];
        proof {
            lemma_control_push(ships@.take(i as int), e);
            assert(ships@.take(i + 1) =~= ships@.take(i as int).push(e));
        }
        if e.fresh > top {
            best = Some(e.player);
            top = e.fresh;
        } else if e.fresh == top && top > 0 && !(best == Some(e.player)) {
            best = None;
        }
        i += 1;
    }
    proof {
        assert(ships@.take(ships.len() as int) =~= ships@);
    }
    best
}

impl Clone for System {
    fn clone(&self) -> (r: Self)
        ensures
            r@ == self@,
    {
        match self {
            System::Unused => System::Unused,
            System::Used { system_id, system_type, building_slots, ships, controlled_by, connects_to } => System::Used {
                system_id: *system_id,
                system_type: *system_type,
                building_slots: building_slots.clone(),
                ships: ships.clone(),
                controlled_by: *controlled_by,
                connects_to: connects_to.clone(),
            },
        }
    }
}

impl System {
    /// Whether `player_color` has at least one unit in the node.
    pub fn has_presence(&self, player_color: &Color) -> (r: bool)
        ensures
            r == self@.has_presence(*player_color),
    {
        match self {
            System::Unused => false,
            System::Used { ships, .. } => match find_ships(ships, player_color) {
                Some(e) => e.damaged >= 1 || e.fresh >= 1,
                None => false,
            },
        }
    }

    /// Derives the controller anew from the units in the node.
    pub fn update_control(&self) -> (r: System)
        ensures
            r@ == self@.with_control(),
    {
        match self {
            System::Unused => System::Unused,
            System::Used { system_id, system_type, building_slots, ships, controlled_by: _, connects_to } => System::Used {
                system_id: *system_id,
                system_type: *system_type,
                building_slots: building_slots.clone(),
                ships: ships.clone(),
                controlled_by: derive_control(ships),
                connects_to: connects_to.clone(),
            },
        }
    }

    /// The fresh units of `color` in the node.
    pub fn get_fresh_ships(&self, color: &Color) -> (r: u8)
        ensures
            r as int == self@.fresh_ships(*color),
    {
        match self {
            System::Unused => 0,
            System::Used { ships, .. } => match find_ships(ships, color) {
                Some(e) => e.fresh,
                None => 0,
            },
        }
    }

    /// All units of `color` in the node, fresh and damaged.
    pub fn get_all_ships(&self, color: &Color) -> (r: u16)
        ensures
            r as int == self@.all_ships(*color),
    {
        match self {
            System::Unused => 0,
            System::Used { ships, .. } => match find_ships(ships, color) {
                Some(e) => {
                    let f: u16 = e.fresh.into();
                    let d: u16 = e.damaged.into();
                    f + d
                },
                None => 0,
            },
        }
    }

    /// The first slot that holds an unused, undamaged building of `color` and `building_type`.
    pub fn has_unused_building(&self, building_type: BuildingType, color: &Color) -> (r: Option<usize>)
        ensures
            match r {
                Some(i) => self@.unused_building(building_type, *color) == Some(i as int),
                None => self@.unused_building(building_type, *color) is None,
            },
    {
        match self {
            System::Unused => None,
            System::Used { building_slots, .. } => find_unused_fresh(building_slots, building_type, color),
        }
    }

    /// Marks the first building of `player_color` and kind `building` that was
    /// not yet used this round as used. `None` where the node has no such building.
    pub fn use_building(&self, building: &BuildingType, player_color: &Color) -> (r: Option<System>)
        ensures
            match r {
                Some(s) => self@.use_building(*building, *player_color) == Some(s@),
                None => self@.use_building(*building, *player_color) is None,
            },
    {
        match self {
            System::Unused => None,
            System::Used { system_id, system_type, building_slots, ships, controlled_by, connects_to } => {
                match find_unused(building_slots, *building, player_color) {
                    Some(i) => {
                        let mut slots = building_slots.clone();
                        let marked = match building_slots[i].use_building() {
                            Some(b) => b,
                            None => building_slots[i],
                        };
                        slots.set(i, marked);
                        Some(
                            System::Used {
                                system_id: *system_id,
                                system_type: *system_type,
                                building_slots: slots,
                                ships: ships.clone(),
                                controlled_by: *controlled_by,
                                connects_to: connects_to.clone(),
                            },
                        )
                    },
                    None => None,
                }
            },
        }
    }

    /// Makes every building in the node ready for use again.
    pub fn refresh_buildings(&self) -> (r: System)
        ensures
            r@ == self@.refresh_buildings(),
    {
        match self {
            System::Unused => System::Unused,
            System::Used { system_id, system_type, building_slots, ships, controlled_by, connects_to } => {
                let mut slots: Vec<BuildingSlot> = Vec::new();
                let mut i: usize = 0;
                while i < building_slots.len()
                    invariant
                        i <= building_slots.len(),
                        slots@.len() == i,
                        forall|j: int| 0 <= j < i ==> slots@[j] == building_slots@[j].refreshed(),
                    decreases building_slots.len() - i,
                {
                    slots.push(building_slots[i].refresh_building());
                    i += 1;
                }
                proof {
                    assert(slots@ =~= slots_refreshed(building_slots@));
                }
                System::Used {
                    system_id: *system_id,
                    system_type: *system_type,
                    building_slots: slots,
                    ships: ships.clone(),
                    controlled_by: *controlled_by,
                    connects_to: connects_to.clone(),
                }
            },
        }
    }
}

} // verus!
