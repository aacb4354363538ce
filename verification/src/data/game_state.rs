//! Players, cards, resources and the root game-state aggregate.

use vstd::prelude::*;
use crate::data::court_cards::{CourtCard, CourtCardView, Guild, VoxPayload};
use crate::data::system::{System, SystemView};
use crate::data::{viewed, views};
use crate::lookup::{
    first_index, is_first, none_satisfies, lemma_first_index_found, lemma_first_index_meaning, lemma_first_index_missing,
};

verus! {

/// Why an action was rejected.
#[derive(Clone, Copy, Debug, PartialEq, Eq, Structural)]
pub enum ActionError {
    /// The action is not valid in the current turn state.
    IllegalPhase,
    /// A main action was asked for with no pip left.
    NoPipsLeft,
    /// The resource spent in the prelude does not pay for the action under the lead card.
    IncompatibleResource,
    /// More units were to be removed from a node than the player has there.
    InsufficientUnits,
    /// More pieces were to be taken from a reserve than it holds.
    InsufficientReserve,
    /// The destination of a move is not a neighbour of its origin.
    NotAdjacent,
    /// A catapult destination cannot be reached.
    UnreachableTarget,
    /// Every building slot of the node is occupied.
    NoSlotAvailable,
    /// The node has no building slots.
    NoSlots,
    /// A resource was to be put into a covered slot.
    SlotCovered,
    /// Nothing in the node can be repaired as asked.
    NoRepairTarget,
    /// More dice than the attacker has units in the node.
    TooManyDice,
    /// The attacked player has no unit in the node.
    NoTargetPresence,
    /// The acting player lacks the control that the action needs.
    NotController,
    /// The payload does not fit the effect of the card.
    PayloadMismatch,
    /// A player, node, card or slot that does not exist.
    UnknownEntity,
    /// The acting player has no unit in the node.
    NoPresence,
    /// The card may not be played this way.
    IllegalCard,
    /// The node holds no unused, undamaged building of the kind and owner asked for.
    NoUnusedBuilding,
    /// The allocation uses a slot twice, or more slots or resources than there are.
    InvalidAllocation,
    /// A count would leave the range of its type.
    CountOverflow,
}

/// A player identity. The declaration order is the fixed seating order.
#[derive(Clone, Copy, Debug, PartialEq, Eq, Hash, Structural)]
pub enum Color {
    Red,
    Blue,
    White,
    Yellow,
}

impl Color {
    /// The seat of a player in the fixed seating order.
    pub open spec fn seat(self) -> int {
        match self {
            Color::Red => 0,
            Color::Blue => 1,
            Color::White => 2,
            Color::Yellow => 3,
        }
    }

    /// The player sitting at `seat`; seats wrap around after the fourth.
    pub open spec fn at_seat(seat: int) -> Color {
        if seat % 4 == 0 {
            Color::Red
        } else if seat % 4 == 1 {
            Color::Blue
        } else if seat % 4 == 2 {
            Color::White
        } else {
            Color::Yellow
        }
    }

    /// The seat of the player.
    pub fn index(&self) -> (r: usize)
        ensures
            r as int == self.seat(),
    {
        match self {
            Color::Red => 0,
            Color::Blue => 1,
            Color::White => 2,
            Color::Yellow => 3,
        }
    }

    /// The player at a seat.
    pub fn from_index(index: usize) -> (r: Color)
        ensures
            r == Color::at_seat(index as int),
    {
        let m: usize = index % 4;
        if m == 0 {
            Color::Red
        } else if m == 1 {
            Color::Blue
        } else if m == 2 {
            Color::White
        } else {
            Color::Yellow
        }
    }
}

#[derive(Clone, Copy, Debug, PartialEq, Eq, Hash, Structural)]
pub enum ResourceType {
    Fuel,
    Material,
    Weapons,
    Relics,
    Psionics,
}

/// What a player hands to a Guild card's prelude effect.
#[derive(Clone, Debug, PartialEq, Eq)]
pub enum PreludeActionPayload {
    Interest { target_resource: ResourceType, steal_from: Vec<(Color, u8)> },
    Steal { target_resource: ResourceType, target_player: ResourceType },
    Union { card_type: ActionType },
    PlaceShips { target_system: u8 },
    Farseers { cards: Vec<ActionCard> },
    RelicFence { target_resource: ResourceType },
    SilverTounges,
    ElderBroker,
    GateKeepers,
}

/// One of a player's numbered places for a resource. A covered slot holds nothing.
#[derive(Clone, Copy, Debug, PartialEq, Eq, Structural)]
pub enum ResourceSlot {
    Used { keys: u8, resource: ResourceType },
    Unused { keys: u8 },
    Covered { keys: u8 },
}

/// The agents of one player, on a card or held captive.
#[derive(Clone, Copy, Debug, PartialEq, Eq, Structural)]
pub struct Agents {
    pub color: Color,
    pub count: u8,
}

/// Captured pieces of one kind, taken from one player.
#[derive(Clone, Copy, Debug, PartialEq, Eq, Structural)]
pub struct Trophy {
    pub trophy_type: ReserveType,
    pub count: u8,
    pub player: Color,
}

#[derive(Clone, Copy, Debug, PartialEq, Eq, Structural)]
pub enum BuildType {
    Starport,
    City,
    Ship,
}

#[derive(Clone, Copy, Debug, PartialEq, Eq, Structural)]
pub enum Dice {
    Skirmish,
    Assault,
    Raid,
}

/// What takes hits on the attacker's own side.
#[derive(Clone, Copy, Debug, PartialEq, Eq, Structural)]
pub enum HitTarget {
    /// A damaged unit, which takes one hit.
    Damaged,
    /// A fresh unit, which takes one hit.
    Fresh,
    /// A unit that is destroyed, which takes two hits.
    Destroyed,
    /// A building in the given slot. The attacker's own buildings take no hits.
    Building { slot: u8 },
}

/// The primitive actions.
#[derive(Clone, Debug, PartialEq, Eq)]
pub enum BasicAction {
    Build { target_system: u8, build_type: BuildType },
    Repair { target_system: u8, build_type: BuildType },
    Tax { target_system: u8, target_player: Color },
    Influence { card_id: u8 },
    Move { origin_id: u8, destination_id: u8, fresh_ships: u8, damaged_ships: u8 },
    Catapult { origin_system: u8, destination_systems: Vec<(u8, u8, u8)> },
    Secure { card_id: u8, vox_payload: Option<VoxPayload> },
    Battle { target_system: u8, target_player: Color, dice: Vec<Dice> },
}

/// The action vocabulary of the engine. `Pass` belongs to the vocabulary, but
/// no phase accepts it.
#[derive(Clone, Debug, PartialEq, Eq)]
pub enum Action {
    PlayLeadCard { card: ActionCard, declare: Option<AmbitionTypes> },
    Pass,
    Surpass { card: ActionCard, seize: Option<ActionCard> },
    Copy { card: ActionCard, seize: Option<ActionCard> },
    Pivot { card: ActionCard, seize: Option<ActionCard> },
    PreludeResourceAction { basic_action: BasicAction, used_resource: u8 },
    EndPrelude,
    MainAction { basic_action: BasicAction },
    AllocateResources { configuration: Vec<(u8, ResourceType)> },
    AllocateDiceResults { own_hits: Vec<HitTarget> },
    EndTurn,
}

#[derive(Clone, Copy, Debug, PartialEq, Eq, Hash, Structural)]
pub enum ActionType {
    Administration,
    Agression,
    Construction,
    Mobilization,
}

/// A turn-order card.
#[derive(Clone, Copy, Debug, PartialEq, Eq, Structural)]
pub struct ActionCard {
    pub action_type: ActionType,
    pub number: u8,
    pub pips: u8,
    pub declared_ambition: Option<AmbitionTypes>,
}

/// The kinds of pieces that a player keeps in reserve.
#[derive(Clone, Copy, Debug, PartialEq, Eq, Hash, Structural)]
pub enum ReserveType {
    Ships,
    Agents,
    Starports,
    Cities,
}

/// A player's reserve of pieces, by kind.
#[derive(Clone, Copy, Debug, PartialEq, Eq, Structural)]
pub struct Reserve {
    pub ships: u8,
    pub agents: u8,
    pub starports: u8,
    pub cities: u8,
}

impl Reserve {
    /// The number of pieces of a kind.
    pub open spec fn count(self, kind: ReserveType) -> u8 {
        match kind {
            ReserveType::Ships => self.ships,
            ReserveType::Agents => self.agents,
            ReserveType::Starports => self.starports,
            ReserveType::Cities => self.cities,
        }
    }

    /// The reserve with another number of pieces of a kind.
    pub open spec fn with_count(self, kind: ReserveType, value: u8) -> Reserve {
        match kind {
            ReserveType::Ships => Reserve { ships: value, ..self },
            ReserveType::Agents => Reserve { agents: value, ..self },
            ReserveType::Starports => Reserve { starports: value, ..self },
            ReserveType::Cities => Reserve { cities: value, ..self },
        }
    }

    /// The number of pieces of a kind.
    pub fn get(&self, kind: &ReserveType) -> (r: u8)
        ensures
            r == self.count(*kind),
    {
        match kind {
            ReserveType::Ships => self.ships,
            ReserveType::Agents => self.agents,
            ReserveType::Starports => self.starports,
            ReserveType::Cities => self.cities,
        }
    }

    /// The reserve with another number of pieces of a kind.
    pub fn with(&self, kind: &ReserveType, value: u8) -> (r: Reserve)
        ensures
            r == self.with_count(*kind, value),
    {
        match kind {
            ReserveType::Ships => Reserve { ships: value, agents: self.agents, starports: self.starports, cities: self.cities },
            ReserveType::Agents => Reserve { ships: self.ships, agents: value, starports: self.starports, cities: self.cities },
            ReserveType::Starports => Reserve { ships: self.ships, agents: self.agents, starports: value, cities: self.cities },
            ReserveType::Cities => Reserve { ships: self.ships, agents: self.agents, starports: self.starports, cities: value },
        }
    }
}

/// The shared reserve of resources, by kind.
#[derive(Clone, Copy, Debug, PartialEq, Eq, Structural)]
pub struct ResourceReserve {
    pub fuel: u8,
    pub material: u8,
    pub weapons: u8,
    pub relics: u8,
    pub psionics: u8,
}

impl ResourceReserve {
    /// The number of resources of a kind.
    pub open spec fn count(self, kind: ResourceType) -> u8 {
        match kind {
            ResourceType::Fuel => self.fuel,
            ResourceType::Material => self.material,
            ResourceType::Weapons => self.weapons,
            ResourceType::Relics => self.relics,
            ResourceType::Psionics => self.psionics,
        }
    }

    /// The reserve with another number of resources of a kind.
    pub open spec fn with_count(self, kind: ResourceType, value: u8) -> ResourceReserve {
        match kind {
            ResourceType::Fuel => ResourceReserve { fuel: value, ..self },
            ResourceType::Material => ResourceReserve { material: value, ..self },
            ResourceType::Weapons => ResourceReserve { weapons: value, ..self },
            ResourceType::Relics => ResourceReserve { relics: value, ..self },
            ResourceType::Psionics => ResourceReserve { psionics: value, ..self },
        }
    }

    /// The number of resources of a kind.
    pub fn get(&self, kind: &ResourceType) -> (r: u8)
        ensures
            r == self.count(*kind),
    {
        match kind {
            ResourceType::Fuel => self.fuel,
            ResourceType::Material => self.material,
            ResourceType::Weapons => self.weapons,
            ResourceType::Relics => self.relics,
            ResourceType::Psionics => self.psionics,
        }
    }

    /// The reserve with another number of resources of a kind.
    pub fn with(&self, kind: &ResourceType, value: u8) -> (r: ResourceReserve)
        ensures
            r == self.with_count(*kind, value),
    {
        let mut out = *self;
        match kind {
            ResourceType::Fuel => { out.fuel = value; },
            ResourceType::Material => { out.material = value; },
            ResourceType::Weapons => { out.weapons = value; },
            ResourceType::Relics => { out.relics = value; },
            ResourceType::Psionics => { out.psionics = value; },
        }
        out
    }
}

/// A marker that sets the points of an ambition.
#[derive(Clone, Copy, Debug, PartialEq, Eq, Structural)]
pub struct AmbitionMarker {
    pub first_place: u8,
    pub second_place: u8,
    pub flipped: bool,
    pub first_place_flipped: u8,
    pub second_place_flipped: u8,
}

#[derive(Clone, Copy, Debug, PartialEq, Eq, Hash, Structural)]
pub enum AmbitionTypes {
    Tycoon,
    Tyrant,
    Warlord,
    Keeper,
    Empath,
}

/// A scoring track with the markers claimed on it.
#[derive(Debug, PartialEq, Eq)]
pub struct Ambition {
    pub ambition_type: AmbitionTypes,
    pub markers: Vec<AmbitionMarker>,
    pub discarded_resources: Vec<ResourceType>,
}

/// The mathematical value of a scoring track.
pub struct AmbitionView {
    pub ambition_type: AmbitionTypes,
    pub markers: Seq<AmbitionMarker>,
    pub discarded_resources: Seq<ResourceType>,
}

impl View for Ambition {
    type V = AmbitionView;

    open spec fn view(&self) -> AmbitionView {
        AmbitionView {
            ambition_type: self.ambition_type,
            markers: self.markers@,
            discarded_resources: self.discarded_resources@,
        }
    }
}

impl Clone for Ambition {
    fn clone(&self) -> (r: Self)
        ensures
            r@ == self@,
    {
        Ambition {
            ambition_type: self.ambition_type,
            markers: self.markers.clone(),
            discarded_resources: self.discarded_resources.clone(),
        }
    }
}

/// The phase of a turn.
#[derive(Debug, PartialEq, Eq)]
pub enum TurnState {
    TrickTaking,
    Prelude { action_type: ActionType, pips_left: u8 },
    Actions { action_type: ActionType, pips_left: u8 },
    AllocateResources { player: Color, resources: Vec<ResourceType> },
    AllocateDiceResults {
        target_system: u8,
        target_player: Color,
        self_hits: u16,
        hits: u16,
        building_hits: u16,
        keys: u16,
    },
}

/// The mathematical value of a turn phase.
pub enum TurnStateView {
    TrickTaking,
    Prelude { action_type: ActionType, pips_left: u8 },
    Actions { action_type: ActionType, pips_left: u8 },
    AllocateResources { player: Color, resources: Seq<ResourceType> },
    AllocateDiceResults {
        target_system: u8,
        target_player: Color,
        self_hits: u16,
        hits: u16,
        building_hits: u16,
        keys: u16,
    },
}

impl View for TurnState {
    type V = TurnStateView;

    open spec fn view(&self) -> TurnStateView {
        match *self {
            TurnState::TrickTaking => TurnStateView::TrickTaking,
            TurnState::Prelude { action_type, pips_left } => TurnStateView::Prelude { action_type, pips_left },
            TurnState::Actions { action_type, pips_left } => TurnStateView::Actions { action_type, pips_left },
            TurnState::AllocateResources { player, resources } => TurnStateView::AllocateResources {
                player,
                resources: resources@,
            },
            TurnState::AllocateDiceResults { target_system, target_player, self_hits, hits, building_hits, keys } => TurnStateView::AllocateDiceResults {
                target_system,
                target_player,
                self_hits,
                hits,
                building_hits,
                keys,
            },
        }
    }
}

impl Clone for TurnState {
    fn clone(&self) -> (r: Self)
        ensures
            r@ == self@,
    {
        match self {
            TurnState::TrickTaking => TurnState::TrickTaking,
            TurnState::Prelude { action_type, pips_left } => TurnState::Prelude {
                action_type: *action_type,
                pips_left: *pips_left,
            },
            TurnState::Actions { action_type, pips_left } => TurnState::Actions {
                action_type: *action_type,
                pips_left: *pips_left,
            },
            TurnState::AllocateResources { player, resources } => TurnState::AllocateResources {
                player: *player,
                resources: resources.clone(),
            },
            TurnState::AllocateDiceResults { target_system, target_player, self_hits, hits, building_hits, keys } => TurnState::AllocateDiceResults {
                target_system: *target_system,
                target_player: *target_player,
                self_hits: *self_hits,
                hits: *hits,
                building_hits: *building_hits,
                keys: *keys,
            },
        }
    }
}

/// What belongs to one player.
#[derive(Debug, PartialEq, Eq)]
pub struct PlayerArea {
    pub player: Color,
    pub power: u8,
    pub initiative: bool,
    pub action_cards: Vec<ActionCard>,
    pub guild_cards: Vec<Guild>,
    pub reserve: Reserve,
    pub resource_slots: Vec<ResourceSlot>,
    pub captives: Vec<Agents>,
    pub tropies: Vec<Trophy>,
}

/// The mathematical value of a player's area.
pub struct PlayerAreaView {
    pub player: Color,
    pub power: u8,
    pub initiative: bool,
    pub action_cards: Seq<ActionCard>,
    pub guild_cards: Seq<Guild>,
    pub reserve: Reserve,
    pub resource_slots: Seq<ResourceSlot>,
    pub captives: Seq<Agents>,
    pub tropies: Seq<Trophy>,
}

impl View for PlayerArea {
    type V = PlayerAreaView;

    open spec fn view(&self) -> PlayerAreaView {
        PlayerAreaView {
            player: self.player,
            power: self.power,
            initiative: self.initiative,
            action_cards: self.action_cards@,
            guild_cards: self.guild_cards@,
            reserve: self.reserve,
            resource_slots: self.resource_slots@,
            captives: self.captives@,
            tropies: self.tropies@,
        }
    }
}

impl Clone for PlayerArea {
    fn clone(&self) -> (r: Self)
        ensures
            r@ == self@,
    {
        PlayerArea {
            player: self.player,
            power: self.power,
            initiative: self.initiative,
            action_cards: self.action_cards.clone(),
            guild_cards: self.guild_cards.clone(),
            reserve: self.reserve,
            resource_slots: self.resource_slots.clone(),
            captives: self.captives.clone(),
            tropies: self.tropies.clone(),
        }
    }
}

/// Copies a list of played cards.
pub fn copy_played_cards(cards: &Vec<(ActionCard, bool, Color)>) -> (r: Vec<(ActionCard, bool, Color)>)
    ensures
        r@ == cards@,
{
    let mut out: Vec<(ActionCard, bool, Color)> = Vec::new();
    let mut i: usize = 0;
    while i < cards.len()
        invariant
            i <= cards.len(),
            out@ == cards@.take(i as int),
        decreases cards.len() - i,
    {
        let c = cards[i];
        out.push(c);
        proof {
            assert(cards@.take(i + 1) =~= cards@.take(i as int).push(c));
        }
        i += 1;
    }
    proof {
        assert(cards@.take(cards.len() as int) =~= cards@);
    }
    out
}

/// The whole state of a game.
#[derive(Debug, PartialEq, Eq)]
pub struct GameState {
    /// The players' areas, in seating order.
    pub players: Vec<PlayerArea>,
    pub current_player: Color,
    pub players_in_round: u8,
    pub initiative: Color,
    pub seized: Option<Color>,
    pub zero_marker: bool,
    pub turn_state: TurnState,
    /// The phases to resume once a deferred sub-phase is done, the next one first.
    pub next_turn_states: Vec<TurnState>,
    pub chapter: u8,
    pub systems: Vec<System>,
    pub resource_reserve: ResourceReserve,
    pub court: Vec<CourtCard>,
    pub court_draw_pile: Vec<CourtCard>,
    pub court_discard_pile: Vec<CourtCard>,
    pub action_discard: Vec<ActionCard>,
    pub lead_card: Option<(ActionCard, bool, Color)>,
    pub follow_cards: Vec<(ActionCard, bool, Color)>,
    pub ambition_markers: Vec<AmbitionMarker>,
    /// The scoring tracks, in the order in which the ambitions are declared.
    pub ambitions: Vec<Ambition>,
}

/// The mathematical value of a game state.
pub struct GameStateView {
    pub players: Seq<PlayerAreaView>,
    pub current_player: Color,
    pub players_in_round: u8,
    pub initiative: Color,
    pub seized: Option<Color>,
    pub zero_marker: bool,
    pub turn_state: TurnStateView,
    pub next_turn_states: Seq<TurnStateView>,
    pub chapter: u8,
    pub systems: Seq<SystemView>,
    pub resource_reserve: ResourceReserve,
    pub court: Seq<CourtCardView>,
    pub court_draw_pile: Seq<CourtCardView>,
    pub court_discard_pile: Seq<CourtCardView>,
    pub action_discard: Seq<ActionCard>,
    pub lead_card: Option<(ActionCard, bool, Color)>,
    pub follow_cards: Seq<(ActionCard, bool, Color)>,
    pub ambition_markers: Seq<AmbitionMarker>,
    pub ambitions: Seq<AmbitionView>,
}

impl View for GameState {
    type V = GameStateView;

    open spec fn view(&self) -> GameStateView {
        GameStateView {
            players: views(self.players@),
            current_player: self.current_player,
            players_in_round: self.players_in_round,
            initiative: self.initiative,
            seized: self.seized,
            zero_marker: self.zero_marker,
            turn_state: self.turn_state@,
            next_turn_states: views(self.next_turn_states@),
            chapter: self.chapter,
            systems: views(self.systems@),
            resource_reserve: self.resource_reserve,
            court: views(self.court@),
            court_draw_pile: views(self.court_draw_pile@),
            court_discard_pile: views(self.court_discard_pile@),
            action_discard: self.action_discard@,
            lead_card: self.lead_card,
            follow_cards: self.follow_cards@,
            ambition_markers: self.ambition_markers@,
            ambitions: views(self.ambitions@),
        }
    }
}

impl Clone for GameState {
    fn clone(&self) -> (r: Self)
        ensures
            r@ == self@,
            r.same_lengths(*self),
    {
        let r = GameState {
            players: self.players.clone(),
            current_player: self.current_player,
            players_in_round: self.players_in_round,
            initiative: self.initiative,
            seized: self.seized,
            zero_marker: self.zero_marker,
            turn_state: self.turn_state.clone(),
            next_turn_states: self.next_turn_states.clone(),
            chapter: self.chapter,
            systems: self.systems.clone(),
            resource_reserve: self.resource_reserve,
            court: self.court.clone(),
            court_draw_pile: self.court_draw_pile.clone(),
            court_discard_pile: self.court_discard_pile.clone(),
            action_discard: self.action_discard.clone(),
            lead_card: self.lead_card,
            follow_cards: copy_played_cards(&self.follow_cards),
            ambition_markers: self.ambition_markers.clone(),
            ambitions: self.ambitions.clone(),
        };
        proof {
            assert(views(r.players@) =~= views(self.players@));
            assert(views(r.next_turn_states@) =~= views(self.next_turn_states@));
            assert(views(r.systems@) =~= views(self.systems@));
            assert(views(r.court@) =~= views(self.court@));
            assert(views(r.court_draw_pile@) =~= views(self.court_draw_pile@));
            assert(views(r.court_discard_pile@) =~= views(self.court_discard_pile@));
            assert(views(r.ambitions@) =~= views(self.ambitions@));
        }
        r
    }
}


impl GameState {
    /// The lists of `self` are as long as those of `other`.
    pub open spec fn same_lengths(self, other: GameState) -> bool {
        &&& self.players@.len() == other.players@.len()
        &&& self.systems@.len() == other.systems@.len()
        &&& self.court@.len() == other.court@.len()
        &&& self.next_turn_states@.len() == other.next_turn_states@.len()
        &&& self.ambitions@.len() == other.ambitions@.len()
    }
}

/// The same players sit in the same seats.
pub open spec fn same_seats(before: Seq<PlayerAreaView>, after: Seq<PlayerAreaView>) -> bool {
    &&& before.len() == after.len()
    &&& forall|i: int|
        #![trigger before[i]]
        #![trigger after[i]]
        0 <= i < before.len() ==> before[i].player == after[i].player
}

impl GameStateView {
    /// `after` differs from this state in what the players hold, and in nothing else.
    pub open spec fn differs_in_holdings_only(self, after: GameStateView) -> bool {
        &&& after == (GameStateView { players: after.players, ..self })
        &&& same_seats(self.players, after.players)
    }

    /// `color` takes part in the game: the area at the player's seat is the
    /// player's own. The areas are kept in seating order (`seating::areas_in_order`).
    pub open spec fn has_player(self, color: Color) -> bool {
        color.seat() < self.players.len() && self.players[color.seat()].player == color
    }

    /// The area of `color`, if the player takes part in the game.
    pub open spec fn player_area(self, color: Color) -> Option<PlayerAreaView> {
        if self.has_player(color) {
            Some(self.players[color.seat()])
        } else {
            None
        }
    }

    /// The state with the area at the seat of its player replaced.
    pub open spec fn with_player(self, area: PlayerAreaView) -> GameStateView {
        GameStateView { players: self.players.update(area.player.seat(), area), ..self }
    }

    /// The state with one node replaced.
    pub open spec fn with_system(self, index: int, system: SystemView) -> GameStateView {
        GameStateView { systems: self.systems.update(index, system), ..self }
    }

    /// The state with one card of the court replaced.
    pub open spec fn with_court_card(self, index: int, card: CourtCardView) -> GameStateView {
        GameStateView { court: self.court.update(index, card), ..self }
    }

    /// The state in another phase.
    pub open spec fn with_turn_state(self, turn_state: TurnStateView) -> GameStateView {
        GameStateView { turn_state, ..self }
    }

    /// The state after entering a deferred sub-phase: the current phase is
    /// put on the resume stack and `phase` becomes the current one.
    pub open spec fn deferred(self, phase: TurnStateView) -> GameStateView {
        GameStateView {
            turn_state: phase,
            next_turn_states: seq![self.turn_state] + self.next_turn_states,
            ..self
        }
    }
}

impl GameStateView {
    /// The state after a deferred sub-phase is done: the phase on top of the
    /// resume stack becomes the current one.
    pub open spec fn resumed(self) -> GameStateView {
        GameStateView { turn_state: self.next_turn_states[0], next_turn_states: self.next_turn_states.skip(1), ..self }
    }
}

impl GameState {
    /// Leaves a deferred sub-phase: the phase on top of the resume stack becomes the current one.
    pub(crate) fn resume(&mut self)
        requires
            old(self).next_turn_states@.len() > 0,
        ensures
            final(self)@ == old(self)@.resumed(),
            final(self).players@.len() == old(self).players@.len(),
            final(self).systems@.len() == old(self).systems@.len(),
            final(self).court@.len() == old(self).court@.len(),
    {
        let ghost before = self.next_turn_states@;
        let next = self.next_turn_states[0].clone();
        let mut rest: Vec<TurnState> = Vec::new();
        let mut i: usize = 1;
        while i < self.next_turn_states.len()
            invariant
                1 <= i <= self.next_turn_states.len(),
                self.next_turn_states@ == before,
                rest@.len() == i - 1,
                forall|j: int| 0 <= j < i - 1 ==> rest@[j]@ == before[j + 1]@,
            decreases self.next_turn_states.len() - i,
        {
            rest.push(self.next_turn_states[i].clone());
            i += 1;
        }
        proof {
            assert(views(rest@) =~= views(before).skip(1));
        }
        self.next_turn_states = rest;
        self.turn_state = next;
    }

    /// Whether `color` takes part in the game.
    pub fn has_player(&self, color: &Color) -> (r: bool)
        ensures
            r == self@.has_player(*color),
    {
        let seat = color.index();
        seat < self.players.len() && self.players[seat].player == *color
    }

    /// The area of `color`, if the player takes part in the game.
    pub fn get_player_area(&self, color: &Color) -> (r: Option<PlayerArea>)
        ensures
            match r {
                Some(area) => self@.player_area(*color) == Some(area@),
                None => self@.player_area(*color) is None,
            },
    {
        if self.has_player(color) {
            Some(self.players[color.index()].clone())
        } else {
            None
        }
    }

    /// The place of the area of `color` among the players, if the player takes part in the game.
    pub fn get_player_area_ind(&self, color: &Color) -> (r: Option<usize>)
        ensures
            r == if self@.has_player(*color) {
                Some(color.seat() as usize)
            } else {
                None
            },
    {
        if self.has_player(color) {
            Some(color.index())
        } else {
            None
        }
    }

    /// Replaces the area of a player who takes part in the game.
    pub(crate) fn set_player(&mut self, area: PlayerArea)
        requires
            old(self)@.has_player(area.player),
        ensures
            final(self)@ == old(self)@.with_player(area@),
            final(self).same_lengths(*old(self)),
    {
        let seat = area.player.index();
        let ghost before = self.players@;
        let ghost area_view = area@;
        self.players.set(seat, area);
        proof {
            assert(views(self.players@) =~= views(before).update(seat as int, area_view));
        }
    }

    /// Replaces one node.
    pub(crate) fn set_system(&mut self, index: usize, system: System)
        requires
            index < old(self).systems@.len(),
        ensures
            final(self)@ == old(self)@.with_system(index as int, system@),
            final(self).same_lengths(*old(self)),
    {
        let ghost before = self.systems@;
        let ghost system_view = system@;
        self.systems.set(index, system);
        proof {
            assert(views(self.systems@) =~= views(before).update(index as int, system_view));
        }
    }

    /// Replaces one card of the court.
    pub(crate) fn set_court_card(&mut self, index: usize, card: CourtCard)
        requires
            index < old(self).court@.len(),
        ensures
            final(self)@ == old(self)@.with_court_card(index as int, card@),
            final(self).same_lengths(*old(self)),
    {
        let ghost before = self.court@;
        let ghost card_view = card@;
        self.court.set(index, card);
        proof {
            assert(views(self.court@) =~= views(before).update(index as int, card_view));
        }
    }

    /// Enters a deferred sub-phase: the current phase goes on the resume stack.
    pub(crate) fn defer_to(&mut self, phase: TurnState)
        ensures
            final(self)@ == old(self)@.deferred(phase@),
    {
        let ghost before = self.next_turn_states@;
        let ghost current = self.turn_state@;
        let mut stack: Vec<TurnState> = Vec::new();
        stack.push(self.turn_state.clone());
        let mut i: usize = 0;
        while i < self.next_turn_states.len()
            invariant
                i <= self.next_turn_states.len(),
                self.next_turn_states@ == before,
                stack@.len() == i + 1,
                stack@[0]@ == current,
                forall|j: int| 0 <= j < i ==> stack@[j + 1]@ == before[j]@,
            decreases self.next_turn_states.len() - i,
        {
            stack.push(self.next_turn_states[i].clone());
            i += 1;
        }
        proof {
            assert(views(stack@) =~= seq![current] + views(before));
        }
        self.next_turn_states = stack;
        self.turn_state = phase;
    }
}


// ---------------------------------------------------------------------------
// A player's area
// ---------------------------------------------------------------------------

/// The test for a trophy of the same kind, taken from the same player, as `trophy`.
pub open spec fn same_trophy_test(trophy: Trophy) -> spec_fn(Trophy) -> bool {
    |t: Trophy| t.trophy_type == trophy.trophy_type && t.player == trophy.player
}

/// The trophies after one more was earned: it is merged into the first trophy
/// of its kind and source, or listed last where there is none.
pub open spec fn trophy_added(held: Seq<Trophy>, trophy: Trophy) -> Result<Seq<Trophy>, ActionError> {
    match first_index(held, same_trophy_test(trophy)) {
        Some(i) => if held[i].count + trophy.count > 255 {
            Err(ActionError::CountOverflow)
        } else {
            Ok(
                held.update(
                    i,
                    Trophy {
                        trophy_type: held[i].trophy_type,
                        count: (held[i].count + trophy.count) as u8,
                        player: held[i].player,
                    },
                ),
            )
        },
        None => Ok(held.push(trophy)),
    }
}

/// The trophies after several more were earned, one after the other.
pub open spec fn trophies_added(held: Seq<Trophy>, earned: Seq<Trophy>) -> Result<Seq<Trophy>, ActionError>
    decreases earned.len(),
{
    if earned.len() == 0 {
        Ok(held)
    } else {
        match trophy_added(held, earned[0]) {
            Err(e) => Err(e),
            Ok(merged) => trophies_added(merged, earned.drop_first()),
        }
    }
}

/// The pieces of `kind`, taken from `player`, that the trophies hold in all.
pub open spec fn trophies_of(held: Seq<Trophy>, kind: ReserveType, player: Color) -> int
    decreases held.len(),
{
    if held.len() == 0 {
        0
    } else {
        trophies_of(held.drop_last(), kind, player) + if held.last().trophy_type == kind && held.last().player == player {
            held.last().count as int
        } else {
            0int
        }
    }
}

/// Replacing one trophy changes the pieces held by what the trophy gained or lost.
pub proof fn lemma_trophies_update(held: Seq<Trophy>, index: int, trophy: Trophy, kind: ReserveType, player: Color)
    requires
        0 <= index < held.len(),
    ensures
        trophies_of(held.update(index, trophy), kind, player) == trophies_of(held, kind, player) - (if held[index].trophy_type
            == kind && held[index].player == player {
            held[index].count as int
        } else {
            0int
        }) + (if trophy.trophy_type == kind && trophy.player == player {
            trophy.count as int
        } else {
            0int
        }),
    decreases held.len(),
{
    let changed = held.update(index, trophy);
    if index == held.len() - 1 {
        assert(changed.drop_last() =~= held.drop_last());
    } else {
        lemma_trophies_update(held.drop_last(), index, trophy, kind, player);
        assert(changed.drop_last() =~= held.drop_last().update(index, trophy));
    }
}

/// Trophies are merged by adding up: after trophies were earned, the pieces
/// of each kind from each player are those held before and those earned.
pub proof fn law_trophies_add_up(held: Seq<Trophy>, earned: Seq<Trophy>, kind: ReserveType, player: Color)
    requires
        trophies_added(held, earned) is Ok,
    ensures
        trophies_of(trophies_added(held, earned).unwrap(), kind, player) == trophies_of(held, kind, player) + trophies_of(
            earned,
            kind,
            player,
        ),
    decreases earned.len(),
{
    if earned.len() > 0 {
        let first = earned[0];
        let merged = trophy_added(held, first).unwrap();
        lemma_first_index_meaning(held, same_trophy_test(first));
        match first_index(held, same_trophy_test(first)) {
            Some(i) => {
                lemma_trophies_update(
                    held,
                    i,
                    Trophy {
                        trophy_type: held[i].trophy_type,
                        count: (held[i].count + first.count) as u8,
                        player: held[i].player,
                    },
                    kind,
                    player,
                );
            },
            None => {
                assert(merged.drop_last() =~= held);
            },
        }
        law_trophies_add_up(merged, earned.drop_first(), kind, player);
        lemma_trophies_split(earned, kind, player);
    }
}

/// The pieces that a list of trophies holds are those of the first trophy and those of the rest.
pub proof fn lemma_trophies_split(held: Seq<Trophy>, kind: ReserveType, player: Color)
    requires
        held.len() > 0,
    ensures
        trophies_of(held, kind, player) == trophies_of(held.drop_first(), kind, player) + if held[0].trophy_type == kind
            && held[0].player == player {
            held[0].count as int
        } else {
            0int
        },
    decreases held.len(),
{
    if held.len() == 1 {
        assert(held.drop_last() =~= held.drop_first());
    } else {
        lemma_trophies_split(held.drop_last(), kind, player);
        assert(held.drop_last().drop_first() =~= held.drop_first().drop_last());
        assert(held.drop_first().last() == held.last());
        assert(held.drop_last()[0] == held[0]);
    }
}

/// The test for a card equal to `card`.
pub open spec fn card_test(card: ActionCard) -> spec_fn(ActionCard) -> bool {
    |c: ActionCard| c == card
}

/// The slot holds a resource of `kind`.
pub open spec fn holds_resource(slot: ResourceSlot, kind: ResourceType) -> bool {
    match slot {
        ResourceSlot::Used { resource, .. } => resource == kind,
        _ => false,
    }
}

/// The resources of `kind` that lie in the slots.
pub open spec fn resources_in(slots: Seq<ResourceSlot>, kind: ResourceType) -> int
    decreases slots.len(),
{
    if slots.len() == 0 {
        0
    } else {
        resources_in(slots.drop_last(), kind) + if holds_resource(slots.last(), kind) {
            1int
        } else {
            0int
        }
    }
}

/// The number of guild cards that count as a resource of `kind`.
pub open spec fn guilds_of(cards: Seq<Guild>, kind: ResourceType) -> int
    decreases cards.len(),
{
    if cards.len() == 0 {
        0
    } else {
        guilds_of(cards.drop_last(), kind) + if cards.last().resource == kind {
            1int
        } else {
            0int
        }
    }
}

/// The sum of the counts of the trophies.
pub open spec fn trophy_total(trophies: Seq<Trophy>) -> int
    decreases trophies.len(),
{
    if trophies.len() == 0 {
        0
    } else {
        trophy_total(trophies.drop_last()) + trophies.last().count
    }
}

/// The sum of the counts of the agents.
pub open spec fn agent_total(agents: Seq<Agents>) -> int
    decreases agents.len(),
{
    if agents.len() == 0 {
        0
    } else {
        agent_total(agents.drop_last()) + agents.last().count
    }
}

/// Whether the slot at `index` is blocked for a player with `cities` cities in reserve.
pub open spec fn slot_blocked(cities: u8, index: int) -> bool {
    ||| cities == 5 && index >= 2
    ||| cities == 4 && index >= 3
    ||| cities == 3 && index >= 4
}

/// A slot after its cover was set anew: a blocked slot is covered, any other is open.
pub open spec fn slot_recovered(slot: ResourceSlot, blocked: bool) -> ResourceSlot {
    match slot {
        ResourceSlot::Used { keys, resource } => if blocked {
            ResourceSlot::Covered { keys }
        } else {
            ResourceSlot::Used { keys, resource }
        },
        ResourceSlot::Unused { keys } => if blocked {
            ResourceSlot::Covered { keys }
        } else {
            ResourceSlot::Unused { keys }
        },
        ResourceSlot::Covered { keys } => if blocked {
            ResourceSlot::Covered { keys }
        } else {
            ResourceSlot::Unused { keys }
        },
    }
}

/// The resources that lie in slots that are blocked, in the order of the slots.
pub open spec fn blocked_resources(slots: Seq<ResourceSlot>, cities: u8) -> Seq<ResourceType>
    decreases slots.len(),
{
    if slots.len() == 0 {
        Seq::empty()
    } else {
        let before = blocked_resources(slots.drop_last(), cities);
        match slots.last() {
            ResourceSlot::Used { resource, .. } => if slot_blocked(cities, slots.len() - 1) {
                before.push(resource)
            } else {
                before
            },
            _ => before,
        }
    }
}

impl PlayerAreaView {
    /// The area with `diff` pieces of `kind` added to its reserve.
    pub open spec fn change_reserve(self, kind: ReserveType, diff: i8) -> Result<PlayerAreaView, ActionError> {
        if self.reserve.count(kind) + diff < 0 {
            Err(ActionError::InsufficientReserve)
        } else if self.reserve.count(kind) + diff > 255 {
            Err(ActionError::CountOverflow)
        } else {
            Ok(PlayerAreaView { reserve: self.reserve.with_count(kind, (self.reserve.count(kind) + diff) as u8), ..self })
        }
    }

    /// The resource in the slot at `slot`, if there is such a slot and it holds one.
    pub open spec fn resource_at(self, slot: u8) -> Option<ResourceType> {
        if slot < self.resource_slots.len() {
            match self.resource_slots[slot as int] {
                ResourceSlot::Used { resource, .. } => Some(resource),
                _ => None,
            }
        } else {
            None
        }
    }

    /// The area after the resource `target` left the slot at `slot`.
    pub open spec fn remove_resource(self, slot: u8, target: ResourceType) -> Result<PlayerAreaView, ActionError> {
        if slot >= self.resource_slots.len() {
            Err(ActionError::UnknownEntity)
        } else {
            match self.resource_slots[slot as int] {
                ResourceSlot::Used { keys, resource } => if resource == target {
                    Ok(
                        PlayerAreaView {
                            resource_slots: self.resource_slots.update(slot as int, ResourceSlot::Unused { keys }),
                            ..self
                        },
                    )
                } else {
                    Err(ActionError::IncompatibleResource)
                },
                _ => Err(ActionError::IncompatibleResource),
            }
        }
    }

    /// The area after `card` left the hand: the first card equal to it goes.
    pub open spec fn remove_action_card(self, card: ActionCard) -> Result<PlayerAreaView, ActionError> {
        match first_index(self.action_cards, card_test(card)) {
            Some(i) => Ok(PlayerAreaView { action_cards: self.action_cards.remove(i), ..self }),
            None => Err(ActionError::UnknownEntity),
        }
    }

    /// The resources of `kind` that count for the player: those in the slots
    /// and one for each guild card of that kind.
    pub open spec fn resource_count(self, kind: ResourceType) -> int {
        resources_in(self.resource_slots, kind) + guilds_of(self.guild_cards, kind)
    }

    /// The first six slots with their covers set by the cities in reserve.
    pub open spec fn recovered_slots(self) -> Seq<ResourceSlot> {
        Seq::new(
            if self.resource_slots.len() < 6 { self.resource_slots.len() } else { 6 },
            |i: int| slot_recovered(self.resource_slots[i], slot_blocked(self.reserve.cities, i)),
        )
    }
}

impl PlayerArea {
    /// The trophies of the area with `tropies` merged in: counts of the same
    /// kind from the same player add up.
    pub fn add_trophies(&self, tropies: Vec<Trophy>) -> (r: Result<Vec<Trophy>, ActionError>)
        ensures
            viewed(r) == trophies_added(self.tropies@, tropies@),
    {
        let mut held = self.tropies.clone();
        let mut i: usize = 0;
        proof {
            assert(tropies@.skip(0) =~= tropies@);
        }
        while i < tropies.len()
            invariant
                i <= tropies.len(),
                trophies_added(held@, tropies@.skip(i as int)) == trophies_added(self.tropies@, tropies@),
            decreases tropies.len() - i,
        {
            let t = tropies[i];
            proof {
                assert(tropies@.skip(i as int)[0] == t);
                assert(tropies@.skip(i as int).drop_first() =~= tropies@.skip(i + 1));
            }
            match find_trophy(&held, &t) {
                Some(k) => {
                    let e = held[k];
                    if e.count > 255 - t.count {
                        return Err(ActionError::CountOverflow);
                    }
                    held.set(k, Trophy { trophy_type: e.trophy_type, count: e.count + t.count, player: e.player });
                },
                None => {
                    held.push(t);
                },
            }
            i += 1;
        }
        Ok(held)
    }

    /// Takes cards into the hand.
    pub fn add_action_cards(&mut self, cards: Vec<ActionCard>)
        ensures
            final(self)@ == (PlayerAreaView { action_cards: old(self)@.action_cards + cards@, ..old(self)@ }),
    {
        let ghost before = self.action_cards@;
        let mut i: usize = 0;
        while i < cards.len()
            invariant
                i <= cards.len(),
                self.action_cards@ == before + cards@.take(i as int),
                self@ == (PlayerAreaView { action_cards: self.action_cards@, ..old(self)@ }),
            decreases cards.len() - i,
        {
            self.action_cards.push(cards[i]);
            proof {
                assert(cards@.take(i + 1) =~= cards@.take(i as int).push(cards@[i as int]));
                assert(self.action_cards@ =~= before + cards@.take(i + 1));
            }
            i += 1;
        }
        proof {
            assert(cards@.take(cards.len() as int) =~= cards@);
        }
    }

    /// Plays `card` from the hand. Where the hand does not hold it, nothing changes.
    pub fn remove_action_card(&mut self, card: ActionCard) -> (r: Result<(), ActionError>)
        ensures
            match r {
                Ok(_) => old(self)@.remove_action_card(card) == Ok::<PlayerAreaView, ActionError>(final(self)@),
                Err(e) => old(self)@.remove_action_card(card) == Err::<PlayerAreaView, ActionError>(e) && final(self)@ == old(self)@,
            },
    {
        match find_card(&self.action_cards, &card) {
            Some(i) => {
                self.action_cards.remove(i);
                Ok(())
            },
            None => Err(ActionError::UnknownEntity),
        }
    }

    /// Adds `diff` pieces of a kind to the reserve; a negative `diff` takes pieces away.
    pub fn change_reserve(&self, reserve_type: &ReserveType, diff: i8) -> (r: Result<PlayerArea, ActionError>)
        ensures
            viewed(r) == self@.change_reserve(*reserve_type, diff),
    {
        let now: i16 = self.reserve.get(reserve_type) as i16;
        let next: i16 = now + diff as i16;
        if next < 0 {
            Err(ActionError::InsufficientReserve)
        } else if next > 255 {
            Err(ActionError::CountOverflow)
        } else {
            let mut out = self.clone();
            out.reserve = self.reserve.with(reserve_type, next as u8);
            Ok(out)
        }
    }

    /// Takes the resource `target_resource` out of a slot.
    pub fn remove_resource(&self, resource_slot: u8, target_resource: &ResourceType) -> (r: Result<PlayerArea, ActionError>)
        ensures
            viewed(r) == self@.remove_resource(resource_slot, *target_resource),
    {
        let index = resource_slot as usize;
        if index >= self.resource_slots.len() {
            return Err(ActionError::UnknownEntity);
        }
        match self.resource_slots[index] {
            ResourceSlot::Used { keys, resource } => {
                if resource == *target_resource {
                    let mut out = self.clone();
                    out.resource_slots.set(index, ResourceSlot::Unused { keys });
                    Ok(out)
                } else {
                    Err(ActionError::IncompatibleResource)
                }
            },
            _ => Err(ActionError::IncompatibleResource),
        }
    }

    /// The resource in a slot, if the slot exists and holds one.
    pub fn get_resource(&self, resource_slot: u8) -> (r: Option<ResourceType>)
        ensures
            r == self@.resource_at(resource_slot),
    {
        let index = resource_slot as usize;
        if index >= self.resource_slots.len() {
            return None;
        }
        match self.resource_slots[index] {
            ResourceSlot::Used { resource, .. } => Some(resource),
            _ => None,
        }
    }

    /// Sets the covers of the first six slots by the number of cities in
    /// reserve, and hands out the resources that lay in slots now covered.
    pub fn update_resource_slots(&self) -> (r: (PlayerArea, Vec<ResourceType>))
        ensures
            r.0@ == (PlayerAreaView { resource_slots: self@.recovered_slots(), ..self@ }),
            r.1@ == blocked_resources(self@.first_six_slots(), self.reserve.cities),
    {
        let cities = self.reserve.cities;
        let n: usize = if self.resource_slots.len() < 6 { self.resource_slots.len() } else { 6 };
        let mut slots: Vec<ResourceSlot> = Vec::new();
        let mut overflow: Vec<ResourceType> = Vec::new();
        let mut i: usize = 0;
        while i < n
            invariant
                i <= n,
                n <= self.resource_slots@.len(),
                n <= 6,
                cities == self.reserve.cities,
                slots@.len() == i,
                forall|j: int| 0 <= j < i ==> slots@[j] == slot_recovered(self.resource_slots@[j], slot_blocked(cities, j)),
                overflow@ == blocked_resources(self.resource_slots@.take(i as int), cities),
            decreases n - i,
        {
            let blocked = (cities == 5 && i >= 2) || (cities == 4 && i >= 3) || (cities == 3 && i >= 4);
            proof {
                assert(self.resource_slots@.take(i + 1).drop_last() =~= self.resource_slots@.take(i as int));
                assert(self.resource_slots@.take(i + 1).last() == self.resource_slots@[i as int]);
            }
            match self.resource_slots[i] {
                ResourceSlot::Used { keys, resource } => {
                    if blocked {
                        slots.push(ResourceSlot::Covered { keys });
                        overflow.push(resource);
                    } else {
                        slots.push(ResourceSlot::Used { keys, resource });
                    }
                },
                ResourceSlot::Unused { keys } => {
                    if blocked {
                        slots.push(ResourceSlot::Covered { keys });
                    } else {
                        slots.push(ResourceSlot::Unused { keys });
                    }
                },
                ResourceSlot::Covered { keys } => {
                    if blocked {
                        slots.push(ResourceSlot::Covered { keys });
                    } else {
                        slots.push(ResourceSlot::Unused { keys });
                    }
                },
            }
            i += 1;
        }
        proof {
            assert(slots@ =~= self@.recovered_slots());
        }
        let mut out = self.clone();
        out.resource_slots = slots;
        (out, overflow)
    }

    /// The resources of a kind that count for the player.
    pub fn get_resource_count(&self, resource: ResourceType) -> (r: u128)
        ensures
            r as int == self@.resource_count(resource),
            r <= 2 * usize::MAX,
    {
        let in_slots = count_in_slots(&self.resource_slots, resource);
        let mut in_guilds: u128 = 0;
        let mut j: usize = 0;
        while j < self.guild_cards.len()
            invariant
                j <= self.guild_cards.len(),
                in_guilds as int == guilds_of(self.guild_cards@.take(j as int), resource),
                in_guilds <= j,
            decreases self.guild_cards.len() - j,
        {
            proof {
                assert(self.guild_cards@.take(j + 1).drop_last() =~= self.guild_cards@.take(j as int));
                assert(self.guild_cards@.take(j + 1).last() == self.guild_cards@[j as int]);
            }
            if self.guild_cards[j].resource == resource {
                in_guilds += 1;
            }
            j += 1;
        }
        proof {
            assert(self.guild_cards@.take(self.guild_cards.len() as int) =~= self.guild_cards@);
        }
        in_slots + in_guilds
    }

    /// The number of pieces among the trophies.
    pub fn get_trophies(&self) -> (r: u128)
        ensures
            r as int == trophy_total(self.tropies@),
    {
        let mut total: u128 = 0;
        let mut i: usize = 0;
        while i < self.tropies.len()
            invariant
                i <= self.tropies.len(),
                total as int == trophy_total(self.tropies@.take(i as int)),
                total <= 255 * i,
            decreases self.tropies.len() - i,
        {
            proof {
                assert(self.tropies@.take(i + 1).drop_last() =~= self.tropies@.take(i as int));
                assert(self.tropies@.take(i + 1).last() == self.tropies@[i as int]);
            }
            total += self.tropies[i].count as u128;
            i += 1;
        }
        proof {
            assert(self.tropies@.take(self.tropies.len() as int) =~= self.tropies@);
        }
        total
    }

    /// The number of agents held captive.
    pub fn get_captives(&self) -> (r: u128)
        ensures
            r as int == agent_total(self.captives@),
    {
        let mut total: u128 = 0;
        let mut i: usize = 0;
        while i < self.captives.len()
            invariant
                i <= self.captives.len(),
                total as int == agent_total(self.captives@.take(i as int)),
                total <= 255 * i,
            decreases self.captives.len() - i,
        {
            proof {
                assert(self.captives@.take(i + 1).drop_last() =~= self.captives@.take(i as int));
                assert(self.captives@.take(i + 1).last() == self.captives@[i as int]);
            }
            total += self.captives[i].count as u128;
            i += 1;
        }
        proof {
            assert(self.captives@.take(self.captives.len() as int) =~= self.captives@);
        }
        total
    }
}

impl PlayerAreaView {
    /// The first six slots: those that can be covered.
    pub open spec fn first_six_slots(self) -> Seq<ResourceSlot> {
        self.resource_slots.take(if self.resource_slots.len() < 6 { self.resource_slots.len() as int } else { 6 })
    }
}

/// The resources of `kind` that lie in the slots.
pub fn count_in_slots(slots: &Vec<ResourceSlot>, kind: ResourceType) -> (r: u128)
    ensures
        r as int == resources_in(slots@, kind),
        r <= slots@.len(),
        r <= usize::MAX,
{
    let mut total: u128 = 0;
    let mut i: usize = 0;
    while i < slots.len()
        invariant
            i <= slots.len(),
            total as int == resources_in(slots@.take(i as int), kind),
            total <= i,
        decreases slots.len() - i,
    {
        proof {
            assert(slots@.take(i + 1).drop_last() =~= slots@.take(i as int));
            assert(slots@.take(i + 1).last() == slots@[i as int]);
        }
        match slots[i] {
            ResourceSlot::Used { keys: _, resource: held } => {
                if held == kind {
                    total += 1;
                }
            },
            _ => {},
        }
        i += 1;
    }
    proof {
        assert(slots@.take(slots.len() as int) =~= slots@);
    }
    total
}

/// The first trophy of the same kind and source as `trophy`.
pub fn find_trophy(held: &Vec<Trophy>, trophy: &Trophy) -> (r: Option<usize>)
    ensures
        match r {
            Some(i) => first_index(held@, same_trophy_test(*trophy)) == Some(i as int) && i < held@.len(),
            None => first_index(held@, same_trophy_test(*trophy)) is None,
        },
{
    let ghost p = same_trophy_test(*trophy);
    let mut i: usize = 0;
    while i < held.len()
        invariant
            i <= held.len(),
            p == same_trophy_test(*trophy),
            forall|j: int| 0 <= j < i ==> !p(#[trigger] held@[j]),
        decreases held.len() - i,
    {
        if held[i].trophy_type == trophy.trophy_type && held[i].player == trophy.player {
            proof {
                assert(is_first(held@, p, i as int));
                lemma_first_index_found(held@, p, i as int);
            }
            return Some(i);
        }
        i += 1;
    }
    proof {
        assert(none_satisfies(held@, p));
        lemma_first_index_missing(held@, p);
    }
    None
}

/// The first card of the hand that equals `card`.
pub fn find_card(hand: &Vec<ActionCard>, card: &ActionCard) -> (r: Option<usize>)
    ensures
        match r {
            Some(i) => first_index(hand@, card_test(*card)) == Some(i as int) && i < hand@.len(),
            None => first_index(hand@, card_test(*card)) is None,
        },
{
    let ghost p = card_test(*card);
    let mut i: usize = 0;
    while i < hand.len()
        invariant
            i <= hand.len(),
            p == card_test(*card),
            forall|j: int| 0 <= j < i ==> !p(#[trigger] hand@[j]),
        decreases hand.len() - i,
    {
        if hand[i] == *card {
            proof {
                assert(is_first(hand@, p, i as int));
                lemma_first_index_found(hand@, p, i as int);
            }
            return Some(i);
        }
        i += 1;
    }
    proof {
        assert(none_satisfies(hand@, p));
        lemma_first_index_missing(hand@, p);
    }
    None
}


// ---------------------------------------------------------------------------
// The state as a whole
// ---------------------------------------------------------------------------

impl GameStateView {
    /// The state after `cards` went into the hand of `color`; unchanged where
    /// the player does not take part.
    pub open spec fn add_action_cards(self, color: Color, cards: Seq<ActionCard>) -> GameStateView {
        match self.player_area(color) {
            Some(area) => self.with_player(PlayerAreaView { action_cards: area.action_cards + cards, ..area }),
            None => self,
        }
    }

    /// The state after the reserve of `player` changed by `diff` pieces of `kind`.
    pub open spec fn update_players_reserve(self, player: Color, kind: ReserveType, diff: i8) -> Result<GameStateView, ActionError> {
        match self.player_area(player) {
            None => Err(ActionError::UnknownEntity),
            Some(area) => match area.change_reserve(kind, diff) {
                Err(e) => Err(e),
                Ok(changed) => Ok(self.with_player(changed)),
            },
        }
    }

    /// The state after `player` spent the resource `target` from a slot.
    pub open spec fn remove_resource(self, player: Color, slot: u8, target: ResourceType) -> Result<GameStateView, ActionError> {
        match self.player_area(player) {
            None => Err(ActionError::UnknownEntity),
            Some(area) => match area.remove_resource(slot, target) {
                Err(e) => Err(e),
                Ok(changed) => Ok(self.with_player(changed)),
            },
        }
    }

    /// The number of cards that the court shows: three with two players, four otherwise.
    pub open spec fn court_size(self) -> int {
        if self.players.len() == 2 {
            3
        } else {
            4
        }
    }

    /// The number of cards that go from the draw pile to the court when it is filled up.
    pub open spec fn court_draw(self) -> int {
        if self.court.len() >= self.court_size() {
            0
        } else if self.court_draw_pile.len() < self.court_size() - self.court.len() {
            self.court_draw_pile.len() as int
        } else {
            self.court_size() - self.court.len()
        }
    }

    /// The state with the court filled up from the top of the draw pile.
    pub open spec fn redraw_court_cards(self) -> GameStateView {
        GameStateView {
            court: self.court + self.court_draw_pile.take(self.court_draw()),
            court_draw_pile: self.court_draw_pile.skip(self.court_draw()),
            ..self
        }
    }
}

impl GameState {
    /// Gives cards to a player. Nothing changes where the player does not take part.
    pub fn add_action_cards(&mut self, color: &Color, cards: Vec<ActionCard>)
        ensures
            final(self)@ == old(self)@.add_action_cards(*color, cards@),
    {
        match self.get_player_area(color) {
            Some(area) => {
                let mut area = area;
                area.add_action_cards(cards);
                self.set_player(area);
            },
            None => {},
        }
    }

    /// Changes the reserve of a player by `diff` pieces of a kind.
    pub fn update_players_reserve(&self, player: &Color, reserve_type: &ReserveType, diff: i8) -> (r: Result<GameState, ActionError>)
        ensures
            viewed(r) == self@.update_players_reserve(*player, *reserve_type, diff),
    {
        match self.get_player_area(player) {
            None => Err(ActionError::UnknownEntity),
            Some(area) => match area.change_reserve(reserve_type, diff) {
                Err(e) => Err(e),
                Ok(changed) => {
                    let mut g = self.clone();
                    g.set_player(changed);
                    Ok(g)
                },
            },
        }
    }

    /// Fills the court up from the top of the draw pile.
    pub fn redraw_court_cards(&self) -> (r: GameState)
        ensures
            r@ == self@.redraw_court_cards(),
    {
        let size: usize = if self.players.len() == 2 { 3 } else { 4 };
        let mut g = self.clone();
        let mut court: Vec<CourtCard> = self.court.clone();
        let mut k: usize = 0;
        while court.len() < size && k < self.court_draw_pile.len()
            invariant
                k <= self.court_draw_pile@.len(),
                k <= self@.court_draw(),
                court@.len() == self.court@.len() + k,
                size == self@.court_size(),
                k < self@.court_draw() <==> (court@.len() < size && k < self.court_draw_pile@.len()),
                forall|m: int| 0 <= m < self.court@.len() ==> court@[m]@ == self.court@[m]@,
                forall|m: int| 0 <= m < k ==> court@[self.court@.len() + m]@ == self.court_draw_pile@[m]@,
            decreases self.court_draw_pile.len() - k,
        {
            court.push(self.court_draw_pile[k].clone());
            k += 1;
        }
        proof {
            assert(views(court@) =~= views(self.court@) + views(self.court_draw_pile@).take(k as int));
        }
        let mut pile: Vec<CourtCard> = Vec::new();
        let mut j: usize = k;
        while j < self.court_draw_pile.len()
            invariant
                k <= j <= self.court_draw_pile@.len(),
                pile@.len() == j - k,
                forall|m: int| 0 <= m < j - k ==> pile@[m]@ == self.court_draw_pile@[k + m]@,
            decreases self.court_draw_pile.len() - j,
        {
            pile.push(self.court_draw_pile[j].clone());
            j += 1;
        }
        proof {
            assert(views(pile@) =~= views(self.court_draw_pile@).skip(k as int));
        }
        g.court = court;
        g.court_draw_pile = pile;
        g
    }

    /// Takes the resource `target_resource` out of a slot of `player`.
    pub fn remove_resource(&self, player: &Color, resource_slot: u8, target_resource: ResourceType) -> (r: Result<GameState, ActionError>)
        ensures
            viewed(r) == self@.remove_resource(*player, resource_slot, target_resource),
    {
        match self.get_player_area(player) {
            None => Err(ActionError::UnknownEntity),
            Some(area) => match area.remove_resource(resource_slot, &target_resource) {
                Err(e) => Err(e),
                Ok(changed) => {
                    let mut g = self.clone();
                    g.set_player(changed);
                    Ok(g)
                },
            },
        }
    }
}

} // verus!
