//! Court cards: the special cards that players influence and secure.

use itertools::Itertools;
use rand::SeedableRng;
use rand::rngs::StdRng;
use rand::seq::SliceRandom;
use vstd::prelude::*;
use crate::actions::moving::with_ships;
use crate::actions::{place_ships, place_ships_result};
use crate::board::{BOARD_SIZE, cluster_of, get_cluster};
use crate::data::game_state::{ActionError, Agents, AmbitionTypes, Color, GameState, GameStateView, ReserveType, ResourceType};
use crate::data::system::{Ships, System, SystemView, control_of, derive_control};
use crate::data::{viewed, views};
use crate::lookup::{contains_id, first_index, is_first, none_satisfies, lemma_first_index_found, lemma_first_index_missing};

verus! {

/// The one-shot effects that a Vox card can have when it is secured.
#[derive(Clone, Copy, Debug, PartialEq, Eq, Structural)]
pub enum VoxEffect {
    /// Place one ship in each chosen system of one cluster.
    MassUprising,
}

/// A Vox card: it takes effect once, when it is secured.
#[derive(Clone, Copy, Debug, PartialEq, Eq, Structural)]
pub struct Vox {
    pub on_secure: VoxEffect,
}

/// The names of the Guild cards.
#[derive(Clone, Copy, Debug, PartialEq, Eq, Structural)]
pub enum GuildName {
    LoyalEngineers,
    MiningInterest,
    MaterialCartel,
    AdminUnion,
    ConstructionUnion,
    FuelCartel,
    LoyalPilots,
    GateKeepers,
    ShippingInterests,
    SpacingUnion,
    ArmsUnion,
    PrisonWardens,
    Skirmishers,
    CourtEnforcers,
    LoyalMarines,
    LatticeSpies,
    Farseers,
    SecretOrder,
    SilverTounges,
    LoyalEmpaths,
    LoyalKeepers,
    SwornGuardians,
    ElderBroker,
    RelicFence,
    GalacticBards,
}

/// A Guild card: whoever secures it keeps it.
#[derive(Clone, Copy, Debug, PartialEq, Eq, Structural)]
pub struct Guild {
    pub name: GuildName,
    pub resource: ResourceType,
    pub keys: u8,
}

/// What a player hands to a Vox card's effect.
#[derive(Debug, PartialEq, Eq)]
pub enum VoxPayload {
    MassUprising { target_systems: Vec<u8> },
    PopulistDemands { ambition: Option<AmbitionTypes> },
    OutrageSpreads { outrage_type: Option<ResourceType> },
    SongOfFreedom { target_system: Option<u8>, target_player: Option<Color> },
    GuildStruggle { target_player: Option<Color>, target_card: Option<u8> },
    CallToAction,
}

/// A card of the court with the agents that the players have on it.
#[derive(Debug, PartialEq, Eq)]
pub enum CourtCard {
    VoxCard { vox: Vox, agents: Vec<Agents> },
    GuildCard { guild: Guild, agents: Vec<Agents> },
}

/// The mathematical value of a court card.
pub enum CourtCardView {
    VoxCard { vox: Vox, agents: Seq<Agents> },
    GuildCard { guild: Guild, agents: Seq<Agents> },
}

impl View for CourtCard {
    type V = CourtCardView;

    open spec fn view(&self) -> CourtCardView {
        match *self {
            CourtCard::VoxCard { vox, agents } => CourtCardView::VoxCard { vox, agents: agents@ },
            CourtCard::GuildCard { guild, agents } => CourtCardView::GuildCard { guild, agents: agents@ },
        }
    }
}

impl Clone for CourtCard {
    fn clone(&self) -> (r: Self)
        ensures
            r@ == self@,
    {
        match self {
            CourtCard::VoxCard { vox, agents } => CourtCard::VoxCard { vox: *vox, agents: agents.clone() },
            CourtCard::GuildCard { guild, agents } => CourtCard::GuildCard { guild: *guild, agents: agents.clone() },
        }
    }
}

impl Clone for VoxPayload {
    fn clone(&self) -> (r: Self)
        ensures
            r.same_as(*self),
    {
        match self {
            VoxPayload::MassUprising { target_systems } => VoxPayload::MassUprising {
                target_systems: target_systems.clone(),
            },
            VoxPayload::PopulistDemands { ambition } => VoxPayload::PopulistDemands { ambition: *ambition },
            VoxPayload::OutrageSpreads { outrage_type } => VoxPayload::OutrageSpreads { outrage_type: *outrage_type },
            VoxPayload::SongOfFreedom { target_system, target_player } => VoxPayload::SongOfFreedom {
                target_system: *target_system,
                target_player: *target_player,
            },
            VoxPayload::GuildStruggle { target_player, target_card } => VoxPayload::GuildStruggle {
                target_player: *target_player,
                target_card: *target_card,
            },
            VoxPayload::CallToAction => VoxPayload::CallToAction,
        }
    }
}

impl VoxPayload {
    /// Two payloads say the same.
    pub open spec fn same_as(self, other: VoxPayload) -> bool {
        match (self, other) {
            (VoxPayload::MassUprising { target_systems: a }, VoxPayload::MassUprising { target_systems: b }) => a@ == b@,
            (VoxPayload::PopulistDemands { ambition: a }, VoxPayload::PopulistDemands { ambition: b }) => a == b,
            (VoxPayload::OutrageSpreads { outrage_type: a }, VoxPayload::OutrageSpreads { outrage_type: b }) => a == b,
            (
                VoxPayload::SongOfFreedom { target_system: a, target_player: p },
                VoxPayload::SongOfFreedom { target_system: b, target_player: q },
            ) => a == b && p == q,
            (
                VoxPayload::GuildStruggle { target_player: p, target_card: a },
                VoxPayload::GuildStruggle { target_player: q, target_card: b },
            ) => a == b && p == q,
            (VoxPayload::CallToAction, VoxPayload::CallToAction) => true,
            _ => false,
        }
    }
}

impl CourtCardView {
    /// The agents on the card.
    pub open spec fn agents(self) -> Seq<Agents> {
        match self {
            CourtCardView::VoxCard { agents, .. } => agents,
            CourtCardView::GuildCard { agents, .. } => agents,
        }
    }

    /// The card with other agents on it.
    pub open spec fn with_agents(self, agents: Seq<Agents>) -> CourtCardView {
        match self {
            CourtCardView::VoxCard { vox, .. } => CourtCardView::VoxCard { vox, agents },
            CourtCardView::GuildCard { guild, .. } => CourtCardView::GuildCard { guild, agents },
        }
    }
}


/// The agents on a card, written as units: who has how many.
pub open spec fn agents_as_units(agents: Seq<Agents>) -> Seq<Ships> {
    Seq::new(agents.len(), |i: int| Ships { player: agents[i].color, fresh: agents[i].count, damaged: 0 })
}

/// The agents of `player` on a card. Agents are kept in seating order
/// (`seating::agents_in_order`), so the entry, if there is one, stands at the
/// player's seat.
pub open spec fn agents_entry(agents: Seq<Agents>, player: Color) -> Option<Agents> {
    if player.seat() < agents.len() && agents[player.seat()].color == player {
        Some(agents[player.seat()])
    } else {
        None
    }
}

/// The agents with every count set to zero.
pub open spec fn agents_cleared(agents: Seq<Agents>) -> Seq<Agents> {
    Seq::new(agents.len(), |i: int| Agents { color: agents[i].color, count: 0 })
}

impl CourtCardView {
    /// The player who controls the card: the one who alone has the most
    /// agents on it. A tie, also one at zero, leaves the card to nobody.
    pub open spec fn controlled_by(self) -> Option<Color> {
        control_of(agents_as_units(self.agents()))
    }
}

/// The entry of `player` among the agents, if there is one at the player's seat.
pub fn find_agents(agents: &Vec<Agents>, player: &Color) -> (r: Option<Agents>)
    ensures
        r == agents_entry(agents@, *player),
{
    let seat = player.index();
    if seat < agents.len() {
        let e = agents[seat];
        if e.color == *player {
            Some(e)
        } else {
            None
        }
    } else {
        None
    }
}

impl CourtCard {
    /// The agents on the card.
    pub fn agents(&self) -> (r: &Vec<Agents>)
        ensures
            r@ == self@.agents(),
    {
        match self {
            CourtCard::VoxCard { agents, .. } => agents,
            CourtCard::GuildCard { agents, .. } => agents,
        }
    }

    /// The card with other agents on it.
    pub fn with_agents(&self, agents: Vec<Agents>) -> (r: CourtCard)
        ensures
            r@ == self@.with_agents(agents@),
    {
        match self {
            CourtCard::VoxCard { vox, .. } => CourtCard::VoxCard { vox: *vox, agents },
            CourtCard::GuildCard { guild, .. } => CourtCard::GuildCard { guild: *guild, agents },
        }
    }

    /// The player who controls the card, if any.
    pub fn controlled_by(&self) -> (r: Option<Color>)
        ensures
            r == self@.controlled_by(),
    {
        let agents = self.agents();
        let mut units: Vec<Ships> = Vec::new();
        let mut i: usize = 0;
        while i < agents.len()
            invariant
                i <= agents.len(),
                units@.len() == i,
                forall|j: int| 0 <= j < i ==> units@[j] == (Ships { player: agents@[j].color, fresh: agents@[j].count, damaged: 0 }),
            decreases agents.len() - i,
        {
            units.push(Ships { player: agents[i].color, fresh: agents[i].count, damaged: 0 });
            i += 1;
        }
        proof {
            assert(units@ =~= agents_as_units(agents@));
        }
        derive_control(&units)
    }
}


// ---------------------------------------------------------------------------
// Mass Uprising
// ---------------------------------------------------------------------------

/// All the nodes named lie on the board.
pub open spec fn all_on_board(targets: Seq<u8>) -> bool {
    forall|i: int| 0 <= i < targets.len() ==> #[trigger] targets[i] < BOARD_SIZE
}

/// All the nodes named belong to one cluster.
pub open spec fn same_cluster(targets: Seq<u8>) -> bool {
    forall|i: int, j: int| 0 <= i < targets.len() && 0 <= j < targets.len() ==> cluster_of(#[trigger] targets[i]) == cluster_of(
        #[trigger] targets[j],
    )
}

/// The node is one of those named.
pub open spec fn rises(system: SystemView, targets: Seq<u8>) -> bool {
    match system {
        SystemView::Unused => false,
        SystemView::Used { system_id, .. } => targets.contains(system_id),
    }
}

/// The test for a node that is named but cannot take one more fresh ship of `player`.
pub open spec fn uprising_blocked_test(targets: Seq<u8>, player: Color) -> spec_fn(SystemView) -> bool {
    |system: SystemView| rises(system, targets) && place_ships_result(system->ships, player, 1, 0) is Err
}

/// A node after the uprising: one fresh ship of `player` more where the node is named.
pub open spec fn uprising_system(system: SystemView, targets: Seq<u8>, player: Color) -> SystemView {
    if rises(system, targets) {
        system.with_ships(place_ships_result(system->ships, player, 1, 0).unwrap()).with_control()
    } else {
        system
    }
}

/// The state after the current player placed one ship from reserve in each
/// of the nodes named. With four ships or more in reserve exactly four nodes
/// are named; all of them belong to one cluster.
pub open spec fn mass_uprising_result(s: GameStateView, targets: Seq<u8>) -> Result<GameStateView, ActionError> {
    let actor = s.current_player;
    match s.player_area(actor) {
        None => Err(ActionError::UnknownEntity),
        Some(area) => if targets.len() != 4 && area.reserve.ships >= 4 {
            Err(ActionError::PayloadMismatch)
        } else if targets.len() > area.reserve.ships {
            Err(ActionError::InsufficientReserve)
        } else if !all_on_board(targets) {
            Err(ActionError::UnknownEntity)
        } else if !same_cluster(targets) {
            Err(ActionError::PayloadMismatch)
        } else {
            match first_index(s.systems, uprising_blocked_test(targets, actor)) {
                Some(i) => Err(place_ships_result(s.systems[i]->ships, actor, 1, 0)->Err_0),
                None => GameStateView {
                    systems: Seq::new(s.systems.len(), |i: int| uprising_system(s.systems[i], targets, actor)),
                    ..s
                }.update_players_reserve(actor, ReserveType::Ships, (-(targets.len() as int)) as i8),
            }
        }
    }
}

/// What the effect of a Vox card makes of the state. The payload must be of
/// the variant that the effect expects.
pub open spec fn vox_result(s: GameStateView, effect: VoxEffect, payload: Option<VoxPayload>) -> Result<GameStateView, ActionError> {
    match effect {
        VoxEffect::MassUprising => match payload {
            Some(VoxPayload::MassUprising { target_systems }) => mass_uprising_result(s, target_systems@),
            _ => Err(ActionError::PayloadMismatch),
        },
    }
}

/// The neighbouring pairs of a list, in order. Calls `Itertools::tuple_windows`
/// of itertools for pairs and collects what it yields: one pair for each
/// position but the last, made of the value there and the next; nothing for
/// a list of fewer than two values.
#[verifier::external_body]
fn adjacent_pairs(values: &Vec<u8>) -> (r: Vec<(u8, u8)>)
    ensures
        r@.len() == if values@.len() == 0 { 0 } else { values@.len() - 1 },
        forall|i: int| 0 <= i < r@.len() ==> #[trigger] r@[i] == (values@[i], values@[i + 1]),
{
    values.iter().copied().tuple_windows().collect()
}

/// Values of which each equals the next are all the same.
proof fn lemma_chain_of_equals(values: Seq<u8>, i: int)
    requires
        0 <= i < values.len(),
        forall|k: int| 0 <= k < values.len() - 1 ==> #[trigger] values[k] == values[k + 1],
    ensures
        values[i] == values[0],
    decreases i,
{
    if i > 0 {
        lemma_chain_of_equals(values, i - 1);
    }
}

/// Whether all the nodes named, each of them on the board, belong to one cluster.
pub fn in_same_cluster(targets: &Vec<u8>) -> (r: bool)
    requires
        all_on_board(targets@),
    ensures
        r == same_cluster(targets@),
{
    let mut clusters: Vec<u8> = Vec::new();
    let mut i: usize = 0;
    while i < targets.len()
        invariant
            i <= targets.len(),
            all_on_board(targets@),
            clusters@.len() == i,
            forall|j: int| 0 <= j < i ==> clusters@[j] == cluster_of(targets@[j]),
        decreases targets.len() - i,
    {
        clusters.push(get_cluster(targets[i]));
        i += 1;
    }
    let pairs = adjacent_pairs(&clusters);
    let equal = all_pairs_equal(&pairs);
    proof {
        if equal {
            assert forall|a: int, b: int| 0 <= a < targets@.len() && 0 <= b < targets@.len() implies cluster_of(
                #[trigger] targets@[a],
            ) == cluster_of(#[trigger] targets@[b]) by {
                assert forall|m: int| 0 <= m < clusters@.len() - 1 implies #[trigger] clusters@[m] == clusters@[m + 1] by {
                    assert(pairs@[m].0 == pairs@[m].1);
                }
                lemma_chain_of_equals(clusters@, a);
                lemma_chain_of_equals(clusters@, b);
            }
        } else {
            let k = choose|k: int| 0 <= k < pairs@.len() && (#[trigger] pairs@[k]).0 != pairs@[k].1;
            assert(clusters@[k] != clusters@[k + 1]);
            assert(cluster_of(targets@[k]) != cluster_of(targets@[k + 1]));
        }
    }
    equal
}

/// Whether the two values of every pair are equal.
pub fn all_pairs_equal(pairs: &Vec<(u8, u8)>) -> (r: bool)
    ensures
        r == forall|k: int| 0 <= k < pairs@.len() ==> (#[trigger] pairs@[k]).0 == pairs@[k].1,
{
    let mut k: usize = 0;
    while k < pairs.len()
        invariant
            k <= pairs.len(),
            forall|j: int| 0 <= j < k ==> (#[trigger] pairs@[j]).0 == pairs@[j].1,
        decreases pairs.len() - k,
    {
        if pairs[k].0 != pairs[k].1 {
            return false;
        }
        k += 1;
    }
    true
}

/// Whether every node named lies on the board.
pub fn are_on_board(targets: &Vec<u8>) -> (r: bool)
    ensures
        r == all_on_board(targets@),
{
    let mut i: usize = 0;
    while i < targets.len()
        invariant
            i <= targets.len(),
            forall|j: int| 0 <= j < i ==> #[trigger] targets@[j] < BOARD_SIZE,
        decreases targets.len() - i,
    {
        if targets[i] >= BOARD_SIZE {
            return false;
        }
        i += 1;
    }
    true
}

/// Places one fresh ship of `player` in each node that is named.
pub fn raise_systems(all: &Vec<System>, targets: &Vec<u8>, player: &Color) -> (r: Result<Vec<System>, ActionError>)
    ensures
        match r {
            Ok(systems) => first_index(views(all@), uprising_blocked_test(targets@, *player)) is None && views(systems@)
                == Seq::new(views(all@).len(), |i: int| uprising_system(views(all@)[i], targets@, *player)),
            Err(e) => match first_index(views(all@), uprising_blocked_test(targets@, *player)) {
                Some(i) => place_ships_result(views(all@)[i]->ships, *player, 1, 0) == Err::<Seq<Ships>, ActionError>(e),
                None => false,
            },
        },
{
    let ghost p = uprising_blocked_test(targets@, *player);
    let ghost before = views(all@);
    let mut systems: Vec<System> = Vec::new();
    let mut i: usize = 0;
    while i < all.len()
        invariant
            i <= all.len(),
            before == views(all@),
            p == uprising_blocked_test(targets@, *player),
            systems@.len() == i,
            forall|j: int| 0 <= j < i ==> !p(#[trigger] before[j]),
            forall|j: int| 0 <= j < i ==> systems@[j]@ == uprising_system(before[j], targets@, *player),
        decreases all.len() - i,
    {
        let system = &all[i];
        proof {
            assert(before[i as int] == system@);
        }
        let named = match system {
            System::Unused => false,
            System::Used { system_id, .. } => contains_id(targets, *system_id),
        };
        if named {
            match system {
                System::Unused => {
                    systems.push(System::Unused);
                },
                System::Used { ships, .. } => match place_ships(ships, player, 1, 0) {
                    Err(e) => {
                        proof {
                            assert(is_first(before, p, i as int));
                            lemma_first_index_found(before, p, i as int);
                        }
                        return Err(e);
                    },
                    Ok(placed) => {
                        systems.push(with_ships(system, placed));
                    },
                },
            }
        } else {
            systems.push(system.clone());
        }
        i += 1;
    }
    proof {
        assert(none_satisfies(before, p));
        lemma_first_index_missing(before, p);
        assert(views(systems@) =~= Seq::new(before.len(), |i: int| uprising_system(before[i], targets@, *player)));
    }
    Ok(systems)
}

/// The effect of the Mass Uprising card: the current player places one ship
/// from reserve in each of the nodes named, all of one cluster.
pub fn mass_uprising(game_state: &GameState, target_systems: &Vec<u8>) -> (r: Result<GameState, ActionError>)
    ensures
        viewed(r) == mass_uprising_result(game_state@, target_systems@),
{
    let actor = game_state.current_player;
    let area = match game_state.get_player_area(&actor) {
        None => { return Err(ActionError::UnknownEntity); },
        Some(area) => area,
    };
    let reserve_ships = area.reserve.ships;
    if target_systems.len() != 4 && reserve_ships >= 4 {
        return Err(ActionError::PayloadMismatch);
    }
    if target_systems.len() > reserve_ships as usize {
        return Err(ActionError::InsufficientReserve);
    }
    if !are_on_board(target_systems) {
        return Err(ActionError::UnknownEntity);
    }
    if !in_same_cluster(target_systems) {
        return Err(ActionError::PayloadMismatch);
    }
    let systems = match raise_systems(&game_state.systems, target_systems, &actor) {
        Err(e) => { return Err(e); },
        Ok(systems) => systems,
    };
    let mut g = game_state.clone();
    g.systems = systems;
    let placed: i8 = target_systems.len() as i8;
    g.update_players_reserve(&actor, &ReserveType::Ships, -placed)
}

/// Applies the effect of a Vox card with the payload that the player supplied.
pub fn apply_vox(game_state: &GameState, effect: VoxEffect, payload: &Option<VoxPayload>) -> (r: Result<GameState, ActionError>)
    ensures
        viewed(r) == vox_result(game_state@, effect, *payload),
{
    match effect {
        VoxEffect::MassUprising => match payload {
            Some(VoxPayload::MassUprising { target_systems }) => mass_uprising(game_state, target_systems),
            _ => Err(ActionError::PayloadMismatch),
        },
    }
}


// ---------------------------------------------------------------------------
// The deck
// ---------------------------------------------------------------------------

/// The number of cards in the court deck.
pub const DECK_SIZE: u8 = 26;

impl GuildName {
    /// The Guild card at a place of the catalog, which lists twenty-five of them.
    pub open spec fn at(index: int) -> GuildName {
        if index == 0 {
            GuildName::LoyalEngineers
        } else if index == 1 {
            GuildName::MiningInterest
        } else if index == 2 {
            GuildName::MaterialCartel
        } else if index == 3 {
            GuildName::AdminUnion
        } else if index == 4 {
            GuildName::ConstructionUnion
        } else if index == 5 {
            GuildName::FuelCartel
        } else if index == 6 {
            GuildName::LoyalPilots
        } else if index == 7 {
            GuildName::GateKeepers
        } else if index == 8 {
            GuildName::ShippingInterests
        } else if index == 9 {
            GuildName::SpacingUnion
        } else if index == 10 {
            GuildName::ArmsUnion
        } else if index == 11 {
            GuildName::PrisonWardens
        } else if index == 12 {
            GuildName::Skirmishers
        } else if index == 13 {
            GuildName::CourtEnforcers
        } else if index == 14 {
            GuildName::LoyalMarines
        } else if index == 15 {
            GuildName::LatticeSpies
        } else if index == 16 {
            GuildName::Farseers
        } else if index == 17 {
            GuildName::SecretOrder
        } else if index == 18 {
            GuildName::SilverTounges
        } else if index == 19 {
            GuildName::LoyalEmpaths
        } else if index == 20 {
            GuildName::LoyalKeepers
        } else if index == 21 {
            GuildName::SwornGuardians
        } else if index == 22 {
            GuildName::ElderBroker
        } else if index == 23 {
            GuildName::RelicFence
        } else {
            GuildName::GalacticBards
        }
    }

    /// The resource that the card counts as.
    pub open spec fn resource(self) -> ResourceType {
        match self {
            GuildName::LoyalEngineers | GuildName::MiningInterest | GuildName::MaterialCartel | GuildName::AdminUnion | GuildName::ConstructionUnion => ResourceType::Material,
            GuildName::FuelCartel | GuildName::LoyalPilots | GuildName::GateKeepers | GuildName::ShippingInterests | GuildName::SpacingUnion => ResourceType::Fuel,
            GuildName::ArmsUnion | GuildName::PrisonWardens | GuildName::Skirmishers | GuildName::CourtEnforcers | GuildName::LoyalMarines => ResourceType::Weapons,
            GuildName::LatticeSpies | GuildName::Farseers | GuildName::SecretOrder | GuildName::SilverTounges | GuildName::LoyalEmpaths => ResourceType::Psionics,
            GuildName::LoyalKeepers | GuildName::SwornGuardians | GuildName::ElderBroker | GuildName::RelicFence | GuildName::GalacticBards => ResourceType::Relics,
        }
    }

    /// The keys on the card.
    pub open spec fn keys(self) -> u8 {
        match self {
            GuildName::LoyalEngineers | GuildName::LoyalPilots | GuildName::LoyalMarines | GuildName::LoyalEmpaths | GuildName::LoyalKeepers => 3,
            GuildName::SwornGuardians | GuildName::GalacticBards => 1,
            _ => 2,
        }
    }

    /// The Guild card at a place of the catalog.
    pub fn from_index(index: u8) -> (r: GuildName)
        ensures
            r == GuildName::at(index as int),
    {
        if index == 0 {
            GuildName::LoyalEngineers
        } else if index == 1 {
            GuildName::MiningInterest
        } else if index == 2 {
            GuildName::MaterialCartel
        } else if index == 3 {
            GuildName::AdminUnion
        } else if index == 4 {
            GuildName::ConstructionUnion
        } else if index == 5 {
            GuildName::FuelCartel
        } else if index == 6 {
            GuildName::LoyalPilots
        } else if index == 7 {
            GuildName::GateKeepers
        } else if index == 8 {
            GuildName::ShippingInterests
        } else if index == 9 {
            GuildName::SpacingUnion
        } else if index == 10 {
            GuildName::ArmsUnion
        } else if index == 11 {
            GuildName::PrisonWardens
        } else if index == 12 {
            GuildName::Skirmishers
        } else if index == 13 {
            GuildName::CourtEnforcers
        } else if index == 14 {
            GuildName::LoyalMarines
        } else if index == 15 {
            GuildName::LatticeSpies
        } else if index == 16 {
            GuildName::Farseers
        } else if index == 17 {
            GuildName::SecretOrder
        } else if index == 18 {
            GuildName::SilverTounges
        } else if index == 19 {
            GuildName::LoyalEmpaths
        } else if index == 20 {
            GuildName::LoyalKeepers
        } else if index == 21 {
            GuildName::SwornGuardians
        } else if index == 22 {
            GuildName::ElderBroker
        } else if index == 23 {
            GuildName::RelicFence
        } else {
            GuildName::GalacticBards
        }
    }

    /// The Guild card of this name.
    pub fn card(self) -> (r: Guild)
        ensures
            r == (Guild { name: self, resource: self.resource(), keys: self.keys() }),
    {
        let resource = match self {
            GuildName::LoyalEngineers | GuildName::MiningInterest | GuildName::MaterialCartel | GuildName::AdminUnion | GuildName::ConstructionUnion => ResourceType::Material,
            GuildName::FuelCartel | GuildName::LoyalPilots | GuildName::GateKeepers | GuildName::ShippingInterests | GuildName::SpacingUnion => ResourceType::Fuel,
            GuildName::ArmsUnion | GuildName::PrisonWardens | GuildName::Skirmishers | GuildName::CourtEnforcers | GuildName::LoyalMarines => ResourceType::Weapons,
            GuildName::LatticeSpies | GuildName::Farseers | GuildName::SecretOrder | GuildName::SilverTounges | GuildName::LoyalEmpaths => ResourceType::Psionics,
            GuildName::LoyalKeepers | GuildName::SwornGuardians | GuildName::ElderBroker | GuildName::RelicFence | GuildName::GalacticBards => ResourceType::Relics,
        };
        let keys: u8 = match self {
            GuildName::LoyalEngineers | GuildName::LoyalPilots | GuildName::LoyalMarines | GuildName::LoyalEmpaths | GuildName::LoyalKeepers => 3,
            GuildName::SwornGuardians | GuildName::GalacticBards => 1,
            _ => 2,
        };
        Guild { name: self, resource, keys }
    }
}

/// The card at a place of the catalog, with `agents` on it: the Mass
/// Uprising first, then the Guild cards.
pub open spec fn catalog_card(index: int, agents: Seq<Agents>) -> CourtCardView {
    if index == 0 {
        CourtCardView::VoxCard { vox: Vox { on_secure: VoxEffect::MassUprising }, agents }
    } else {
        CourtCardView::GuildCard {
            guild: Guild {
                name: GuildName::at(index - 1),
                resource: GuildName::at(index - 1).resource(),
                keys: GuildName::at(index - 1).keys(),
            },
            agents,
        }
    }
}

/// No agents of anyone: one entry for each player.
pub open spec fn no_agents(players: Seq<Color>) -> Seq<Agents> {
    Seq::new(players.len(), |i: int| Agents { color: players[i], count: 0 })
}

/// The numbers below `n`, in rising order.
pub open spec fn in_order(n: int) -> Seq<u8> {
    Seq::new(n as nat, |i: int| i as u8)
}

/// `order` lists each place of the catalog once.
pub open spec fn is_shuffle(order: Seq<u8>) -> bool {
    order.to_multiset() == in_order(DECK_SIZE as int).to_multiset()
}

/// The deck that lists the cards of the catalog as `order` says, with no agents on any.
pub open spec fn deck_in_order(order: Seq<u8>, players: Seq<Color>) -> Seq<CourtCardView> {
    Seq::new(order.len(), |i: int| catalog_card(order[i] as int, no_agents(players)))
}

/// The standard random number generator of rand. Nothing is known of what it holds.
#[verifier::external_type_specification]
#[verifier::external_body]
pub struct ExStdRng(rand::rngs::StdRng);

/// A generator made from a seed. Calls `SeedableRng::seed_from_u64` of rand
/// for its standard generator. Nothing is claimed of the generator.
#[verifier::external_body]
fn seeded_generator(seed: u64) -> (rng: StdRng) {
    StdRng::seed_from_u64(seed)
}

/// Shuffles a list in place. Calls `SliceRandom::shuffle` of rand, which
/// swaps elements of the slice: the list holds afterwards what it held
/// before, in some order.
#[verifier::external_body]
fn shuffle_order(order: &mut Vec<u8>, rng: &mut StdRng)
    ensures
        final(order)@.to_multiset() == old(order)@.to_multiset(),
{
    order.shuffle(rng)
}

/// An entry without agents for each player.
pub fn empty_agents(players: &Vec<Color>) -> (r: Vec<Agents>)
    ensures
        r@ == no_agents(players@),
{
    let mut out: Vec<Agents> = Vec::new();
    let mut i: usize = 0;
    while i < players.len()
        invariant
            i <= players.len(),
            out@.len() == i,
            forall|j: int| 0 <= j < i ==> out@[j] == (Agents { color: players@[j], count: 0 }),
        decreases players.len() - i,
    {
        out.push(Agents { color: players[i], count: 0 });
        i += 1;
    }
    proof {
        assert(out@ =~= no_agents(players@));
    }
    out
}

/// The card at a place of the catalog, with `agents` on it.
pub fn card_at(index: u8, agents: &Vec<Agents>) -> (r: CourtCard)
    ensures
        r@ == catalog_card(index as int, agents@),
{
    if index == 0 {
        CourtCard::VoxCard { vox: Vox { on_secure: VoxEffect::MassUprising }, agents: agents.clone() }
    } else {
        CourtCard::GuildCard { guild: GuildName::from_index(index - 1).card(), agents: agents.clone() }
    }
}

/// The court deck for `players`, shuffled by a generator made from `seed`:
/// every card of the catalog once, with no agents on it.
pub fn create_court_deck_with_seed(players: Vec<Color>, seed: u64) -> (r: Vec<CourtCard>)
    ensures
        exists|order: Seq<u8>| #[trigger] is_shuffle(order) && views(r@) == deck_in_order(order, players@),
{
    let agents = empty_agents(&players);
    let mut order: Vec<u8> = Vec::new();
    let mut i: u8 = 0;
    while i < DECK_SIZE
        invariant
            i <= DECK_SIZE,
            order@ == in_order(i as int),
        decreases DECK_SIZE - i,
    {
        order.push(i);
        proof {
            assert(order@ =~= in_order(i + 1));
        }
        i += 1;
    }
    let mut rng = seeded_generator(seed);
    shuffle_order(&mut order, &mut rng);
    let mut deck: Vec<CourtCard> = Vec::new();
    let mut k: usize = 0;
    while k < order.len()
        invariant
            k <= order.len(),
            deck@.len() == k,
            forall|j: int| 0 <= j < k ==> deck@[j]@ == catalog_card(order@[j] as int, agents@),
        decreases order.len() - k,
    {
        deck.push(card_at(order[k], &agents));
        k += 1;
    }
    proof {
        assert(views(deck@) =~= deck_in_order(order@, players@));
        assert(is_shuffle(order@));
    }
    deck
}

/// The court deck for `players`, shuffled as a game of the standard setup is.
pub fn create_court_deck(players: Vec<Color>) -> (r: Vec<CourtCard>)
    ensures
        exists|order: Seq<u8>| #[trigger] is_shuffle(order) && views(r@) == deck_in_order(order, players@),
{
    create_court_deck_with_seed(players, 42)
}

// ---------------------------------------------------------------------------
// What is printed on the cards
// ---------------------------------------------------------------------------

impl VoxEffect {
    /// The title of the Vox card with this effect.
    pub open spec fn title_text(self) -> Seq<char> {
        match self {
            VoxEffect::MassUprising => "Mass Uprising"@,
        }
    }

    /// The text of the Vox card with this effect.
    pub open spec fn description_text(self) -> Seq<char> {
        match self {
            VoxEffect::MassUprising => "When Secured: Choose a cluster on the map. You place 1 ship in each system of that cluster. Discard this card."@,
        }
    }

    /// The title of the Vox card with this effect.
    pub fn title(&self) -> (r: &'static str)
        ensures
            r@ == self.title_text(),
    {
        match self {
            VoxEffect::MassUprising => "Mass Uprising",
        }
    }

    /// The text of the Vox card with this effect.
    pub fn description(&self) -> (r: &'static str)
        ensures
            r@ == self.description_text(),
    {
        match self {
            VoxEffect::MassUprising => "When Secured: Choose a cluster on the map. You place 1 ship in each system of that cluster. Discard this card.",
        }
    }
}

impl GuildName {
    /// The title of the Guild card.
    pub open spec fn title_text(self) -> Seq<char> {
        match self {
            GuildName::LoyalEngineers => "Loyal Engineers"@,
            GuildName::MiningInterest => "Mining_Interest"@,
            GuildName::MaterialCartel => "Material Cartel"@,
            GuildName::AdminUnion => "Admin Union"@,
            GuildName::ConstructionUnion => "Construction Union"@,
            GuildName::FuelCartel => "Fuel Cartel"@,
            GuildName::LoyalPilots => "Loyal Pilots"@,
            GuildName::GateKeepers => "Gate Keepers"@,
            GuildName::ShippingInterests => "Shipping Interests"@,
            GuildName::SpacingUnion => "Spacing Union"@,
            GuildName::ArmsUnion => "Arms Union"@,
            GuildName::PrisonWardens => "Prison Wardens"@,
            GuildName::Skirmishers => "Skirmishers"@,
            GuildName::CourtEnforcers => "Court Enforcers"@,
            GuildName::LoyalMarines => "Loyal Marines"@,
            GuildName::LatticeSpies => "Lattice Spies"@,
            GuildName::Farseers => "Farseers"@,
            GuildName::SecretOrder => "Secret Order"@,
            GuildName::SilverTounges => "Silver Tounges"@,
            GuildName::LoyalEmpaths => "Loyal Empaths"@,
            GuildName::LoyalKeepers => "Loyal Keepers"@,
            GuildName::SwornGuardians => "Sworn Guardians"@,
            GuildName::ElderBroker => "Elder Broker"@,
            GuildName::RelicFence => "Relic Fence"@,
            GuildName::GalacticBards => "Galactic Bards"@,
        }
    }

    /// The title of the Guild card.
    pub fn title(&self) -> (r: &'static str)
        ensures
            r@ == self.title_text(),
    {
        match self {
            GuildName::LoyalEngineers => "Loyal Engineers",
            GuildName::MiningInterest => "Mining_Interest",
            GuildName::MaterialCartel => "Material Cartel",
            GuildName::AdminUnion => "Admin Union",
            GuildName::ConstructionUnion => "Construction Union",
            GuildName::FuelCartel => "Fuel Cartel",
            GuildName::LoyalPilots => "Loyal Pilots",
            GuildName::GateKeepers => "Gate Keepers",
            GuildName::ShippingInterests => "Shipping Interests",
            GuildName::SpacingUnion => "Spacing Union",
            GuildName::ArmsUnion => "Arms Union",
            GuildName::PrisonWardens => "Prison Wardens",
            GuildName::Skirmishers => "Skirmishers",
            GuildName::CourtEnforcers => "Court Enforcers",
            GuildName::LoyalMarines => "Loyal Marines",
            GuildName::LatticeSpies => "Lattice Spies",
            GuildName::Farseers => "Farseers",
            GuildName::SecretOrder => "Secret Order",
            GuildName::SilverTounges => "Silver Tounges",
            GuildName::LoyalEmpaths => "Loyal Empaths",
            GuildName::LoyalKeepers => "Loyal Keepers",
            GuildName::SwornGuardians => "Sworn Guardians",
            GuildName::ElderBroker => "Elder Broker",
            GuildName::RelicFence => "Relic Fence",
            GuildName::GalacticBards => "Galactic Bards",
        }
    }
}

impl CourtCard {
    /// The title of the card.
    pub fn title(&self) -> (r: &'static str)
        ensures
            r@ == match self@ {
                CourtCardView::VoxCard { vox, .. } => vox.on_secure.title_text(),
                CourtCardView::GuildCard { guild, .. } => guild.name.title_text(),
            },
    {
        match self {
            CourtCard::VoxCard { vox, .. } => vox.on_secure.title(),
            CourtCard::GuildCard { guild, .. } => guild.name.title(),
        }
    }
}

} // verus!
