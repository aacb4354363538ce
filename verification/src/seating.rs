//! Unit lists, agent lists and the players' areas are kept in seating order,
//! one entry for each player: the setup of a game establishes this and every
//! action keeps it. In such a state every player who takes part is found
//! wherever a player is looked up.

use vstd::prelude::*;
use crate::actions::allocating::allocate_resources_result;
use crate::actions::building::{build_result, built_system};
use crate::actions::ending::{
    end_round_result, end_turn_result, lemma_chapter_changes_holdings_only, players_with_cards, round_is_over,
    round_reset, turn_passed,
};
use crate::actions::influencing::influence_result;
use crate::actions::moving::{relocate_result, relocated_all};
use crate::actions::repairing::{repair_result, repaired_system};
use crate::actions::securing::{card_taken, lemma_card_taken, secure_result};
use crate::actions::taxing::{tax_claimed, tax_result};
use crate::actions::tricktaking::{copy_result, pivot_result, play_lead_card_result, surpass_result, card_played};
use crate::actions::{
    basic_action_result, lemma_run_unfolds, pip_spent, place_ships_result, prelude_action_result,
    remove_ships_result, run, step,
};
use crate::board::{least, reach_of, seated, setup_result, settle_result, settled_all, starting_board};
use crate::data::court_cards::{
    CourtCardView, VoxPayload, agents_cleared, agents_entry, deck_in_order, mass_uprising_result, rises,
    uprising_blocked_test, uprising_system,
};
use crate::data::game_state::{
    Action, ActionCard, Agents, AmbitionTypes, BasicAction, BuildType, Color, GameStateView, PlayerAreaView, ReserveType,
    ResourceType, TurnStateView, same_seats,
};
use crate::data::setup_cards::SetupCard;
use crate::data::system::{BuildingType, Ships, SystemView, ships_entry, ships_placed, slots_used_at};
use crate::lookup::lemma_first_index_meaning;

verus! {

/// The list holds one entry for each of `players` players, in seating order.
pub open spec fn units_in_order(ships: Seq<Ships>, players: int) -> bool {
    &&& ships.len() == players
    &&& forall|i: int| 0 <= i < ships.len() ==> (#[trigger] ships[i]).player == Color::at_seat(i)
}

/// The list holds one entry for each of `players` players, in seating order.
pub open spec fn agents_in_order(agents: Seq<Agents>, players: int) -> bool {
    &&& agents.len() == players
    &&& forall|i: int| 0 <= i < agents.len() ==> (#[trigger] agents[i]).color == Color::at_seat(i)
}

/// One to four players, each in the seat of the player's colour.
pub open spec fn areas_in_order(players: Seq<PlayerAreaView>) -> bool {
    &&& 1 <= players.len() <= 4
    &&& forall|i: int| 0 <= i < players.len() ==> (#[trigger] players[i]).player == Color::at_seat(i)
}

/// The units of a node in play are listed in seating order.
pub open spec fn system_in_order(system: SystemView, players: int) -> bool {
    match system {
        SystemView::Unused => true,
        SystemView::Used { ships, .. } => units_in_order(ships, players),
    }
}

/// The units of every node in play are listed in seating order.
pub open spec fn board_in_order(systems: Seq<SystemView>, players: int) -> bool {
    forall|i: int| 0 <= i < systems.len() ==> system_in_order(#[trigger] systems[i], players)
}

/// The agents on every card are listed in seating order.
pub open spec fn cards_in_order(cards: Seq<CourtCardView>, players: int) -> bool {
    forall|i: int| 0 <= i < cards.len() ==> agents_in_order((#[trigger] cards[i]).agents(), players)
}

/// Everything that is listed by player is listed in seating order, with one entry for each player.
pub open spec fn in_seating_order(s: GameStateView) -> bool {
    &&& areas_in_order(s.players)
    &&& board_in_order(s.systems, s.players.len() as int)
    &&& cards_in_order(s.court, s.players.len() as int)
    &&& cards_in_order(s.court_draw_pile, s.players.len() as int)
    &&& cards_in_order(s.court_discard_pile, s.players.len() as int)
}

/// The player takes part in a game of `players` players.
pub open spec fn takes_part(player: Color, players: int) -> bool {
    player.seat() < players
}

/// In a state in seating order every player who takes part is found: among
/// the players, in the units of every node in play, and on every card of the court.
pub proof fn law_seated_players_are_found(s: GameStateView, player: Color)
    requires
        in_seating_order(s),
        takes_part(player, s.players.len() as int),
    ensures
        s.has_player(player),
        forall|i: int| 0 <= i < s.systems.len() && (#[trigger] s.systems[i]) is Used ==> ships_entry(s.systems[i]->ships, player) is Some,
        forall|i: int| 0 <= i < s.court.len() ==> agents_entry((#[trigger] s.court[i]).agents(), player) is Some,
{
    assert(s.players[player.seat()].player == player);
    assert forall|i: int| 0 <= i < s.systems.len() && (#[trigger] s.systems[i]) is Used implies ships_entry(
        s.systems[i]->ships,
        player,
    ) is Some by {
        assert(system_in_order(s.systems[i], s.players.len() as int));
        assert(s.systems[i]->ships[player.seat()].player == player);
    }
    assert forall|i: int| 0 <= i < s.court.len() implies agents_entry((#[trigger] s.court[i]).agents(), player) is Some by {
        assert(agents_in_order(s.court[i].agents(), s.players.len() as int));
        assert(s.court[i].agents()[player.seat()].color == player);
    }
}

/// A change in what the players hold keeps the seating order.
pub proof fn lemma_holdings_keep_order(s: GameStateView, after: GameStateView)
    requires
        in_seating_order(s),
        s.differs_in_holdings_only(after),
    ensures
        in_seating_order(after),
{
    assert forall|i: int| 0 <= i < after.players.len() implies (#[trigger] after.players[i]).player == Color::at_seat(i) by {
        assert(s.players[i].player == after.players[i].player);
    }
}

/// Replacing the area of a player who takes part keeps the seating order.
pub proof fn lemma_area_keeps_order(s: GameStateView, area: PlayerAreaView)
    requires
        in_seating_order(s),
        s.has_player(area.player),
    ensures
        in_seating_order(s.with_player(area)),
        same_seats(s.players, s.with_player(area).players),
{
}

/// Adding units to the entry of a player, or taking units from it, keeps the seating order.
pub proof fn lemma_units_keep_order(ships: Seq<Ships>, player: Color, fresh: int, damaged: int, players: int)
    requires
        units_in_order(ships, players),
        ships_entry(ships, player) is Some,
    ensures
        units_in_order(ships_placed(ships, player, fresh, damaged), players),
{
    let placed = ships_placed(ships, player, fresh, damaged);
    assert forall|i: int| 0 <= i < placed.len() implies (#[trigger] placed[i]).player == Color::at_seat(i) by {
        assert(ships[i].player == Color::at_seat(i));
    }
}

/// Replacing one node by a node in seating order keeps the seating order.
pub proof fn lemma_system_keeps_order(s: GameStateView, index: int, system: SystemView)
    requires
        in_seating_order(s),
        0 <= index < s.systems.len(),
        system_in_order(system, s.players.len() as int),
    ensures
        in_seating_order(s.with_system(index, system)),
{
    let after = s.with_system(index, system);
    assert forall|i: int| 0 <= i < after.systems.len() implies system_in_order(#[trigger] after.systems[i], s.players.len() as int) by {
        if i != index {
            assert(system_in_order(s.systems[i], s.players.len() as int));
        }
    }
}

/// Taking units from one node to another keeps the seating order.
pub proof fn lemma_relocate_keeps_order(s: GameStateView, origin: u8, destination: u8, fresh: u8, damaged: u8)
    requires
        in_seating_order(s),
        relocate_result(s, origin, destination, fresh, damaged) is Ok,
    ensures
        in_seating_order(relocate_result(s, origin, destination, fresh, damaged).unwrap()),
        relocate_result(s, origin, destination, fresh, damaged).unwrap().players == s.players,
{
    let n = s.players.len() as int;
    let actor = s.current_player;
    let o = s.systems[origin as int];
    assert(system_in_order(o, n));
    lemma_units_keep_order(o->ships, actor, -(fresh as int), -(damaged as int), n);
    let left = remove_ships_result(o->ships, actor, fresh, damaged).unwrap();
    let o1 = o.with_ships(left).with_control();
    lemma_system_keeps_order(s, origin as int, o1);
    let s1 = s.with_system(origin as int, o1);
    let d = s1.systems[destination as int];
    assert(system_in_order(d, n));
    lemma_units_keep_order(d->ships, actor, fresh as int, damaged as int, n);
    let arrived = place_ships_result(d->ships, actor, fresh, damaged).unwrap();
    lemma_system_keeps_order(s1, destination as int, d.with_ships(arrived).with_control());
}

/// Sending units out to several destinations keeps the seating order.
pub proof fn lemma_relocation_keeps_order(s: GameStateView, origin: u8, destinations: Seq<(u8, u8, u8)>)
    requires
        in_seating_order(s),
        relocated_all(s, origin, destinations) is Ok,
    ensures
        in_seating_order(relocated_all(s, origin, destinations).unwrap()),
    decreases destinations.len(),
{
    if destinations.len() > 0 {
        lemma_relocation_keeps_order(s, origin, destinations.drop_last());
        let s1 = relocated_all(s, origin, destinations.drop_last()).unwrap();
        lemma_relocate_keeps_order(s1, origin, destinations.last().0, destinations.last().1, destinations.last().2);
    }
}

/// A build keeps the seating order.
pub proof fn lemma_build_keeps_order(s: GameStateView, target_system: u8, build_type: BuildType)
    requires
        in_seating_order(s),
        build_result(s, target_system, build_type) is Ok,
    ensures
        in_seating_order(build_result(s, target_system, build_type).unwrap()),
{
    let n = s.players.len() as int;
    let actor = s.current_player;
    let old = s.systems[target_system as int];
    assert(system_in_order(old, n));
    let build_fresh = old->controlled_by is None || old->controlled_by == Some(actor);
    lemma_units_keep_order(old->ships, actor, if build_fresh { 1 } else { 0 }, if build_fresh { 0 } else { 1 }, n);
    let system = built_system(old, actor, build_type).unwrap();
    assert(system_in_order(system, n));
    lemma_system_keeps_order(s, target_system as int, system);
}

/// A repair keeps the seating order.
pub proof fn lemma_repair_keeps_order(s: GameStateView, target_system: u8, build_type: BuildType)
    requires
        in_seating_order(s),
        repair_result(s, target_system, build_type) is Ok,
    ensures
        in_seating_order(repair_result(s, target_system, build_type).unwrap()),
{
    let n = s.players.len() as int;
    let actor = s.current_player;
    let old = s.systems[target_system as int];
    assert(system_in_order(old, n));
    if ships_entry(old->ships, actor) is Some {
        lemma_units_keep_order(old->ships, actor, 1, -1, n);
    }
    let system = repaired_system(old, actor, build_type).unwrap();
    assert(system_in_order(system, n));
    lemma_system_keeps_order(s, target_system as int, system);
}

/// A tax keeps the seating order.
pub proof fn lemma_tax_keeps_order(s: GameStateView, target_system: u8, target_player: Color)
    requires
        in_seating_order(s),
        tax_result(s, target_system, target_player) is Ok,
    ensures
        in_seating_order(tax_result(s, target_system, target_player).unwrap()),
{
    let n = s.players.len() as int;
    let system = s.systems[target_system as int];
    assert(system_in_order(system, n));
    let claimed = tax_claimed(s, target_player).unwrap();
    if target_player != s.current_player {
        let s1 = s.update_players_reserve(target_player, ReserveType::Agents, -1i8).unwrap();
        assert(in_seating_order(s1));
    }
    assert(in_seating_order(claimed));
    let city = system.unused_building(BuildingType::City, target_player).unwrap();
    let marked = system.with_slots(slots_used_at(system->building_slots, city));
    lemma_system_keeps_order(claimed, target_system as int, marked);
}

/// An influence keeps the seating order.
pub proof fn lemma_influence_keeps_order(s: GameStateView, target_card: u8)
    requires
        in_seating_order(s),
        influence_result(s, target_card) is Ok,
    ensures
        in_seating_order(influence_result(s, target_card).unwrap()),
{
    let n = s.players.len() as int;
    let actor = s.current_player;
    let card = s.court[target_card as int];
    assert(agents_in_order(card.agents(), n));
    let e = agents_entry(card.agents(), actor).unwrap();
    let agents = card.agents().update(actor.seat(), Agents { color: actor, count: (e.count + 1) as u8 });
    assert forall|i: int| 0 <= i < agents.len() implies (#[trigger] agents[i]).color == Color::at_seat(i) by {
        assert(card.agents()[i].color == Color::at_seat(i));
    }
    let s1 = s.with_court_card(target_card as int, card.with_agents(agents));
    assert forall|i: int| 0 <= i < s1.court.len() implies agents_in_order((#[trigger] s1.court[i]).agents(), n) by {
        if i != target_card {
            assert(agents_in_order(s.court[i].agents(), n));
        }
    }
    assert(in_seating_order(s1));
}

/// The Mass Uprising keeps the seating order.
pub proof fn lemma_uprising_keeps_order(s: GameStateView, targets: Seq<u8>)
    requires
        in_seating_order(s),
        mass_uprising_result(s, targets) is Ok,
    ensures
        in_seating_order(mass_uprising_result(s, targets).unwrap()),
{
    let n = s.players.len() as int;
    let actor = s.current_player;
    let risen = Seq::new(s.systems.len(), |i: int| uprising_system(s.systems[i], targets, actor));
    lemma_first_index_meaning(s.systems, uprising_blocked_test(targets, actor));
    assert forall|i: int| 0 <= i < risen.len() implies system_in_order(#[trigger] risen[i], n) by {
        assert(system_in_order(s.systems[i], n));
        if rises(s.systems[i], targets) {
            assert(!uprising_blocked_test(targets, actor)(s.systems[i]));
            lemma_units_keep_order(s.systems[i]->ships, actor, 1, 0, n);
        }
    }
    let s1 = GameStateView { systems: risen, ..s };
    assert(in_seating_order(s1));
}

/// Securing a card keeps the seating order.
pub proof fn lemma_secure_keeps_order(s: GameStateView, target_card: u8, payload: Option<VoxPayload>)
    requires
        in_seating_order(s),
        secure_result(s, target_card, payload) is Ok,
    ensures
        in_seating_order(secure_result(s, target_card, payload).unwrap()),
{
    let n = s.players.len() as int;
    let card = s.court[target_card as int];
    lemma_card_taken(s, target_card);
    let taken = card_taken(s, target_card).unwrap();
    assert(agents_in_order(card.agents(), n));
    let cleared = card.with_agents(agents_cleared(card.agents()));
    assert forall|k: int| 0 <= k < cleared.agents().len() implies (#[trigger] cleared.agents()[k]).color == Color::at_seat(k) by {
        assert(card.agents()[k].color == Color::at_seat(k));
    }
    assert forall|i: int| 0 <= i < taken.court.len() implies agents_in_order((#[trigger] taken.court[i]).agents(), n) by {
        if i != target_card {
            assert(agents_in_order(s.court[i].agents(), n));
        }
    }
    assert forall|i: int| 0 <= i < taken.players.len() implies (#[trigger] taken.players[i]).player == Color::at_seat(i) by {
        assert(s.players[i].player == taken.players[i].player);
    }
    assert(in_seating_order(taken));
    match card {
        CourtCardView::GuildCard { .. } => {},
        CourtCardView::VoxCard { .. } => {
            match payload {
                Some(VoxPayload::MassUprising { target_systems }) => {
                    lemma_uprising_keeps_order(taken, target_systems@);
                },
                _ => {},
            }
        },
    }
}

/// A primitive action keeps the seating order.
pub proof fn lemma_primitive_keeps_order(s: GameStateView, action: BasicAction, rolls: Seq<usize>)
    requires
        in_seating_order(s),
        basic_action_result(s, action, rolls) is Ok,
    ensures
        in_seating_order(basic_action_result(s, action, rolls).unwrap()),
{
    match action {
        BasicAction::Build { target_system, build_type } => {
            lemma_build_keeps_order(s, target_system, build_type);
        },
        BasicAction::Repair { target_system, build_type } => {
            lemma_repair_keeps_order(s, target_system, build_type);
        },
        BasicAction::Tax { target_system, target_player } => {
            lemma_tax_keeps_order(s, target_system, target_player);
        },
        BasicAction::Influence { card_id } => {
            lemma_influence_keeps_order(s, card_id);
        },
        BasicAction::Move { origin_id, destination_id, fresh_ships, damaged_ships } => {
            lemma_relocate_keeps_order(s, origin_id, destination_id, fresh_ships, damaged_ships);
        },
        BasicAction::Catapult { origin_system, destination_systems } => {
            lemma_relocation_keeps_order(s, origin_system, destination_systems@);
        },
        BasicAction::Secure { card_id, vox_payload } => {
            lemma_secure_keeps_order(s, card_id, vox_payload);
        },
        BasicAction::Battle { .. } => {},
    }
}

/// The end of a turn keeps the seating order.
pub proof fn lemma_end_turn_keeps_order(s: GameStateView)
    requires
        in_seating_order(s),
        end_turn_result(s) is Ok,
    ensures
        in_seating_order(end_turn_result(s).unwrap()),
{
    let n = s.players.len() as int;
    let passed = turn_passed(s);
    assert forall|i: int| 0 <= i < passed.systems.len() implies system_in_order(#[trigger] passed.systems[i], n) by {
        assert(system_in_order(s.systems[i], n));
    }
    assert(in_seating_order(passed));
    if round_is_over(s) {
        let reset = round_reset(passed, passed.lead_card.unwrap());
        assert(in_seating_order(reset));
        if players_with_cards(passed.players) == 0 {
            lemma_chapter_changes_holdings_only(reset, reset.ambitions, reset.ambitions.len() as int);
            lemma_holdings_keep_order(reset, end_round_result(passed).unwrap());
        }
    }
}

/// Leading with a card keeps the seating order.
pub proof fn lemma_lead_keeps_order(s: GameStateView, card: ActionCard, declare: Option<AmbitionTypes>)
    requires
        in_seating_order(s),
        play_lead_card_result(s, card, declare) is Ok,
    ensures
        in_seating_order(play_lead_card_result(s, card, declare).unwrap()),
{
    assert(in_seating_order(card_played(s, card).unwrap()));
}

/// Following the lead with a card keeps the seating order.
pub proof fn lemma_follow_keeps_order(s: GameStateView, card: ActionCard, seize: bool)
    requires
        in_seating_order(s),
    ensures
        surpass_result(s, card, seize) is Ok ==> in_seating_order(surpass_result(s, card, seize).unwrap()),
        copy_result(s, card, seize) is Ok ==> in_seating_order(copy_result(s, card, seize).unwrap()),
        pivot_result(s, card, seize) is Ok ==> in_seating_order(pivot_result(s, card, seize).unwrap()),
{
    if card_played(s, card) is Ok {
        assert(in_seating_order(card_played(s, card).unwrap()));
    }
}

/// Allocating resources keeps the seating order.
pub proof fn lemma_allocation_keeps_order(s: GameStateView, configuration: Seq<(u8, ResourceType)>)
    requires
        in_seating_order(s),
        allocate_resources_result(s, configuration) is Ok,
    ensures
        in_seating_order(allocate_resources_result(s, configuration).unwrap()),
{
}

/// An action in the prelude keeps the seating order.
pub proof fn lemma_prelude_keeps_order(s: GameStateView, action: BasicAction, used_resource: u8, rolls: Seq<usize>)
    requires
        in_seating_order(s),
        prelude_action_result(s, action, used_resource, rolls) is Ok,
    ensures
        in_seating_order(prelude_action_result(s, action, used_resource, rolls).unwrap()),
{
    let area = s.player_area(s.current_player).unwrap();
    let resource = area.resource_at(used_resource).unwrap();
    let s1 = s.remove_resource(s.current_player, used_resource, resource).unwrap();
    assert(in_seating_order(s1));
    lemma_primitive_keeps_order(s1, action, rolls);
}

/// Every action that is carried out keeps the seating order.
pub proof fn law_action_keeps_seating_order(s: GameStateView, action: Action, rolls: Seq<usize>)
    requires
        in_seating_order(s),
        step(s, action, rolls) is Ok,
    ensures
        in_seating_order(step(s, action, rolls).unwrap()),
{
    match s.turn_state {
        TurnStateView::TrickTaking => {
            match action {
                Action::PlayLeadCard { card, declare } => {
                    lemma_lead_keeps_order(s, card, declare);
                },
                Action::Surpass { card, seize } => {
                    lemma_follow_keeps_order(s, card, seize is Some);
                },
                Action::Copy { card, seize } => {
                    lemma_follow_keeps_order(s, card, seize is Some);
                },
                Action::Pivot { card, seize } => {
                    lemma_follow_keeps_order(s, card, seize is Some);
                },
                _ => {},
            }
        },
        TurnStateView::Prelude { .. } => {
            match action {
                Action::PreludeResourceAction { basic_action, used_resource } => {
                    lemma_prelude_keeps_order(s, basic_action, used_resource, rolls);
                },
                _ => {},
            }
        },
        TurnStateView::Actions { .. } => {
            match action {
                Action::EndTurn => {
                    lemma_end_turn_keeps_order(s);
                },
                Action::MainAction { basic_action } => {
                    lemma_primitive_keeps_order(pip_spent(s).unwrap(), basic_action, rolls);
                },
                _ => {},
            }
        },
        TurnStateView::AllocateResources { .. } => {
            match action {
                Action::AllocateResources { configuration } => {
                    lemma_allocation_keeps_order(s, configuration@);
                },
                _ => {},
            }
        },
        TurnStateView::AllocateDiceResults { .. } => {},
    }
}

/// Any sequence of actions that is carried out keeps the seating order.
pub proof fn law_sequence_keeps_seating_order(s: GameStateView, actions: Seq<Action>, rolls: Seq<Seq<usize>>, n: int)
    requires
        in_seating_order(s),
        run(s, actions, rolls, n) is Ok,
    ensures
        in_seating_order(run(s, actions, rolls, n).unwrap()),
    decreases n,
{
    lemma_run_unfolds(s, actions, rolls, n);
    if n > 0 {
        law_sequence_keeps_seating_order(s, actions, rolls, n - 1);
        law_action_keeps_seating_order(run(s, actions, rolls, n - 1).unwrap(), actions[n - 1], rolls[n - 1]);
    }
}

/// Settling locations keeps the units of every node in seating order.
pub proof fn lemma_settling_keeps_order(systems: Seq<SystemView>, locations: Seq<u8>, players: int, building: Option<BuildingType>, ships: u8, n: int)
    requires
        board_in_order(systems, players),
        settled_all(systems, locations, players, building, ships, n) is Ok,
    ensures
        board_in_order(settled_all(systems, locations, players, building, ships, n).unwrap(), players),
    decreases n,
{
    if n > 0 {
        lemma_settling_keeps_order(systems, locations, players, building, ships, n - 1);
        let before = settled_all(systems, locations, players, building, ships, n - 1).unwrap();
        let id = locations[n - 1];
        let color = Color::at_seat((n - 1) % players);
        let after = settle_result(before, id, color, building, ships).unwrap();
        assert(system_in_order(before[id as int], players));
        lemma_units_keep_order(before[id as int]->ships, color, ships as int, 0, players);
        assert forall|i: int| 0 <= i < after.len() implies system_in_order(#[trigger] after[i], players) by {
            if i != id {
                assert(system_in_order(before[i], players));
            }
        }
    }
}

/// A deck dealt for the players of a setup has the agents on every card in seating order.
pub proof fn lemma_deck_is_in_order(order: Seq<u8>, players: u8)
    ensures
        cards_in_order(
            deck_in_order(order, Seq::new(seated(players) as nat, |i: int| Color::at_seat(i))),
            seated(players),
        ),
{
}

/// A game starts in seating order, if the agents on the cards of its deck are in seating order.
pub proof fn law_setup_is_in_seating_order(card: SetupCard, deck: Seq<CourtCardView>)
    requires
        setup_result(card, deck) is Ok,
        cards_in_order(deck, seated(card.players)),
    ensures
        in_seating_order(setup_result(card, deck).unwrap()),
{
    let n = card.players as int;
    let reach = reach_of(card.cluster_out_of_play@, card.players);
    assert(board_in_order(reach, n));
    let a_count = least(card.a_locations@.len() as int, n);
    lemma_settling_keeps_order(reach, card.a_locations@, n, Some(BuildingType::City), 3, a_count);
    let a = settled_all(reach, card.a_locations@, n, Some(BuildingType::City), 3, a_count).unwrap();
    let b_count = least(card.b_locations@.len() as int, n);
    lemma_settling_keeps_order(a, card.b_locations@, n, Some(BuildingType::Starport), 3, b_count);
    let b = settled_all(a, card.b_locations@, n, Some(BuildingType::Starport), 3, b_count).unwrap();
    let c_count = least(card.c_locations@.len() as int, 2 * n);
    lemma_settling_keeps_order(b, card.c_locations@, n, None, 2, c_count);
    let c = settled_all(b, card.c_locations@, n, None, 2, c_count).unwrap();
    let systems = starting_board(card).unwrap();
    assert forall|i: int| 0 <= i < systems.len() implies system_in_order(#[trigger] systems[i], n) by {
        assert(system_in_order(c[i], n));
    }
}

} // verus!
