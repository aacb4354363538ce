//! The primitive actions and the turn-state machine that dispatches them.

use vstd::prelude::*;
use crate::actions::allocating::{allocate_dice_results, allocate_dice_results_result, allocate_resources, allocate_resources_result};
use crate::actions::battling::{battle_result, battle_with_rolls, roll_dice};
use crate::actions::building::{build, build_result};
use crate::actions::ending::{end_turn, end_turn_result};
use crate::actions::influencing::{influence, influence_result};
use crate::actions::moving::{catapult, catapult_result, move_ships, move_ships_result};
use crate::actions::repairing::{repair, repair_result};
use crate::actions::securing::{secure, secure_result};
use crate::actions::taxing::{tax, tax_result};
use crate::actions::tricktaking::{
    copy, copy_result, pivot, pivot_result, play_lead_card, play_lead_card_result, surpass, surpass_result,
};
use crate::data::game_state::{
    Action, ActionError, ActionType, BasicAction, Color, Dice, GameState, GameStateView, ResourceType, TurnState,
    TurnStateView,
};
use crate::data::system::{BuildingSlot, Ships, find_ships, ships_entry, ships_placed};
use crate::data::viewed;
use crate::lookup::{first_index, is_first, none_satisfies, lemma_first_index_found, lemma_first_index_missing};

pub mod allocating;
pub mod battling;
pub mod building;
pub mod ending;
pub mod influencing;
pub mod moving;
pub mod repairing;
pub mod securing;
pub mod taxing;
pub mod tricktaking;

verus! {

/// The unit list after `player` received `fresh` and `damaged` units.
/// The player needs an entry in the list, and no count may leave its range.
pub open spec fn place_ships_result(ships: Seq<Ships>, player: Color, fresh: u8, damaged: u8) -> Result<Seq<Ships>, ActionError> {
    match ships_entry(ships, player) {
        None => Err(ActionError::UnknownEntity),
        Some(e) => if e.fresh + fresh > 255 || e.damaged + damaged > 255 {
            Err(ActionError::CountOverflow)
        } else {
            Ok(ships_placed(ships, player, fresh as int, damaged as int))
        },
    }
}

/// The unit list after `player` gave up `fresh` and `damaged` units.
/// The player cannot give up more than the entry holds.
pub open spec fn remove_ships_result(ships: Seq<Ships>, player: Color, fresh: u8, damaged: u8) -> Result<Seq<Ships>, ActionError> {
    match ships_entry(ships, player) {
        None => Err(ActionError::UnknownEntity),
        Some(e) => if e.fresh < fresh || e.damaged < damaged {
            Err(ActionError::InsufficientUnits)
        } else {
            Ok(ships_placed(ships, player, -(fresh as int), -(damaged as int)))
        },
    }
}

/// The test for an empty building slot.
pub open spec fn empty_test() -> spec_fn(BuildingSlot) -> bool {
    |b: BuildingSlot| b is Empty
}

/// The slots after `building` went into the first empty one.
pub open spec fn place_building_result(slots: Seq<BuildingSlot>, building: BuildingSlot) -> Result<Seq<BuildingSlot>, ActionError> {
    if slots.len() == 0 {
        Err(ActionError::NoSlots)
    } else {
        match first_index(slots, empty_test()) {
            None => Err(ActionError::NoSlotAvailable),
            Some(i) => Ok(slots.update(i, building)),
        }
    }
}

/// Puts `building` into the first empty slot.
pub fn place_building(building_slots: &Vec<BuildingSlot>, building: BuildingSlot) -> (r: Result<Vec<BuildingSlot>, ActionError>)
    ensures
        viewed(r) == place_building_result(building_slots@, building),
{
    if building_slots.len() == 0 {
        return Err(ActionError::NoSlots);
    }
    let ghost p = empty_test();
    let mut i: usize = 0;
    while i < building_slots.len()
        invariant
            i <= building_slots.len(),
            building_slots@.len() > 0,
            p == empty_test(),
            forall|j: int| 0 <= j < i ==> !p(#[trigger] building_slots@[j]),
        decreases building_slots.len() - i,
    {
        if building_slots[i] == BuildingSlot::Empty {
            proof {
                assert(is_first(building_slots@, p, i as int));
                lemma_first_index_found(building_slots@, p, i as int);
            }
            let mut slots = building_slots.clone();
            slots.set(i, building);
            return Ok(slots);
        }
        i += 1;
    }
    proof {
        assert(none_satisfies(building_slots@, p));
        lemma_first_index_missing(building_slots@, p);
    }
    Err(ActionError::NoSlotAvailable)
}

/// Adds `fresh` and `damaged` units to the entry of `player`.
pub fn place_ships(ships: &Vec<Ships>, player: &Color, fresh: u8, damaged: u8) -> (r: Result<Vec<Ships>, ActionError>)
    ensures
        viewed(r) == place_ships_result(ships@, *player, fresh, damaged),
{
    match find_ships(ships, player) {
        None => Err(ActionError::UnknownEntity),
        Some(e) => {
            if e.fresh > 255 - fresh || e.damaged > 255 - damaged {
                Err(ActionError::CountOverflow)
            } else {
                let mut out = ships.clone();
                out.set(player.index(), Ships { player: *player, fresh: e.fresh + fresh, damaged: e.damaged + damaged });
                Ok(out)
            }
        },
    }
}

/// Takes `fresh` and `damaged` units from the entry of `player`.
pub fn remove_ships(ships: &Vec<Ships>, player: &Color, fresh: u8, damaged: u8) -> (r: Result<Vec<Ships>, ActionError>)
    ensures
        viewed(r) == remove_ships_result(ships@, *player, fresh, damaged),
{
    match find_ships(ships, player) {
        None => Err(ActionError::UnknownEntity),
        Some(e) => {
            if e.fresh < fresh || e.damaged < damaged {
                Err(ActionError::InsufficientUnits)
            } else {
                let mut out = ships.clone();
                out.set(player.index(), Ships { player: *player, fresh: e.fresh - fresh, damaged: e.damaged - damaged });
                Ok(out)
            }
        },
    }
}


// ---------------------------------------------------------------------------
// The turn-state machine
// ---------------------------------------------------------------------------

/// What a primitive action makes of the state. `rolls` are the faces that
/// the dice of a battle show; no other action looks at them.
pub open spec fn basic_action_result(s: GameStateView, action: BasicAction, rolls: Seq<usize>) -> Result<GameStateView, ActionError> {
    match action {
        BasicAction::Build { target_system, build_type } => build_result(s, target_system, build_type),
        BasicAction::Repair { target_system, build_type } => repair_result(s, target_system, build_type),
        BasicAction::Tax { target_system, target_player } => tax_result(s, target_system, target_player),
        BasicAction::Influence { card_id } => influence_result(s, card_id),
        BasicAction::Move { origin_id, destination_id, fresh_ships, damaged_ships } => move_ships_result(
            s,
            origin_id,
            destination_id,
            fresh_ships,
            damaged_ships,
        ),
        BasicAction::Catapult { origin_system, destination_systems } => catapult_result(s, origin_system, destination_systems@),
        BasicAction::Secure { card_id, vox_payload } => secure_result(s, card_id, vox_payload),
        BasicAction::Battle { target_system, target_player, dice } => battle_result(s, target_system, target_player, dice@, rolls),
    }
}

/// The primitive actions that a lead card of a type allows as main actions.
pub open spec fn allowed_by_card(action_type: ActionType, action: BasicAction) -> bool {
    match action_type {
        ActionType::Administration => action is Repair || action is Tax || action is Influence,
        ActionType::Agression => action is Move || action is Catapult || action is Secure || action is Battle,
        ActionType::Construction => action is Build || action is Repair,
        ActionType::Mobilization => action is Move || action is Catapult || action is Influence,
    }
}

/// The primitive actions that a resource pays for in the prelude, under a lead card of a type.
pub open spec fn pays_for(resource: ResourceType, lead_type: ActionType, action: BasicAction) -> bool {
    match action {
        BasicAction::Build { .. } => resource == ResourceType::Material || (resource == ResourceType::Psionics && lead_type
            == ActionType::Construction),
        BasicAction::Repair { .. } => resource == ResourceType::Material || (resource == ResourceType::Psionics && lead_type
            == ActionType::Mobilization),
        BasicAction::Tax { .. } => resource == ResourceType::Psionics && lead_type == ActionType::Administration,
        BasicAction::Influence { .. } => resource == ResourceType::Psionics && (lead_type == ActionType::Administration
            || lead_type == ActionType::Mobilization),
        BasicAction::Move { .. } => resource == ResourceType::Fuel || (resource == ResourceType::Psionics && (lead_type
            == ActionType::Agression || lead_type == ActionType::Mobilization)),
        BasicAction::Catapult { .. } => resource == ResourceType::Fuel || (resource == ResourceType::Psionics && (lead_type
            == ActionType::Agression || lead_type == ActionType::Mobilization)),
        BasicAction::Secure { .. } => resource == ResourceType::Relics || (resource == ResourceType::Psionics && lead_type
            == ActionType::Agression),
        BasicAction::Battle { .. } => resource == ResourceType::Psionics && lead_type == ActionType::Agression,
    }
}

/// The state after one pip was spent. Pips are spent in the actions phase only, and only while one is left.
pub open spec fn pip_spent(s: GameStateView) -> Result<GameStateView, ActionError> {
    match s.turn_state {
        TurnStateView::Actions { action_type, pips_left } => if pips_left == 0 {
            Err(ActionError::NoPipsLeft)
        } else {
            Ok(s.with_turn_state(TurnStateView::Actions { action_type, pips_left: (pips_left - 1) as u8 }))
        },
        _ => Err(ActionError::IllegalPhase),
    }
}

/// What a main action makes of the state: it costs one pip, and the type of
/// the lead card must allow it.
pub open spec fn main_action_result(s: GameStateView, action: BasicAction, rolls: Seq<usize>) -> Result<GameStateView, ActionError> {
    match pip_spent(s) {
        Err(e) => Err(e),
        Ok(s1) => if !allowed_by_card(s.turn_state->Actions_action_type, action) {
            Err(ActionError::IllegalPhase)
        } else {
            basic_action_result(s1, action, rolls)
        },
    }
}

/// What an action in the prelude makes of the state: it costs the resource
/// in the slot `used_resource` of the current player, which must pay for
/// the action under the type of the lead card.
pub open spec fn prelude_action_result(s: GameStateView, action: BasicAction, used_resource: u8, rolls: Seq<usize>) -> Result<GameStateView, ActionError> {
    match s.lead_card {
        None => Err(ActionError::IllegalPhase),
        Some(lead) => match s.player_area(s.current_player) {
            None => Err(ActionError::UnknownEntity),
            Some(area) => if used_resource >= area.resource_slots.len() {
                Err(ActionError::UnknownEntity)
            } else {
                match area.resource_at(used_resource) {
                    None => Err(ActionError::IncompatibleResource),
                    Some(resource) => if !pays_for(resource, lead.0.action_type, action) {
                        Err(ActionError::IncompatibleResource)
                    } else {
                        match s.remove_resource(s.current_player, used_resource, resource) {
                            Err(e) => Err(e),
                            Ok(s1) => basic_action_result(s1, action, rolls),
                        }
                    },
                }
            },
        },
    }
}

/// What an action makes of the state. Each phase has its own actions; any
/// other action is rejected as out of phase. `rolls` are the faces that the
/// dice show if the action is a battle.
pub open spec fn step(s: GameStateView, action: Action, rolls: Seq<usize>) -> Result<GameStateView, ActionError> {
    match s.turn_state {
        TurnStateView::TrickTaking => match action {
            Action::PlayLeadCard { card, declare } => play_lead_card_result(s, card, declare),
            Action::Surpass { card, seize } => surpass_result(s, card, seize is Some),
            Action::Copy { card, seize } => copy_result(s, card, seize is Some),
            Action::Pivot { card, seize } => pivot_result(s, card, seize is Some),
            _ => Err(ActionError::IllegalPhase),
        },
        TurnStateView::Prelude { action_type, pips_left } => match action {
            Action::EndPrelude => Ok(s.with_turn_state(TurnStateView::Actions { action_type, pips_left })),
            Action::PreludeResourceAction { basic_action, used_resource } => prelude_action_result(
                s,
                basic_action,
                used_resource,
                rolls,
            ),
            _ => Err(ActionError::IllegalPhase),
        },
        TurnStateView::Actions { .. } => match action {
            Action::EndTurn => end_turn_result(s),
            Action::MainAction { basic_action } => main_action_result(s, basic_action, rolls),
            _ => Err(ActionError::IllegalPhase),
        },
        TurnStateView::AllocateResources { .. } => match action {
            Action::AllocateResources { configuration } => allocate_resources_result(s, configuration@),
            _ => Err(ActionError::IllegalPhase),
        },
        TurnStateView::AllocateDiceResults { .. } => match action {
            Action::AllocateDiceResults { own_hits } => allocate_dice_results_result(s, own_hits@),
            _ => Err(ActionError::IllegalPhase),
        },
    }
}

/// The dice that an action rolls: those of a battle, none otherwise.
pub open spec fn dice_of(action: Action) -> Seq<Dice> {
    match action {
        Action::MainAction { basic_action: BasicAction::Battle { dice, .. } } => dice@,
        Action::PreludeResourceAction { basic_action: BasicAction::Battle { dice, .. }, .. } => dice@,
        _ => Seq::empty(),
    }
}

/// `rolls` holds one face for each die that the action rolls.
pub open spec fn rolls_fit(action: Action, rolls: Seq<usize>) -> bool {
    &&& rolls.len() == dice_of(action).len()
    &&& forall|i: int| 0 <= i < rolls.len() ==> #[trigger] rolls[i] < 6
}

/// What the first `n` actions make of the state, one after the other, each
/// with the rolls listed for it. The first action that is rejected decides.
#[verifier::opaque]
pub open spec fn run(s: GameStateView, actions: Seq<Action>, rolls: Seq<Seq<usize>>, n: int) -> Result<GameStateView, ActionError>
    decreases n,
{
    if n <= 0 {
        Ok(s)
    } else {
        match run(s, actions, rolls, n - 1) {
            Err(e) => Err(e),
            Ok(s1) => step(s1, actions[n - 1], rolls[n - 1]),
        }
    }
}

/// Spends one pip of the actions phase.
pub fn use_action_pip(game_state: &GameState) -> (r: Result<GameState, ActionError>)
    ensures
        viewed(r) == pip_spent(game_state@),
{
    match &game_state.turn_state {
        TurnState::Actions { action_type, pips_left } => {
            if *pips_left == 0 {
                Err(ActionError::NoPipsLeft)
            } else {
                let mut g = game_state.clone();
                g.turn_state = TurnState::Actions { action_type: *action_type, pips_left: *pips_left - 1 };
                Ok(g)
            }
        },
        _ => Err(ActionError::IllegalPhase),
    }
}

/// Carries out a primitive action, with dice that came up as `rolls` say.
pub fn execute_basic_action(game_state: &GameState, action: BasicAction, rolls: &Vec<usize>) -> (r: Result<GameState, ActionError>)
    ensures
        viewed(r) == basic_action_result(game_state@, action, rolls@),
{
    match action {
        BasicAction::Build { target_system, build_type } => build(game_state, target_system, build_type),
        BasicAction::Repair { target_system, build_type } => repair(game_state, target_system, build_type),
        BasicAction::Tax { target_system, target_player } => tax(game_state, target_system, target_player),
        BasicAction::Influence { card_id } => influence(game_state, card_id),
        BasicAction::Move { origin_id, destination_id, fresh_ships, damaged_ships } => move_ships(
            game_state,
            origin_id,
            destination_id,
            fresh_ships,
            damaged_ships,
        ),
        BasicAction::Catapult { origin_system, destination_systems } => catapult(game_state, origin_system, destination_systems),
        BasicAction::Secure { card_id, vox_payload } => secure(game_state, card_id, vox_payload),
        BasicAction::Battle { target_system, target_player, dice } => battle_with_rolls(
            game_state,
            target_system,
            target_player,
            &dice,
            rolls,
        ),
    }
}

/// Whether a lead card of a type allows a primitive action as a main action.
pub fn is_allowed_by_card(action_type: ActionType, action: &BasicAction) -> (r: bool)
    ensures
        r == allowed_by_card(action_type, *action),
{
    match action_type {
        ActionType::Administration => match action {
            BasicAction::Repair { .. } => true,
            BasicAction::Tax { .. } => true,
            BasicAction::Influence { .. } => true,
            _ => false,
        },
        ActionType::Agression => match action {
            BasicAction::Move { .. } => true,
            BasicAction::Catapult { .. } => true,
            BasicAction::Secure { .. } => true,
            BasicAction::Battle { .. } => true,
            _ => false,
        },
        ActionType::Construction => match action {
            BasicAction::Build { .. } => true,
            BasicAction::Repair { .. } => true,
            _ => false,
        },
        ActionType::Mobilization => match action {
            BasicAction::Move { .. } => true,
            BasicAction::Catapult { .. } => true,
            BasicAction::Influence { .. } => true,
            _ => false,
        },
    }
}

/// Whether a resource pays for a primitive action in the prelude, under a lead card of a type.
pub fn does_pay_for(resource: ResourceType, lead_type: ActionType, action: &BasicAction) -> (r: bool)
    ensures
        r == pays_for(resource, lead_type, *action),
{
    match action {
        BasicAction::Build { .. } => resource == ResourceType::Material || (resource == ResourceType::Psionics && lead_type
            == ActionType::Construction),
        BasicAction::Repair { .. } => resource == ResourceType::Material || (resource == ResourceType::Psionics && lead_type
            == ActionType::Mobilization),
        BasicAction::Tax { .. } => resource == ResourceType::Psionics && lead_type == ActionType::Administration,
        BasicAction::Influence { .. } => resource == ResourceType::Psionics && (lead_type == ActionType::Administration
            || lead_type == ActionType::Mobilization),
        BasicAction::Move { .. } => resource == ResourceType::Fuel || (resource == ResourceType::Psionics && (lead_type
            == ActionType::Agression || lead_type == ActionType::Mobilization)),
        BasicAction::Catapult { .. } => resource == ResourceType::Fuel || (resource == ResourceType::Psionics && (lead_type
            == ActionType::Agression || lead_type == ActionType::Mobilization)),
        BasicAction::Secure { .. } => resource == ResourceType::Relics || (resource == ResourceType::Psionics && lead_type
            == ActionType::Agression),
        BasicAction::Battle { .. } => resource == ResourceType::Psionics && lead_type == ActionType::Agression,
    }
}

/// Carries out a main action: spends a pip and, where the type of the lead
/// card allows the action, performs it.
pub fn execute_main_action(game_state: &GameState, action: BasicAction, rolls: &Vec<usize>) -> (r: Result<GameState, ActionError>)
    ensures
        viewed(r) == main_action_result(game_state@, action, rolls@),
{
    let spent = match use_action_pip(game_state) {
        Err(e) => { return Err(e); },
        Ok(spent) => spent,
    };
    let action_type = match &game_state.turn_state {
        TurnState::Actions { action_type, .. } => *action_type,
        _ => { return Err(ActionError::IllegalPhase); },
    };
    if !is_allowed_by_card(action_type, &action) {
        return Err(ActionError::IllegalPhase);
    }
    execute_basic_action(&spent, action, rolls)
}

/// Carries out an action in the prelude, paid for with the resource in the
/// slot `used_resource` of the current player.
pub fn execute_prelude_action(game_state: &GameState, action: BasicAction, used_resource: u8, rolls: &Vec<usize>) -> (r: Result<GameState, ActionError>)
    ensures
        viewed(r) == prelude_action_result(game_state@, action, used_resource, rolls@),
{
    let lead = match game_state.lead_card {
        None => { return Err(ActionError::IllegalPhase); },
        Some(lead) => lead,
    };
    let actor = game_state.current_player;
    let area = match game_state.get_player_area(&actor) {
        None => { return Err(ActionError::UnknownEntity); },
        Some(area) => area,
    };
    if used_resource as usize >= area.resource_slots.len() {
        return Err(ActionError::UnknownEntity);
    }
    let resource = match area.get_resource(used_resource) {
        None => { return Err(ActionError::IncompatibleResource); },
        Some(resource) => resource,
    };
    if !does_pay_for(resource, lead.0.action_type, &action) {
        return Err(ActionError::IncompatibleResource);
    }
    match game_state.remove_resource(&actor, used_resource, resource) {
        Err(e) => Err(e),
        Ok(paid) => execute_basic_action(&paid, action, rolls),
    }
}

/// Carries out one action, with dice that came up as `rolls` say. The state
/// handed in is never changed: the outcome is a new state or a rejection.
pub fn execute_action_with_rolls(game_state: &GameState, action: Action, rolls: &Vec<usize>) -> (r: Result<GameState, ActionError>)
    ensures
        viewed(r) == step(game_state@, action, rolls@),
{
    match &game_state.turn_state {
        TurnState::TrickTaking => match action {
            Action::PlayLeadCard { card, declare } => play_lead_card(game_state, card, declare),
            Action::Surpass { card, seize } => surpass(game_state, card, seize),
            Action::Copy { card, seize } => copy(game_state, card, seize),
            Action::Pivot { card, seize } => pivot(game_state, card, seize),
            _ => Err(ActionError::IllegalPhase),
        },
        TurnState::Prelude { action_type, pips_left } => match action {
            Action::EndPrelude => {
                let mut g = game_state.clone();
                g.turn_state = TurnState::Actions { action_type: *action_type, pips_left: *pips_left };
                Ok(g)
            },
            Action::PreludeResourceAction { basic_action, used_resource } => execute_prelude_action(
                game_state,
                basic_action,
                used_resource,
                rolls,
            ),
            _ => Err(ActionError::IllegalPhase),
        },
        TurnState::Actions { .. } => match action {
            Action::EndTurn => end_turn(game_state),
            Action::MainAction { basic_action } => execute_main_action(game_state, basic_action, rolls),
            _ => Err(ActionError::IllegalPhase),
        },
        TurnState::AllocateResources { .. } => match action {
            Action::AllocateResources { configuration } => allocate_resources(game_state, configuration),
            _ => Err(ActionError::IllegalPhase),
        },
        TurnState::AllocateDiceResults { .. } => match action {
            Action::AllocateDiceResults { own_hits } => allocate_dice_results(game_state, own_hits),
            _ => Err(ActionError::IllegalPhase),
        },
    }
}

/// The number of dice that an action rolls.
pub fn count_dice(action: &Action) -> (r: usize)
    ensures
        r == dice_of(*action).len(),
{
    match action {
        Action::MainAction { basic_action: BasicAction::Battle { dice, .. } } => dice.len(),
        Action::PreludeResourceAction { basic_action: BasicAction::Battle { dice, .. }, .. } => dice.len(),
        _ => 0,
    }
}

/// Carries out one action. The dice of a battle are rolled here: whatever
/// they show, the outcome is the one that `execute_action_with_rolls` gives
/// for some roll of one face for each die.
pub fn execute_action(game_state: &GameState, action: Action) -> (r: Result<GameState, ActionError>)
    ensures
        exists|rolls: Seq<usize>| rolls_fit(action, rolls) && viewed(r) == #[trigger] step(game_state@, action, rolls),
{
    let rolls = roll_dice(count_dice(&action));
    execute_action_with_rolls(game_state, action, &rolls)
}

/// Carries out one more action of a list, after the first `done` of them
/// have made `current` of the state `start`.
fn execute_next(current: &GameState, action: Action, Ghost(start): Ghost<GameStateView>, Ghost(all): Ghost<Seq<Action>>, Ghost(rolled): Ghost<Seq<Seq<usize>>>, Ghost(done): Ghost<int>) -> (r: (Result<GameState, ActionError>, Ghost<Seq<Seq<usize>>>))
    requires
        0 <= done < all.len(),
        action == all[done],
        rolled.len() == done,
        run(start, all, rolled, done) == Ok::<GameStateView, ActionError>(current@),
    ensures
        r.1@.len() == done + 1,
        forall|i: int| 0 <= i < done ==> r.1@[i] == rolled[i],
        rolls_fit(action, r.1@[done]),
        viewed(r.0) == run(start, all, r.1@, done + 1),
{
    let outcome = execute_action(current, action);
    let ghost rolls = choose|rolls: Seq<usize>| rolls_fit(action, rolls) && viewed(outcome) == #[trigger] step(current@, action, rolls);
    let ghost grown = rolled.push(rolls);
    proof {
        lemma_run_ignores_later_rolls(start, all, rolled, grown, done);
        lemma_run_unfolds(start, all, grown, done + 1);
    }
    (outcome, Ghost(grown))
}

/// A rejection after some of the actions is the rejection of the whole list,
/// whatever rolls are listed for the actions that were not reached.
proof fn lemma_rejected(s: GameStateView, all: Seq<Action>, rolled: Seq<Seq<usize>>, n: int) -> (filled: Seq<Seq<usize>>)
    requires
        0 <= n <= all.len(),
        rolled.len() == n,
        forall|i: int| 0 <= i < n ==> rolls_fit(all[i], #[trigger] rolled[i]),
        run(s, all, rolled, n) is Err,
    ensures
        filled.len() == all.len(),
        forall|i: int| 0 <= i < filled.len() ==> rolls_fit(all[i], #[trigger] filled[i]),
        run(s, all, filled, all.len() as int) == run(s, all, rolled, n),
{
    let filled = Seq::new(all.len(), |i: int| if i < n { rolled[i] } else { no_rolls(dice_of(all[i]).len()) });
    lemma_run_ignores_later_rolls(s, all, rolled, filled, n);
    lemma_run_failure_stays(s, all, filled, n, all.len() as int);
    assert forall|i: int| 0 <= i < filled.len() implies rolls_fit(all[i], #[trigger] filled[i]) by {
        if i < n {
            assert(filled[i] == rolled[i]);
        }
    }
    filled
}

/// Carries out the actions one after the other, all or none: the outcome is
/// the state after the last action, or the rejection of the first action
/// that is rejected. The state handed in is never changed.
pub fn execute_actions(game_state: &GameState, actions: Vec<Action>) -> (r: Result<GameState, ActionError>)
    ensures
        exists|rolls: Seq<Seq<usize>>| #[trigger] all_rolls_fit(actions@, rolls) && viewed(r) == run(
            game_state@,
            actions@,
            rolls,
            actions@.len() as int,
        ),
{
    let ghost all = actions@;
    let ghost mut rolled: Seq<Seq<usize>> = Seq::empty();
    let total = actions.len();
    let mut rest = actions;
    let mut g = game_state.clone();
    let mut done: usize = 0;
    proof {
        lemma_run_unfolds(game_state@, all, rolled, 0);
        assert(rest@ =~= all.skip(0));
    }
    while rest.len() > 0
        invariant
            all == actions@,
            all.len() == total,
            done + rest@.len() == all.len(),
            rest@ == all.skip(done as int),
            rolled.len() == done,
            forall|i: int| 0 <= i < done ==> rolls_fit(all[i], #[trigger] rolled[i]),
            run(game_state@, all, rolled, done as int) == Ok::<GameStateView, ActionError>(g@),
        decreases rest@.len(),
    {
        let action = rest.remove(0);
        proof {
            assert(action == all[done as int]);
            assert(rest@ =~= all.skip(done + 1));
        }
        let (outcome, Ghost(grown)) = execute_next(&g, action, Ghost(game_state@), Ghost(all), Ghost(rolled), Ghost(done as int));
        proof {
            assert forall|i: int| 0 <= i < done + 1 implies rolls_fit(all[i], #[trigger] grown[i]) by {
                if i < done {
                    assert(grown[i] == rolled[i]);
                }
            }
            rolled = grown;
        }
        match outcome {
            Err(e) => {
                proof {
                    let filled = lemma_rejected(game_state@, all, rolled, done + 1);
                    assert(all_rolls_fit(all, filled));
                }
                return Err(e);
            },
            Ok(next) => {
                g = next;
            },
        }
        done += 1;
    }
    proof {
        assert(all_rolls_fit(all, rolled));
    }
    Ok(g)
}

/// For every action of the list, `rolls` lists one face for each die that the action rolls.
pub open spec fn all_rolls_fit(actions: Seq<Action>, rolls: Seq<Seq<usize>>) -> bool {
    &&& rolls.len() == actions.len()
    &&& forall|i: int| 0 <= i < rolls.len() ==> rolls_fit(actions[i], #[trigger] rolls[i])
}

/// A roll of the first face for each of `count` dice.
pub open spec fn no_rolls(count: nat) -> Seq<usize> {
    Seq::new(count, |i: int| 0usize)
}

/// What the first `n` actions make of the state depends on the rolls of those actions alone.
pub proof fn lemma_run_ignores_later_rolls(s: GameStateView, actions: Seq<Action>, a: Seq<Seq<usize>>, b: Seq<Seq<usize>>, n: int)
    requires
        forall|i: int| 0 <= i < n ==> a[i] == b[i],
    ensures
        run(s, actions, a, n) == run(s, actions, b, n),
    decreases n,
{
    lemma_run_unfolds(s, actions, a, n);
    lemma_run_unfolds(s, actions, b, n);
    if n > 0 {
        lemma_run_ignores_later_rolls(s, actions, a, b, n - 1);
    }
}

/// What `run` says, one step at a time.
pub proof fn lemma_run_unfolds(s: GameStateView, actions: Seq<Action>, rolls: Seq<Seq<usize>>, n: int)
    ensures
        run(s, actions, rolls, n) == if n <= 0 {
            Ok::<GameStateView, ActionError>(s)
        } else {
            match run(s, actions, rolls, n - 1) {
                Err(e) => Err(e),
                Ok(s1) => step(s1, actions[n - 1], rolls[n - 1]),
            }
        },
{
    reveal_with_fuel(run, 2);
}

/// Once an action is rejected, the rejection stands whatever follows.
pub proof fn lemma_run_failure_stays(s: GameStateView, actions: Seq<Action>, rolls: Seq<Seq<usize>>, n: int, m: int)
    requires
        0 <= n <= m,
        run(s, actions, rolls, n) is Err,
    ensures
        run(s, actions, rolls, m) == run(s, actions, rolls, n),
    decreases m - n,
{
    if n < m {
        lemma_run_failure_stays(s, actions, rolls, n, m - 1);
        lemma_run_unfolds(s, actions, rolls, m);
    }
}

} // verus!
