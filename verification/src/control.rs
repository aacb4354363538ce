//! The recorded controller of a node is always the one that its units give:
//! the setup of a game establishes this and every action keeps it.

use vstd::prelude::*;
use crate::actions::ending::{
    end_round_result, end_turn_result, lemma_chapter_changes_holdings_only, round_reset, turn_passed,
};
use crate::actions::moving::relocated_all;
use crate::actions::securing::lemma_card_taken;
use crate::actions::{basic_action_result, lemma_run_unfolds, pip_spent, run, step};
use crate::board::setup_result;
use crate::data::court_cards::CourtCardView;
use crate::data::game_state::{Action, ActionError, BasicAction, GameStateView, TurnStateView};
use crate::data::setup_cards::SetupCard;
use crate::data::system::{SystemView, control_of};

verus! {

/// The controller that the node records is the one that its units give.
pub open spec fn control_is_current(system: SystemView) -> bool {
    match system {
        SystemView::Unused => true,
        SystemView::Used { ships, controlled_by, .. } => controlled_by == control_of(ships),
    }
}

/// Every node records the controller that its units give.
pub open spec fn all_current(systems: Seq<SystemView>) -> bool {
    forall|i: int| 0 <= i < systems.len() ==> control_is_current(#[trigger] systems[i])
}

/// Sending units out keeps the record of every node current.
pub proof fn lemma_relocation_keeps_current(s: GameStateView, origin: u8, destinations: Seq<(u8, u8, u8)>)
    requires
        all_current(s.systems),
        relocated_all(s, origin, destinations) is Ok,
    ensures
        all_current(relocated_all(s, origin, destinations).unwrap().systems),
    decreases destinations.len(),
{
    if destinations.len() > 0 {
        lemma_relocation_keeps_current(s, origin, destinations.drop_last());
    }
}

/// A primitive action keeps the record of every node current.
pub proof fn lemma_primitive_keeps_current(s: GameStateView, action: BasicAction, rolls: Seq<usize>)
    requires
        all_current(s.systems),
        basic_action_result(s, action, rolls) is Ok,
    ensures
        all_current(basic_action_result(s, action, rolls).unwrap().systems),
{
    match action {
        BasicAction::Catapult { origin_system, destination_systems } => {
            lemma_relocation_keeps_current(s, origin_system, destination_systems@);
        },
        BasicAction::Secure { card_id, .. } => {
            lemma_card_taken(s, card_id);
        },
        _ => {},
    }
}

/// The end of a turn keeps the record of every node current.
pub proof fn lemma_end_turn_keeps_current(s: GameStateView)
    requires
        all_current(s.systems),
        end_turn_result(s) is Ok,
    ensures
        all_current(end_turn_result(s).unwrap().systems),
{
    let passed = turn_passed(s);
    assert(all_current(passed.systems)) by {
        assert forall|i: int| 0 <= i < passed.systems.len() implies control_is_current(#[trigger] passed.systems[i]) by {
            assert(control_is_current(s.systems[i]));
        }
    }
    if end_turn_result(s) != Ok::<GameStateView, ActionError>(passed) {
        let lead = passed.lead_card.unwrap();
        let reset = round_reset(passed, lead);
        if end_round_result(passed) != Ok::<GameStateView, ActionError>(reset) {
            lemma_chapter_changes_holdings_only(reset, reset.ambitions, reset.ambitions.len() as int);
        }
    }
}

/// Every action that is carried out keeps the record of every node current.
pub proof fn law_action_keeps_control_current(s: GameStateView, action: Action, rolls: Seq<usize>)
    requires
        all_current(s.systems),
        step(s, action, rolls) is Ok,
    ensures
        all_current(step(s, action, rolls).unwrap().systems),
{
    match s.turn_state {
        TurnStateView::TrickTaking => {},
        TurnStateView::Prelude { .. } => {
            match action {
                Action::PreludeResourceAction { basic_action, used_resource } => {
                    let area = s.player_area(s.current_player).unwrap();
                    let resource = area.resource_at(used_resource).unwrap();
                    let s1 = s.remove_resource(s.current_player, used_resource, resource).unwrap();
                    lemma_primitive_keeps_current(s1, basic_action, rolls);
                },
                _ => {},
            }
        },
        TurnStateView::Actions { .. } => {
            match action {
                Action::EndTurn => {
                    lemma_end_turn_keeps_current(s);
                },
                Action::MainAction { basic_action } => {
                    lemma_primitive_keeps_current(pip_spent(s).unwrap(), basic_action, rolls);
                },
                _ => {},
            }
        },
        TurnStateView::AllocateResources { .. } => {},
        TurnStateView::AllocateDiceResults { .. } => {},
    }
}

/// Any sequence of actions that is carried out keeps the record of every node current.
pub proof fn law_sequence_keeps_control_current(s: GameStateView, actions: Seq<Action>, rolls: Seq<Seq<usize>>, n: int)
    requires
        all_current(s.systems),
        run(s, actions, rolls, n) is Ok,
    ensures
        all_current(run(s, actions, rolls, n).unwrap().systems),
    decreases n,
{
    lemma_run_unfolds(s, actions, rolls, n);
    if n > 0 {
        law_sequence_keeps_control_current(s, actions, rolls, n - 1);
        law_action_keeps_control_current(run(s, actions, rolls, n - 1).unwrap(), actions[n - 1], rolls[n - 1]);
    }
}

/// A game starts with the record of every node current.
pub proof fn law_setup_makes_control_current(card: SetupCard, deck: Seq<CourtCardView>)
    requires
        setup_result(card, deck) is Ok,
    ensures
        all_current(setup_result(card, deck).unwrap().systems),
{
}

} // verus!
