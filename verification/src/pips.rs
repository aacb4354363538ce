//! Pips: every main action costs one, and with none left no main action is carried out.

use vstd::prelude::*;
use crate::actions::moving::relocated_all;
use crate::actions::securing::lemma_card_taken;
use crate::actions::{basic_action_result, main_action_result, pip_spent};
use crate::data::game_state::{ActionError, BasicAction, GameStateView, TurnStateView};

verus! {

/// The phase that the turn is in: during a deferred sub-phase, the phase that waits to be resumed.
pub open spec fn phase_in_progress(s: GameStateView) -> TurnStateView {
    match s.turn_state {
        TurnStateView::AllocateResources { .. } => if s.next_turn_states.len() > 0 {
            s.next_turn_states[0]
        } else {
            s.turn_state
        },
        TurnStateView::AllocateDiceResults { .. } => if s.next_turn_states.len() > 0 {
            s.next_turn_states[0]
        } else {
            s.turn_state
        },
        _ => s.turn_state,
    }
}

/// The phase of `after` is that of `before`, or a deferred sub-phase that resumes it.
pub open spec fn phase_kept(before: GameStateView, after: GameStateView) -> bool {
    ||| after.turn_state == before.turn_state && after.next_turn_states == before.next_turn_states
    ||| {
        &&& after.turn_state is AllocateResources || after.turn_state is AllocateDiceResults
        &&& after.next_turn_states == seq![before.turn_state] + before.next_turn_states
    }
}

/// Sending units out to several destinations leaves the phase as it is.
pub proof fn lemma_relocation_keeps_phase(s: GameStateView, origin: u8, destinations: Seq<(u8, u8, u8)>)
    requires
        relocated_all(s, origin, destinations) is Ok,
    ensures
        relocated_all(s, origin, destinations).unwrap().turn_state == s.turn_state,
        relocated_all(s, origin, destinations).unwrap().next_turn_states == s.next_turn_states,
    decreases destinations.len(),
{
    if destinations.len() > 0 {
        lemma_relocation_keeps_phase(s, origin, destinations.drop_last());
    }
}

/// A primitive action leaves the phase as it is or enters a deferred sub-phase that resumes it.
pub proof fn lemma_primitive_keeps_phase(s: GameStateView, action: BasicAction, rolls: Seq<usize>)
    requires
        basic_action_result(s, action, rolls) is Ok,
    ensures
        phase_kept(s, basic_action_result(s, action, rolls).unwrap()),
{
    match action {
        BasicAction::Catapult { origin_system, destination_systems } => {
            lemma_relocation_keeps_phase(s, origin_system, destination_systems@);
        },
        BasicAction::Secure { card_id, .. } => {
            lemma_card_taken(s, card_id);
        },
        _ => {},
    }
}

/// A main action that is carried out costs exactly one pip, and with no pip
/// left every main action is rejected for want of pips.
pub proof fn law_main_action_costs_one_pip(s: GameStateView, action: BasicAction, rolls: Seq<usize>)
    requires
        s.turn_state is Actions,
    ensures
        s.turn_state->Actions_pips_left == 0 ==> main_action_result(s, action, rolls) == Err::<GameStateView, ActionError>(
            ActionError::NoPipsLeft,
        ),
        main_action_result(s, action, rolls) is Ok ==> s.turn_state->Actions_pips_left > 0 && phase_in_progress(
            main_action_result(s, action, rolls).unwrap(),
        ) == (TurnStateView::Actions {
            action_type: s.turn_state->Actions_action_type,
            pips_left: (s.turn_state->Actions_pips_left - 1) as u8,
        }),
{
    if main_action_result(s, action, rolls) is Ok {
        let s1 = pip_spent(s).unwrap();
        lemma_primitive_keeps_phase(s1, action, rolls);
        let after = basic_action_result(s1, action, rolls).unwrap();
        assert(after.next_turn_states == s1.next_turn_states || after.next_turn_states[0] == s1.turn_state);
    }
}

} // verus!
