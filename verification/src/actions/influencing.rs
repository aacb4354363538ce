//! Placing agents on court cards.

use vstd::prelude::*;
use crate::data::court_cards::{agents_entry, find_agents};
use crate::data::game_state::{ActionError, Agents, GameState, GameStateView, ReserveType};
use crate::data::viewed;

verus! {

/// The state after the current player put one agent from reserve on the card at `target_card`.
pub open spec fn influence_result(s: GameStateView, target_card: u8) -> Result<GameStateView, ActionError> {
    let actor = s.current_player;
    if target_card >= s.court.len() {
        Err(ActionError::UnknownEntity)
    } else {
        let card = s.court[target_card as int];
        match agents_entry(card.agents(), actor) {
            None => Err(ActionError::UnknownEntity),
            Some(e) => if e.count == 255 {
                Err(ActionError::CountOverflow)
            } else {
                s.with_court_card(
                    target_card as int,
                    card.with_agents(card.agents().update(actor.seat(), Agents { color: actor, count: (e.count + 1) as u8 })),
                ).update_players_reserve(actor, ReserveType::Agents, -1i8)
            },
        }
    }
}

/// Puts one agent of the current player on a court card.
pub fn influence(game_state: &GameState, target_card: u8) -> (r: Result<GameState, ActionError>)
    ensures
        viewed(r) == influence_result(game_state@, target_card),
{
    let target = target_card as usize;
    if target >= game_state.court.len() {
        return Err(ActionError::UnknownEntity);
    }
    let actor = game_state.current_player;
    let card = &game_state.court[target];
    match find_agents(card.agents(), &actor) {
        None => Err(ActionError::UnknownEntity),
        Some(e) => {
            if e.count == 255 {
                return Err(ActionError::CountOverflow);
            }
            let mut agents = card.agents().clone();
            agents.set(actor.index(), Agents { color: actor, count: e.count + 1 });
            let mut g = game_state.clone();
            g.set_court_card(target, card.with_agents(agents));
            g.update_players_reserve(&actor, &ReserveType::Agents, -1)
        },
    }
}

} // verus!
