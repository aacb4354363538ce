//! The card play that opens every turn: leading, surpassing, copying and pivoting.

use vstd::prelude::*;
use crate::data::game_state::{
    ActionCard, ActionError, ActionType, Ambition, AmbitionMarker, AmbitionTypes, AmbitionView, GameState,
    GameStateView, TurnState, TurnStateView,
};
use crate::data::{viewed, views};
use crate::lookup::{first_index, is_first, none_satisfies, lemma_first_index_found, lemma_first_index_missing};

verus! {

/// The points that a marker gives for the first place, as it lies.
pub open spec fn marker_value(marker: AmbitionMarker) -> u8 {
    if marker.flipped {
        marker.first_place_flipped
    } else {
        marker.first_place
    }
}

/// The marker at `index` is worth the most; of several that are, it is the last.
pub open spec fn is_highest(markers: Seq<AmbitionMarker>, index: int) -> bool {
    &&& 0 <= index < markers.len()
    &&& forall|j: int| 0 <= j < markers.len() ==> marker_value(#[trigger] markers[j]) <= marker_value(markers[index])
    &&& forall|j: int| index < j < markers.len() ==> marker_value(#[trigger] markers[j]) < marker_value(markers[index])
}

/// The test for the track of an ambition.
pub open spec fn track_test(ambition: AmbitionTypes) -> spec_fn(AmbitionView) -> bool {
    |track: AmbitionView| track.ambition_type == ambition
}

/// The track of `ambition` among the scoring tracks.
pub open spec fn track_of(tracks: Seq<AmbitionView>, ambition: AmbitionTypes) -> Option<int> {
    first_index(tracks, track_test(ambition))
}

/// The state after `ambition` was declared with the marker at `marker`: the
/// marker leaves the pool for the track of the ambition.
pub open spec fn ambition_declared(s: GameStateView, ambition: AmbitionTypes, marker: int) -> Result<GameStateView, ActionError> {
    match track_of(s.ambitions, ambition) {
        None => Err(ActionError::UnknownEntity),
        Some(t) => Ok(
            GameStateView {
                ambition_markers: s.ambition_markers.remove(marker),
                ambitions: s.ambitions.update(
                    t,
                    AmbitionView { markers: s.ambitions[t].markers.push(s.ambition_markers[marker]), ..s.ambitions[t] },
                ),
                ..s
            },
        ),
    }
}

/// The state after the played card `card` left the hand of the current player.
pub open spec fn card_played(s: GameStateView, card: ActionCard) -> Result<GameStateView, ActionError> {
    match s.player_area(s.current_player) {
        None => Err(ActionError::UnknownEntity),
        Some(area) => match area.remove_action_card(card) {
            Err(e) => Err(e),
            Ok(left) => Ok(s.with_player(left)),
        },
    }
}

/// The state after a card followed the lead.
pub open spec fn followed(s: GameStateView, card: ActionCard, qualifying: bool, seize: bool, action_type: ActionType, pips: u8) -> Result<GameStateView, ActionError> {
    match card_played(s, card) {
        Err(e) => Err(e),
        Ok(s1) => Ok(
            GameStateView {
                follow_cards: s1.follow_cards.push((card, qualifying, s.current_player)),
                seized: if seize {
                    Some(s.current_player)
                } else {
                    s1.seized
                },
                turn_state: TurnStateView::Prelude { action_type, pips_left: pips },
                ..s1
            },
        ),
    }
}

/// The state after the current player led with `card`, which is legal only
/// while no lead card lies. An ambition can be declared with a card that
/// names it; the declaration claims the marker that is worth the most.
pub open spec fn play_lead_card_result(s: GameStateView, card: ActionCard, declare: Option<AmbitionTypes>) -> Result<GameStateView, ActionError> {
    if s.lead_card is Some {
        Err(ActionError::IllegalPhase)
    } else {
        match card_played(s, card) {
            Err(e) => Err(e),
            Ok(s1) => {
                let led = GameStateView {
                    lead_card: Some((card, true, s.current_player)),
                    turn_state: TurnStateView::Prelude { action_type: card.action_type, pips_left: card.pips },
                    ..s1
                };
                match declare {
                    None => Ok(led),
                    Some(ambition) => if card.declared_ambition != Some(ambition) {
                        Err(ActionError::IllegalCard)
                    } else if led.ambition_markers.len() == 0 {
                        Err(ActionError::IllegalCard)
                    } else {
                        ambition_declared(led, ambition, choose|i: int| is_highest(led.ambition_markers, i))
                    },
                }
            },
        }
    }
}

/// The state after the current player surpassed the lead with a card of the
/// same type and of no lower number: the card counts for the initiative and
/// brings its own pips.
pub open spec fn surpass_result(s: GameStateView, card: ActionCard, seize: bool) -> Result<GameStateView, ActionError> {
    match s.lead_card {
        None => Err(ActionError::IllegalPhase),
        Some(lead) => if card.action_type != lead.0.action_type || card.number < lead.0.number {
            Err(ActionError::IllegalCard)
        } else {
            followed(s, card, true, seize, card.action_type, card.pips)
        },
    }
}

/// The state after the current player copied the lead: the card does not
/// count for the initiative, and the player acts as the lead card says, with one pip.
pub open spec fn copy_result(s: GameStateView, card: ActionCard, seize: bool) -> Result<GameStateView, ActionError> {
    match s.lead_card {
        None => Err(ActionError::IllegalPhase),
        Some(lead) => followed(s, card, false, seize, lead.0.action_type, 1),
    }
}

/// The state after the current player pivoted with a card of another type
/// than the lead: the player acts as the card says, with one pip.
pub open spec fn pivot_result(s: GameStateView, card: ActionCard, seize: bool) -> Result<GameStateView, ActionError> {
    match s.lead_card {
        None => Err(ActionError::IllegalPhase),
        Some(lead) => if card.action_type == lead.0.action_type {
            Err(ActionError::IllegalCard)
        } else {
            followed(s, card, true, seize, card.action_type, 1)
        },
    }
}

/// The marker that is worth the most; of several that are, the last.
pub(crate) fn find_highest(markers: &Vec<AmbitionMarker>) -> (r: usize)
    requires
        markers@.len() > 0,
    ensures
        is_highest(markers@, r as int),
        r as int == choose|i: int| is_highest(markers@, i),
{
    let mut best: usize = 0;
    let mut i: usize = 1;
    while i < markers.len()
        invariant
            1 <= i <= markers.len(),
            is_highest(markers@.take(i as int), best as int),
        decreases markers.len() - i,
    {
        let value = if markers[i].flipped { markers[i].first_place_flipped } else { markers[i].first_place };
        let top = if markers[best].flipped { markers[best].first_place_flipped } else { markers[best].first_place };
        proof {
            let before = markers@.take(i as int);
            let grown = markers@.take(i + 1);
            assert forall|j: int| 0 <= j < i implies grown[j] == before[j] by {}
            assert(grown[i as int] == markers@[i as int]);
            if value >= top {
                assert forall|j: int| 0 <= j < grown.len() implies marker_value(#[trigger] grown[j]) <= marker_value(
                    grown[i as int],
                ) by {
                    if j < i {
                        assert(marker_value(before[j]) <= marker_value(before[best as int]));
                    }
                }
                assert(is_highest(grown, i as int));
            } else {
                assert forall|j: int| 0 <= j < grown.len() implies marker_value(#[trigger] grown[j]) <= marker_value(
                    grown[best as int],
                ) by {
                    if j < i {
                        assert(marker_value(before[j]) <= marker_value(before[best as int]));
                    }
                }
                assert forall|j: int| best < j < grown.len() implies marker_value(#[trigger] grown[j]) < marker_value(
                    grown[best as int],
                ) by {
                    if j < i {
                        assert(marker_value(before[j]) < marker_value(before[best as int]));
                    }
                }
                assert(is_highest(grown, best as int));
            }
        }
        if value >= top {
            best = i;
        }
        i += 1;
    }
    proof {
        assert(markers@.take(markers.len() as int) =~= markers@);
        let other = choose|k: int| is_highest(markers@, k);
        if other < best {
            assert(marker_value(markers@[best as int]) < marker_value(markers@[other]));
            assert(marker_value(markers@[other]) <= marker_value(markers@[best as int]));
        } else if best < other {
            assert(marker_value(markers@[other]) < marker_value(markers@[best as int]));
            assert(marker_value(markers@[best as int]) <= marker_value(markers@[other]));
        }
    }
    best
}

/// The track of `ambition` among the scoring tracks.
pub fn find_track(tracks: &Vec<Ambition>, ambition: AmbitionTypes) -> (r: Option<usize>)
    ensures
        match r {
            Some(t) => track_of(views(tracks@), ambition) == Some(t as int) && t < tracks@.len(),
            None => track_of(views(tracks@), ambition) is None,
        },
{
    let ghost p = track_test(ambition);
    let ghost tv = views(tracks@);
    let mut i: usize = 0;
    while i < tracks.len()
        invariant
            i <= tracks.len(),
            p == track_test(ambition),
            tv == views(tracks@),
            forall|j: int| 0 <= j < i ==> !p(#[trigger] tv[j]),
        decreases tracks.len() - i,
    {
        proof {
            assert(tv[i as int] == tracks@[i as int]@);
        }
        if tracks[i].ambition_type == ambition {
            proof {
                assert(is_first(tv, p, i as int));
                lemma_first_index_found(tv, p, i as int);
            }
            return Some(i);
        }
        i += 1;
    }
    proof {
        assert(none_satisfies(tv, p));
        lemma_first_index_missing(tv, p);
    }
    None
}

/// Declares `ambition` with the marker at `marker`.
pub(crate) fn declare_ambition(game_state: &GameState, ambition: AmbitionTypes, marker: usize) -> (r: Result<GameState, ActionError>)
    requires
        marker < game_state.ambition_markers@.len(),
    ensures
        viewed(r) == ambition_declared(game_state@, ambition, marker as int),
{
    let t = match find_track(&game_state.ambitions, ambition) {
        None => { return Err(ActionError::UnknownEntity); },
        Some(t) => t,
    };
    let mut g = game_state.clone();
    let claimed = g.ambition_markers.remove(marker);
    let mut track = game_state.ambitions[t].clone();
    track.markers.push(claimed);
    let ghost before = g.ambitions@;
    let ghost track_view = track@;
    g.ambitions.set(t, track);
    proof {
        assert(views(g.ambitions@) =~= views(before).update(t as int, track_view));
        assert(views(game_state.ambitions@)[t as int] == game_state.ambitions@[t as int]@);
    }
    Ok(g)
}

/// Takes the played card out of the hand of the current player.
pub fn play_card(game_state: &GameState, card: ActionCard) -> (r: Result<GameState, ActionError>)
    ensures
        viewed(r) == card_played(game_state@, card),
{
    let mut area = match game_state.get_player_area(&game_state.current_player) {
        None => { return Err(ActionError::UnknownEntity); },
        Some(area) => area,
    };
    match area.remove_action_card(card) {
        Err(e) => Err(e),
        Ok(_) => {
            let mut g = game_state.clone();
            g.set_player(area);
            Ok(g)
        },
    }
}

/// Plays a card that follows the lead.
pub fn follow(game_state: &GameState, card: ActionCard, qualifying: bool, seize: bool, action_type: ActionType, pips: u8) -> (r: Result<GameState, ActionError>)
    ensures
        viewed(r) == followed(game_state@, card, qualifying, seize, action_type, pips),
{
    let mut g = match play_card(game_state, card) {
        Err(e) => { return Err(e); },
        Ok(g) => g,
    };
    g.follow_cards.push((card, qualifying, game_state.current_player));
    if seize {
        g.seized = Some(game_state.current_player);
    }
    g.turn_state = TurnState::Prelude { action_type, pips_left: pips };
    Ok(g)
}

/// Leads with `card`, and declares an ambition with it if asked to.
pub fn play_lead_card(game_state: &GameState, card: ActionCard, declare: Option<AmbitionTypes>) -> (r: Result<GameState, ActionError>)
    ensures
        viewed(r) == play_lead_card_result(game_state@, card, declare),
{
    if game_state.lead_card.is_some() {
        return Err(ActionError::IllegalPhase);
    }
    let mut g = match play_card(game_state, card) {
        Err(e) => { return Err(e); },
        Ok(g) => g,
    };
    g.lead_card = Some((card, true, game_state.current_player));
    g.turn_state = TurnState::Prelude { action_type: card.action_type, pips_left: card.pips };
    match declare {
        None => Ok(g),
        Some(ambition) => {
            if !(card.declared_ambition == Some(ambition)) {
                return Err(ActionError::IllegalCard);
            }
            if g.ambition_markers.len() == 0 {
                return Err(ActionError::IllegalCard);
            }
            let marker = find_highest(&g.ambition_markers);
            declare_ambition(&g, ambition, marker)
        },
    }
}

/// Surpasses the lead with a card of the same type and of no lower number.
pub fn surpass(game_state: &GameState, card: ActionCard, seize: Option<ActionCard>) -> (r: Result<GameState, ActionError>)
    ensures
        viewed(r) == surpass_result(game_state@, card, seize is Some),
{
    match game_state.lead_card {
        None => Err(ActionError::IllegalPhase),
        Some(lead) => {
            if card.action_type != lead.0.action_type || card.number < lead.0.number {
                Err(ActionError::IllegalCard)
            } else {
                follow(game_state, card, true, seize.is_some(), card.action_type, card.pips)
            }
        },
    }
}

/// Copies the lead.
pub fn copy(game_state: &GameState, card: ActionCard, seize: Option<ActionCard>) -> (r: Result<GameState, ActionError>)
    ensures
        viewed(r) == copy_result(game_state@, card, seize is Some),
{
    match game_state.lead_card {
        None => Err(ActionError::IllegalPhase),
        Some(lead) => follow(game_state, card, false, seize.is_some(), lead.0.action_type, 1),
    }
}

/// Pivots with a card of another type than the lead.
pub fn pivot(game_state: &GameState, card: ActionCard, seize: Option<ActionCard>) -> (r: Result<GameState, ActionError>)
    ensures
        viewed(r) == pivot_result(game_state@, card, seize is Some),
{
    match game_state.lead_card {
        None => Err(ActionError::IllegalPhase),
        Some(lead) => {
            if card.action_type == lead.0.action_type {
                Err(ActionError::IllegalCard)
            } else {
                follow(game_state, card, true, seize.is_some(), card.action_type, 1)
            }
        },
    }
}

} // verus!
