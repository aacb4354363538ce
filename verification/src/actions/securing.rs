//! Securing court cards.

use vstd::prelude::*;
use crate::data::court_cards::{CourtCard, CourtCardView, VoxPayload, agents_cleared, apply_vox, vox_result};
use crate::data::game_state::{
    ActionError, Agents, Color, GameState, GameStateView, PlayerAreaView, Reserve, ReserveType, Trophy, same_seats,
    trophies_added,
};
use crate::data::viewed;

verus! {

/// The trophies that `actor` earns from the agents on a card: one for each
/// other player who has agents there, of as many agents as that player has.
pub open spec fn trophies_from(agents: Seq<Agents>, actor: Color) -> Seq<Trophy>
    decreases agents.len(),
{
    if agents.len() == 0 {
        Seq::empty()
    } else {
        let before = trophies_from(agents.drop_last(), actor);
        let a = agents.last();
        if a.color != actor && a.count > 0 {
            before.push(Trophy { trophy_type: ReserveType::Agents, count: a.count, player: a.color })
        } else {
            before
        }
    }
}

/// The state after the agents of one entry went back to their owner's reserve.
pub open spec fn agent_returned(s: GameStateView, a: Agents) -> Result<GameStateView, ActionError> {
    if a.count == 0 {
        Ok(s)
    } else {
        match s.player_area(a.color) {
            None => Err(ActionError::UnknownEntity),
            Some(area) => if area.reserve.agents + a.count > 255 {
                Err(ActionError::CountOverflow)
            } else {
                Ok(
                    s.with_player(
                        PlayerAreaView { reserve: Reserve { agents: (area.reserve.agents + a.count) as u8, ..area.reserve }, ..area },
                    ),
                )
            },
        }
    }
}

/// The state after the agents of every entry went back to their owners' reserves, entry by entry.
pub open spec fn agents_returned(s: GameStateView, agents: Seq<Agents>) -> Result<GameStateView, ActionError>
    decreases agents.len(),
{
    if agents.len() == 0 {
        Ok(s)
    } else {
        match agents_returned(s, agents.drop_last()) {
            Err(e) => Err(e),
            Ok(s1) => agent_returned(s1, agents.last()),
        }
    }
}

/// The area of the one who secured a card: the trophies are merged in, and a Guild card is kept.
pub open spec fn area_rewarded(area: PlayerAreaView, card: CourtCardView, tropies: Seq<Trophy>) -> PlayerAreaView {
    match card {
        CourtCardView::GuildCard { guild, .. } => PlayerAreaView { tropies, guild_cards: area.guild_cards.push(guild), ..area },
        CourtCardView::VoxCard { .. } => PlayerAreaView { tropies, ..area },
    }
}

/// The state after the current player took the card at `target_card`,
/// before a Vox card takes its effect. The player must control the card.
/// The other players' agents on it earn the player trophies; all agents
/// leave the card for their owners' reserves; a Guild card goes to the player.
pub open spec fn card_taken(s: GameStateView, target_card: u8) -> Result<GameStateView, ActionError> {
    let actor = s.current_player;
    if target_card >= s.court.len() {
        Err(ActionError::UnknownEntity)
    } else {
        let card = s.court[target_card as int];
        if card.controlled_by() != Some(actor) {
            Err(ActionError::NotController)
        } else {
            match s.player_area(actor) {
                None => Err(ActionError::UnknownEntity),
                Some(area) => match trophies_added(area.tropies, trophies_from(card.agents(), actor)) {
                    Err(e) => Err(e),
                    Ok(tropies) => agents_returned(
                        s.with_player(area_rewarded(area, card, tropies)).with_court_card(
                            target_card as int,
                            card.with_agents(agents_cleared(card.agents())),
                        ),
                        card.agents(),
                    ),
                },
            }
        }
    }
}

/// The state after the current player secured the card at `target_card`:
/// the card is taken, and a Vox card then takes its effect.
pub open spec fn secure_result(s: GameStateView, target_card: u8, payload: Option<VoxPayload>) -> Result<GameStateView, ActionError> {
    match card_taken(s, target_card) {
        Err(e) => Err(e),
        Ok(taken) => match s.court[target_card as int] {
            CourtCardView::GuildCard { .. } => Ok(taken),
            CourtCardView::VoxCard { vox, .. } => vox_result(taken, vox.on_secure, payload),
        },
    }
}

/// The trophies that `actor` earns from the agents on a card.
pub fn collect_trophies(agents: &Vec<Agents>, actor: &Color) -> (r: Vec<Trophy>)
    ensures
        r@ == trophies_from(agents@, *actor),
{
    let mut out: Vec<Trophy> = Vec::new();
    let mut i: usize = 0;
    while i < agents.len()
        invariant
            i <= agents.len(),
            out@ == trophies_from(agents@.take(i as int), *actor),
        decreases agents.len() - i,
    {
        proof {
            assert(agents@.take(i + 1).drop_last() =~= agents@.take(i as int));
            assert(agents@.take(i + 1).last() == agents@[i as int]);
        }
        let a = agents[i];
        if a.color != *actor && a.count > 0 {
            out.push(Trophy { trophy_type: ReserveType::Agents, count: a.count, player: a.color });
        }
        i += 1;
    }
    proof {
        assert(agents@.take(agents.len() as int) =~= agents@);
    }
    out
}

/// The agents with every count set to zero.
pub fn clear_agents(agents: &Vec<Agents>) -> (r: Vec<Agents>)
    ensures
        r@ == agents_cleared(agents@),
{
    let mut out: Vec<Agents> = Vec::new();
    let mut i: usize = 0;
    while i < agents.len()
        invariant
            i <= agents.len(),
            out@.len() == i,
            forall|j: int| 0 <= j < i ==> out@[j] == (Agents { color: agents@[j].color, count: 0 }),
        decreases agents.len() - i,
    {
        out.push(Agents { color: agents[i].color, count: 0 });
        i += 1;
    }
    proof {
        assert(out@ =~= agents_cleared(agents@));
    }
    out
}

/// Hands the agents of every entry back to their owners' reserves.
pub fn return_agents(game_state: GameState, agents: &Vec<Agents>) -> (r: Result<GameState, ActionError>)
    ensures
        viewed(r) == agents_returned(game_state@, agents@),
{
    let ghost start = game_state@;
    let mut g = game_state;
    let mut i: usize = 0;
    while i < agents.len()
        invariant
            i <= agents.len(),
            start == game_state@,
            agents_returned(start, agents@.take(i as int)) == Ok::<GameStateView, ActionError>(g@),
        decreases agents.len() - i,
    {
        proof {
            assert(agents@.take(i + 1).drop_last() =~= agents@.take(i as int));
            assert(agents@.take(i + 1).last() == agents@[i as int]);
        }
        let a = agents[i];
        if a.count > 0 {
            let mut area = match g.get_player_area(&a.color) {
                None => {
                    proof {
                        lemma_failure_stays(start, agents@, i + 1);
                    }
                    return Err(ActionError::UnknownEntity);
                },
                Some(area) => area,
            };
            if area.reserve.agents > 255 - a.count {
                proof {
                    lemma_failure_stays(start, agents@, i + 1);
                }
                return Err(ActionError::CountOverflow);
            }
            area.reserve.agents = area.reserve.agents + a.count;
            g.set_player(area);
        }
        i += 1;
    }
    proof {
        assert(agents@.take(agents.len() as int) =~= agents@);
    }
    Ok(g)
}

/// Handing agents back changes what the players hold, and nothing else.
pub proof fn lemma_return_changes_holdings_only(s: GameStateView, agents: Seq<Agents>)
    requires
        agents_returned(s, agents) is Ok,
    ensures
        s.differs_in_holdings_only(agents_returned(s, agents).unwrap()),
    decreases agents.len(),
{
    if agents.len() > 0 {
        lemma_return_changes_holdings_only(s, agents.drop_last());
        let s1 = agents_returned(s, agents.drop_last()).unwrap();
        let s2 = agent_returned(s1, agents.last()).unwrap();
        assert(same_seats(s1.players, s2.players));
        assert(same_seats(s.players, s2.players));
    } else {
        assert(same_seats(s.players, s.players));
    }
}

/// Taking a card changes what the players hold and clears the card, and nothing else.
pub proof fn lemma_card_taken(s: GameStateView, target_card: u8)
    requires
        card_taken(s, target_card) is Ok,
    ensures
        target_card < s.court.len(),
        card_taken(s, target_card).unwrap() == (GameStateView {
            players: card_taken(s, target_card).unwrap().players,
            court: s.court.update(
                target_card as int,
                s.court[target_card as int].with_agents(agents_cleared(s.court[target_card as int].agents())),
            ),
            ..s
        }),
        same_seats(s.players, card_taken(s, target_card).unwrap().players),
{
    let actor = s.current_player;
    let card = s.court[target_card as int];
    let area = s.player_area(actor).unwrap();
    let tropies = trophies_added(area.tropies, trophies_from(card.agents(), actor)).unwrap();
    let s0 = s.with_player(area_rewarded(area, card, tropies));
    assert(same_seats(s.players, s0.players));
    let s1 = s0.with_court_card(target_card as int, card.with_agents(agents_cleared(card.agents())));
    lemma_return_changes_holdings_only(s1, card.agents());
    let s2 = agents_returned(s1, card.agents()).unwrap();
    assert(same_seats(s.players, s2.players));
}

/// Once handing back has failed for the first entries, it fails in the same way for all of them.
pub proof fn lemma_failure_stays(s: GameStateView, agents: Seq<Agents>, n: int)
    requires
        0 <= n <= agents.len(),
        agents_returned(s, agents.take(n)) is Err,
    ensures
        agents_returned(s, agents) == agents_returned(s, agents.take(n)),
    decreases agents.len() - n,
{
    if n < agents.len() {
        assert(agents.take(n + 1).drop_last() =~= agents.take(n));
        lemma_failure_stays(s, agents, n + 1);
    } else {
        assert(agents.take(n) =~= agents);
    }
}

/// Secures a court card that the current player controls.
pub fn secure(game_state: &GameState, target_card: u8, vox_payload: Option<VoxPayload>) -> (r: Result<GameState, ActionError>)
    ensures
        viewed(r) == secure_result(game_state@, target_card, vox_payload),
{
    let target = target_card as usize;
    if target >= game_state.court.len() {
        return Err(ActionError::UnknownEntity);
    }
    let actor = game_state.current_player;
    let card = &game_state.court[target];
    if !(card.controlled_by() == Some(actor)) {
        return Err(ActionError::NotController);
    }
    let mut area = match game_state.get_player_area(&actor) {
        None => { return Err(ActionError::UnknownEntity); },
        Some(area) => area,
    };
    let tropies = match area.add_trophies(collect_trophies(card.agents(), &actor)) {
        Err(e) => { return Err(e); },
        Ok(tropies) => tropies,
    };
    area.tropies = tropies;
    match card {
        CourtCard::GuildCard { guild, .. } => {
            area.guild_cards.push(*guild);
        },
        CourtCard::VoxCard { .. } => {},
    }
    let mut g = game_state.clone();
    g.set_player(area);
    g.set_court_card(target, card.with_agents(clear_agents(card.agents())));
    let g = match return_agents(g, card.agents()) {
        Err(e) => { return Err(e); },
        Ok(g) => g,
    };
    match card {
        CourtCard::GuildCard { .. } => Ok(g),
        CourtCard::VoxCard { vox, .. } => apply_vox(&g, vox.on_secure, &vox_payload),
    }
}

} // verus!
