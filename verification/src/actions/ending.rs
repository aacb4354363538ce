//! The end of a turn, of a round and of a chapter, and the scoring of ambitions.

use vstd::prelude::*;
use crate::actions::securing::{agents_returned, lemma_return_changes_holdings_only, return_agents};
use crate::actions::tricktaking::{find_track, track_of};
use crate::data::game_state::{
    ActionCard, ActionError, ActionType, Agents, Ambition, AmbitionMarker, AmbitionTypes, AmbitionView, Color,
    GameState, GameStateView, PlayerArea, PlayerAreaView, ReserveType, ResourceType, Trophy, TurnState, TurnStateView,
    agent_total, copy_played_cards, same_seats, trophy_total,
};
use crate::data::system::{System, SystemView};
use crate::data::{viewed, views};

verus! {

// ---------------------------------------------------------------------------
// Scoring an ambition
// ---------------------------------------------------------------------------

/// What a player has to show for an ambition.
pub open spec fn evaluation(ambition: AmbitionTypes, area: PlayerAreaView) -> int {
    match ambition {
        AmbitionTypes::Tycoon => area.resource_count(ResourceType::Fuel) + area.resource_count(ResourceType::Material),
        AmbitionTypes::Tyrant => agent_total(area.captives),
        AmbitionTypes::Warlord => trophy_total(area.tropies),
        AmbitionTypes::Keeper => area.resource_count(ResourceType::Relics),
        AmbitionTypes::Empath => area.resource_count(ResourceType::Psionics),
    }
}

/// What each player has to show for an ambition, in seating order.
pub open spec fn scores_of(players: Seq<PlayerAreaView>, ambition: AmbitionTypes) -> Seq<int> {
    Seq::new(players.len(), |i: int| evaluation(ambition, players[i]))
}

/// The number of scores above `value`.
pub open spec fn count_above(scores: Seq<int>, value: int) -> int
    decreases scores.len(),
{
    if scores.len() == 0 {
        0
    } else {
        count_above(scores.drop_last(), value) + if scores.last() > value {
            1int
        } else {
            0int
        }
    }
}

/// The number of scores equal to `value`.
pub open spec fn count_equal(scores: Seq<int>, value: int) -> int
    decreases scores.len(),
{
    if scores.len() == 0 {
        0
    } else {
        count_equal(scores.drop_last(), value) + if scores.last() == value {
            1int
        } else {
            0int
        }
    }
}

/// The number of entrants that stand above the player at `index`. The
/// discard pile of the track enters with the number of resources on it.
pub open spec fn entrants_above(scores: Seq<int>, discard: int, index: int) -> int {
    count_above(scores, scores[index]) + if discard > scores[index] {
        1int
    } else {
        0int
    }
}

/// The number of other entrants that stand level with the player at `index`.
pub open spec fn entrants_level(scores: Seq<int>, discard: int, index: int) -> int {
    count_equal(scores, scores[index]) - 1 + if discard == scores[index] {
        1int
    } else {
        0int
    }
}

/// The points for the first place that the markers give together.
pub open spec fn first_points(markers: Seq<AmbitionMarker>) -> int
    decreases markers.len(),
{
    if markers.len() == 0 {
        0
    } else {
        first_points(markers.drop_last()) + if markers.last().flipped {
            markers.last().first_place_flipped as int
        } else {
            markers.last().first_place as int
        }
    }
}

/// The points for the second place that the markers give together.
pub open spec fn second_points(markers: Seq<AmbitionMarker>) -> int
    decreases markers.len(),
{
    if markers.len() == 0 {
        0
    } else {
        second_points(markers.drop_last()) + if markers.last().flipped {
            markers.last().second_place_flipped as int
        } else {
            markers.last().second_place as int
        }
    }
}

/// The points that the winner gets on top, by the cities left in reserve.
pub open spec fn city_bonus(cities: u8) -> int {
    if cities == 0 {
        5
    } else if cities == 1 {
        2
    } else {
        0
    }
}

/// The points that the player at `index` wins: the points for the first
/// place, with the bonus, for one who stands above all other entrants; the
/// points for the second place for one who is level with the best or has
/// one entrant above; nothing for anyone else.
pub open spec fn points_won(scores: Seq<int>, discard: int, markers: Seq<AmbitionMarker>, cities: u8, index: int) -> int {
    if entrants_above(scores, discard, index) == 0 && entrants_level(scores, discard, index) == 0 {
        first_points(markers) + city_bonus(cities)
    } else if entrants_above(scores, discard, index) <= 1 {
        second_points(markers)
    } else {
        0
    }
}

/// The power of the player at `index` once the points of the track are added.
pub open spec fn power_after(players: Seq<PlayerAreaView>, ambition: AmbitionTypes, track: AmbitionView, index: int) -> int {
    players[index].power + points_won(
        scores_of(players, ambition),
        track.discarded_resources.len() as int,
        track.markers,
        players[index].reserve.cities,
        index,
    )
}

/// The power of some player would leave its range.
pub open spec fn power_overflows(players: Seq<PlayerAreaView>, ambition: AmbitionTypes, track: AmbitionView) -> bool {
    exists|i: int| 0 <= i < players.len() && #[trigger] power_after(players, ambition, track, i) > 255
}

/// The players with the points of the track added to their power.
pub open spec fn powers_scored(players: Seq<PlayerAreaView>, ambition: AmbitionTypes, track: AmbitionView) -> Seq<PlayerAreaView> {
    Seq::new(
        players.len(),
        |i: int| PlayerAreaView { power: power_after(players, ambition, track, i) as u8, ..players[i] },
    )
}

/// The state after `count` pieces of `kind` went back to the reserve of `owner`.
pub open spec fn pieces_returned(s: GameStateView, kind: ReserveType, owner: Color, count: u8) -> Result<GameStateView, ActionError> {
    if count == 0 {
        Ok(s)
    } else {
        match s.player_area(owner) {
            None => Err(ActionError::UnknownEntity),
            Some(area) => if area.reserve.count(kind) + count > 255 {
                Err(ActionError::CountOverflow)
            } else {
                Ok(
                    s.with_player(
                        PlayerAreaView { reserve: area.reserve.with_count(kind, (area.reserve.count(kind) + count) as u8), ..area },
                    ),
                )
            },
        }
    }
}

/// The state after the pieces of every trophy went back to the reserves they came from, trophy by trophy.
pub open spec fn trophies_returned(s: GameStateView, trophies: Seq<Trophy>) -> Result<GameStateView, ActionError>
    decreases trophies.len(),
{
    if trophies.len() == 0 {
        Ok(s)
    } else {
        match trophies_returned(s, trophies.drop_last()) {
            Err(e) => Err(e),
            Ok(s1) => pieces_returned(s1, trophies.last().trophy_type, trophies.last().player, trophies.last().count),
        }
    }
}

/// The trophies of all the players, in seating order.
pub open spec fn all_trophies(players: Seq<PlayerAreaView>) -> Seq<Trophy>
    decreases players.len(),
{
    if players.len() == 0 {
        Seq::empty()
    } else {
        all_trophies(players.drop_last()) + players.last().tropies
    }
}

/// The captives of all the players, in seating order.
pub open spec fn all_captives(players: Seq<PlayerAreaView>) -> Seq<Agents>
    decreases players.len(),
{
    if players.len() == 0 {
        Seq::empty()
    } else {
        all_captives(players.drop_last()) + players.last().captives
    }
}

/// The players without their trophies.
pub open spec fn without_trophies(players: Seq<PlayerAreaView>) -> Seq<PlayerAreaView> {
    Seq::new(players.len(), |i: int| PlayerAreaView { tropies: Seq::empty(), ..players[i] })
}

/// The players without their captives.
pub open spec fn without_captives(players: Seq<PlayerAreaView>) -> Seq<PlayerAreaView> {
    Seq::new(players.len(), |i: int| PlayerAreaView { captives: Seq::empty(), ..players[i] })
}

/// The state after the track of `ambition` was scored: every player gets the
/// points won. The Warlord track then sends all trophies back to the
/// reserves they came from, and the Tyrant track all captives.
pub open spec fn score_ambition_result(s: GameStateView, ambition: AmbitionTypes) -> Result<GameStateView, ActionError> {
    match track_of(s.ambitions, ambition) {
        None => Err(ActionError::UnknownEntity),
        Some(t) => if power_overflows(s.players, ambition, s.ambitions[t]) {
            Err(ActionError::CountOverflow)
        } else {
            let s1 = GameStateView { players: powers_scored(s.players, ambition, s.ambitions[t]), ..s };
            match ambition {
                AmbitionTypes::Warlord => match trophies_returned(s1, all_trophies(s1.players)) {
                    Err(e) => Err(e),
                    Ok(s2) => Ok(GameStateView { players: without_trophies(s2.players), ..s2 }),
                },
                AmbitionTypes::Tyrant => match agents_returned(s1, all_captives(s1.players)) {
                    Err(e) => Err(e),
                    Ok(s2) => Ok(GameStateView { players: without_captives(s2.players), ..s2 }),
                },
                _ => Ok(s1),
            }
        },
    }
}

/// What a player has to show for an ambition.
pub fn evaluate(area: &PlayerArea, ambition: AmbitionTypes) -> (r: u128)
    ensures
        r as int == evaluation(ambition, area@),
{
    match ambition {
        AmbitionTypes::Tycoon => area.get_resource_count(ResourceType::Fuel) + area.get_resource_count(ResourceType::Material),
        AmbitionTypes::Tyrant => area.get_captives(),
        AmbitionTypes::Warlord => area.get_trophies(),
        AmbitionTypes::Keeper => area.get_resource_count(ResourceType::Relics),
        AmbitionTypes::Empath => area.get_resource_count(ResourceType::Psionics),
    }
}

/// Scores as mathematical integers.
pub open spec fn as_ints(scores: Seq<u128>) -> Seq<int> {
    Seq::new(scores.len(), |i: int| scores[i] as int)
}

/// What each player has to show for an ambition.
pub fn evaluate_all(players: &Vec<PlayerArea>, ambition: AmbitionTypes) -> (r: Vec<u128>)
    ensures
        as_ints(r@) == scores_of(views(players@), ambition),
        r@.len() == players@.len(),
{
    let mut out: Vec<u128> = Vec::new();
    let mut i: usize = 0;
    while i < players.len()
        invariant
            i <= players.len(),
            out@.len() == i,
            forall|j: int| 0 <= j < i ==> out@[j] as int == evaluation(ambition, players@[j]@),
        decreases players.len() - i,
    {
        out.push(evaluate(&players[i], ambition));
        i += 1;
    }
    proof {
        assert(as_ints(out@) =~= scores_of(views(players@), ambition));
    }
    out
}

/// The number of scores above `value`, and the number of scores equal to it.
pub fn count_standing(scores: &Vec<u128>, value: u128) -> (r: (usize, usize))
    ensures
        r.0 as int == count_above(as_ints(scores@), value as int),
        r.1 as int == count_equal(as_ints(scores@), value as int),
{
    let mut above: usize = 0;
    let mut level: usize = 0;
    let mut i: usize = 0;
    while i < scores.len()
        invariant
            i <= scores.len(),
            above as int == count_above(as_ints(scores@).take(i as int), value as int),
            level as int == count_equal(as_ints(scores@).take(i as int), value as int),
            above <= i,
            level <= i,
        decreases scores.len() - i,
    {
        proof {
            let all = as_ints(scores@);
            assert(all.take(i + 1).drop_last() =~= all.take(i as int));
            assert(all.take(i + 1).last() == scores@[i as int] as int);
        }
        if scores[i] > value {
            above += 1;
        }
        if scores[i] == value {
            level += 1;
        }
        i += 1;
    }
    proof {
        assert(as_ints(scores@).take(scores.len() as int) =~= as_ints(scores@));
    }
    (above, level)
}

/// The points for the first place and for the second place that the markers give together.
pub fn add_up_markers(markers: &Vec<AmbitionMarker>) -> (r: (u128, u128))
    ensures
        r.0 as int == first_points(markers@),
        r.1 as int == second_points(markers@),
        r.0 <= 255 * usize::MAX,
        r.1 <= 255 * usize::MAX,
{
    let mut first: u128 = 0;
    let mut second: u128 = 0;
    let mut i: usize = 0;
    while i < markers.len()
        invariant
            i <= markers.len(),
            first as int == first_points(markers@.take(i as int)),
            second as int == second_points(markers@.take(i as int)),
            first <= 255 * i,
            second <= 255 * i,
        decreases markers.len() - i,
    {
        proof {
            assert(markers@.take(i + 1).drop_last() =~= markers@.take(i as int));
            assert(markers@.take(i + 1).last() == markers@[i as int]);
        }
        let m = markers[i];
        if m.flipped {
            first += m.first_place_flipped as u128;
            second += m.second_place_flipped as u128;
        } else {
            first += m.first_place as u128;
            second += m.second_place as u128;
        }
        i += 1;
    }
    proof {
        assert(markers@.take(markers.len() as int) =~= markers@);
    }
    (first, second)
}

/// Adds the points of a track to the power of every player. `None` where the
/// power of a player would leave its range.
pub fn score_powers(players: &Vec<PlayerArea>, ambition: AmbitionTypes, track: &Ambition) -> (r: Option<Vec<PlayerArea>>)
    ensures
        match r {
            Some(scored) => !power_overflows(views(players@), ambition, track@) && views(scored@) == powers_scored(
                views(players@),
                ambition,
                track@,
            ),
            None => power_overflows(views(players@), ambition, track@),
        },
{
    let ghost pv = views(players@);
    let scores = evaluate_all(players, ambition);
    let discard: u128 = track.discarded_resources.len() as u128;
    let (first, second) = add_up_markers(&track.markers);
    let mut out: Vec<PlayerArea> = Vec::new();
    let mut i: usize = 0;
    while i < players.len()
        invariant
            i <= players.len(),
            pv == views(players@),
            scores@.len() == players@.len(),
            as_ints(scores@) == scores_of(pv, ambition),
            discard as int == track@.discarded_resources.len(),
            first as int == first_points(track@.markers),
            second as int == second_points(track@.markers),
            first <= 255 * usize::MAX,
            second <= 255 * usize::MAX,
            out@.len() == i,
            forall|j: int| 0 <= j < i ==> #[trigger] power_after(pv, ambition, track@, j) <= 255,
            forall|j: int| 0 <= j < i ==> out@[j]@ == (PlayerAreaView { power: power_after(pv, ambition, track@, j) as u8, ..pv[j] }),
        decreases players.len() - i,
    {
        let area = &players[i];
        let (above, level) = count_standing(&scores, scores[i]);
        proof {
            assert(as_ints(scores@)[i as int] == scores@[i as int] as int);
            assert(pv[i as int] == area@);
        }
        let above_all: u128 = above as u128 + if discard > scores[i] { 1 } else { 0 };
        let level_all: u128 = level as u128 + if discard == scores[i] { 1 } else { 0 };
        let points: u128 = if above_all == 0 && level_all == 1 {
            let bonus: u128 = if area.reserve.cities == 0 {
                5
            } else if area.reserve.cities == 1 {
                2
            } else {
                0
            };
            first + bonus
        } else if above_all <= 1 {
            second
        } else {
            0
        };
        proof {
            assert(points as int == points_won(
                scores_of(pv, ambition),
                track@.discarded_resources.len() as int,
                track@.markers,
                pv[i as int].reserve.cities,
                i as int,
            ));
        }
        if points > 255 - area.power as u128 {
            proof {
                assert(power_after(pv, ambition, track@, i as int) > 255);
            }
            return None;
        }
        let mut scored = area.clone();
        scored.power = area.power + points as u8;
        out.push(scored);
        i += 1;
    }
    proof {
        assert(views(out@) =~= powers_scored(pv, ambition, track@));
    }
    Some(out)
}

/// Hands `count` pieces of `kind` back to the reserve of `owner`.
pub fn return_pieces(game_state: GameState, kind: &ReserveType, owner: &Color, count: u8) -> (r: Result<GameState, ActionError>)
    ensures
        viewed(r) == pieces_returned(game_state@, *kind, *owner, count),
{
    if count == 0 {
        return Ok(game_state);
    }
    let mut g = game_state;
    let mut area = match g.get_player_area(owner) {
        None => { return Err(ActionError::UnknownEntity); },
        Some(area) => area,
    };
    let held = area.reserve.get(kind);
    if held > 255 - count {
        return Err(ActionError::CountOverflow);
    }
    area.reserve = area.reserve.with(kind, held + count);
    g.set_player(area);
    Ok(g)
}

/// Once handing back has failed for the first trophies, it fails in the same way for all of them.
pub proof fn lemma_trophy_failure_stays(s: GameStateView, trophies: Seq<Trophy>, n: int)
    requires
        0 <= n <= trophies.len(),
        trophies_returned(s, trophies.take(n)) is Err,
    ensures
        trophies_returned(s, trophies) == trophies_returned(s, trophies.take(n)),
    decreases trophies.len() - n,
{
    if n < trophies.len() {
        assert(trophies.take(n + 1).drop_last() =~= trophies.take(n));
        lemma_trophy_failure_stays(s, trophies, n + 1);
    } else {
        assert(trophies.take(n) =~= trophies);
    }
}

/// Hands the pieces of every trophy back to the reserve they came from.
pub fn return_trophies(game_state: GameState, trophies: &Vec<Trophy>) -> (r: Result<GameState, ActionError>)
    ensures
        viewed(r) == trophies_returned(game_state@, trophies@),
{
    let ghost start = game_state@;
    let mut g = game_state;
    let mut i: usize = 0;
    while i < trophies.len()
        invariant
            i <= trophies.len(),
            start == game_state@,
            trophies_returned(start, trophies@.take(i as int)) == Ok::<GameStateView, ActionError>(g@),
        decreases trophies.len() - i,
    {
        proof {
            assert(trophies@.take(i + 1).drop_last() =~= trophies@.take(i as int));
            assert(trophies@.take(i + 1).last() == trophies@[i as int]);
        }
        let t = trophies[i];
        match return_pieces(g, &t.trophy_type, &t.player, t.count) {
            Err(e) => {
                proof {
                    lemma_trophy_failure_stays(start, trophies@, i + 1);
                }
                return Err(e);
            },
            Ok(next) => {
                g = next;
            },
        }
        i += 1;
    }
    proof {
        assert(trophies@.take(trophies.len() as int) =~= trophies@);
    }
    Ok(g)
}

/// The trophies of all the players, in seating order.
pub fn gather_trophies(players: &Vec<PlayerArea>) -> (r: Vec<Trophy>)
    ensures
        r@ == all_trophies(views(players@)),
{
    let ghost pv = views(players@);
    let mut out: Vec<Trophy> = Vec::new();
    let mut i: usize = 0;
    while i < players.len()
        invariant
            i <= players.len(),
            pv == views(players@),
            out@ == all_trophies(pv.take(i as int)),
        decreases players.len() - i,
    {
        proof {
            assert(pv.take(i + 1).drop_last() =~= pv.take(i as int));
            assert(pv.take(i + 1).last() == players@[i as int]@);
        }
        let ghost before = out@;
        let held = &players[i].tropies;
        let mut j: usize = 0;
        while j < held.len()
            invariant
                j <= held.len(),
                out@ == before + held@.take(j as int),
            decreases held.len() - j,
        {
            out.push(held[j]);
            proof {
                assert(held@.take(j + 1) =~= held@.take(j as int).push(held@[j as int]));
                assert(out@ =~= before + held@.take(j + 1));
            }
            j += 1;
        }
        proof {
            assert(held@.take(held.len() as int) =~= held@);
        }
        i += 1;
    }
    proof {
        assert(pv.take(players.len() as int) =~= pv);
    }
    out
}

/// The captives of all the players, in seating order.
pub fn gather_captives(players: &Vec<PlayerArea>) -> (r: Vec<Agents>)
    ensures
        r@ == all_captives(views(players@)),
{
    let ghost pv = views(players@);
    let mut out: Vec<Agents> = Vec::new();
    let mut i: usize = 0;
    while i < players.len()
        invariant
            i <= players.len(),
            pv == views(players@),
            out@ == all_captives(pv.take(i as int)),
        decreases players.len() - i,
    {
        proof {
            assert(pv.take(i + 1).drop_last() =~= pv.take(i as int));
            assert(pv.take(i + 1).last() == players@[i as int]@);
        }
        let ghost before = out@;
        let held = &players[i].captives;
        let mut j: usize = 0;
        while j < held.len()
            invariant
                j <= held.len(),
                out@ == before + held@.take(j as int),
            decreases held.len() - j,
        {
            out.push(held[j]);
            proof {
                assert(held@.take(j + 1) =~= held@.take(j as int).push(held@[j as int]));
                assert(out@ =~= before + held@.take(j + 1));
            }
            j += 1;
        }
        proof {
            assert(held@.take(held.len() as int) =~= held@);
        }
        i += 1;
    }
    proof {
        assert(pv.take(players.len() as int) =~= pv);
    }
    out
}

/// Takes the trophies, or the captives, away from every player.
pub fn clear_holdings(players: &Vec<PlayerArea>, trophies: bool) -> (r: Vec<PlayerArea>)
    ensures
        views(r@) == if trophies {
            without_trophies(views(players@))
        } else {
            without_captives(views(players@))
        },
{
    let mut out: Vec<PlayerArea> = Vec::new();
    let mut i: usize = 0;
    while i < players.len()
        invariant
            i <= players.len(),
            out@.len() == i,
            forall|j: int| 0 <= j < i ==> out@[j]@ == if trophies {
                PlayerAreaView { tropies: Seq::empty(), ..players@[j]@ }
            } else {
                PlayerAreaView { captives: Seq::empty(), ..players@[j]@ }
            },
        decreases players.len() - i,
    {
        let mut area = players[i].clone();
        if trophies {
            area.tropies = Vec::new();
        } else {
            area.captives = Vec::new();
        }
        out.push(area);
        i += 1;
    }
    proof {
        if trophies {
            assert(views(out@) =~= without_trophies(views(players@)));
        } else {
            assert(views(out@) =~= without_captives(views(players@)));
        }
    }
    out
}

/// Scores the track of `ambition`.
pub fn score_ambition(game_state: &GameState, ambition: AmbitionTypes) -> (r: Result<GameState, ActionError>)
    ensures
        viewed(r) == score_ambition_result(game_state@, ambition),
{
    let t = match find_track(&game_state.ambitions, ambition) {
        None => { return Err(ActionError::UnknownEntity); },
        Some(t) => t,
    };
    proof {
        assert(views(game_state.ambitions@)[t as int] == game_state.ambitions@[t as int]@);
    }
    let scored = match score_powers(&game_state.players, ambition, &game_state.ambitions[t]) {
        None => { return Err(ActionError::CountOverflow); },
        Some(scored) => scored,
    };
    let mut g = game_state.clone();
    g.players = scored;
    match ambition {
        AmbitionTypes::Warlord => {
            let trophies = gather_trophies(&g.players);
            let mut g2 = match return_trophies(g, &trophies) {
                Err(e) => { return Err(e); },
                Ok(g2) => g2,
            };
            g2.players = clear_holdings(&g2.players, true);
            Ok(g2)
        },
        AmbitionTypes::Tyrant => {
            let captives = gather_captives(&g.players);
            let mut g2 = match return_agents(g, &captives) {
                Err(e) => { return Err(e); },
                Ok(g2) => g2,
            };
            g2.players = clear_holdings(&g2.players, false);
            Ok(g2)
        },
        _ => Ok(g),
    }
}


// ---------------------------------------------------------------------------
// The end of a chapter
// ---------------------------------------------------------------------------

/// The state after the first `n` of the tracks were scored in order, each
/// one that holds a marker.
pub open spec fn chapter_scored(s: GameStateView, tracks: Seq<AmbitionView>, n: int) -> Result<GameStateView, ActionError>
    decreases n,
{
    if n <= 0 {
        Ok(s)
    } else {
        match chapter_scored(s, tracks, n - 1) {
            Err(e) => Err(e),
            Ok(s1) => if tracks[n - 1].markers.len() != 0 {
                score_ambition_result(s1, tracks[n - 1].ambition_type)
            } else {
                Ok(s1)
            },
        }
    }
}

/// The state at the end of a chapter: every ambition that was declared is
/// scored, in the order in which the tracks are listed.
pub open spec fn end_chapter_result(s: GameStateView) -> Result<GameStateView, ActionError> {
    chapter_scored(s, s.ambitions, s.ambitions.len() as int)
}

/// Once scoring has failed for the first tracks, it fails in the same way for all of them.
pub proof fn lemma_scoring_failure_stays(s: GameStateView, tracks: Seq<AmbitionView>, n: int, m: int)
    requires
        0 <= n <= m,
        chapter_scored(s, tracks, n) is Err,
    ensures
        chapter_scored(s, tracks, m) == chapter_scored(s, tracks, n),
    decreases m - n,
{
    if n < m {
        lemma_scoring_failure_stays(s, tracks, n, m - 1);
    }
}

/// Ends the chapter: scores every ambition that was declared.
pub fn end_chapter(game_state: &GameState) -> (r: Result<GameState, ActionError>)
    ensures
        viewed(r) == end_chapter_result(game_state@),
{
    let ghost tracks = views(game_state.ambitions@);
    let mut g = game_state.clone();
    let mut i: usize = 0;
    while i < game_state.ambitions.len()
        invariant
            i <= game_state.ambitions.len(),
            tracks == views(game_state.ambitions@),
            chapter_scored(game_state@, tracks, i as int) == Ok::<GameStateView, ActionError>(g@),
        decreases game_state.ambitions.len() - i,
    {
        let track = &game_state.ambitions[i];
        proof {
            assert(tracks[i as int] == track@);
        }
        if track.markers.len() != 0 {
            match score_ambition(&g, track.ambition_type) {
                Err(e) => {
                    proof {
                        lemma_scoring_failure_stays(game_state@, tracks, i + 1, tracks.len() as int);
                    }
                    return Err(e);
                },
                Ok(next) => {
                    g = next;
                },
            }
        }
        i += 1;
    }
    Ok(g)
}

// ---------------------------------------------------------------------------
// The end of a round
// ---------------------------------------------------------------------------

/// The played card counts for the initiative: it surpassed or pivoted, and it is of the type that was led.
pub open spec fn counts_for_initiative(played: (ActionCard, bool, Color), lead_type: ActionType) -> bool {
    played.1 && played.0.action_type == lead_type
}

/// The card at `index` wins the initiative: of the cards that count it has
/// the highest number, and of several that have, it was played last.
pub open spec fn is_winner(played: Seq<(ActionCard, bool, Color)>, lead_type: ActionType, index: int) -> bool {
    &&& 0 <= index < played.len()
    &&& counts_for_initiative(played[index], lead_type)
    &&& forall|j: int| 0 <= j < played.len() && counts_for_initiative(#[trigger] played[j], lead_type) ==> played[j].0.number
        <= played[index].0.number
    &&& forall|j: int| index < j < played.len() && counts_for_initiative(#[trigger] played[j], lead_type) ==> played[j].0.number
        < played[index].0.number
}

/// The player who wins the initiative with the cards of the round. The lead
/// card is taken as played last; where no card counts, the leader keeps the initiative.
pub open spec fn round_winner(follow_cards: Seq<(ActionCard, bool, Color)>, lead: (ActionCard, bool, Color)) -> Color {
    let played = follow_cards.push(lead);
    if exists|i: int| is_winner(played, lead.0.action_type, i) {
        played[choose|i: int| is_winner(played, lead.0.action_type, i)].2
    } else {
        lead.2
    }
}

/// The cards of the round, without who played them.
pub open spec fn cards_of(played: Seq<(ActionCard, bool, Color)>) -> Seq<ActionCard> {
    Seq::new(played.len(), |i: int| played[i].0)
}

/// The number of players who hold a card.
pub open spec fn players_with_cards(players: Seq<PlayerAreaView>) -> int
    decreases players.len(),
{
    if players.len() == 0 {
        0
    } else {
        players_with_cards(players.drop_last()) + if players.last().action_cards.len() != 0 {
            1int
        } else {
            0int
        }
    }
}

/// The state at the start of the next round: the initiative goes to whoever
/// seized it, or else to the winner of the round; the cards of the round are
/// discarded. The turn stays with the player whom it has passed to.
pub open spec fn round_reset(s: GameStateView, lead: (ActionCard, bool, Color)) -> GameStateView {
    let initiative = match s.seized {
        Some(c) => c,
        None => round_winner(s.follow_cards, lead),
    };
    GameStateView {
        initiative,
        action_discard: s.action_discard.push(lead.0) + cards_of(s.follow_cards),
        follow_cards: Seq::empty(),
        lead_card: None,
        seized: None,
        turn_state: TurnStateView::TrickTaking,
        players_in_round: players_with_cards(s.players) as u8,
        ..s
    }
}

/// The state at the end of a round. Where no player holds a card any more, the chapter ends too.
pub open spec fn end_round_result(s: GameStateView) -> Result<GameStateView, ActionError> {
    match s.lead_card {
        None => Err(ActionError::IllegalPhase),
        Some(lead) => if players_with_cards(s.players) > 255 {
            Err(ActionError::CountOverflow)
        } else if players_with_cards(s.players) == 0 {
            end_chapter_result(round_reset(s, lead))
        } else {
            Ok(round_reset(s, lead))
        },
    }
}

/// At most one card wins the initiative.
pub proof fn lemma_winner_unique(played: Seq<(ActionCard, bool, Color)>, lead_type: ActionType, a: int, b: int)
    requires
        is_winner(played, lead_type, a),
        is_winner(played, lead_type, b),
    ensures
        a == b,
{
    if a < b {
        assert(played[b].0.number < played[a].0.number);
        assert(played[b].0.number <= played[b].0.number);
        assert(played[a].0.number <= played[b].0.number);
    } else if b < a {
        assert(played[a].0.number < played[b].0.number);
        assert(played[b].0.number <= played[a].0.number);
    }
}

/// The player who wins the initiative with the cards of the round.
pub fn find_round_winner(follow_cards: &Vec<(ActionCard, bool, Color)>, lead: (ActionCard, bool, Color)) -> (r: Color)
    ensures
        r == round_winner(follow_cards@, lead),
{
    let mut cards = copy_played_cards(follow_cards);
    cards.push(lead);
    let ghost played = cards@;
    let lead_type = lead.0.action_type;
    let mut best: Option<usize> = None;
    let mut i: usize = 0;
    while i < cards.len()
        invariant
            i <= cards.len(),
            played == cards@,
            lead_type == lead.0.action_type,
            best is Some ==> best.unwrap() < i,
            match best {
                Some(b) => is_winner(played.take(i as int), lead_type, b as int),
                None => forall|j: int| 0 <= j < i ==> !counts_for_initiative(#[trigger] played[j], lead_type),
            },
        decreases cards.len() - i,
    {
        let card = cards[i];
        proof {
            let before = played.take(i as int);
            let grown = played.take(i + 1);
            assert(played[i as int] == card);
            assert forall|j: int| 0 <= j < i implies grown[j] == before[j] by {}
            assert(grown[i as int] == card);
        }
        if card.1 && card.0.action_type == lead_type {
            let wins = match best {
                None => true,
                Some(b) => card.0.number >= cards[b].0.number,
            };
            proof {
                let before = played.take(i as int);
                let grown = played.take(i + 1);
                if wins {
                    assert forall|j: int| 0 <= j < grown.len() && counts_for_initiative(#[trigger] grown[j], lead_type) implies grown[j].0.number
                        <= grown[i as int].0.number by {
                        if j < i {
                            assert(grown[j] == before[j]);
                            assert(before[j] == played[j]);
                            if best is Some {
                                assert(before[j].0.number <= before[best.unwrap() as int].0.number);
                            }
                        }
                    }
                    assert(is_winner(grown, lead_type, i as int));
                } else {
                    let b = best.unwrap() as int;
                    assert(grown[b] == before[b]);
                    assert forall|j: int| 0 <= j < grown.len() && counts_for_initiative(#[trigger] grown[j], lead_type) implies grown[j].0.number
                        <= grown[b].0.number by {
                        if j < i {
                            assert(grown[j] == before[j]);
                        }
                    }
                    assert forall|j: int| b < j < grown.len() && counts_for_initiative(#[trigger] grown[j], lead_type) implies grown[j].0.number
                        < grown[b].0.number by {
                        if j < i {
                            assert(grown[j] == before[j]);
                        }
                    }
                    assert(is_winner(grown, lead_type, b));
                }
            }
            if wins {
                best = Some(i);
            }
        } else {
            proof {
                let before = played.take(i as int);
                let grown = played.take(i + 1);
                if best is Some {
                    let b = best.unwrap() as int;
                    assert(grown[b] == before[b]);
                    assert forall|j: int| 0 <= j < grown.len() && counts_for_initiative(#[trigger] grown[j], lead_type) implies grown[j].0.number
                        <= grown[b].0.number by {
                        if j < i {
                            assert(grown[j] == before[j]);
                        }
                    }
                    assert forall|j: int| b < j < grown.len() && counts_for_initiative(#[trigger] grown[j], lead_type) implies grown[j].0.number
                        < grown[b].0.number by {
                        if j < i {
                            assert(grown[j] == before[j]);
                        }
                    }
                    assert(is_winner(grown, lead_type, b));
                }
            }
        }
        i += 1;
    }
    proof {
        assert(played.take(played.len() as int) =~= played);
    }
    match best {
        Some(b) => {
            proof {
                let chosen = choose|k: int| is_winner(played, lead_type, k);
                lemma_winner_unique(played, lead_type, b as int, chosen);
            }
            cards[b].2
        },
        None => {
            proof {
                if exists|k: int| is_winner(played, lead_type, k) {
                    let k = choose|k: int| is_winner(played, lead_type, k);
                    assert(counts_for_initiative(played[k], lead_type));
                }
            }
            lead.2
        },
    }
}

/// The number of players who hold a card.
pub fn count_players_with_cards(players: &Vec<PlayerArea>) -> (r: usize)
    ensures
        r as int == players_with_cards(views(players@)),
{
    let ghost pv = views(players@);
    let mut total: usize = 0;
    let mut i: usize = 0;
    while i < players.len()
        invariant
            i <= players.len(),
            pv == views(players@),
            total as int == players_with_cards(pv.take(i as int)),
            total <= i,
        decreases players.len() - i,
    {
        proof {
            assert(pv.take(i + 1).drop_last() =~= pv.take(i as int));
            assert(pv.take(i + 1).last() == players@[i as int]@);
        }
        if players[i].action_cards.len() != 0 {
            total += 1;
        }
        i += 1;
    }
    proof {
        assert(pv.take(players.len() as int) =~= pv);
    }
    total
}

/// Ends the round: settles the initiative and discards the cards that were played.
pub fn end_round(game_state: &GameState) -> (r: Result<GameState, ActionError>)
    ensures
        viewed(r) == end_round_result(game_state@),
{
    let lead = match game_state.lead_card {
        None => { return Err(ActionError::IllegalPhase); },
        Some(lead) => lead,
    };
    let in_round = count_players_with_cards(&game_state.players);
    if in_round > 255 {
        return Err(ActionError::CountOverflow);
    }
    let initiative = match game_state.seized {
        Some(c) => c,
        None => find_round_winner(&game_state.follow_cards, lead),
    };
    let mut g = game_state.clone();
    g.initiative = initiative;
    g.action_discard.push(lead.0);
    let ghost discard = g.action_discard@;
    let mut i: usize = 0;
    while i < game_state.follow_cards.len()
        invariant
            i <= game_state.follow_cards.len(),
            g@ == (GameStateView { action_discard: g.action_discard@, ..g@ }),
            g.action_discard@ == discard + cards_of(game_state.follow_cards@).take(i as int),
            g@ == (GameStateView { initiative, action_discard: g.action_discard@, ..game_state@ }),
        decreases game_state.follow_cards.len() - i,
    {
        g.action_discard.push(game_state.follow_cards[i].0);
        proof {
            let cards = cards_of(game_state.follow_cards@);
            assert(cards.take(i + 1) =~= cards.take(i as int).push(cards[i as int]));
            assert(g.action_discard@ =~= discard + cards.take(i + 1));
        }
        i += 1;
    }
    proof {
        let cards = cards_of(game_state.follow_cards@);
        assert(cards.take(game_state.follow_cards.len() as int) =~= cards);
    }
    g.follow_cards = Vec::new();
    g.lead_card = None;
    g.seized = None;
    g.turn_state = TurnState::TrickTaking;
    g.players_in_round = in_round as u8;
    proof {
        assert(g.follow_cards@ =~= Seq::<(ActionCard, bool, Color)>::empty());
    }
    if in_round == 0 {
        end_chapter(&g)
    } else {
        Ok(g)
    }
}

// ---------------------------------------------------------------------------
// The end of a turn
// ---------------------------------------------------------------------------

/// The number of seats taken: one for each player, four at most.
pub open spec fn seats(s: GameStateView) -> int {
    if s.players.len() < 4 {
        s.players.len() as int
    } else {
        4
    }
}

/// The player who sits next after the current one; after the last seat comes the first.
pub open spec fn next_player(s: GameStateView) -> Color {
    Color::at_seat((s.current_player.seat() + 1) % seats(s))
}

/// The nodes with every building ready for use again.
pub open spec fn systems_refreshed(systems: Seq<SystemView>) -> Seq<SystemView> {
    Seq::new(systems.len(), |i: int| systems[i].refresh_buildings())
}

/// The state after the turn passed to the next player: the buildings are
/// ready for use again and the next turn begins with the card play.
pub open spec fn turn_passed(s: GameStateView) -> GameStateView {
    GameStateView {
        turn_state: TurnStateView::TrickTaking,
        current_player: next_player(s),
        systems: systems_refreshed(s.systems),
        ..s
    }
}

/// The current player was the last to act in this round.
pub open spec fn round_is_over(s: GameStateView) -> bool {
    1 + s.follow_cards.len() == s.players_in_round
}

/// The state after the current player ended the turn. After the last turn of a round the round ends.
pub open spec fn end_turn_result(s: GameStateView) -> Result<GameStateView, ActionError> {
    if s.current_player.seat() >= seats(s) {
        Err(ActionError::UnknownEntity)
    } else if round_is_over(s) {
        end_round_result(turn_passed(s))
    } else {
        Ok(turn_passed(s))
    }
}

/// Makes every building in every node ready for use again.
pub fn refresh_systems(systems: &Vec<System>) -> (r: Vec<System>)
    ensures
        views(r@) == systems_refreshed(views(systems@)),
{
    let mut out: Vec<System> = Vec::new();
    let mut i: usize = 0;
    while i < systems.len()
        invariant
            i <= systems.len(),
            out@.len() == i,
            forall|j: int| 0 <= j < i ==> out@[j]@ == systems@[j]@.refresh_buildings(),
        decreases systems.len() - i,
    {
        out.push(systems[i].refresh_buildings());
        i += 1;
    }
    proof {
        assert(views(out@) =~= systems_refreshed(views(systems@)));
    }
    out
}

/// Ends the turn of the current player.
pub fn end_turn(game_state: &GameState) -> (r: Result<GameState, ActionError>)
    ensures
        viewed(r) == end_turn_result(game_state@),
{
    let taken: usize = if game_state.players.len() < 4 { game_state.players.len() } else { 4 };
    let seat = game_state.current_player.index();
    if seat >= taken {
        return Err(ActionError::UnknownEntity);
    }
    let mut g = game_state.clone();
    g.turn_state = TurnState::TrickTaking;
    g.current_player = Color::from_index((seat + 1) % taken);
    g.systems = refresh_systems(&game_state.systems);
    proof {
        assert(((seat + 1) % (taken as int)) % 4 == (seat + 1) % (taken as int));
    }
    let played: usize = game_state.follow_cards.len();
    if played < 255 && played + 1 == game_state.players_in_round as usize {
        end_round(&g)
    } else {
        Ok(g)
    }
}


/// Handing trophies back changes what the players hold, and nothing else.
pub proof fn lemma_trophies_change_holdings_only(s: GameStateView, trophies: Seq<Trophy>)
    requires
        trophies_returned(s, trophies) is Ok,
    ensures
        s.differs_in_holdings_only(trophies_returned(s, trophies).unwrap()),
    decreases trophies.len(),
{
    if trophies.len() > 0 {
        lemma_trophies_change_holdings_only(s, trophies.drop_last());
        let s1 = trophies_returned(s, trophies.drop_last()).unwrap();
        let s2 = pieces_returned(s1, trophies.last().trophy_type, trophies.last().player, trophies.last().count).unwrap();
        assert(same_seats(s1.players, s2.players));
        assert(same_seats(s.players, s2.players));
    } else {
        assert(same_seats(s.players, s.players));
    }
}

/// Scoring a track changes what the players hold, and nothing else.
pub proof fn lemma_score_changes_holdings_only(s: GameStateView, ambition: AmbitionTypes)
    requires
        score_ambition_result(s, ambition) is Ok,
    ensures
        s.differs_in_holdings_only(score_ambition_result(s, ambition).unwrap()),
{
    let t = track_of(s.ambitions, ambition).unwrap();
    let scored = GameStateView { players: powers_scored(s.players, ambition, s.ambitions[t]), ..s };
    assert(same_seats(s.players, scored.players));
    match ambition {
        AmbitionTypes::Warlord => {
            lemma_trophies_change_holdings_only(scored, all_trophies(scored.players));
            let s2 = trophies_returned(scored, all_trophies(scored.players)).unwrap();
            assert(same_seats(s2.players, without_trophies(s2.players)));
            assert(same_seats(s.players, without_trophies(s2.players)));
        },
        AmbitionTypes::Tyrant => {
            lemma_return_changes_holdings_only(scored, all_captives(scored.players));
            let s2 = agents_returned(scored, all_captives(scored.players)).unwrap();
            assert(same_seats(s2.players, without_captives(s2.players)));
            assert(same_seats(s.players, without_captives(s2.players)));
        },
        _ => {},
    }
}

/// Scoring the tracks of a chapter changes what the players hold, and nothing else.
pub proof fn lemma_chapter_changes_holdings_only(s: GameStateView, tracks: Seq<AmbitionView>, n: int)
    requires
        chapter_scored(s, tracks, n) is Ok,
    ensures
        s.differs_in_holdings_only(chapter_scored(s, tracks, n).unwrap()),
    decreases n,
{
    if n > 0 {
        lemma_chapter_changes_holdings_only(s, tracks, n - 1);
        let s1 = chapter_scored(s, tracks, n - 1).unwrap();
        if tracks[n - 1].markers.len() != 0 {
            lemma_score_changes_holdings_only(s1, tracks[n - 1].ambition_type);
            let s2 = score_ambition_result(s1, tracks[n - 1].ambition_type).unwrap();
            assert(same_seats(s.players, s2.players));
        }
    } else {
        assert(same_seats(s.players, s.players));
    }
}

/// Ending a turn always passes the turn to the player in the next seat;
/// after the last seat comes the first. The end of a round, and of a
/// chapter, settles the initiative and the score and leaves the turn where
/// it has passed to.
pub proof fn law_turn_passes_to_next_seat(s: GameStateView)
    requires
        end_turn_result(s) is Ok,
    ensures
        end_turn_result(s).unwrap().current_player == next_player(s),
        next_player(s).seat() == if s.current_player.seat() + 1 == seats(s) {
            0
        } else {
            s.current_player.seat() + 1
        },
{
    let n = seats(s);
    let next = (s.current_player.seat() + 1) % n;
    if n == 1 {
        assert(next == (s.current_player.seat() + 1) % 1);
    } else if n == 2 {
        assert(next == (s.current_player.seat() + 1) % 2);
    } else if n == 3 {
        assert(next == (s.current_player.seat() + 1) % 3);
    } else {
        assert(next == (s.current_player.seat() + 1) % 4);
    }
    let passed = turn_passed(s);
    if round_is_over(s) {
        let reset = round_reset(passed, passed.lead_card.unwrap());
        if players_with_cards(passed.players) == 0 {
            lemma_chapter_changes_holdings_only(reset, reset.ambitions, reset.ambitions.len() as int);
        }
    }
}

} // verus!
