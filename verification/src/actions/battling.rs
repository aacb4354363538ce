//! Battles: rolling the dice and adding up what they show.

use rand::Rng;
use rand::rngs::ThreadRng;
use vstd::prelude::*;
use crate::data::game_state::{ActionError, Color, Dice, GameState, GameStateView, TurnState, TurnStateView};
use crate::data::viewed;

verus! {

/// What one or more dice show, added up.
pub struct Totals {
    pub self_hits: int,
    pub intercepts: int,
    pub hits: int,
    pub building_hits: int,
    pub keys: int,
}

/// What the face of a die shows. Every die has six faces, numbered from zero.
pub open spec fn face_outcome(die: Dice, face: int) -> Totals {
    match die {
        Dice::Skirmish => if face < 3 {
            Totals { self_hits: 0, intercepts: 0, hits: 1, building_hits: 0, keys: 0 }
        } else {
            Totals { self_hits: 0, intercepts: 0, hits: 0, building_hits: 0, keys: 0 }
        },
        Dice::Assault => if face == 0 {
            Totals { self_hits: 0, intercepts: 0, hits: 2, building_hits: 0, keys: 0 }
        } else if face == 1 {
            Totals { self_hits: 1, intercepts: 0, hits: 2, building_hits: 0, keys: 0 }
        } else if face == 2 {
            Totals { self_hits: 0, intercepts: 1, hits: 1, building_hits: 0, keys: 0 }
        } else if face == 3 || face == 4 {
            Totals { self_hits: 1, intercepts: 0, hits: 1, building_hits: 0, keys: 0 }
        } else {
            Totals { self_hits: 0, intercepts: 0, hits: 0, building_hits: 0, keys: 0 }
        },
        Dice::Raid => if face == 0 {
            Totals { self_hits: 0, intercepts: 1, hits: 0, building_hits: 0, keys: 2 }
        } else if face == 1 {
            Totals { self_hits: 1, intercepts: 0, hits: 0, building_hits: 0, keys: 1 }
        } else if face == 2 {
            Totals { self_hits: 0, intercepts: 0, hits: 0, building_hits: 1, keys: 1 }
        } else if face == 3 || face == 4 {
            Totals { self_hits: 1, intercepts: 0, hits: 0, building_hits: 1, keys: 0 }
        } else {
            Totals { self_hits: 0, intercepts: 1, hits: 0, building_hits: 0, keys: 0 }
        },
    }
}

/// What the first `n` dice show together, each with the face rolled for it.
pub open spec fn roll_totals(dice: Seq<Dice>, rolls: Seq<usize>, n: int) -> Totals
    decreases n,
{
    if n <= 0 {
        Totals { self_hits: 0, intercepts: 0, hits: 0, building_hits: 0, keys: 0 }
    } else {
        let before = roll_totals(dice, rolls, n - 1);
        let shown = face_outcome(dice[n - 1], rolls[n - 1] as int);
        Totals {
            self_hits: before.self_hits + shown.self_hits,
            intercepts: before.intercepts + shown.intercepts,
            hits: before.hits + shown.hits,
            building_hits: before.building_hits + shown.building_hits,
            keys: before.keys + shown.keys,
        }
    }
}

/// One face was rolled for each die.
pub open spec fn valid_rolls(dice: Seq<Dice>, rolls: Seq<usize>) -> bool {
    &&& rolls.len() == dice.len()
    &&& forall|i: int| 0 <= i < rolls.len() ==> #[trigger] rolls[i] < 6
}

/// The state after the current player attacked `target_player` in
/// `target_system` with `dice` that came up as `rolls`. The totals are not
/// applied: they wait in a deferred sub-phase for the hits to be assigned.
/// An interception turns every fresh unit of the defender into one more hit
/// on the attacker.
pub open spec fn battle_result(s: GameStateView, target_system: u8, target_player: Color, dice: Seq<Dice>, rolls: Seq<usize>) -> Result<GameStateView, ActionError> {
    if target_system >= s.systems.len() {
        Err(ActionError::UnknownEntity)
    } else {
        let system = s.systems[target_system as int];
        if dice.len() > system.all_ships(s.current_player) {
            Err(ActionError::TooManyDice)
        } else if !system.has_presence(target_player) {
            Err(ActionError::NoTargetPresence)
        } else if !valid_rolls(dice, rolls) {
            Err(ActionError::UnknownEntity)
        } else {
            let totals = roll_totals(dice, rolls, dice.len() as int);
            Ok(
                s.deferred(
                    TurnStateView::AllocateDiceResults {
                        target_system,
                        target_player,
                        self_hits: (totals.self_hits + if totals.intercepts >= 1 {
                            system.fresh_ships(target_player)
                        } else {
                            0
                        }) as u16,
                        hits: totals.hits as u16,
                        building_hits: totals.building_hits as u16,
                        keys: totals.keys as u16,
                    },
                ),
            )
        }
    }
}

/// What the faces rolled add up to.
#[derive(Clone, Copy, Debug, PartialEq, Eq, Structural)]
pub struct DiceResults {
    pub self_hits: u16,
    pub intercepts: u16,
    pub hits: u16,
    pub building_hits: u16,
    pub keys: u16,
}

/// Whether one face was rolled for each die.
pub fn check_rolls(dice: &Vec<Dice>, rolls: &Vec<usize>) -> (r: bool)
    ensures
        r == valid_rolls(dice@, rolls@),
{
    if rolls.len() != dice.len() {
        return false;
    }
    let mut i: usize = 0;
    while i < rolls.len()
        invariant
            i <= rolls.len(),
            rolls@.len() == dice@.len(),
            forall|j: int| 0 <= j < i ==> #[trigger] rolls@[j] < 6,
        decreases rolls.len() - i,
    {
        if rolls[i] >= 6 {
            return false;
        }
        i += 1;
    }
    true
}

/// Adds up what the dice show.
pub(crate) fn add_up_rolls(dice: &Vec<Dice>, rolls: &Vec<usize>) -> (r: DiceResults)
    requires
        valid_rolls(dice@, rolls@),
        dice@.len() <= 510,
    ensures
        r.self_hits as int == roll_totals(dice@, rolls@, dice@.len() as int).self_hits,
        r.intercepts as int == roll_totals(dice@, rolls@, dice@.len() as int).intercepts,
        r.hits as int == roll_totals(dice@, rolls@, dice@.len() as int).hits,
        r.building_hits as int == roll_totals(dice@, rolls@, dice@.len() as int).building_hits,
        r.keys as int == roll_totals(dice@, rolls@, dice@.len() as int).keys,
        r.self_hits <= dice@.len(),
        r.hits <= 2 * dice@.len(),
        r.building_hits <= dice@.len(),
        r.keys <= 2 * dice@.len(),
{
    let mut t = DiceResults { self_hits: 0, intercepts: 0, hits: 0, building_hits: 0, keys: 0 };
    let mut i: usize = 0;
    while i < dice.len()
        invariant
            i <= dice.len(),
            valid_rolls(dice@, rolls@),
            dice@.len() <= 510,
            t.self_hits as int == roll_totals(dice@, rolls@, i as int).self_hits,
            t.intercepts as int == roll_totals(dice@, rolls@, i as int).intercepts,
            t.hits as int == roll_totals(dice@, rolls@, i as int).hits,
            t.building_hits as int == roll_totals(dice@, rolls@, i as int).building_hits,
            t.keys as int == roll_totals(dice@, rolls@, i as int).keys,
            t.self_hits <= i,
            t.intercepts <= i,
            t.hits <= 2 * i,
            t.building_hits <= i,
            t.keys <= 2 * i,
        decreases dice.len() - i,
    {
        let face = rolls[i];
        let (self_hits, intercepts, hits, building_hits, keys): (u16, u16, u16, u16, u16) = match dice[i] {
            Dice::Skirmish => if face < 3 {
                (0, 0, 1, 0, 0)
            } else {
                (0, 0, 0, 0, 0)
            },
            Dice::Assault => if face == 0 {
                (0, 0, 2, 0, 0)
            } else if face == 1 {
                (1, 0, 2, 0, 0)
            } else if face == 2 {
                (0, 1, 1, 0, 0)
            } else if face == 3 || face == 4 {
                (1, 0, 1, 0, 0)
            } else {
                (0, 0, 0, 0, 0)
            },
            Dice::Raid => if face == 0 {
                (0, 1, 0, 0, 2)
            } else if face == 1 {
                (1, 0, 0, 0, 1)
            } else if face == 2 {
                (0, 0, 0, 1, 1)
            } else if face == 3 || face == 4 {
                (1, 0, 0, 1, 0)
            } else {
                (0, 1, 0, 0, 0)
            },
        };
        t = DiceResults {
            self_hits: t.self_hits + self_hits,
            intercepts: t.intercepts + intercepts,
            hits: t.hits + hits,
            building_hits: t.building_hits + building_hits,
            keys: t.keys + keys,
        };
        i += 1;
    }
    t
}

/// Resolves an attack of the current player on `target_player` in
/// `target_system` for dice that came up as `rolls` say, one face for each die.
pub fn battle_with_rolls(game_state: &GameState, target_system: u8, target_player: Color, dice: &Vec<Dice>, rolls: &Vec<usize>) -> (r: Result<GameState, ActionError>)
    ensures
        viewed(r) == battle_result(game_state@, target_system, target_player, dice@, rolls@),
{
    let target = target_system as usize;
    if target >= game_state.systems.len() {
        return Err(ActionError::UnknownEntity);
    }
    let system = &game_state.systems[target];
    let actor = game_state.current_player;
    if dice.len() > system.get_all_ships(&actor) as usize {
        return Err(ActionError::TooManyDice);
    }
    if !system.has_presence(&target_player) {
        return Err(ActionError::NoTargetPresence);
    }
    if !check_rolls(dice, rolls) {
        return Err(ActionError::UnknownEntity);
    }
    let totals = add_up_rolls(dice, rolls);
    let defenders: u16 = system.get_fresh_ships(&target_player) as u16;
    let self_hits: u16 = if totals.intercepts >= 1 {
        totals.self_hits + defenders
    } else {
        totals.self_hits
    };
    let mut g = game_state.clone();
    g.defer_to(
        TurnState::AllocateDiceResults {
            target_system,
            target_player,
            self_hits,
            hits: totals.hits,
            building_hits: totals.building_hits,
            keys: totals.keys,
        },
    );
    Ok(g)
}

/// The thread-local random number generator of rand. Nothing is known of what it holds.
#[verifier::external_type_specification]
#[verifier::external_body]
pub struct ExThreadRng(rand::rngs::ThreadRng);

/// `rand::thread_rng` hands out the generator of the current thread. Nothing is claimed of it.
pub assume_specification[ rand::thread_rng ]() -> (rng: ThreadRng);

/// A face of a die with `faces` faces, picked at random. Calls `Rng::gen_range`
/// of rand on the range from zero up to, but without, `faces`: the value lies
/// in that range. An empty range is not accepted.
#[verifier::external_body]
fn roll_face(rng: &mut ThreadRng, faces: usize) -> (face: usize)
    requires
        faces > 0,
    ensures
        face < faces,
{
    rng.gen_range(0..faces)
}

/// Rolls one face for each of `count` dice.
pub fn roll_dice(count: usize) -> (rolls: Vec<usize>)
    ensures
        rolls@.len() == count,
        forall|i: int| 0 <= i < rolls@.len() ==> #[trigger] rolls@[i] < 6,
{
    let mut rng = rand::thread_rng();
    let mut rolls: Vec<usize> = Vec::new();
    let mut i: usize = 0;
    while i < count
        invariant
            i <= count,
            rolls@.len() == i,
            forall|j: int| 0 <= j < rolls@.len() ==> #[trigger] rolls@[j] < 6,
        decreases count - i,
    {
        let face = roll_face(&mut rng, 6);
        rolls.push(face);
        i += 1;
    }
    rolls
}

/// The current player attacks `target_player` in `target_system` and rolls
/// `dice`. Whatever the dice show, the outcome is the one that
/// `battle_with_rolls` gives for some roll of one face for each die.
pub fn battle(game_state: &GameState, target_system: u8, target_player: Color, dice: Vec<Dice>) -> (r: Result<GameState, ActionError>)
    ensures
        exists|rolls: Seq<usize>| valid_rolls(dice@, rolls) && viewed(r) == #[trigger] battle_result(
            game_state@,
            target_system,
            target_player,
            dice@,
            rolls,
        ),
{
    let rolls = roll_dice(dice.len());
    battle_with_rolls(game_state, target_system, target_player, &dice, &rolls)
}

} // verus!
