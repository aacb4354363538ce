//! The deferred sub-phases: putting resources into slots, and taking the hits of a battle.

use vstd::prelude::*;
use crate::data::game_state::{
    ActionError, GameState, GameStateView, HitTarget, PlayerAreaView, ResourceReserve, ResourceSlot, ResourceType,
    TurnState, TurnStateView, count_in_slots, holds_resource, resources_in,
};
use crate::data::viewed;
use crate::lookup::{
    first_index, is_first, none_satisfies, lemma_first_index_found, lemma_first_index_meaning, lemma_first_index_missing,
};

verus! {

/// The resources of `kind` that a configuration asks for.
pub open spec fn requested(config: Seq<(u8, ResourceType)>, kind: ResourceType) -> int
    decreases config.len(),
{
    if config.len() == 0 {
        0
    } else {
        requested(config.drop_last(), kind) + if config.last().1 == kind {
            1int
        } else {
            0int
        }
    }
}

/// The resources of `kind` in a list.
pub open spec fn granted(resources: Seq<ResourceType>, kind: ResourceType) -> int
    decreases resources.len(),
{
    if resources.len() == 0 {
        0
    } else {
        granted(resources.drop_last(), kind) + if resources.last() == kind {
            1int
        } else {
            0int
        }
    }
}

/// The resources of `kind` that can be allocated: those already in the slots and those granted in addition.
pub open spec fn available(slots: Seq<ResourceSlot>, extra: Seq<ResourceType>, kind: ResourceType) -> int {
    resources_in(slots, kind) + granted(extra, kind)
}

/// The number of slots that are not covered.
pub open spec fn open_slots(slots: Seq<ResourceSlot>) -> int
    decreases slots.len(),
{
    if slots.len() == 0 {
        0
    } else {
        open_slots(slots.drop_last()) + if slots.last() is Covered {
            0int
        } else {
            1int
        }
    }
}

/// No slot is named twice.
pub open spec fn distinct_slots(config: Seq<(u8, ResourceType)>) -> bool {
    forall|i: int, j: int| 0 <= i < j < config.len() ==> (#[trigger] config[i]).0 != (#[trigger] config[j]).0
}

/// Of no kind more is asked for than is available.
pub open spec fn within_available(slots: Seq<ResourceSlot>, extra: Seq<ResourceType>, config: Seq<(u8, ResourceType)>) -> bool {
    forall|kind: ResourceType| #[trigger] requested(config, kind) <= available(slots, extra, kind)
}

/// The test for an entry that names the slot at `index`.
pub open spec fn target_test(index: int) -> spec_fn((u8, ResourceType)) -> bool {
    |e: (u8, ResourceType)| e.0 as int == index
}

/// The test for an entry that names a slot that does not exist or is covered.
pub open spec fn bad_target_test(slots: Seq<ResourceSlot>) -> spec_fn((u8, ResourceType)) -> bool {
    |e: (u8, ResourceType)| e.0 >= slots.len() || slots[e.0 as int] is Covered
}

/// What the configuration puts into the slot at `index`.
pub open spec fn assigned(config: Seq<(u8, ResourceType)>, index: int) -> Option<ResourceType> {
    match first_index(config, target_test(index)) {
        Some(i) => Some(config[i].1),
        None => None,
    }
}

/// A slot after allocation: a covered slot stays covered, any other holds what was assigned to it.
pub open spec fn slot_allocated(slot: ResourceSlot, resource: Option<ResourceType>) -> ResourceSlot {
    match slot {
        ResourceSlot::Covered { keys } => ResourceSlot::Covered { keys },
        ResourceSlot::Used { keys, .. } => match resource {
            Some(resource) => ResourceSlot::Used { keys, resource },
            None => ResourceSlot::Unused { keys },
        },
        ResourceSlot::Unused { keys } => match resource {
            Some(resource) => ResourceSlot::Used { keys, resource },
            None => ResourceSlot::Unused { keys },
        },
    }
}

/// The slots after allocation: slots that the configuration does not name are cleared.
pub open spec fn allocated_slots(slots: Seq<ResourceSlot>, config: Seq<(u8, ResourceType)>) -> Seq<ResourceSlot> {
    Seq::new(slots.len(), |i: int| slot_allocated(slots[i], assigned(config, i)))
}

/// What the shared reserve holds of `kind` once the resources that were not allocated are back in it.
pub open spec fn returned(reserve: ResourceReserve, slots: Seq<ResourceSlot>, extra: Seq<ResourceType>, config: Seq<(u8, ResourceType)>, kind: ResourceType) -> int {
    reserve.count(kind) + available(slots, extra, kind) - requested(config, kind)
}

/// The shared reserve after the resources that were not allocated went back to it.
pub open spec fn reserve_after(reserve: ResourceReserve, slots: Seq<ResourceSlot>, extra: Seq<ResourceType>, config: Seq<(u8, ResourceType)>) -> Result<ResourceReserve, ActionError> {
    if returned(reserve, slots, extra, config, ResourceType::Fuel) > 255
        || returned(reserve, slots, extra, config, ResourceType::Material) > 255
        || returned(reserve, slots, extra, config, ResourceType::Weapons) > 255
        || returned(reserve, slots, extra, config, ResourceType::Relics) > 255
        || returned(reserve, slots, extra, config, ResourceType::Psionics) > 255 {
        Err(ActionError::CountOverflow)
    } else {
        Ok(
            ResourceReserve {
                fuel: returned(reserve, slots, extra, config, ResourceType::Fuel) as u8,
                material: returned(reserve, slots, extra, config, ResourceType::Material) as u8,
                weapons: returned(reserve, slots, extra, config, ResourceType::Weapons) as u8,
                relics: returned(reserve, slots, extra, config, ResourceType::Relics) as u8,
                psionics: returned(reserve, slots, extra, config, ResourceType::Psionics) as u8,
            },
        )
    }
}

/// The state after the player whose turn it is to allocate has put resources
/// into slots as `config` says, and the phase before the allocation is resumed.
pub open spec fn allocate_resources_result(s: GameStateView, config: Seq<(u8, ResourceType)>) -> Result<GameStateView, ActionError> {
    match s.turn_state {
        TurnStateView::AllocateResources { player, resources } => if s.next_turn_states.len() == 0 {
            Err(ActionError::IllegalPhase)
        } else {
            match s.player_area(player) {
                None => Err(ActionError::UnknownEntity),
                Some(area) => {
                    let slots = area.resource_slots;
                    if config.len() > open_slots(slots) {
                        Err(ActionError::InvalidAllocation)
                    } else if !distinct_slots(config) {
                        Err(ActionError::InvalidAllocation)
                    } else if !within_available(slots, resources, config) {
                        Err(ActionError::InvalidAllocation)
                    } else {
                        match first_index(config, bad_target_test(slots)) {
                            Some(i) => if config[i].0 >= slots.len() {
                                Err(ActionError::UnknownEntity)
                            } else {
                                Err(ActionError::SlotCovered)
                            },
                            None => match reserve_after(s.resource_reserve, slots, resources, config) {
                                Err(e) => Err(e),
                                Ok(reserve) => Ok(
                                    GameStateView { resource_reserve: reserve, ..s }.with_player(
                                        PlayerAreaView { resource_slots: allocated_slots(slots, config), ..area },
                                    ).resumed(),
                                ),
                            },
                        }
                    }
                },
            }
        },
        _ => Err(ActionError::IllegalPhase),
    }
}

/// The resources of `kind` that a configuration asks for.
pub fn count_requested(config: &Vec<(u8, ResourceType)>, kind: ResourceType) -> (r: u128)
    ensures
        r as int == requested(config@, kind),
        r <= usize::MAX,
{
    let mut total: u128 = 0;
    let mut i: usize = 0;
    while i < config.len()
        invariant
            i <= config.len(),
            total as int == requested(config@.take(i as int), kind),
            total <= i,
        decreases config.len() - i,
    {
        proof {
            assert(config@.take(i + 1).drop_last() =~= config@.take(i as int));
            assert(config@.take(i + 1).last() == config@[i as int]);
        }
        if config[i].1 == kind {
            total += 1;
        }
        i += 1;
    }
    proof {
        assert(config@.take(config.len() as int) =~= config@);
    }
    total
}

/// The resources of `kind` in a list.
pub fn count_granted(resources: &Vec<ResourceType>, kind: ResourceType) -> (r: u128)
    ensures
        r as int == granted(resources@, kind),
        r <= usize::MAX,
{
    let mut total: u128 = 0;
    let mut i: usize = 0;
    while i < resources.len()
        invariant
            i <= resources.len(),
            total as int == granted(resources@.take(i as int), kind),
            total <= i,
        decreases resources.len() - i,
    {
        proof {
            assert(resources@.take(i + 1).drop_last() =~= resources@.take(i as int));
            assert(resources@.take(i + 1).last() == resources@[i as int]);
        }
        if resources[i] == kind {
            total += 1;
        }
        i += 1;
    }
    proof {
        assert(resources@.take(resources.len() as int) =~= resources@);
    }
    total
}

/// The number of slots that are not covered.
pub fn count_open_slots(slots: &Vec<ResourceSlot>) -> (r: usize)
    ensures
        r as int == open_slots(slots@),
{
    let mut total: usize = 0;
    let mut i: usize = 0;
    while i < slots.len()
        invariant
            i <= slots.len(),
            total as int == open_slots(slots@.take(i as int)),
            total <= i,
        decreases slots.len() - i,
    {
        proof {
            assert(slots@.take(i + 1).drop_last() =~= slots@.take(i as int));
            assert(slots@.take(i + 1).last() == slots@[i as int]);
        }
        match slots[i] {
            ResourceSlot::Covered { .. } => {},
            _ => {
                total += 1;
            },
        }
        i += 1;
    }
    proof {
        assert(slots@.take(slots.len() as int) =~= slots@);
    }
    total
}

/// Whether no slot is named twice.
pub fn has_distinct_slots(config: &Vec<(u8, ResourceType)>) -> (r: bool)
    ensures
        r == distinct_slots(config@),
{
    let mut j: usize = 0;
    while j < config.len()
        invariant
            j <= config.len(),
            forall|a: int, b: int| 0 <= a < b < j ==> (#[trigger] config@[a]).0 != (#[trigger] config@[b]).0,
        decreases config.len() - j,
    {
        let mut i: usize = 0;
        while i < j
            invariant
                i <= j < config.len(),
                forall|a: int| 0 <= a < i ==> (#[trigger] config@[a]).0 != config@[j as int].0,
            decreases j - i,
        {
            if config[i].0 == config[j].0 {
                return false;
            }
            i += 1;
        }
        j += 1;
    }
    true
}

/// Whether no more of `kind` is asked for than is available.
pub fn kind_within_available(slots: &Vec<ResourceSlot>, extra: &Vec<ResourceType>, config: &Vec<(u8, ResourceType)>, kind: ResourceType) -> (r: bool)
    ensures
        r == (requested(config@, kind) <= available(slots@, extra@, kind)),
{
    count_requested(config, kind) <= count_in_slots(slots, kind) + count_granted(extra, kind)
}

/// What the shared reserve holds of `kind` once the resources that were not allocated are back in it.
pub(crate) fn count_returned(reserve: &ResourceReserve, slots: &Vec<ResourceSlot>, extra: &Vec<ResourceType>, config: &Vec<(u8, ResourceType)>, kind: ResourceType) -> (r: u128)
    requires
        requested(config@, kind) <= available(slots@, extra@, kind),
    ensures
        r as int == returned(*reserve, slots@, extra@, config@, kind),
{
    reserve.get(&kind) as u128 + (count_in_slots(slots, kind) + count_granted(extra, kind) - count_requested(config, kind))
}

/// What the configuration puts into the slot at `index`.
pub fn find_assigned(config: &Vec<(u8, ResourceType)>, index: usize) -> (r: Option<ResourceType>)
    ensures
        r == assigned(config@, index as int),
{
    let ghost p = target_test(index as int);
    let mut i: usize = 0;
    while i < config.len()
        invariant
            i <= config.len(),
            p == target_test(index as int),
            forall|j: int| 0 <= j < i ==> !p(#[trigger] config@[j]),
        decreases config.len() - i,
    {
        if config[i].0 as usize == index {
            proof {
                assert(is_first(config@, p, i as int));
                lemma_first_index_found(config@, p, i as int);
            }
            return Some(config[i].1);
        }
        i += 1;
    }
    proof {
        assert(none_satisfies(config@, p));
        lemma_first_index_missing(config@, p);
    }
    None
}

/// The first entry that names a slot that does not exist or is covered.
pub fn find_bad_target(slots: &Vec<ResourceSlot>, config: &Vec<(u8, ResourceType)>) -> (r: Option<usize>)
    ensures
        match r {
            Some(i) => first_index(config@, bad_target_test(slots@)) == Some(i as int) && i < config@.len(),
            None => first_index(config@, bad_target_test(slots@)) is None,
        },
{
    let ghost p = bad_target_test(slots@);
    let mut i: usize = 0;
    while i < config.len()
        invariant
            i <= config.len(),
            p == bad_target_test(slots@),
            forall|j: int| 0 <= j < i ==> !p(#[trigger] config@[j]),
        decreases config.len() - i,
    {
        let target = config[i].0 as usize;
        let bad = if target >= slots.len() {
            true
        } else {
            match slots[target] {
                ResourceSlot::Covered { .. } => true,
                _ => false,
            }
        };
        if bad {
            proof {
                assert(is_first(config@, p, i as int));
                lemma_first_index_found(config@, p, i as int);
            }
            return Some(i);
        }
        i += 1;
    }
    proof {
        assert(none_satisfies(config@, p));
        lemma_first_index_missing(config@, p);
    }
    None
}

/// The slots after allocation.
pub fn allocate_slots(slots: &Vec<ResourceSlot>, config: &Vec<(u8, ResourceType)>) -> (r: Vec<ResourceSlot>)
    ensures
        r@ == allocated_slots(slots@, config@),
{
    let mut out: Vec<ResourceSlot> = Vec::new();
    let mut i: usize = 0;
    while i < slots.len()
        invariant
            i <= slots.len(),
            out@.len() == i,
            forall|j: int| 0 <= j < i ==> out@[j] == slot_allocated(slots@[j], assigned(config@, j)),
        decreases slots.len() - i,
    {
        let resource = find_assigned(config, i);
        let slot = match slots[i] {
            ResourceSlot::Covered { keys } => ResourceSlot::Covered { keys },
            ResourceSlot::Used { keys, .. } => match resource {
                Some(resource) => ResourceSlot::Used { keys, resource },
                None => ResourceSlot::Unused { keys },
            },
            ResourceSlot::Unused { keys } => match resource {
                Some(resource) => ResourceSlot::Used { keys, resource },
                None => ResourceSlot::Unused { keys },
            },
        };
        out.push(slot);
        i += 1;
    }
    proof {
        assert(out@ =~= allocated_slots(slots@, config@));
    }
    out
}

/// Puts resources into the slots of the player whose turn it is to allocate,
/// returns what is left over to the shared reserve, and resumes the phase
/// that the allocation interrupted.
pub fn allocate_resources(game_state: &GameState, configuration: Vec<(u8, ResourceType)>) -> (r: Result<GameState, ActionError>)
    ensures
        viewed(r) == allocate_resources_result(game_state@, configuration@),
{
    let (player, extra) = match &game_state.turn_state {
        TurnState::AllocateResources { player, resources } => (*player, resources),
        _ => { return Err(ActionError::IllegalPhase); },
    };
    if game_state.next_turn_states.len() == 0 {
        return Err(ActionError::IllegalPhase);
    }
    let area = match game_state.get_player_area(&player) {
        None => { return Err(ActionError::UnknownEntity); },
        Some(area) => area,
    };
    let slots = &area.resource_slots;
    if configuration.len() > count_open_slots(slots) {
        return Err(ActionError::InvalidAllocation);
    }
    if !has_distinct_slots(&configuration) {
        return Err(ActionError::InvalidAllocation);
    }
    let fuel_fits = kind_within_available(slots, extra, &configuration, ResourceType::Fuel);
    let material_fits = kind_within_available(slots, extra, &configuration, ResourceType::Material);
    let weapons_fit = kind_within_available(slots, extra, &configuration, ResourceType::Weapons);
    let relics_fit = kind_within_available(slots, extra, &configuration, ResourceType::Relics);
    let psionics_fit = kind_within_available(slots, extra, &configuration, ResourceType::Psionics);
    if !(fuel_fits && material_fits && weapons_fit && relics_fit && psionics_fit) {
        proof {
            assert(!within_available(slots@, extra@, configuration@));
        }
        return Err(ActionError::InvalidAllocation);
    }
    proof {
        assert forall|kind: ResourceType| #[trigger] requested(configuration@, kind) <= available(slots@, extra@, kind) by {
            match kind {
                ResourceType::Fuel => {},
                ResourceType::Material => {},
                ResourceType::Weapons => {},
                ResourceType::Relics => {},
                ResourceType::Psionics => {},
            }
        }
    }
    match find_bad_target(slots, &configuration) {
        Some(i) => {
            if configuration[i].0 as usize >= slots.len() {
                return Err(ActionError::UnknownEntity);
            } else {
                return Err(ActionError::SlotCovered);
            }
        },
        None => {},
    }
    let reserve = &game_state.resource_reserve;
    let fuel = count_returned(reserve, slots, extra, &configuration, ResourceType::Fuel);
    let material = count_returned(reserve, slots, extra, &configuration, ResourceType::Material);
    let weapons = count_returned(reserve, slots, extra, &configuration, ResourceType::Weapons);
    let relics = count_returned(reserve, slots, extra, &configuration, ResourceType::Relics);
    let psionics = count_returned(reserve, slots, extra, &configuration, ResourceType::Psionics);
    if fuel > 255 || material > 255 || weapons > 255 || relics > 255 || psionics > 255 {
        return Err(ActionError::CountOverflow);
    }
    let mut new_area = area.clone();
    new_area.resource_slots = allocate_slots(slots, &configuration);
    let mut g = game_state.clone();
    g.resource_reserve = ResourceReserve {
        fuel: fuel as u8,
        material: material as u8,
        weapons: weapons as u8,
        relics: relics as u8,
        psionics: psionics as u8,
    };
    g.set_player(new_area);
    g.resume();
    Ok(g)
}


/// The hits that one assignment takes up. A building cannot take a hit of the attacker's own.
pub open spec fn hit_cost(target: HitTarget) -> int {
    match target {
        HitTarget::Damaged => 1,
        HitTarget::Fresh => 1,
        HitTarget::Destroyed => 2,
        HitTarget::Building { .. } => 0,
    }
}

/// The hits that the assignments take up together.
pub open spec fn hits_assigned(targets: Seq<HitTarget>) -> int
    decreases targets.len(),
{
    if targets.len() == 0 {
        0
    } else {
        hits_assigned(targets.drop_last()) + hit_cost(targets.last())
    }
}

/// One of the assignments names a building.
pub open spec fn names_building(targets: Seq<HitTarget>) -> bool {
    exists|i: int| 0 <= i < targets.len() && (#[trigger] targets[i]) is Building
}

/// The state after the attacker assigned the hits on the attacker's own
/// units: all of them must be assigned, none to a building. The phase that
/// the battle interrupted is resumed.
pub open spec fn allocate_dice_results_result(s: GameStateView, own_hits: Seq<HitTarget>) -> Result<GameStateView, ActionError> {
    match s.turn_state {
        TurnStateView::AllocateDiceResults { self_hits, .. } => if s.next_turn_states.len() == 0 {
            Err(ActionError::IllegalPhase)
        } else if names_building(own_hits) {
            Err(ActionError::InvalidAllocation)
        } else if hits_assigned(own_hits) < self_hits {
            Err(ActionError::InvalidAllocation)
        } else {
            Ok(s.resumed())
        },
        _ => Err(ActionError::IllegalPhase),
    }
}

/// Adds up the hits that the assignments take up, and tells whether one of them names a building.
pub fn count_hits(targets: &Vec<HitTarget>) -> (r: (u128, bool))
    ensures
        r.0 as int == hits_assigned(targets@),
        r.1 == names_building(targets@),
{
    let mut total: u128 = 0;
    let mut building = false;
    let mut i: usize = 0;
    while i < targets.len()
        invariant
            i <= targets.len(),
            total as int == hits_assigned(targets@.take(i as int)),
            total <= 2 * i,
            building == names_building(targets@.take(i as int)),
        decreases targets.len() - i,
    {
        proof {
            let grown = targets@.take(i + 1);
            let before = targets@.take(i as int);
            assert(grown.drop_last() =~= before);
            assert(grown.last() == targets@[i as int]);
            if names_building(before) {
                let k = choose|k: int| 0 <= k < before.len() && (#[trigger] before[k]) is Building;
                assert(grown[k] is Building);
            }
            if names_building(grown) {
                let k = choose|k: int| 0 <= k < grown.len() && (#[trigger] grown[k]) is Building;
                if k < i {
                    assert(before[k] is Building);
                }
            }
            if targets@[i as int] is Building {
                assert(grown[i as int] is Building);
            }
        }
        match targets[i] {
            HitTarget::Damaged => {
                total += 1;
            },
            HitTarget::Fresh => {
                total += 1;
            },
            HitTarget::Destroyed => {
                total += 2;
            },
            HitTarget::Building { .. } => {
                building = true;
            },
        }
        i += 1;
    }
    proof {
        assert(targets@.take(targets.len() as int) =~= targets@);
    }
    (total, building)
}

/// Takes the attacker's assignment of the hits on the attacker's own units
/// and resumes the phase that the battle interrupted.
pub fn allocate_dice_results(game_state: &GameState, own_hits: Vec<HitTarget>) -> (r: Result<GameState, ActionError>)
    ensures
        viewed(r) == allocate_dice_results_result(game_state@, own_hits@),
{
    let self_hits = match &game_state.turn_state {
        TurnState::AllocateDiceResults { self_hits, .. } => *self_hits,
        _ => { return Err(ActionError::IllegalPhase); },
    };
    if game_state.next_turn_states.len() == 0 {
        return Err(ActionError::IllegalPhase);
    }
    let (assigned, building) = count_hits(&own_hits);
    if building {
        return Err(ActionError::InvalidAllocation);
    }
    if assigned < self_hits as u128 {
        return Err(ActionError::InvalidAllocation);
    }
    let mut g = game_state.clone();
    g.resume();
    Ok(g)
}

/// Replacing one slot changes the resources of a kind by what the slot gained or lost.
pub proof fn lemma_resources_update(slots: Seq<ResourceSlot>, index: int, slot: ResourceSlot, kind: ResourceType)
    requires
        0 <= index < slots.len(),
    ensures
        resources_in(slots.update(index, slot), kind) == resources_in(slots, kind) - (if holds_resource(slots[index], kind) {
            1int
        } else {
            0int
        }) + (if holds_resource(slot, kind) {
            1int
        } else {
            0int
        }),
    decreases slots.len(),
{
    let changed = slots.update(index, slot);
    if index == slots.len() - 1 {
        assert(changed.drop_last() =~= slots.drop_last());
    } else {
        lemma_resources_update(slots.drop_last(), index, slot, kind);
        assert(changed.drop_last() =~= slots.drop_last().update(index, slot));
    }
}

/// Slots of which none is in use hold no resource.
pub proof fn lemma_no_resources(slots: Seq<ResourceSlot>, kind: ResourceType)
    requires
        forall|i: int| 0 <= i < slots.len() ==> !((#[trigger] slots[i]) is Used),
    ensures
        resources_in(slots, kind) == 0,
    decreases slots.len(),
{
    if slots.len() > 0 {
        assert forall|i: int| 0 <= i < slots.drop_last().len() implies !((#[trigger] slots.drop_last()[i]) is Used) by {
            assert(slots.drop_last()[i] == slots[i]);
        }
        lemma_no_resources(slots.drop_last(), kind);
        assert(!(slots[slots.len() - 1] is Used));
    }
}

/// What an allocation into existing, open slots, each named once, leaves in
/// the slots is exactly what the configuration asks for.
pub proof fn lemma_allocated_count(slots: Seq<ResourceSlot>, config: Seq<(u8, ResourceType)>, kind: ResourceType)
    requires
        distinct_slots(config),
        none_satisfies(config, bad_target_test(slots)),
    ensures
        resources_in(allocated_slots(slots, config), kind) == requested(config, kind),
    decreases config.len(),
{
    let after = allocated_slots(slots, config);
    if config.len() == 0 {
        assert forall|i: int| 0 <= i < after.len() implies !((#[trigger] after[i]) is Used) by {
            lemma_first_index_meaning(config, target_test(i));
        }
        lemma_no_resources(after, kind);
    } else {
        let shorter = config.drop_last();
        let last = config.last();
        let index = last.0 as int;
        let before = allocated_slots(slots, shorter);
        assert forall|i: int, j: int| 0 <= i < j < shorter.len() implies (#[trigger] shorter[i]).0 != (#[trigger] shorter[j]).0 by {
            assert(shorter[i] == config[i] && shorter[j] == config[j]);
        }
        assert forall|j: int| 0 <= j < shorter.len() implies !bad_target_test(slots)(#[trigger] shorter[j]) by {
            assert(shorter[j] == config[j]);
        }
        lemma_allocated_count(slots, shorter, kind);
        assert(!bad_target_test(slots)(config[config.len() - 1]));
        assert(0 <= index < slots.len() && !(slots[index] is Covered));
        assert forall|i: int| 0 <= i < slots.len() implies assigned(config, i) == if i == index {
            Some(last.1)
        } else {
            assigned(shorter, i)
        } && (i == index ==> assigned(shorter, i) is None) by {
            let t = target_test(i);
            lemma_first_index_meaning(shorter, t);
            match first_index(shorter, t) {
                Some(j) => {
                    assert(shorter[j] == config[j]);
                    assert(config[j].0 != config[config.len() - 1].0);
                    assert forall|k: int| 0 <= k < j implies !t(#[trigger] config[k]) by {
                        assert(shorter[k] == config[k]);
                    }
                    assert(is_first(config, t, j));
                    lemma_first_index_found(config, t, j);
                },
                None => {
                    assert forall|k: int| 0 <= k < config.len() - 1 implies !t(#[trigger] config[k]) by {
                        assert(shorter[k] == config[k]);
                    }
                    if i == index {
                        assert(is_first(config, t, config.len() - 1));
                        lemma_first_index_found(config, t, config.len() - 1);
                    } else {
                        assert(none_satisfies(config, t));
                        lemma_first_index_missing(config, t);
                    }
                },
            }
        }
        let keys = match slots[index] {
            ResourceSlot::Used { keys, .. } => keys,
            ResourceSlot::Unused { keys } => keys,
            ResourceSlot::Covered { keys } => keys,
        };
        let filled = ResourceSlot::Used { keys, resource: last.1 };
        assert(after =~= before.update(index, filled));
        assert(before[index] is Unused);
        lemma_resources_update(before, index, filled, kind);
    }
}

/// An allocation that is accepted leaves in the slots no more of any kind
/// than was available, and loses nothing: what the shared reserve and the
/// slots hold of a kind afterwards is what the reserve held and what was available.
pub proof fn law_allocation_is_safe(s: GameStateView, config: Seq<(u8, ResourceType)>, kind: ResourceType)
    requires
        allocate_resources_result(s, config) is Ok,
    ensures
        ({
            let after = allocate_resources_result(s, config).unwrap();
            let player = s.turn_state->AllocateResources_player;
            let extra = s.turn_state->AllocateResources_resources;
            let slots = s.players[player.seat()].resource_slots;
            let new_slots = after.players[player.seat()].resource_slots;
            &&& new_slots == allocated_slots(slots, config)
            &&& resources_in(new_slots, kind) == requested(config, kind)
            &&& resources_in(new_slots, kind) <= available(slots, extra, kind)
            &&& after.resource_reserve.count(kind) + resources_in(new_slots, kind) == s.resource_reserve.count(kind) + available(
                slots,
                extra,
                kind,
            )
        }),
{
    let player = s.turn_state->AllocateResources_player;
    let extra = s.turn_state->AllocateResources_resources;
    let slots = s.players[player.seat()].resource_slots;
    lemma_first_index_meaning(config, bad_target_test(slots));
    lemma_allocated_count(slots, config, kind);
    assert(requested(config, kind) <= available(slots, extra, kind));
}

} // verus!
