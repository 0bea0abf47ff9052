use crate::actions::{StateView, VillageState, BERRY, STONE, WOOD};
use crate::villager::VillagerView;
use vstd::prelude::*;

verus! {

/// How many entries of one tag every collecting goal aims for.
pub const TARGET_COUNT: i64 = 10;

/// Whether an inventory entry is `tag`.
pub open spec fn is_tag(tag: Seq<char>) -> spec_fn(Seq<char>) -> bool {
    |entry: Seq<char>| entry == tag
}

/// How many entries of `inventory` are `tag`.
pub open spec fn tag_count(inventory: Seq<Seq<char>>, tag: Seq<char>) -> nat {
    inventory.filter(is_tag(tag)).len()
}

/// How many entries of `tag` are still missing from `inventory`: positive
/// while the target is ahead, zero when it is met, negative beyond it.
pub open spec fn need(inventory: Seq<Seq<char>>, tag: Seq<char>) -> int {
    TARGET_COUNT - tag_count(inventory, tag)
}

/// `value` as an `i64`, or the nearest `i64` where it does not fit.
pub open spec fn saturated(value: int) -> i64 {
    if value < i64::MIN {
        i64::MIN
    } else if value > i64::MAX {
        i64::MAX
    } else {
        value as i64
    }
}

/// `state` with one more `tag` at the end of the inventory.
pub open spec fn with_one_more(state: StateView, tag: Seq<char>) -> StateView {
    StateView {
        villager: VillagerView { inventory: state.villager.inventory.push(tag), ..state.villager },
        ..state
    }
}

/// A goal scores how much it matters in a state and names the state it
/// wants to reach from there.
pub trait Goal {
    /// The score that [`Goal::priority`] gives in `state`.
    spec fn urgency(&self, state: StateView) -> i64;

    /// The state that [`Goal::goal_state`] names from `state`.
    spec fn target(&self, state: StateView) -> StateView;

    /// How much the goal matters in `current_state`: the higher, the more.
    fn priority(&self, current_state: &VillageState) -> (priority: i64)
        ensures
            priority == self.urgency(current_state@),
    ;

    /// The state that the goal wants to reach from `current_state`. A
    /// plan has reached it when it has reached a state goal-equal to it.
    fn goal_state(&self, current_state: VillageState) -> (goal: VillageState)
        ensures
            goal@ == self.target(current_state@),
    ;
}

/// How many entries of `tag` are still missing from `inventory`, as far as
/// an `i64` can tell.
pub fn missing(inventory: &Vec<String>, tag: &str) -> (missing: i64)
    ensures
        missing == saturated(need(inventory.deep_view(), tag@)),
{
    let wanted = tag.to_owned();
    let ghost entries = inventory.deep_view();
    let mut count: u64 = 0;
    let mut i: usize = 0;
    assert(entries.take(0).filter(is_tag(tag@)) =~= Seq::<Seq<char>>::empty()) by {
        reveal(Seq::filter);
    }
    while i < inventory.len()
        invariant
            i <= inventory.len(),
            entries == inventory.deep_view(),
            wanted@ == tag@,
            count == tag_count(entries.take(i as int), tag@),
            count <= i,
        decreases inventory.len() - i,
    {
        proof {
            assert(entries.take(i + 1) =~= entries.take(i as int).push(entries[i as int]));
            entries.take(i as int).lemma_filter_push(entries[i as int], is_tag(tag@));
        }
        if inventory[i] == wanted {
            count += 1;
        }
        i += 1;
    }
    assert(entries.take(i as int) =~= entries);
    let missing: i128 = TARGET_COUNT as i128 - count as i128;
    if missing < i64::MIN as i128 {
        i64::MIN
    } else {
        missing as i64
    }
}

/// `current_state` with one more `tag` at the end of the inventory.
pub fn one_more(current_state: VillageState, tag: &str) -> (goal: VillageState)
    ensures
        goal@ == with_one_more(current_state@, tag@),
{
    let mut goal_state = current_state;
    let ghost carried = goal_state.villager.inventory.deep_view();
    goal_state.villager.inventory.push(tag.to_owned());
    assert(goal_state.villager.inventory.deep_view() =~= carried.push(tag@));
    goal_state
}

/// Have ten pieces of wood in the inventory, one more at a time.
#[derive(Debug)]
pub struct CollectWood {}

impl Goal for CollectWood {
    open spec fn urgency(&self, state: StateView) -> i64 {
        saturated(need(state.villager.inventory, WOOD@))
    }

    open spec fn target(&self, state: StateView) -> StateView {
        with_one_more(state, WOOD@)
    }

    fn priority(&self, current_state: &VillageState) -> (priority: i64) {
        missing(&current_state.villager.inventory, WOOD)
    }

    fn goal_state(&self, current_state: VillageState) -> (goal: VillageState) {
        one_more(current_state, WOOD)
    }
}

/// Have ten stones in the inventory, one more at a time.
#[derive(Debug)]
pub struct CollectStone {}

impl Goal for CollectStone {
    open spec fn urgency(&self, state: StateView) -> i64 {
        saturated(need(state.villager.inventory, STONE@))
    }

    open spec fn target(&self, state: StateView) -> StateView {
        with_one_more(state, STONE@)
    }

    fn priority(&self, current_state: &VillageState) -> (priority: i64) {
        missing(&current_state.villager.inventory, STONE)
    }

    fn goal_state(&self, current_state: VillageState) -> (goal: VillageState) {
        one_more(current_state, STONE)
    }
}

/// Have ten berries in the inventory, one more at a time.
#[derive(Debug)]
pub struct CollectBerries {}

impl Goal for CollectBerries {
    open spec fn urgency(&self, state: StateView) -> i64 {
        saturated(need(state.villager.inventory, BERRY@))
    }

    open spec fn target(&self, state: StateView) -> StateView {
        with_one_more(state, BERRY@)
    }

    fn priority(&self, current_state: &VillageState) -> (priority: i64) {
        missing(&current_state.villager.inventory, BERRY)
    }

    fn goal_state(&self, current_state: VillageState) -> (goal: VillageState) {
        one_more(current_state, BERRY)
    }
}

} // verus!
