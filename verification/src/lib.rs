//! Goal-oriented action planning for a villager in a grid world.
//!
//! A [`actions::VillageState`] is a snapshot of the villager and the items
//! lying around. Actions transform one snapshot into the next, goals score a
//! snapshot and name the snapshot they want, and the planner searches for the
//! cheapest sequence of actions that reaches it.
//!
//! - [`item`] and [`villager`]: the records that a snapshot is made of.
//! - [`actions`]: the snapshot, the four kinds of action with what each
//!   needs, does and costs, and the list of actions on offer in a snapshot.
//! - [`goals`]: the goals and how they are scored.
//! - [`goap`]: the search graph and the planner.
//! - [`playback`]: carrying out a plan one tick at a time.
//! - [`math`]: whole-number distances.
//! - [`laws`]: what holds of all of the above, proved.

pub mod actions;
pub mod goals;
pub mod goap;
pub mod item;
pub mod laws;
pub mod math;
pub mod playback;
pub mod villager;

use crate::actions::{StateView, VillageState, BERRY, STONE, WOOD};
use crate::goals::one_more;
use crate::villager::VillagerView;
use vstd::prelude::*;

verus! {

/// The state to aim for when wood, stone and berries are all wanted at
/// once: `current_state` with wood, stone, berry, wood and wood added, in
/// that order, at the end of the inventory.
pub fn generate_goal_state(current_state: &VillageState) -> (goal: VillageState)
    ensures
        goal@ == (StateView {
            villager: VillagerView {
                inventory: current_state@.villager.inventory + seq![
                    WOOD@,
                    STONE@,
                    BERRY@,
                    WOOD@,
                    WOOD@,
                ],
                ..current_state@.villager
            },
            ..current_state@
        }),
{
    let goal_state = current_state.clone();
    let goal_state = one_more(goal_state, WOOD);
    let goal_state = one_more(goal_state, STONE);
    let goal_state = one_more(goal_state, BERRY);
    let goal_state = one_more(goal_state, WOOD);
    let goal_state = one_more(goal_state, WOOD);
    assert(goal_state@.villager.inventory =~= current_state@.villager.inventory + seq![
        WOOD@,
        STONE@,
        BERRY@,
        WOOD@,
        WOOD@,
    ]);
    goal_state
}

} // verus!
