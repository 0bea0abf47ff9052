use crate::actions::{
    at_hand, available_actions, handles_present_item, homeward, in_world, is_nearest,
    lemma_offered_is_allowed, lies_on, nearest_position, toward, wood_at, ActionView, StateView,
    BERRY, ITEM_WORLD_MAX, MOVE_WORLD_MAX, STONE, TREE, WOOD,
};
use crate::goals::{
    is_tag, need, saturated, tag_count, with_one_more, CollectBerries, CollectStone, CollectWood,
    Goal, TARGET_COUNT,
};
use crate::goap::{achieves, on_offer, replay};
use crate::item::ItemView;
use vstd::prelude::*;

verus! {

/// Whether an item carries `tag`.
pub open spec fn has_tag(tag: Seq<char>) -> spec_fn(ItemView) -> bool {
    |item: ItemView| item.id == tag
}

/// How many of `items` carry `tag`.
pub open spec fn items_tagged(items: Seq<ItemView>, tag: Seq<char>) -> nat {
    items.filter(has_tag(tag)).len()
}

/// Whether `items[k]` is the first of `items` that equals `item`.
pub open spec fn is_first(items: Seq<ItemView>, item: ItemView, k: int) -> bool {
    &&& 0 <= k < items.len()
    &&& items[k] == item
    &&& forall|j: int| 0 <= j < k ==> items[j] != item
}

/// Taking one element out of a sequence takes one from the count of those
/// that pass a test where the element passes it, and leaves the count alone
/// where it does not.
pub proof fn lemma_count_without<A>(items: Seq<A>, k: int, test: spec_fn(A) -> bool)
    requires
        0 <= k < items.len(),
    ensures
        items.remove(k).filter(test).len() + (if test(items[k]) {
            1int
        } else {
            0int
        }) == items.filter(test).len(),
{
    let front = items.subrange(0, k);
    let back = items.subrange(k + 1, items.len() as int);
    let middle = Seq::<A>::empty().push(items[k]);
    assert(items =~= front + middle + back);
    Seq::filter_distributes_over_add(front + middle, back, test);
    Seq::filter_distributes_over_add(front, middle, test);
    Seq::filter_distributes_over_add(front, back, test);
    Seq::<A>::empty().lemma_filter_push(items[k], test);
    assert(Seq::<A>::empty().filter(test) =~= Seq::<A>::empty()) by {
        reveal(Seq::filter);
    }
}

/// Adding one element at the end of a sequence adds one to the count of
/// those that pass a test where the element passes it.
pub proof fn lemma_count_with<A>(items: Seq<A>, item: A, test: spec_fn(A) -> bool)
    ensures
        items.push(item).filter(test).len() == items.filter(test).len() + (if test(item) {
            1int
        } else {
            0int
        }),
{
    items.lemma_filter_push(item, test);
}

/// What removing the first occurrence of `item` does to `items`: the
/// occurrence goes and every other item keeps its place in the order, or
/// nothing changes where `item` does not occur.
pub proof fn lemma_remove_value(items: Seq<ItemView>, item: ItemView)
    ensures
        items.contains(item) ==> exists|k: int| #[trigger]
            is_first(items, item, k) && items.remove_value(item) == items.remove(k),
        !items.contains(item) ==> items.remove_value(item) == items,
{
    items.index_of_first_ensures(item);
    if items.contains(item) {
        let k = items.index_of_first(item).unwrap();
        assert(is_first(items, item, k));
    }
}

/// Walking changes where the villager stands and nothing else: the items,
/// the inventory and the health stay as they are. A step ends where its
/// deltas lead, inside the world of steps; a walk to the nearest item ends on
/// the cell of that item, inside the world of items.
pub proof fn lemma_walking_frame(action: ActionView, state: StateView)
    requires
        action is Move || action is MoveToNearestItem,
        action.prerequisite(state),
    ensures
        action.effect(state).items == state.items,
        action.effect(state).villager.inventory == state.villager.inventory,
        action.effect(state).villager.health == state.villager.health,
        action matches ActionView::Move { delta_x, delta_y } ==> {
            let there = action.effect(state).villager.position;
            &&& there.0 == state.villager.position.0 + delta_x
            &&& there.1 == state.villager.position.1 + delta_y
            &&& in_world((there.0 as int, there.1 as int), MOVE_WORLD_MAX as int)
        },
        action matches ActionView::MoveToNearestItem { target_item_id } ==> {
            let there = action.effect(state).villager.position;
            &&& in_world((there.0 as int, there.1 as int), ITEM_WORLD_MAX as int)
            &&& exists|i: int| #[trigger]
                is_nearest(state.items, target_item_id, state.villager.position, i)
                    && state.items[i].position == there
        },
{
    if let ActionView::MoveToNearestItem { target_item_id } = action {
        let here = state.villager.position;
        assert(nearest_position(state.items, target_item_id, here) is Some);
        let i = choose|i: int| is_nearest(state.items, target_item_id, here, i);
        assert(is_nearest(state.items, target_item_id, here, i));
    }
}

/// Picking up an item adds its tag at the end of the inventory and takes
/// the first item equal to it out of the world. The villager stays where it
/// is with the health it has, and every other item stays in its place in
/// the order.
pub proof fn lemma_pick_up_frame(item: ItemView, state: StateView)
    requires
        (ActionView::PickUpItem { item }).prerequisite(state),
    ensures
        ({
            let after = (ActionView::PickUpItem { item }).effect(state);
            &&& after.villager.position == state.villager.position
            &&& after.villager.health == state.villager.health
            &&& after.villager.inventory == state.villager.inventory.push(item.id)
            &&& state.items.contains(item) ==> exists|k: int| #[trigger]
                is_first(state.items, item, k) && after.items == state.items.remove(k)
            &&& !state.items.contains(item) ==> after.items == state.items
        }),
{
    lemma_remove_value(state.items, item);
}

/// Chopping a tree takes the first item equal to it out of the world and
/// puts wood on its cell at the end of the items. The villager stays as it
/// is, inventory included, and every other item stays in its place in the
/// order.
pub proof fn lemma_chop_frame(item: ItemView, state: StateView)
    requires
        (ActionView::ChopTree { item }).prerequisite(state),
    ensures
        ({
            let after = (ActionView::ChopTree { item }).effect(state);
            &&& after.villager == state.villager
            &&& state.items.contains(item) ==> exists|k: int| #[trigger]
                is_first(state.items, item, k) && after.items == state.items.remove(k).push(
                    wood_at(item.position),
                )
            &&& !state.items.contains(item) ==> after.items == state.items.push(
                wood_at(item.position),
            )
        }),
{
    lemma_remove_value(state.items, item);
}

/// The tags of trees and of wood differ.
pub proof fn lemma_tree_is_not_wood()
    ensures
        TREE@ != WOOD@,
{
    reveal_strlit("tree");
    reveal_strlit("wood");
    assert(TREE@[0] == 't');
    assert(WOOD@[0] == 'w');
}

/// No action makes or loses anything: the number of items lying around
/// plus the number of inventory entries stays the same. Chopping turns one
/// tree into one piece of wood and leaves the inventory alone; picking up
/// moves one item from the world into the inventory; walking changes
/// neither. This holds of an action that handles an item lying in the state,
/// as every action on offer does.
pub proof fn lemma_conservation(action: ActionView, state: StateView)
    requires
        action.prerequisite(state),
        handles_present_item(action, state),
    ensures
        ({
            let after = action.effect(state);
            &&& after.items.len() + after.villager.inventory.len() == state.items.len()
                + state.villager.inventory.len()
            &&& match action {
                ActionView::ChopTree { item } => {
                    &&& after.items.len() == state.items.len()
                    &&& after.villager.inventory == state.villager.inventory
                    &&& items_tagged(after.items, TREE@) == items_tagged(state.items, TREE@) - 1
                    &&& items_tagged(after.items, WOOD@) == items_tagged(state.items, WOOD@) + 1
                },
                ActionView::PickUpItem { item } => {
                    &&& after.items.len() == state.items.len() - 1
                    &&& after.villager.inventory.len() == state.villager.inventory.len() + 1
                    &&& items_tagged(after.items, item.id) == items_tagged(state.items, item.id)
                        - 1
                    &&& tag_count(after.villager.inventory, item.id) == tag_count(
                        state.villager.inventory,
                        item.id,
                    ) + 1
                },
                _ => {
                    &&& after.items == state.items
                    &&& after.villager.inventory == state.villager.inventory
                },
            }
        }),
{
    match action {
        ActionView::ChopTree { item } => {
            lemma_chop_frame(item, state);
            lemma_tree_is_not_wood();
            let after = action.effect(state);
            let k = choose|k: int| #[trigger]
                is_first(state.items, item, k) && after.items == state.items.remove(k).push(
                    wood_at(item.position),
                );
            let without = state.items.remove(k);
            lemma_count_without(state.items, k, has_tag(TREE@));
            lemma_count_without(state.items, k, has_tag(WOOD@));
            lemma_count_with(without, wood_at(item.position), has_tag(TREE@));
            lemma_count_with(without, wood_at(item.position), has_tag(WOOD@));
        },
        ActionView::PickUpItem { item } => {
            lemma_pick_up_frame(item, state);
            let after = action.effect(state);
            let k = choose|k: int| #[trigger]
                is_first(state.items, item, k) && after.items == state.items.remove(k);
            lemma_count_without(state.items, k, has_tag(item.id));
            lemma_count_with(state.villager.inventory, item.id, is_tag(item.id));
        },
        _ => {
            lemma_walking_frame(action, state);
        },
    }
}

/// One more entry of a tag in the inventory is one more in its count.
pub proof fn lemma_count_one_more(inventory: Seq<Seq<char>>, tag: Seq<char>)
    ensures
        tag_count(inventory.push(tag), tag) == tag_count(inventory, tag) + 1,
{
    lemma_count_with(inventory, tag, is_tag(tag));
}

/// Each collecting goal scores what is missing of its own tag, and asks for
/// one more entry of it.
pub proof fn lemma_collecting_goals(state: StateView)
    ensures
        (CollectWood {}).urgency(state) == saturated(need(state.villager.inventory, WOOD@)),
        (CollectStone {}).urgency(state) == saturated(need(state.villager.inventory, STONE@)),
        (CollectBerries {}).urgency(state) == saturated(need(state.villager.inventory, BERRY@)),
        (CollectWood {}).target(state) == with_one_more(state, WOOD@),
        (CollectStone {}).target(state) == with_one_more(state, STONE@),
        (CollectBerries {}).target(state) == with_one_more(state, BERRY@),
{
}

/// The score of a collecting goal falls strictly as the count of its tag
/// rises towards the target, is zero or less once the target is met, and
/// is above zero before. See [`lemma_collecting_goals`] for the scores.
pub proof fn lemma_goal_monotonicity(fewer: Seq<Seq<char>>, more: Seq<Seq<char>>, tag: Seq<char>)
    ensures
        tag_count(fewer, tag) < tag_count(more, tag) <= TARGET_COUNT ==> saturated(need(more, tag))
            < saturated(need(fewer, tag)),
        tag_count(more, tag) >= TARGET_COUNT ==> saturated(need(more, tag)) <= 0,
        tag_count(more, tag) < TARGET_COUNT ==> saturated(need(more, tag)) > 0,
{
}

/// Each action of a list that is on offer one after the other may be taken
/// in the state that the actions before it lead to, so the list can be
/// replayed step by step.
pub proof fn lemma_on_offer_is_allowed(start: StateView, actions: Seq<ActionView>, i: int)
    requires
        on_offer(start, actions),
        0 <= i < actions.len(),
    ensures
        actions[i].prerequisite(replay(start, actions.take(i))),
        available_actions(replay(start, actions.take(i))).contains(actions[i]),
    decreases actions.len(),
{
    let earlier = actions.drop_last();
    if i == actions.len() - 1 {
        assert(actions.take(i) =~= earlier);
        let offered = available_actions(replay(start, earlier));
        let k = choose|k: int| 0 <= k < offered.len() && offered[k] == actions.last();
        lemma_offered_is_allowed(replay(start, earlier), k);
    } else {
        lemma_on_offer_is_allowed(start, earlier, i);
        assert(earlier.take(i) =~= actions.take(i));
    }
}

/// A list of actions that gets the villager one more entry of a tag is
/// never empty: no state is goal-equal to itself with one entry more.
pub proof fn lemma_plan_is_never_empty(start: StateView, tag: Seq<char>, actions: Seq<ActionView>)
    requires
        achieves(start, with_one_more(start, tag), actions),
    ensures
        actions.len() > 0,
{
    if actions.len() == 0 {
        assert(start.villager.inventory.push(tag).len() == start.villager.inventory.len() + 1);
    }
}

/// Where nothing lies around, only the step home is on offer.
pub proof fn lemma_empty_world_offers_the_step_home(state: StateView)
    requires
        state.items.len() == 0,
    ensures
        available_actions(state) == homeward(state),
{
    let here = state.villager.position;
    assert forall|tag: Seq<char>| #[trigger] toward(state, tag) == Seq::<ActionView>::empty() by {
        assert(forall|i: int| !is_nearest(state.items, tag, here, i));
    }
    assert(state.items.filter(lies_on(here)) =~= Seq::<ItemView>::empty()) by {
        reveal(Seq::filter);
    }
    assert(at_hand(state) =~= Seq::<ActionView>::empty());
    assert(available_actions(state) =~= homeward(state));
}

/// Where nothing lies around, whatever is done changes neither the items
/// nor the inventory.
pub proof fn lemma_empty_world_stays_empty(start: StateView, actions: Seq<ActionView>)
    requires
        start.items.len() == 0,
        on_offer(start, actions),
    ensures
        replay(start, actions).items == start.items,
        replay(start, actions).villager.inventory == start.villager.inventory,
    decreases actions.len(),
{
    if actions.len() > 0 {
        let earlier = actions.drop_last();
        lemma_empty_world_stays_empty(start, earlier);
        let before = replay(start, earlier);
        lemma_empty_world_offers_the_step_home(before);
        let offered = available_actions(before);
        let k = choose|k: int| 0 <= k < offered.len() && offered[k] == actions.last();
        assert(offered[k] is Move);
    }
}

/// Where nothing lies around, no list of actions gets the villager one
/// more entry of any tag: there is no plan, wherever the villager stands.
pub proof fn lemma_empty_world_has_no_plan(
    start: StateView,
    tag: Seq<char>,
    actions: Seq<ActionView>,
)
    requires
        start.items.len() == 0,
    ensures
        !achieves(start, with_one_more(start, tag), actions),
{
    if on_offer(start, actions) {
        lemma_empty_world_stays_empty(start, actions);
        assert(start.villager.inventory.push(tag).len() == start.villager.inventory.len() + 1);
    }
}

/// How much there is left to handle in a state: every item can be picked
/// up once, and a tree has to be chopped before.
pub open spec fn work_left(state: StateView) -> nat {
    state.items.len() + items_tagged(state.items, TREE@)
}

/// Chopping and picking up use up what there is to handle, one at a time,
/// and walking leaves it alone. So only so many states can follow one
/// another before nothing but walking is left.
pub proof fn lemma_work_left_runs_out(action: ActionView, state: StateView)
    requires
        action.prerequisite(state),
        handles_present_item(action, state),
    ensures
        action is ChopTree || action is PickUpItem ==> work_left(action.effect(state)) + 1
            == work_left(state),
        action is Move || action is MoveToNearestItem ==> work_left(action.effect(state))
            == work_left(state),
{
    lemma_conservation(action, state);
    lemma_tree_is_not_wood();
    match action {
        ActionView::PickUpItem { item } => {
            lemma_pick_up_frame(item, state);
            let after = action.effect(state);
            let k = choose|k: int| #[trigger]
                is_first(state.items, item, k) && after.items == state.items.remove(k);
            lemma_count_without(state.items, k, has_tag(TREE@));
        },
        _ => {},
    }
}

/// No action takes anything out of the inventory: what was carried before
/// is carried after, in the same order, with at most one entry more at the
/// end.
pub proof fn lemma_inventory_only_grows(action: ActionView, state: StateView)
    ensures
        state.villager.inventory.is_prefix_of(action.effect(state).villager.inventory),
        action.effect(state).villager.inventory.len() <= state.villager.inventory.len() + 1,
{
}

/// Whether an item lies on `cell` in `state`.
pub open spec fn is_occupied(state: StateView, cell: (i64, i64)) -> bool {
    exists|j: int| 0 <= j < state.items.len() && (#[trigger] state.items[j]).position == cell
}

/// No action puts an item on a cell where none lay before: items go, or
/// turn into wood where they are, and never move.
pub proof fn lemma_items_stay_put(action: ActionView, state: StateView, i: int)
    requires
        action.prerequisite(state),
        handles_present_item(action, state),
        0 <= i < action.effect(state).items.len(),
    ensures
        is_occupied(state, action.effect(state).items[i].position),
{
    let after = action.effect(state);
    match action {
        ActionView::ChopTree { item } => {
            lemma_chop_frame(item, state);
            let k = choose|k: int| #[trigger]
                is_first(state.items, item, k) && after.items == state.items.remove(k).push(
                    wood_at(item.position),
                );
            if i == after.items.len() - 1 {
                assert(state.items[k].position == after.items[i].position);
            } else if i < k {
                assert(state.items[i] == after.items[i]);
            } else {
                assert(state.items[i + 1] == after.items[i]);
            }
        },
        ActionView::PickUpItem { item } => {
            lemma_pick_up_frame(item, state);
            let k = choose|k: int| #[trigger]
                is_first(state.items, item, k) && after.items == state.items.remove(k);
            if i < k {
                assert(state.items[i] == after.items[i]);
            } else {
                assert(state.items[i + 1] == after.items[i]);
            }
        },
        _ => {
            assert(state.items[i] == after.items[i]);
        },
    }
}

} // verus!
