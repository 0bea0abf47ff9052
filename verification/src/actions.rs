use crate::item::{Item, ItemView};
use crate::math::{floor_sqrt, squared_distance, squared_length, step_length, strictly_nearer};
use crate::villager::{Villager, VillagerView};
use vstd::prelude::*;

verus! {

/// The tag of an item that has to be chopped before anything can be picked up.
pub const TREE: &'static str = "tree";

/// The tag of what a chopped tree leaves behind.
pub const WOOD: &'static str = "wood";

/// The tag of a stone.
pub const STONE: &'static str = "stone";

/// The tag of a berry.
pub const BERRY: &'static str = "berry";

/// A plain step may only end on a cell from 0 up to, not including, this
/// bound, on both axes.
pub const MOVE_WORLD_MAX: i64 = 26;

/// A walk to the nearest item may only end on a cell from 0 up to, not
/// including, this bound, on both axes.
pub const ITEM_WORLD_MAX: i64 = 151;

/// What a walk to the nearest item costs, however far it is.
pub const MOVE_TO_NEAREST_COST: u64 = 5;

/// Whether `tag` spells exactly `word`.
pub fn tag_is(tag: &String, word: &str) -> (same: bool)
    ensures
        same == (tag@ == word@),
{
    let owned = word.to_owned();
    *tag == owned
}

/// The mathematical value of a [`VillageState`].
pub struct StateView {
    pub villager: VillagerView,
    pub items: Seq<ItemView>,
}

impl StateView {
    /// Goal equality: two snapshots count as the same for a goal when the
    /// villager carries the same tags in the same order. Where it stands and
    /// what still lies around does not matter.
    pub open spec fn goal_equal(self, other: StateView) -> bool {
        self.villager.inventory == other.villager.inventory
    }
}

/// A snapshot of the world: the villager and every item lying around, in
/// the order the items are kept.
#[derive(Debug, PartialEq, Eq, Hash)]
pub struct VillageState {
    pub villager: Villager,
    pub items: Vec<Item>,
}

impl View for VillageState {
    type V = StateView;

    open spec fn view(&self) -> StateView {
        StateView { villager: self.villager@, items: self.items.deep_view() }
    }
}

impl Clone for VillageState {
    fn clone(&self) -> (res: Self)
        ensures
            res@ == self@,
    {
        let items = self.items.clone();
        assert(items.deep_view() =~= self.items.deep_view());
        VillageState { villager: self.villager.clone(), items }
    }
}

/// Whether two lists of tags hold the same tags in the same order.
pub fn same_tags(left: &Vec<String>, right: &Vec<String>) -> (same: bool)
    ensures
        same == (left.deep_view() == right.deep_view()),
{
    if left.len() != right.len() {
        assert(left.deep_view().len() != right.deep_view().len());
        return false;
    }
    let mut i: usize = 0;
    while i < left.len()
        invariant
            i <= left.len() == right.len(),
            forall|k: int| 0 <= k < i ==> left.deep_view()[k] == right.deep_view()[k],
        decreases left.len() - i,
    {
        if left[i] != right[i] {
            assert(left.deep_view()[i as int] != right.deep_view()[i as int]);
            return false;
        }
        i += 1;
    }
    assert(left.deep_view() =~= right.deep_view());
    true
}

/// Whether two lists of items hold the same items in the same order.
pub fn same_items(left: &Vec<Item>, right: &Vec<Item>) -> (same: bool)
    ensures
        same == (left.deep_view() == right.deep_view()),
{
    if left.len() != right.len() {
        assert(left.deep_view().len() != right.deep_view().len());
        return false;
    }
    let mut i: usize = 0;
    while i < left.len()
        invariant
            i <= left.len() == right.len(),
            forall|k: int| 0 <= k < i ==> left.deep_view()[k] == right.deep_view()[k],
        decreases left.len() - i,
    {
        if !left[i].same_as(&right[i]) {
            assert(left.deep_view()[i as int] != right.deep_view()[i as int]);
            return false;
        }
        i += 1;
    }
    assert(left.deep_view() =~= right.deep_view());
    true
}

impl VillageState {
    /// The snapshot of `villager` among `items`.
    pub fn new(villager: Villager, items: Vec<Item>) -> (state: Self)
        ensures
            state@ == (StateView { villager: villager@, items: items.deep_view() }),
    {
        VillageState { villager, items }
    }

    /// Structural equality: every field of the villager and every item, in
    /// order, is the same. This is what tells two nodes of a search apart.
    pub fn structural_equals(&self, other: &Self) -> (same: bool)
        ensures
            same == (self@ == other@),
    {
        let same_health = match (self.villager.health.check(), other.villager.health.check()) {
            (Some(mine), Some(theirs)) => mine == theirs,
            (None, None) => true,
            _ => false,
        };
        self.villager.position.0 == other.villager.position.0 && self.villager.position.1
            == other.villager.position.1 && same_health && same_tags(
            &self.villager.inventory,
            &other.villager.inventory,
        ) && same_items(&self.items, &other.items)
    }

    /// Goal equality, see [`StateView::goal_equal`].
    pub fn compare(&self, other_state: &Self) -> (same: bool)
        ensures
            same == self@.goal_equal(other_state@),
    {
        same_tags(&self.villager.inventory, &other_state.villager.inventory)
    }
}

/// Whether a cell lies in the square world from 0 up to, not including,
/// `max` on both axes.
pub open spec fn in_world(position: (int, int), max: int) -> bool {
    0 <= position.0 < max && 0 <= position.1 < max
}

/// Whether `items[i]` is the item tagged `tag` that lies nearest to `from`
/// in a straight line, the earliest in the list among those equally near.
pub open spec fn is_nearest(items: Seq<ItemView>, tag: Seq<char>, from: (i64, i64), i: int) -> bool {
    &&& 0 <= i < items.len()
    &&& items[i].id == tag
    &&& forall|j: int|
        0 <= j < items.len() && items[j].id == tag ==> squared_distance(items[i].position, from)
            <= squared_distance(#[trigger] items[j].position, from)
    &&& forall|j: int|
        0 <= j < i && items[j].id == tag ==> squared_distance(items[i].position, from)
            < squared_distance(#[trigger] items[j].position, from)
}

/// The cell of the nearest item tagged `tag`, see [`is_nearest`], or nothing
/// where no item has that tag.
pub open spec fn nearest_position(items: Seq<ItemView>, tag: Seq<char>, from: (i64, i64)) -> Option<
    (i64, i64),
> {
    if exists|i: int| is_nearest(items, tag, from, i) {
        Some(items[choose|i: int| is_nearest(items, tag, from, i)].position)
    } else {
        None
    }
}

/// Only one index can be the nearest.
pub proof fn lemma_nearest_unique(
    items: Seq<ItemView>,
    tag: Seq<char>,
    from: (i64, i64),
    i: int,
    j: int,
)
    requires
        is_nearest(items, tag, from, i),
        is_nearest(items, tag, from, j),
    ensures
        i == j,
{
    if i < j {
        assert(squared_distance(items[j].position, from) < squared_distance(
            items[i].position,
            from,
        ));
        assert(squared_distance(items[i].position, from) <= squared_distance(
            items[j].position,
            from,
        ));
    } else if j < i {
        assert(squared_distance(items[i].position, from) < squared_distance(
            items[j].position,
            from,
        ));
        assert(squared_distance(items[j].position, from) <= squared_distance(
            items[i].position,
            from,
        ));
    }
}

/// The nearest item, once found, is where [`nearest_position`] points.
pub proof fn lemma_nearest_position(
    items: Seq<ItemView>,
    tag: Seq<char>,
    from: (i64, i64),
    i: int,
)
    requires
        is_nearest(items, tag, from, i),
    ensures
        nearest_position(items, tag, from) == Some(items[i].position),
{
    let chosen = choose|k: int| is_nearest(items, tag, from, k);
    lemma_nearest_unique(items, tag, from, i, chosen);
}

/// The wood that a tree on `position` turns into.
pub open spec fn wood_at(position: (i64, i64)) -> ItemView {
    ItemView { position, id: WOOD@ }
}

/// The mathematical value of an action: which of the four kinds it is, and
/// with what parameters.
pub enum ActionView {
    /// Walk to the nearest item with this tag.
    MoveToNearestItem { target_item_id: Seq<char> },
    /// Step by this much on each axis.
    Move { delta_x: i64, delta_y: i64 },
    /// Turn this tree into wood.
    ChopTree { item: ItemView },
    /// Take this item into the inventory.
    PickUpItem { item: ItemView },
}

impl ActionView {
    /// Whether the action may be taken in `state`.
    pub open spec fn prerequisite(self, state: StateView) -> bool {
        let here = state.villager.position;
        match self {
            ActionView::MoveToNearestItem { target_item_id } => {
                &&& nearest_position(state.items, target_item_id, here) matches Some(there)
                &&& in_world((there.0 as int, there.1 as int), ITEM_WORLD_MAX as int)
            },
            ActionView::Move { delta_x, delta_y } => in_world(
                (here.0 + delta_x, here.1 + delta_y),
                MOVE_WORLD_MAX as int,
            ),
            ActionView::ChopTree { item } => here == item.position && item.id == TREE@,
            ActionView::PickUpItem { item } => here == item.position && item.id != TREE@,
        }
    }

    /// The state that taking the action in `state` leads to. Every field
    /// that is not named here stays as it is.
    pub open spec fn effect(self, state: StateView) -> StateView {
        let here = state.villager.position;
        match self {
            ActionView::MoveToNearestItem { target_item_id } => StateView {
                villager: VillagerView {
                    position: nearest_position(state.items, target_item_id, here).unwrap(),
                    ..state.villager
                },
                ..state
            },
            ActionView::Move { delta_x, delta_y } => StateView {
                villager: VillagerView {
                    position: ((here.0 + delta_x) as i64, (here.1 + delta_y) as i64),
                    ..state.villager
                },
                ..state
            },
            ActionView::ChopTree { item } => StateView {
                items: state.items.remove_value(item).push(wood_at(item.position)),
                ..state
            },
            ActionView::PickUpItem { item } => StateView {
                villager: VillagerView {
                    inventory: state.villager.inventory.push(item.id),
                    ..state.villager
                },
                items: state.items.remove_value(item),
            },
        }
    }

    /// What the action adds to the cost of a plan.
    pub open spec fn cost(self) -> nat {
        match self {
            ActionView::MoveToNearestItem { .. } => MOVE_TO_NEAREST_COST as nat,
            ActionView::Move { delta_x, delta_y } => floor_sqrt(squared_length(delta_x, delta_y)),
            ActionView::ChopTree { .. } => 1,
            ActionView::PickUpItem { .. } => 1,
        }
    }
}

/// Takes the first item equal to `item` out of `items`, if there is one.
pub fn remove_first(items: &mut Vec<Item>, item: &Item)
    ensures
        final(items).deep_view() == old(items).deep_view().remove_value(item@),
{
    let ghost before = items.deep_view();
    let mut i: usize = 0;
    while i < items.len()
        invariant
            i <= items.len(),
            items.deep_view() == before,
            before == old(items).deep_view(),
            forall|k: int| 0 <= k < i ==> before[k] != item@,
        decreases items.len() - i,
    {
        if items[i].same_as(item) {
            proof {
                assert(before[i as int] == item@);
                before.index_of_first_ensures(item@);
                assert(before.index_of_first(item@) == Some(i as int));
            }
            items.remove(i);
            assert(items.deep_view() =~= before.remove(i as int));
            return ;
        }
        i += 1;
    }
    proof {
        assert(!before.contains(item@));
        before.index_of_first_ensures(item@);
    }
}

/// Walk to the nearest item that carries the tag.
#[derive(Debug, PartialEq, Eq, Hash)]
pub struct MoveToNearestItemAction {
    pub target_item_id: String,
}

impl View for MoveToNearestItemAction {
    type V = ActionView;

    open spec fn view(&self) -> ActionView {
        ActionView::MoveToNearestItem { target_item_id: self.target_item_id@ }
    }
}

impl Clone for MoveToNearestItemAction {
    fn clone(&self) -> (res: Self)
        ensures
            res@ == self@,
    {
        MoveToNearestItemAction { target_item_id: self.target_item_id.clone() }
    }
}

impl MoveToNearestItemAction {
    /// The cell of the nearest item with the tag, or nothing where no item
    /// has it.
    pub fn get_new_position(&self, current_state: &VillageState) -> (position: Option<(i64, i64)>)
        ensures
            position == nearest_position(
                current_state@.items,
                self.target_item_id@,
                current_state@.villager.position,
            ),
    {
        let from = current_state.villager.position;
        let ghost items = current_state@.items;
        let ghost tag = self.target_item_id@;
        let mut best: Option<usize> = None;
        let mut i: usize = 0;
        while i < current_state.items.len()
            invariant
                i <= current_state.items.len(),
                items == current_state.items.deep_view(),
                tag == self.target_item_id@,
                from == current_state.villager.position,
                best is None ==> forall|k: int| 0 <= k < i ==> items[k].id != tag,
                best matches Some(b) ==> {
                    &&& b < i
                    &&& items[b as int].id == tag
                    &&& forall|k: int|
                        0 <= k < i && items[k].id == tag ==> squared_distance(
                            items[b as int].position,
                            from,
                        ) <= squared_distance(#[trigger] items[k].position, from)
                    &&& forall|k: int|
                        0 <= k < b && items[k].id == tag ==> squared_distance(
                            items[b as int].position,
                            from,
                        ) < squared_distance(#[trigger] items[k].position, from)
                },
            decreases current_state.items.len() - i,
        {
            let item = &current_state.items[i];
            assert(item@ == items[i as int]);
            if item.id == self.target_item_id {
                match best {
                    None => {
                        best = Some(i);
                    },
                    Some(b) => {
                        assert(current_state.items[b as int]@ == items[b as int]);
                        if strictly_nearer(item.position, current_state.items[b].position, from) {
                            best = Some(i);
                        }
                    },
                }
            }
            i += 1;
        }
        match best {
            None => {
                assert(forall|k: int| !is_nearest(items, tag, from, k));
                None
            },
            Some(b) => {
                assert(current_state.items[b as int]@ == items[b as int]);
                proof {
                    assert(is_nearest(items, tag, from, b as int));
                    lemma_nearest_position(items, tag, from, b as int);
                }
                Some(current_state.items[b].position)
            },
        }
    }

    /// The state that taking the action in `current_state` leads to.
    pub fn act(&self, current_state: VillageState) -> (new_state: VillageState)
        requires
            self@.prerequisite(current_state@),
        ensures
            new_state@ == self@.effect(current_state@),
    {
        let target = self.get_new_position(&current_state);
        let mut new_state = current_state;
        match target {
            Some(position) => {
                new_state.villager.position = position;
            },
            None => {},
        }
        new_state
    }

    /// What taking the action costs.
    pub fn cost(&self) -> (cost: u64)
        ensures
            cost == self@.cost(),
    {
        MOVE_TO_NEAREST_COST
    }

    /// Whether the action may be taken in `current_state`.
    pub fn prerequisite(&self, current_state: &VillageState) -> (allowed: bool)
        ensures
            allowed == self@.prerequisite(current_state@),
    {
        match self.get_new_position(current_state) {
            Some(new_position) => new_position.0 > -1 && new_position.0 < ITEM_WORLD_MAX
                && new_position.1 > -1 && new_position.1 < ITEM_WORLD_MAX,
            None => false,
        }
    }
}

/// Step by a fixed amount on each axis.
#[derive(Debug, PartialEq, Eq, Hash)]
pub struct MoveAction {
    pub delta_x: i64,
    pub delta_y: i64,
}

impl View for MoveAction {
    type V = ActionView;

    open spec fn view(&self) -> ActionView {
        ActionView::Move { delta_x: self.delta_x, delta_y: self.delta_y }
    }
}

impl Clone for MoveAction {
    fn clone(&self) -> (res: Self)
        ensures
            res@ == self@,
    {
        MoveAction { delta_x: self.delta_x, delta_y: self.delta_y }
    }
}

impl MoveAction {
    /// The cell that the step ends on, or nothing where that cell lies
    /// beyond what an `i64` can hold.
    pub fn get_new_position(&self, current_state: &VillageState) -> (position: Option<(i64, i64)>)
        ensures
            position == ({
                let here = current_state@.villager.position;
                let x = here.0 + self.delta_x;
                let y = here.1 + self.delta_y;
                if i64::MIN <= x <= i64::MAX && i64::MIN <= y <= i64::MAX {
                    Some((x as i64, y as i64))
                } else {
                    None
                }
            }),
    {
        let (current_x, current_y) = current_state.villager.position;
        match (current_x.checked_add(self.delta_x), current_y.checked_add(self.delta_y)) {
            (Some(x), Some(y)) => Some((x, y)),
            _ => None,
        }
    }

    /// The state that taking the action in `current_state` leads to.
    pub fn act(&self, current_state: VillageState) -> (new_state: VillageState)
        requires
            self@.prerequisite(current_state@),
        ensures
            new_state@ == self@.effect(current_state@),
    {
        let target = self.get_new_position(&current_state);
        let mut new_state = current_state;
        match target {
            Some(position) => {
                new_state.villager.position = position;
            },
            None => {},
        }
        new_state
    }

    /// The straight-line length of the step, rounded down.
    pub fn cost(&self) -> (cost: u64)
        ensures
            cost == self@.cost(),
    {
        step_length(self.delta_x, self.delta_y)
    }

    /// Whether the action may be taken in `current_state`.
    pub fn prerequisite(&self, current_state: &VillageState) -> (allowed: bool)
        ensures
            allowed == self@.prerequisite(current_state@),
    {
        match self.get_new_position(current_state) {
            Some(new_position) => new_position.0 > -1 && new_position.0 < MOVE_WORLD_MAX
                && new_position.1 > -1 && new_position.1 < MOVE_WORLD_MAX,
            None => false,
        }
    }
}

/// Take an item that lies on the villager's cell into the inventory.
#[derive(Debug, PartialEq, Eq, Hash)]
pub struct PickUpItemAction {
    pub item: Item,
}

impl View for PickUpItemAction {
    type V = ActionView;

    open spec fn view(&self) -> ActionView {
        ActionView::PickUpItem { item: self.item@ }
    }
}

impl Clone for PickUpItemAction {
    fn clone(&self) -> (res: Self)
        ensures
            res@ == self@,
    {
        PickUpItemAction { item: self.item.clone() }
    }
}

impl PickUpItemAction {
    /// The state that taking the action in `current_state` leads to.
    pub fn act(&self, current_state: VillageState) -> (new_state: VillageState)
        requires
            self@.prerequisite(current_state@),
        ensures
            new_state@ == self@.effect(current_state@),
    {
        let mut new_state = current_state;
        let ghost carried = new_state.villager.inventory.deep_view();
        new_state.villager.inventory.push(self.item.id.clone());
        assert(new_state.villager.inventory.deep_view() =~= carried.push(self.item.id@));
        remove_first(&mut new_state.items, &self.item);
        new_state
    }

    /// What taking the action costs.
    pub fn cost(&self) -> (cost: u64)
        ensures
            cost == self@.cost(),
    {
        1
    }

    /// Whether the action may be taken in `current_state`.
    pub fn prerequisite(&self, current_state: &VillageState) -> (allowed: bool)
        ensures
            allowed == self@.prerequisite(current_state@),
    {
        current_state.villager.position.0 == self.item.position.0
            && current_state.villager.position.1 == self.item.position.1 && !tag_is(
            &self.item.id,
            TREE,
        )
    }
}

/// Turn a tree that stands on the villager's cell into wood lying there.
#[derive(Debug, PartialEq, Eq, Hash)]
pub struct ChopTreeAction {
    pub item: Item,
}

impl View for ChopTreeAction {
    type V = ActionView;

    open spec fn view(&self) -> ActionView {
        ActionView::ChopTree { item: self.item@ }
    }
}

impl Clone for ChopTreeAction {
    fn clone(&self) -> (res: Self)
        ensures
            res@ == self@,
    {
        ChopTreeAction { item: self.item.clone() }
    }
}

impl ChopTreeAction {
    /// The state that taking the action in `current_state` leads to.
    pub fn act(&self, current_state: VillageState) -> (new_state: VillageState)
        requires
            self@.prerequisite(current_state@),
        ensures
            new_state@ == self@.effect(current_state@),
    {
        let mut new_state = current_state;
        remove_first(&mut new_state.items, &self.item);
        let ghost lying = new_state.items.deep_view();
        let wood = Item { position: self.item.position, id: WOOD.to_owned() };
        new_state.items.push(wood);
        assert(new_state.items.deep_view() =~= lying.push(wood_at(self.item.position)));
        new_state
    }

    /// What taking the action costs.
    pub fn cost(&self) -> (cost: u64)
        ensures
            cost == self@.cost(),
    {
        1
    }

    /// Whether the action may be taken in `current_state`.
    pub fn prerequisite(&self, current_state: &VillageState) -> (allowed: bool)
        ensures
            allowed == self@.prerequisite(current_state@),
    {
        current_state.villager.position.0 == self.item.position.0
            && current_state.villager.position.1 == self.item.position.1 && tag_is(
            &self.item.id,
            TREE,
        )
    }
}

/// The step that takes the villager straight back to the origin, where the
/// step can be written down at all: a coordinate of `i64::MIN` has no
/// opposite.
pub open spec fn homeward(state: StateView) -> Seq<ActionView> {
    let here = state.villager.position;
    if here.0 > i64::MIN && here.1 > i64::MIN {
        seq![ActionView::Move { delta_x: (-here.0) as i64, delta_y: (-here.1) as i64 }]
    } else {
        Seq::empty()
    }
}

/// The walk to the nearest item tagged `tag`, where it may be taken.
pub open spec fn toward(state: StateView, tag: Seq<char>) -> Seq<ActionView> {
    let walk = ActionView::MoveToNearestItem { target_item_id: tag };
    if walk.prerequisite(state) {
        seq![walk]
    } else {
        Seq::empty()
    }
}

/// Whether an item lies on `here`.
pub open spec fn lies_on(here: (i64, i64)) -> spec_fn(ItemView) -> bool {
    |item: ItemView| item.position == here
}

/// What can be done with an item at hand: a tree is chopped, anything else
/// is picked up.
pub open spec fn handling() -> spec_fn(ItemView) -> ActionView {
    |item: ItemView|
        if item.id == TREE@ {
            ActionView::ChopTree { item }
        } else {
            ActionView::PickUpItem { item }
        }
}

/// One action for each item on the villager's cell, in the order of the
/// items.
pub open spec fn at_hand(state: StateView) -> Seq<ActionView> {
    state.items.filter(lies_on(state.villager.position)).map_values(handling())
}

/// The actions on offer in `state`, in the order in which they are offered:
/// the step home, the walks to the nearest tree, stone and berry, then what
/// can be done with each item at hand.
pub open spec fn available_actions(state: StateView) -> Seq<ActionView> {
    homeward(state) + toward(state, TREE@) + toward(state, STONE@) + toward(state, BERRY@)
        + at_hand(state)
}

/// Whether an action handles an item that lies in `state`. The two kinds
/// of walking handle none.
pub open spec fn handles_present_item(action: ActionView, state: StateView) -> bool {
    match action {
        ActionView::ChopTree { item } => state.items.contains(item),
        ActionView::PickUpItem { item } => state.items.contains(item),
        _ => true,
    }
}

/// Every action on offer may be taken in the state it is offered in. A step
/// on offer ends on the origin, so none leaves the world, and a tree or an
/// item on offer lies in the state.
pub proof fn lemma_offered_is_allowed(state: StateView, i: int)
    requires
        0 <= i < available_actions(state).len(),
    ensures
        available_actions(state)[i].prerequisite(state),
        handles_present_item(available_actions(state)[i], state),
        available_actions(state)[i] matches ActionView::Move { delta_x, delta_y } ==> {
            &&& state.villager.position.0 + delta_x == 0
            &&& state.villager.position.1 + delta_y == 0
        },
{
    let here = state.villager.position;
    let walks = homeward(state) + toward(state, TREE@) + toward(state, STONE@) + toward(
        state,
        BERRY@,
    );
    if i >= walks.len() {
        let k = i - walks.len();
        let kept = state.items.filter(lies_on(here));
        assert(available_actions(state)[i] == handling()(kept[k]));
        state.items.lemma_filter_pred(lies_on(here), k);
        assert(kept.contains(kept[k]));
        state.items.lemma_filter_contains_rev(lies_on(here), kept[k]);
    }
}

/// Why an action was not taken.
#[derive(Debug, PartialEq, Eq, Clone, Copy)]
pub enum ActionError {
    /// The action may not be taken in the state it was asked of.
    PrerequisiteNotMet,
}

/// An action of one of the four kinds.
#[derive(Debug, PartialEq, Eq, Hash)]
pub enum VillagerActionEnum {
    MoveToNearestItemAction(MoveToNearestItemAction),
    MoveAction(MoveAction),
    ChopTreeAction(ChopTreeAction),
    PickUpItemAction(PickUpItemAction),
}

impl View for VillagerActionEnum {
    type V = ActionView;

    open spec fn view(&self) -> ActionView {
        match self {
            VillagerActionEnum::MoveToNearestItemAction(a) => a@,
            VillagerActionEnum::MoveAction(a) => a@,
            VillagerActionEnum::ChopTreeAction(a) => a@,
            VillagerActionEnum::PickUpItemAction(a) => a@,
        }
    }
}

impl DeepView for VillagerActionEnum {
    type V = ActionView;

    open spec fn deep_view(&self) -> ActionView {
        self@
    }
}

impl Clone for VillagerActionEnum {
    fn clone(&self) -> (res: Self)
        ensures
            res@ == self@,
    {
        match self {
            VillagerActionEnum::MoveToNearestItemAction(a) => {
                VillagerActionEnum::MoveToNearestItemAction(a.clone())
            },
            VillagerActionEnum::MoveAction(a) => VillagerActionEnum::MoveAction(a.clone()),
            VillagerActionEnum::ChopTreeAction(a) => VillagerActionEnum::ChopTreeAction(a.clone()),
            VillagerActionEnum::PickUpItemAction(a) => VillagerActionEnum::PickUpItemAction(
                a.clone(),
            ),
        }
    }
}

/// Adds the walk to the nearest item tagged `tag` to `actions` where it may
/// be taken.
fn offer_walk(actions: &mut Vec<VillagerActionEnum>, current_state: &VillageState, tag: &str)
    ensures
        final(actions).deep_view() == old(actions).deep_view() + toward(current_state@, tag@),
{
    let ghost before = actions.deep_view();
    let walk = MoveToNearestItemAction { target_item_id: tag.to_owned() };
    if walk.prerequisite(current_state) {
        actions.push(VillagerActionEnum::MoveToNearestItemAction(walk));
        assert(actions.deep_view() =~= before + seq![walk@]);
    } else {
        assert(actions.deep_view() =~= before + Seq::<ActionView>::empty());
    }
}

impl VillagerActionEnum {
    /// The actions on offer in `current_state`. The list depends on the
    /// state alone and has at most four entries more than there are items
    /// on the villager's cell.
    pub fn generate_available_actions(current_state: &VillageState) -> (actions: Vec<Self>)
        ensures
            actions.deep_view() == available_actions(current_state@),
    {
        let mut available_actions: Vec<Self> = Vec::new();
        let (agent_x, agent_y) = current_state.villager.position;
        let ghost state = current_state@;

        if agent_x > i64::MIN && agent_y > i64::MIN {
            let home = MoveAction { delta_x: -agent_x, delta_y: -agent_y };
            available_actions.push(VillagerActionEnum::MoveAction(home));
        }
        assert(available_actions.deep_view() =~= homeward(state));

        offer_walk(&mut available_actions, current_state, TREE);
        offer_walk(&mut available_actions, current_state, STONE);
        offer_walk(&mut available_actions, current_state, BERRY);

        let ghost head = available_actions.deep_view();
        let ghost here = (agent_x, agent_y);
        assert(state.items.take(0).filter(lies_on(here)) =~= Seq::<ItemView>::empty()) by {
            reveal(Seq::filter);
        }
        assert(available_actions.deep_view() =~= head + state.items.take(0).filter(
            lies_on(here),
        ).map_values(handling()));
        let mut i: usize = 0;
        while i < current_state.items.len()
            invariant
                i <= current_state.items.len(),
                state == current_state@,
                here == (agent_x, agent_y),
                available_actions.deep_view() == head + state.items.take(i as int).filter(
                    lies_on(here),
                ).map_values(handling()),
            decreases current_state.items.len() - i,
        {
            let item = &current_state.items[i];
            let ghost done = state.items.take(i as int);
            let ghost offered = available_actions.deep_view();
            proof {
                assert(item@ == state.items[i as int]);
                assert(state.items.take(i + 1) =~= done.push(item@));
                done.lemma_filter_push(item@, lies_on(here));
            }
            if item.position.0 == agent_x && item.position.1 == agent_y {
                let action = if tag_is(&item.id, TREE) {
                    VillagerActionEnum::ChopTreeAction(ChopTreeAction { item: item.clone() })
                } else {
                    VillagerActionEnum::PickUpItemAction(PickUpItemAction { item: item.clone() })
                };
                assert(action@ == handling()(item@));
                available_actions.push(action);
                proof {
                    let kept = done.filter(lies_on(here));
                    assert(lies_on(here)(item@));
                    assert(available_actions.deep_view() =~= offered.push(action@));
                    assert(kept.push(item@).map_values(handling()) =~= kept.map_values(
                        handling(),
                    ).push(action@));
                    assert((head + kept.map_values(handling())).push(action@) =~= head
                        + kept.map_values(handling()).push(action@));
                }
            } else {
                assert(!lies_on(here)(item@));
            }
            i += 1;
        }
        assert(state.items.take(i as int) =~= state.items);
        assert(here == state.villager.position);
        available_actions
    }

    /// The state that taking the action in `current_state` leads to.
    pub fn act(&self, current_state: VillageState) -> (new_state: VillageState)
        requires
            self@.prerequisite(current_state@),
        ensures
            new_state@ == self@.effect(current_state@),
    {
        match self {
            VillagerActionEnum::MoveToNearestItemAction(a) => a.act(current_state),
            VillagerActionEnum::MoveAction(a) => a.act(current_state),
            VillagerActionEnum::ChopTreeAction(a) => a.act(current_state),
            VillagerActionEnum::PickUpItemAction(a) => a.act(current_state),
        }
    }

    /// Takes the action where it may be taken, and says so where it may
    /// not: the state in hand is then given up and nothing comes of it.
    pub fn try_act(&self, current_state: VillageState) -> (result: Result<VillageState, ActionError>)
        ensures
            match result {
                Ok(new_state) => {
                    &&& self@.prerequisite(current_state@)
                    &&& new_state@ == self@.effect(current_state@)
                },
                Err(error) => {
                    &&& !self@.prerequisite(current_state@)
                    &&& error == ActionError::PrerequisiteNotMet
                },
            },
    {
        if self.prerequisite(&current_state) {
            Ok(self.act(current_state))
        } else {
            Err(ActionError::PrerequisiteNotMet)
        }
    }

    /// What taking the action costs.
    pub fn cost(&self) -> (cost: u64)
        ensures
            cost == self@.cost(),
    {
        match self {
            VillagerActionEnum::MoveToNearestItemAction(a) => a.cost(),
            VillagerActionEnum::MoveAction(a) => a.cost(),
            VillagerActionEnum::ChopTreeAction(a) => a.cost(),
            VillagerActionEnum::PickUpItemAction(a) => a.cost(),
        }
    }

    /// Whether the action may be taken in `current_state`.
    pub fn prerequisite(&self, current_state: &VillageState) -> (allowed: bool)
        ensures
            allowed == self@.prerequisite(current_state@),
    {
        match self {
            VillagerActionEnum::MoveToNearestItemAction(a) => a.prerequisite(current_state),
            VillagerActionEnum::MoveAction(a) => a.prerequisite(current_state),
            VillagerActionEnum::ChopTreeAction(a) => a.prerequisite(current_state),
            VillagerActionEnum::PickUpItemAction(a) => a.prerequisite(current_state),
        }
    }
}

} // verus!
