use crate::actions::{
    available_actions, lemma_offered_is_allowed, ActionView, StateView, VillageState,
    VillagerActionEnum,
};
use crate::goals::Goal;
use vstd::prelude::*;

verus! {

/// The mathematical value of a [`Node`].
pub struct NodeView {
    pub state: StateView,
    pub action: Option<ActionView>,
}

/// A state met during a search, with the action that led to it. Only the
/// node a search starts from has no action.
#[derive(Debug, PartialEq, Eq, Hash)]
pub struct Node {
    pub state: VillageState,
    pub action: Option<VillagerActionEnum>,
}

impl View for Node {
    type V = NodeView;

    open spec fn view(&self) -> NodeView {
        NodeView {
            state: self.state@,
            action: match self.action {
                Some(action) => Some(action@),
                None => None,
            },
        }
    }
}

impl DeepView for Node {
    type V = NodeView;

    open spec fn deep_view(&self) -> NodeView {
        self@
    }
}

impl Clone for Node {
    fn clone(&self) -> (res: Self)
        ensures
            res@ == self@,
    {
        let action = match &self.action {
            Some(action) => Some(action.clone()),
            None => None,
        };
        Node { state: self.state.clone(), action }
    }
}

/// The node that taking `action` in `state` leads to, with what that costs.
pub open spec fn edge_from(state: StateView) -> spec_fn(ActionView) -> (NodeView, u128) {
    |action: ActionView|
        (NodeView { state: action.effect(state), action: Some(action) }, action.cost() as u128)
}

/// The nodes that can be reached from `node` in one action, each with the
/// cost of that action, in the order in which the actions are offered.
pub open spec fn successor_edges(node: NodeView) -> Seq<(NodeView, u128)> {
    available_actions(node.state).map_values(edge_from(node.state))
}

/// What it cost to enter `node`: the cost of its action, nothing for a node
/// without one.
pub open spec fn entry_cost(node: NodeView) -> nat {
    match node.action {
        Some(action) => action.cost(),
        None => 0,
    }
}

/// Whether `to` is one of the nodes that can be reached from `from` in one
/// action.
pub open spec fn is_link(from: NodeView, to: NodeView) -> bool {
    exists|k: int| 0 <= k < successor_edges(from).len() && #[trigger] successor_edges(from)[k].0 == to
}

/// Whether `path` starts at `start` and goes on from each node to one that
/// can be reached from it in one action.
pub open spec fn is_walk(start: NodeView, path: Seq<NodeView>) -> bool {
    &&& path.len() > 0
    &&& path[0] == start
    &&& forall|i: int| 0 <= i < path.len() - 1 ==> is_link(#[trigger] path[i], path[i + 1])
}

/// Whether `path` is a walk from `start` that ends in a state goal-equal to
/// `goal`.
pub open spec fn is_route(start: NodeView, goal: StateView, path: Seq<NodeView>) -> bool {
    is_walk(start, path) && path.last().state.goal_equal(goal)
}

/// The cost of a path: what it cost to enter each node after the first.
pub open spec fn route_cost(path: Seq<NodeView>) -> nat
    decreases path.len(),
{
    if path.len() <= 1 {
        0
    } else {
        route_cost(path.drop_last()) + entry_cost(path.last())
    }
}

/// The nodes that can be reached from `node` in one action, each with the
/// cost of that action. Costs are handed out as `u128` so that they can be
/// summed over any path that fits in memory.
pub fn successors(node: &Node) -> (edges: Vec<(Node, u128)>)
    ensures
        edges.deep_view() == successor_edges(node@),
{
    let actions: Vec<VillagerActionEnum> = VillagerActionEnum::generate_available_actions(
        &node.state,
    );
    let ghost offered = actions.deep_view();
    let ghost state = node.state@;
    let mut edges: Vec<(Node, u128)> = Vec::new();
    let mut i: usize = 0;
    assert(edges.deep_view() =~= offered.take(0).map_values(edge_from(state)));
    while i < actions.len()
        invariant
            i <= actions.len(),
            offered == actions.deep_view(),
            offered == available_actions(state),
            state == node.state@,
            edges.deep_view() == offered.take(i as int).map_values(edge_from(state)),
        decreases actions.len() - i,
    {
        let agent_action = &actions[i];
        let ghost before = edges.deep_view();
        proof {
            assert(agent_action@ == offered[i as int]);
            lemma_offered_is_allowed(state, i as int);
        }
        let new_state = agent_action.act(node.state.clone());
        let cost = agent_action.cost() as u128;
        let next_node = Node { state: new_state, action: Some(agent_action.clone()) };
        edges.push((next_node, cost));
        proof {
            assert(edges.deep_view() =~= before.push(edge_from(state)(offered[i as int])));
            assert(offered.take(i + 1) =~= offered.take(i as int).push(offered[i as int]));
            assert(offered.take(i + 1).map_values(edge_from(state)) =~= offered.take(
                i as int,
            ).map_values(edge_from(state)).push(edge_from(state)(offered[i as int])));
        }
        i += 1;
    }
    assert(offered.take(i as int) =~= offered);
    edges
}

/// The least that reaching the goal from a node may still cost, as far as
/// the search is told: nothing. The search with it is a uniform-cost one.
pub fn heuristic(_node: &Node) -> (estimate: u128)
    ensures
        estimate == 0,
{
    0
}

/// Whether `state` is goal-equal to `goal_state`.
pub fn success(state: &VillageState, goal_state: &VillageState) -> (reached: bool)
    ensures
        reached == state@.goal_equal(goal_state@),
{
    state.compare(goal_state)
}

/// What the search returns for a start node and a goal state: the path it
/// settles on among the cheapest, with its cost, or nothing. The search
/// works through the successors in the order in which they are handed to
/// it and draws on nothing else, so the same start and goal always give the
/// same path.
pub uninterp spec fn searched_route(start: NodeView, goal: StateView) -> Option<
    (Seq<NodeView>, u128),
>;

/// The views of a path and its cost, where there is one.
pub open spec fn route_view(found: Option<(Vec<Node>, u128)>) -> Option<(Seq<NodeView>, u128)> {
    match found {
        Some((path, cost)) => Some((path.deep_view(), cost)),
        None => None,
    }
}

/// The cheapest path from `start` to a node whose state is goal-equal to
/// `goal_state`, with its cost, or nothing where no path leads to one.
///
/// This is `pathfinding::directed::astar::astar`, called with
/// [`successors`], [`heuristic`] and [`success`], and nothing here is proved
/// of it. The contract restates what that function documents: the path
/// holds the start and the end node, each node after the first is one of
/// the successors of the node before it, the end node passes the test, the
/// cost is the sum of the costs that came with the successors, and no path
/// to a node that passes the test is cheaper. With an estimate that is
/// always zero and costs that are never negative the search is a
/// uniform-cost one, for which that holds. It gives up only when it has
/// seen every node that can be reached.
///
/// The search returns because only finitely many nodes can be reached from
/// any start: a villager only ever stands on the origin, on its first cell
/// or on the cell of an item; chopping and picking up use up items (see
/// `lemma_work_left_runs_out` among the laws); and nothing else changes the
/// items or the inventory. Its sums do not overflow: each cost is below
/// 2^64 and fewer than 2^64 nodes fit in memory.
#[verifier::external_body]
fn cheapest_route(start: &Node, goal_state: &VillageState) -> (found: Option<(Vec<Node>, u128)>)
    ensures
        route_view(found) == searched_route(start@, goal_state@),
        match found {
            Some((path, cost)) => {
                &&& is_route(start@, goal_state@, path.deep_view())
                &&& cost == route_cost(path.deep_view())
                &&& forall|other: Seq<NodeView>| #[trigger]
                    is_route(start@, goal_state@, other) ==> cost <= route_cost(other)
            },
            None => forall|other: Seq<NodeView>| !#[trigger] is_route(start@, goal_state@, other),
        },
{
    pathfinding::directed::astar::astar(
        start,
        successors,
        heuristic,
        |node| success(&node.state, goal_state),
    )
}

/// The state that taking `actions` one after the other leads to from
/// `start`.
pub open spec fn replay(start: StateView, actions: Seq<ActionView>) -> StateView
    decreases actions.len(),
{
    if actions.len() == 0 {
        start
    } else {
        actions.last().effect(replay(start, actions.drop_last()))
    }
}

/// Whether each of `actions` is on offer in the state that the actions
/// before it lead to from `start`.
pub open spec fn on_offer(start: StateView, actions: Seq<ActionView>) -> bool
    decreases actions.len(),
{
    actions.len() == 0 || {
        &&& on_offer(start, actions.drop_last())
        &&& available_actions(replay(start, actions.drop_last())).contains(actions.last())
    }
}

/// The sum of the costs of `actions`.
pub open spec fn total_cost(actions: Seq<ActionView>) -> nat
    decreases actions.len(),
{
    if actions.len() == 0 {
        0
    } else {
        total_cost(actions.drop_last()) + actions.last().cost()
    }
}

/// Whether `actions` can be taken one after the other from `start` and end
/// in a state goal-equal to `goal`.
pub open spec fn achieves(start: StateView, goal: StateView, actions: Seq<ActionView>) -> bool {
    on_offer(start, actions) && replay(start, actions).goal_equal(goal)
}

/// Whether `found` is what a planner owes for `start` and `goal`: a
/// cheapest list of actions that achieves the goal, or nothing exactly
/// where no list of actions achieves it.
pub open spec fn is_outcome(start: StateView, goal: StateView, found: Option<Seq<ActionView>>) -> bool {
    match found {
        Some(actions) => {
            &&& achieves(start, goal, actions)
            &&& forall|other: Seq<ActionView>| #[trigger]
                achieves(start, goal, other) ==> total_cost(actions) <= total_cost(other)
        },
        None => forall|other: Seq<ActionView>| !#[trigger] achieves(start, goal, other),
    }
}

/// The actions of the nodes of `path` that have one, in order.
pub open spec fn actions_along(path: Seq<NodeView>) -> Seq<ActionView>
    decreases path.len(),
{
    if path.len() == 0 {
        Seq::empty()
    } else {
        match path.last().action {
            Some(action) => actions_along(path.drop_last()).push(action),
            None => actions_along(path.drop_last()),
        }
    }
}

/// The node a search starts from in `state`.
pub open spec fn start_node(state: StateView) -> NodeView {
    NodeView { state, action: None }
}

/// The path of nodes that taking `actions` one after the other from `start`
/// goes through.
pub open spec fn path_along(start: StateView, actions: Seq<ActionView>) -> Seq<NodeView>
    decreases actions.len(),
{
    if actions.len() == 0 {
        seq![start_node(start)]
    } else {
        path_along(start, actions.drop_last()).push(
            NodeView { state: replay(start, actions), action: Some(actions.last()) },
        )
    }
}

/// The actions along a walk from the start node are on offer one after the
/// other, lead to the state of the walk's last node, and cost what the walk
/// costs.
pub proof fn lemma_walk_is_replayed(start: StateView, path: Seq<NodeView>)
    requires
        is_walk(start_node(start), path),
    ensures
        on_offer(start, actions_along(path)),
        replay(start, actions_along(path)) == path.last().state,
        total_cost(actions_along(path)) == route_cost(path),
        actions_along(path).len() == path.len() - 1,
    decreases path.len(),
{
    let shorter = path.drop_last();
    if path.len() == 1 {
        assert(actions_along(shorter) =~= Seq::<ActionView>::empty());
        assert(actions_along(path) =~= Seq::<ActionView>::empty());
    } else {
        assert(is_walk(start_node(start), shorter)) by {
            assert forall|i: int| 0 <= i < shorter.len() - 1 implies is_link(
                #[trigger] shorter[i],
                shorter[i + 1],
            ) by {
                assert(is_link(path[i], path[i + 1]));
            }
        }
        lemma_walk_is_replayed(start, shorter);
        let from = path[path.len() - 2];
        assert(is_link(from, path[path.len() - 2 + 1]));
        assert(from == shorter.last());
        let k = choose|k: int|
            0 <= k < successor_edges(from).len() && #[trigger] successor_edges(from)[k].0
                == path.last();
        let action = available_actions(from.state)[k];
        assert(path.last() == NodeView { state: action.effect(from.state), action: Some(action) });
        let taken = actions_along(shorter);
        assert(actions_along(path) == taken.push(action));
        assert(taken.push(action).drop_last() =~= taken);
        assert(available_actions(from.state).contains(action));
    }
}

/// Actions that are on offer one after the other go through a walk from the
/// start node that ends in the state they lead to and costs what they cost.
pub proof fn lemma_replay_is_walked(start: StateView, actions: Seq<ActionView>)
    requires
        on_offer(start, actions),
    ensures
        is_walk(start_node(start), path_along(start, actions)),
        path_along(start, actions).len() == actions.len() + 1,
        path_along(start, actions).last().state == replay(start, actions),
        route_cost(path_along(start, actions)) == total_cost(actions),
    decreases actions.len(),
{
    let path = path_along(start, actions);
    if actions.len() > 0 {
        let earlier = actions.drop_last();
        let shorter = path_along(start, earlier);
        lemma_replay_is_walked(start, earlier);
        let from = shorter.last();
        let node = NodeView { state: replay(start, actions), action: Some(actions.last()) };
        assert(path == shorter.push(node));
        assert(path.drop_last() =~= shorter);
        let k = choose|k: int|
            0 <= k < available_actions(from.state).len() && available_actions(from.state)[k]
                == actions.last();
        assert(successor_edges(from)[k].0 == node);
        assert(is_link(from, node));
        assert forall|i: int| 0 <= i < path.len() - 1 implies is_link(
            #[trigger] path[i],
            path[i + 1],
        ) by {
            if i < shorter.len() - 1 {
                assert(is_link(shorter[i], shorter[i + 1]));
            }
        }
    }
}

/// The actions of the nodes of `path` that have one, in order.
pub fn actions_of(path: &Vec<Node>) -> (actions: Vec<VillagerActionEnum>)
    ensures
        actions.deep_view() == actions_along(path.deep_view()),
{
    let ghost nodes = path.deep_view();
    let mut actions: Vec<VillagerActionEnum> = Vec::new();
    let mut i: usize = 0;
    assert(actions.deep_view() =~= actions_along(nodes.take(0)));
    while i < path.len()
        invariant
            i <= path.len(),
            nodes == path.deep_view(),
            actions.deep_view() == actions_along(nodes.take(i as int)),
        decreases path.len() - i,
    {
        let ghost before = actions.deep_view();
        proof {
            assert(nodes.take(i + 1).drop_last() =~= nodes.take(i as int));
            assert(nodes.take(i + 1).last() == path[i as int]@);
        }
        match &path[i].action {
            Some(action) => {
                actions.push(action.clone());
                assert(actions.deep_view() =~= before.push(action@));
            },
            None => {},
        }
        i += 1;
    }
    assert(nodes.take(i as int) =~= nodes);
    actions
}

/// Why no plan came back.
#[derive(Debug, PartialEq, Eq, Clone, Copy)]
pub enum PlanError {
    /// There was no goal to plan for.
    EmptyGoalSet,
}

/// Whether `goals[i]` is the goal to plan for in `state`: none scores
/// higher, and none before it scores as high.
pub open spec fn is_most_urgent<G: Goal + ?Sized>(
    goals: Seq<Box<G>>,
    state: StateView,
    i: int,
) -> bool {
    &&& 0 <= i < goals.len()
    &&& forall|j: int|
        0 <= j < goals.len() ==> (#[trigger] goals[j]).urgency(state) <= goals[i].urgency(state)
    &&& forall|j: int| 0 <= j < i ==> (#[trigger] goals[j]).urgency(state) < goals[i].urgency(state)
}

/// Only one goal can be the one to plan for.
pub proof fn lemma_most_urgent_unique<G: Goal + ?Sized>(
    goals: Seq<Box<G>>,
    state: StateView,
    i: int,
    j: int,
)
    requires
        is_most_urgent(goals, state, i),
        is_most_urgent(goals, state, j),
    ensures
        i == j,
{
    if i < j {
        assert(goals[i].urgency(state) < goals[j].urgency(state));
        assert(goals[j].urgency(state) <= goals[i].urgency(state));
    } else if j < i {
        assert(goals[j].urgency(state) < goals[i].urgency(state));
        assert(goals[i].urgency(state) <= goals[j].urgency(state));
    }
}

/// The index of the goal that scores highest in `current_state`, the first
/// of them where several score the same. Nothing where there is no goal.
pub fn most_urgent<G: Goal + ?Sized>(current_state: &VillageState, goals: &[Box<G>]) -> (chosen: Option<
    usize,
>)
    ensures
        goals@.len() == 0 <==> chosen is None,
        chosen matches Some(i) ==> is_most_urgent(goals@, current_state@, i as int),
{
    if goals.len() == 0 {
        return None;
    }
    let mut best: usize = 0;
    let mut best_priority: i64 = goals[0].priority(current_state);
    let mut i: usize = 1;
    while i < goals.len()
        invariant
            1 <= i <= goals.len(),
            best < i,
            best_priority == goals@[best as int].urgency(current_state@),
            forall|j: int|
                0 <= j < i ==> (#[trigger] goals@[j]).urgency(current_state@) <= best_priority,
            forall|j: int|
                0 <= j < best ==> (#[trigger] goals@[j]).urgency(current_state@) < best_priority,
        decreases goals.len() - i,
    {
        let priority = goals[i].priority(current_state);
        if priority > best_priority {
            best = i;
            best_priority = priority;
        }
        i += 1;
    }
    Some(best)
}

/// The plan that the search settles on from `start` for `goal`: the
/// actions along [`searched_route`], or nothing where the search finds no
/// path.
pub open spec fn planned(start: StateView, goal: StateView) -> Option<Seq<ActionView>> {
    match searched_route(start_node(start), goal) {
        Some((path, _)) => Some(actions_along(path)),
        None => None,
    }
}

/// The views of the actions of a plan, where there is one.
pub open spec fn found_view(found: Option<Vec<VillagerActionEnum>>) -> Option<Seq<ActionView>> {
    match found {
        Some(actions) => Some(actions.deep_view()),
        None => None,
    }
}

/// Plans for the most urgent of `goals` from `current_state`: a cheapest
/// list of actions, each on offer where it is taken, that ends in a state
/// goal-equal to what that goal asks for; `None` where no list of actions
/// gets there; an error where there is no goal. Which of several cheapest
/// lists comes back is up to the search, and is the same each time.
pub fn plan<G: Goal + ?Sized>(current_state: VillageState, goals: &[Box<G>]) -> (result: Result<
    Option<Vec<VillagerActionEnum>>,
    PlanError,
>)
    ensures
        match result {
            Ok(found) => exists|i: int|
                {
                    &&& #[trigger] is_most_urgent(goals@, current_state@, i)
                    &&& is_outcome(
                        current_state@,
                        goals@[i].target(current_state@),
                        found_view(found),
                    )
                    &&& found_view(found) == planned(
                        current_state@,
                        goals@[i].target(current_state@),
                    )
                },
            Err(error) => goals@.len() == 0 && error == PlanError::EmptyGoalSet,
        },
        goals@.len() == 0 ==> result is Err,
{
    let chosen = match most_urgent(&current_state, goals) {
        Some(chosen) => chosen,
        None => {
            return Err(PlanError::EmptyGoalSet);
        },
    };
    let goal_state = goals[chosen].goal_state(current_state.clone());
    let ghost origin = current_state@;
    let ghost goal = goal_state@;
    let start = Node { state: current_state, action: None };
    assert(start@ == start_node(origin));
    match cheapest_route(&start, &goal_state) {
        Some((best_path, cost)) => {
            let actions = actions_of(&best_path);
            proof {
                let path = best_path.deep_view();
                lemma_walk_is_replayed(origin, path);
                assert forall|other: Seq<ActionView>| #[trigger]
                    achieves(origin, goal, other) implies total_cost(actions.deep_view())
                    <= total_cost(other) by {
                    lemma_replay_is_walked(origin, other);
                    assert(is_route(start@, goal, path_along(origin, other)));
                }
                assert(is_most_urgent(goals@, origin, chosen as int));
            }
            Ok(Some(actions))
        },
        None => {
            proof {
                assert forall|other: Seq<ActionView>| !#[trigger] achieves(
                    origin,
                    goal,
                    other,
                ) by {
                    if achieves(origin, goal, other) {
                        lemma_replay_is_walked(origin, other);
                        assert(is_route(start@, goal, path_along(origin, other)));
                    }
                }
                assert(is_most_urgent(goals@, origin, chosen as int));
            }
            Ok(None)
        },
    }
}

} // verus!
