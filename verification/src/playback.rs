use crate::actions::{ActionView, StateView, VillageState, VillagerActionEnum};
use crate::math::{floor_sqrt, integer_sqrt, squared_distance};
use crate::villager::VillagerView;
use vstd::prelude::*;

verus! {

/// Whether `to` is `from` itself or one of the eight cells around it.
pub open spec fn is_king_step(from: (i64, i64), to: (i64, i64)) -> bool {
    -1 <= to.0 - from.0 <= 1 && -1 <= to.1 - from.1 <= 1
}

/// Whether `cells` leads from `from` to `to` with every cell next to the one
/// before it.
pub open spec fn is_king_walk(cells: Seq<(i64, i64)>, from: (i64, i64), to: (i64, i64)) -> bool {
    &&& cells.len() > 0
    &&& cells[0] == from
    &&& cells.last() == to
    &&& forall|i: int| 0 <= i < cells.len() - 1 ==> is_king_step(#[trigger] cells[i], cells[i + 1])
}

/// The cell at `(x, y)` with the cost of stepping onto it, where both
/// coordinates are `i64`s.
pub open spec fn cell_within(x: int, y: int) -> Seq<((i64, i64), u128)> {
    if i64::MIN <= x <= i64::MAX && i64::MIN <= y <= i64::MAX {
        seq![((x as i64, y as i64), 1u128)]
    } else {
        Seq::empty()
    }
}

/// The cells of the column at `x` that are next to the row `y`, from the
/// one below to the one above.
pub open spec fn column_around(x: int, y: int) -> Seq<((i64, i64), u128)> {
    cell_within(x, y - 1) + cell_within(x, y) + cell_within(x, y + 1)
}

/// The cell itself and the eight around it, column by column, each at the
/// cost of one step. Cells beyond what an `i64` can hold are left out.
pub open spec fn neighbour_edges(cell: (i64, i64)) -> Seq<((i64, i64), u128)> {
    column_around(cell.0 - 1, cell.1 as int) + column_around(cell.0 as int, cell.1 as int)
        + column_around(cell.0 + 1, cell.1 as int)
}

/// Adds the cells of one column around the row `y` to `edges`.
fn push_column(edges: &mut Vec<((i64, i64), u128)>, x: Option<i64>, y: i64)
    ensures
        final(edges).deep_view() == old(edges).deep_view() + match x {
            Some(x) => column_around(x as int, y as int),
            None => Seq::empty(),
        },
{
    let ghost before = edges.deep_view();
    match x {
        Some(x) => {
            if let Some(below) = y.checked_sub(1) {
                edges.push(((x, below), 1));
            }
            assert(edges.deep_view() =~= before + cell_within(x as int, y - 1));
            edges.push(((x, y), 1));
            if let Some(above) = y.checked_add(1) {
                edges.push(((x, above), 1));
            }
            assert(edges.deep_view() =~= before + column_around(x as int, y as int));
        },
        None => {
            assert(edges.deep_view() =~= before + Seq::<((i64, i64), u128)>::empty());
        },
    }
}

/// The cells that one step leads to from `cell`, each at the cost of one
/// step, see [`neighbour_edges`].
pub fn neighbours(cell: &(i64, i64)) -> (edges: Vec<((i64, i64), u128)>)
    ensures
        edges.deep_view() == neighbour_edges(*cell),
        forall|i: int| 0 <= i < edges.len() ==> is_king_step(*cell, (#[trigger] edges[i]).0),
{
    let mut edges: Vec<((i64, i64), u128)> = Vec::new();
    assert(edges.deep_view() =~= Seq::<((i64, i64), u128)>::empty());
    push_column(&mut edges, cell.0.checked_sub(1), cell.1);
    push_column(&mut edges, Some(cell.0), cell.1);
    push_column(&mut edges, cell.0.checked_add(1), cell.1);
    assert(edges.deep_view() =~= neighbour_edges(*cell));
    assert forall|i: int| 0 <= i < edges.len() implies is_king_step(
        *cell,
        (#[trigger] edges[i]).0,
    ) by {
        assert(edges.deep_view()[i] == edges[i]);
    }
    edges
}

/// The largest number that [`crow_flight`] takes a root of.
pub open spec fn capped(square: int) -> nat {
    if square > u128::MAX {
        u128::MAX as nat
    } else if square < 0 {
        0
    } else {
        square as nat
    }
}

/// The straight-line distance from `cell` to `to`, rounded down: the
/// estimate that steers the search for a way across the grid. Squares
/// beyond a `u128` count as the largest `u128`.
pub fn crow_flight(cell: &(i64, i64), to: &(i64, i64)) -> (distance: u128)
    ensures
        distance == floor_sqrt(capped(squared_distance(*cell, *to))),
{
    let gap_x: u128 = if cell.0 >= to.0 {
        (cell.0 as i128 - to.0 as i128) as u128
    } else {
        (to.0 as i128 - cell.0 as i128) as u128
    };
    let gap_y: u128 = if cell.1 >= to.1 {
        (cell.1 as i128 - to.1 as i128) as u128
    } else {
        (to.1 as i128 - cell.1 as i128) as u128
    };
    assert(gap_x * gap_x <= 0xffff_ffff_ffff_ffff * 0xffff_ffff_ffff_ffff) by (nonlinear_arith)
        requires
            0 <= gap_x <= 0xffff_ffff_ffff_ffff,
    ;
    assert(gap_y * gap_y <= 0xffff_ffff_ffff_ffff * 0xffff_ffff_ffff_ffff) by (nonlinear_arith)
        requires
            0 <= gap_y <= 0xffff_ffff_ffff_ffff,
    ;
    assert(gap_x * gap_x == (cell.0 - to.0) * (cell.0 - to.0)) by (nonlinear_arith)
        requires
            gap_x == cell.0 - to.0 || gap_x == to.0 - cell.0,
    ;
    assert(gap_y * gap_y == (cell.1 - to.1) * (cell.1 - to.1)) by (nonlinear_arith)
        requires
            gap_y == cell.1 - to.1 || gap_y == to.1 - cell.1,
    ;
    let square_x: u128 = gap_x * gap_x;
    let square_y: u128 = gap_y * gap_y;
    let square: u128 = if square_x > u128::MAX - square_y {
        u128::MAX
    } else {
        square_x + square_y
    };
    integer_sqrt(square) as u128
}

/// Whether `cell` is `to`.
pub fn arrived(cell: &(i64, i64), to: &(i64, i64)) -> (there: bool)
    ensures
        there == (*cell == *to),
{
    cell.0 == to.0 && cell.1 == to.1
}

/// A way across the grid from `from` to `to`, one cell at a time, with the
/// number of steps, or nothing where the search finds none.
///
/// This is `pathfinding::directed::astar::astar`, called with
/// [`neighbours`], [`crow_flight`] and [`arrived`], and nothing here is
/// proved of it. The contract claims only what holds of any path that this
/// search hands out: it starts on `from`, ends on a cell that passes the
/// test, which only `to` does, and each cell is one that `neighbours` gave
/// for the cell before it. It does not claim that the way is a shortest
/// one: the estimate may overshoot, as a step across a corner counts one.
/// The search returns because there are finitely many cells, and its sums
/// do not overflow: each step costs one and fewer than 2^64 cells fit in
/// memory.
#[verifier::external_body]
fn grid_route(from: &(i64, i64), to: &(i64, i64)) -> (found: Option<(Vec<(i64, i64)>, u128)>)
    ensures
        found matches Some((cells, _)) ==> is_king_walk(cells@, *from, *to),
{
    pathfinding::directed::astar::astar(
        from,
        neighbours,
        |cell| crow_flight(cell, to),
        |cell| arrived(cell, to),
    )
}

/// What one tick of a playback did.
#[derive(Debug, PartialEq, Eq, Clone, Copy)]
pub enum Progress {
    /// The villager went one cell further on its way.
    Stepped,
    /// A walk to the nearest item was begun: the way there is laid out.
    Routed,
    /// An action other than a walk to the nearest item was taken.
    Acted,
    /// The next action may not be taken in the state that has been
    /// reached: nothing was done.
    Refused,
    /// No action is left.
    Finished,
}

/// The mathematical value of a [`Playback`].
pub struct PlaybackView {
    /// The world as it is shown.
    pub state: StateView,
    /// The plan that is played back.
    pub plan: Seq<ActionView>,
    /// How many actions of the plan have been begun.
    pub begun: nat,
    /// The cells that the villager still has to step on, the next one last.
    pub movement_left: Seq<(i64, i64)>,
}

/// A plan that is played back against a world one tick at a time. A walk to
/// the nearest item is not taken in one go: the villager steps from cell to
/// cell, one per tick.
pub struct Playback {
    state: VillageState,
    plan: Vec<VillagerActionEnum>,
    begun: usize,
    movement_left: Vec<(i64, i64)>,
}

impl View for Playback {
    type V = PlaybackView;

    closed spec fn view(&self) -> PlaybackView {
        PlaybackView {
            state: self.state@,
            plan: self.plan.deep_view(),
            begun: self.begun as nat,
            movement_left: self.movement_left@,
        }
    }
}

/// `state` with the villager on `cell`.
pub open spec fn standing_on(state: StateView, cell: (i64, i64)) -> StateView {
    StateView { villager: VillagerView { position: cell, ..state.villager }, ..state }
}

/// Whether a way is either not laid out at all or leads from `from` to
/// `to`.
pub open spec fn is_way_or_nothing(cells: Seq<(i64, i64)>, from: (i64, i64), to: (i64, i64)) -> bool {
    cells.len() == 0 || is_king_walk(cells, from, to)
}

impl Playback {
    /// A playback of `plan` that starts in `state` with no action begun.
    pub fn new(state: VillageState, plan: Vec<VillagerActionEnum>) -> (playback: Self)
        ensures
            playback@ == (PlaybackView {
                state: state@,
                plan: plan.deep_view(),
                begun: 0,
                movement_left: Seq::empty(),
            }),
    {
        Playback { state, plan, begun: 0, movement_left: Vec::new() }
    }

    /// The world as it is to be shown.
    pub fn state(&self) -> (state: &VillageState)
        ensures
            state@ == self@.state,
    {
        &self.state
    }

    /// Whether no step and no action is left.
    pub fn is_finished(&self) -> (finished: bool)
        ensures
            finished == (self@.movement_left.len() == 0 && self@.begun >= self@.plan.len()),
    {
        self.movement_left.len() == 0 && self.begun >= self.plan.len()
    }

    /// Lays out the way that a search found, or none where it found
    /// nothing, and counts the walk as begun.
    fn lay_out(&mut self, found: Option<(Vec<(i64, i64)>, u128)>)
        requires
            old(self)@.begun < old(self)@.plan.len(),
            old(self)@.movement_left.len() == 0,
        ensures
            final(self)@ == (PlaybackView {
                begun: old(self)@.begun + 1,
                movement_left: match found {
                    Some((cells, _)) => cells@,
                    None => Seq::empty(),
                },
                ..old(self)@
            }),
    {
        assert(self.plan.deep_view().len() == self.plan.len());
        match found {
            Some((cells, _)) => {
                self.movement_left = cells;
            },
            None => {
                assert(self.movement_left@ =~= Seq::<(i64, i64)>::empty());
            },
        }
        self.begun = self.begun + 1;
    }

    /// Does what is due at one tick. While a way is laid out, the villager
    /// takes its next cell. Else the next action of the plan is begun,
    /// where it may be taken: a walk to the nearest item lays out the way
    /// from where the villager stands to that item, back to front, and
    /// leaves the villager where it is; any other action is taken at once.
    /// An action that may not be taken is refused and stays the next one.
    pub fn tick(&mut self) -> (progress: Progress)
        ensures
            final(self)@.plan == old(self)@.plan,
            match progress {
                Progress::Stepped => {
                    &&& old(self)@.movement_left.len() > 0
                    &&& final(self)@ == (PlaybackView {
                        state: standing_on(old(self)@.state, old(self)@.movement_left.last()),
                        movement_left: old(self)@.movement_left.drop_last(),
                        ..old(self)@
                    })
                },
                Progress::Routed => {
                    &&& old(self)@.movement_left.len() == 0
                    &&& old(self)@.begun < old(self)@.plan.len()
                    &&& old(self)@.plan[old(self)@.begun as int] is MoveToNearestItem
                    &&& old(self)@.plan[old(self)@.begun as int].prerequisite(old(self)@.state)
                    &&& final(self)@.state == old(self)@.state
                    &&& final(self)@.begun == old(self)@.begun + 1
                    &&& is_way_or_nothing(
                        final(self)@.movement_left,
                        old(self)@.plan[old(self)@.begun as int].effect(
                            old(self)@.state,
                        ).villager.position,
                        old(self)@.state.villager.position,
                    )
                },
                Progress::Acted => {
                    &&& old(self)@.movement_left.len() == 0
                    &&& old(self)@.begun < old(self)@.plan.len()
                    &&& !(old(self)@.plan[old(self)@.begun as int] is MoveToNearestItem)
                    &&& old(self)@.plan[old(self)@.begun as int].prerequisite(old(self)@.state)
                    &&& final(self)@ == (PlaybackView {
                        state: old(self)@.plan[old(self)@.begun as int].effect(old(self)@.state),
                        begun: old(self)@.begun + 1,
                        ..old(self)@
                    })
                },
                Progress::Refused => {
                    &&& old(self)@.movement_left.len() == 0
                    &&& old(self)@.begun < old(self)@.plan.len()
                    &&& !old(self)@.plan[old(self)@.begun as int].prerequisite(old(self)@.state)
                    &&& final(self)@ == old(self)@
                },
                Progress::Finished => {
                    &&& old(self)@.movement_left.len() == 0
                    &&& old(self)@.begun >= old(self)@.plan.len()
                    &&& final(self)@ == old(self)@
                },
            },
    {
        if let Some(cell) = self.movement_left.pop() {
            self.state.villager.position = cell;
            return Progress::Stepped;
        }
        if self.begun >= self.plan.len() {
            return Progress::Finished;
        }
        let current_action = &self.plan[self.begun];
        assert(current_action@ == self@.plan[self@.begun as int]);
        if !current_action.prerequisite(&self.state) {
            return Progress::Refused;
        }
        match current_action {
            VillagerActionEnum::MoveToNearestItemAction(move_action) => {
                let here = self.state.villager.position;
                let found = match move_action.get_new_position(&self.state) {
                    Some(there) => grid_route(&there, &here),
                    None => None,
                };
                self.lay_out(found);
                Progress::Routed
            },
            _ => {
                let state = current_action.act(self.state.clone());
                self.state = state;
                self.begun = self.begun + 1;
                Progress::Acted
            },
        }
    }
}

} // verus!
