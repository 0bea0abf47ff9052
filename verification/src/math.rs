use vstd::prelude::*;

verus! {

/// Whether `r` is the square root of `n`, rounded down.
pub open spec fn is_floor_sqrt(n: int, r: int) -> bool {
    0 <= r && r * r <= n < (r + 1) * (r + 1)
}

/// The square root of `n`, rounded down.
pub open spec fn floor_sqrt(n: nat) -> nat {
    choose|r: nat| is_floor_sqrt(n as int, r as int)
}

/// A number has at most one rounded-down square root.
pub proof fn lemma_floor_sqrt_unique(n: int, r1: int, r2: int)
    requires
        is_floor_sqrt(n, r1),
        is_floor_sqrt(n, r2),
    ensures
        r1 == r2,
{
    if r1 < r2 {
        assert((r1 + 1) * (r1 + 1) <= r2 * r2) by (nonlinear_arith)
            requires
                0 <= r1,
                r1 + 1 <= r2,
        ;
    } else if r2 < r1 {
        assert((r2 + 1) * (r2 + 1) <= r1 * r1) by (nonlinear_arith)
            requires
                0 <= r2,
                r2 + 1 <= r1,
        ;
    }
}

/// Any `r` that squares to at most `n` while `r + 1` squares beyond it is
/// the rounded-down square root of `n`.
pub proof fn lemma_floor_sqrt_is(n: nat, r: nat)
    requires
        is_floor_sqrt(n as int, r as int),
    ensures
        floor_sqrt(n) == r,
{
    let chosen = floor_sqrt(n);
    lemma_floor_sqrt_unique(n as int, r as int, chosen as int);
}

/// The square root of `n`, rounded down, found by bisection.
pub fn integer_sqrt(n: u128) -> (root: u64)
    ensures
        root == floor_sqrt(n as nat),
        is_floor_sqrt(n as int, root as int),
{
    let mut low: u128 = 0;
    let mut high: u128 = 0x1_0000_0000_0000_0000;
    assert(0x1_0000_0000_0000_0000int * 0x1_0000_0000_0000_0000int
        == 0x1_0000_0000_0000_0000_0000_0000_0000_0000int) by (nonlinear_arith);
    while high - low > 1
        invariant
            low < high <= 0x1_0000_0000_0000_0000,
            low * low <= n < high * high,
        decreases high - low,
    {
        let middle: u128 = low + (high - low) / 2;
        assert(middle * middle <= 0xffff_ffff_ffff_ffff * 0xffff_ffff_ffff_ffff)
            by (nonlinear_arith)
            requires
                0 <= middle <= 0xffff_ffff_ffff_ffff,
        ;
        if middle * middle <= n {
            low = middle;
        } else {
            high = middle;
        }
    }
    proof {
        lemma_floor_sqrt_is(n as nat, low as nat);
    }
    low as u64
}

/// The square of the straight-line distance between two cells.
pub open spec fn squared_distance(a: (i64, i64), b: (i64, i64)) -> int {
    (a.0 - b.0) * (a.0 - b.0) + (a.1 - b.1) * (a.1 - b.1)
}

/// The square of the straight-line length of a step by `(dx, dy)`.
pub open spec fn squared_length(dx: i64, dy: i64) -> nat {
    (dx * dx + dy * dy) as nat
}

/// The square of the difference of two coordinates.
fn squared_difference(a: i64, b: i64) -> (square: u128)
    ensures
        square == (a - b) * (a - b),
        square <= 0xffff_ffff_ffff_ffff * 0xffff_ffff_ffff_ffff,
{
    let gap: u128 = if a >= b {
        (a as i128 - b as i128) as u128
    } else {
        (b as i128 - a as i128) as u128
    };
    assert(gap * gap <= 0xffff_ffff_ffff_ffff * 0xffff_ffff_ffff_ffff) by (nonlinear_arith)
        requires
            0 <= gap <= 0xffff_ffff_ffff_ffff,
    ;
    assert(gap * gap == (a - b) * (a - b)) by (nonlinear_arith)
        requires
            gap == a - b || gap == b - a,
    ;
    gap * gap
}

/// Whether `a` lies strictly nearer to `from` than `b` does, in a straight
/// line. Exact for all coordinates.
pub fn strictly_nearer(a: (i64, i64), b: (i64, i64), from: (i64, i64)) -> (nearer: bool)
    ensures
        nearer == (squared_distance(a, from) < squared_distance(b, from)),
{
    let ax: u128 = squared_difference(a.0, from.0);
    let ay: u128 = squared_difference(a.1, from.1);
    let bx: u128 = squared_difference(b.0, from.0);
    let by: u128 = squared_difference(b.1, from.1);
    // Each sum may pass the largest u128 by less than one more u128: split
    // it into whether it did and what is left.
    let a_over: bool = ax > u128::MAX - ay;
    let a_rest: u128 = if a_over {
        ax - (u128::MAX - ay) - 1
    } else {
        ax + ay
    };
    let b_over: bool = bx > u128::MAX - by;
    let b_rest: u128 = if b_over {
        bx - (u128::MAX - by) - 1
    } else {
        bx + by
    };
    if a_over == b_over {
        a_rest < b_rest
    } else {
        b_over
    }
}

/// The straight-line length of a step by `(dx, dy)`, rounded down.
pub fn step_length(dx: i64, dy: i64) -> (length: u64)
    ensures
        length == floor_sqrt(squared_length(dx, dy)),
{
    let x: u128 = squared_difference(dx, 0);
    let y: u128 = squared_difference(dy, 0);
    assert(x <= 0x8000_0000_0000_0000 * 0x8000_0000_0000_0000) by (nonlinear_arith)
        requires
            x == dx * dx,
            -0x8000_0000_0000_0000 <= dx <= 0x8000_0000_0000_0000,
    ;
    assert(y <= 0x8000_0000_0000_0000 * 0x8000_0000_0000_0000) by (nonlinear_arith)
        requires
            y == dy * dy,
            -0x8000_0000_0000_0000 <= dy <= 0x8000_0000_0000_0000,
    ;
    integer_sqrt(x + y)
}

} // verus!
