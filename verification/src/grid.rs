//! The square grid with wrap-around on which agents sit, and the majority rule
//! of the Moore neighbourhood (the eight surrounding cells).
//!
//! Agent `i` sits in row `i / side`, column `i % side`. Rows and columns wrap
//! modulo `side`; a neighbouring cell whose index lies past the end of the
//! population is empty and counts for nothing.
use vstd::prelude::*;

use crate::ternary::Ternary;

verus! {

/// `r` is the integer square root of `n`.
pub open spec fn is_isqrt(n: int, r: int) -> bool {
    0 <= r && r * r <= n < (r + 1) * (r + 1)
}

/// Integer square root: the side of the largest square grid that fits in `n`.
pub fn isqrt(n: usize) -> (r: usize)
    ensures
        is_isqrt(n as int, r as int),
{
    let mut lo: u128 = 0;
    let mut hi: u128 = n as u128 + 1;
    proof {
        assert(hi * hi > n) by (nonlinear_arith)
            requires
                hi == n + 1,
        ;
    }
    while hi - lo > 1
        invariant
            lo < hi,
            hi <= n as u128 + 1,
            lo * lo <= n,
            n < hi * hi,
        decreases hi - lo,
    {
        let mid = lo + (hi - lo) / 2;
        assert(mid * mid < 0x1_0000_0000_0000_0000_0000_0000_0000_0000) by (nonlinear_arith)
            requires
                mid < hi,
                hi <= 0x1_0000_0000_0000_0000,
        ;
        if mid * mid <= n as u128 {
            lo = mid;
        } else {
            hi = mid;
        }
    }
    assert(hi == lo + 1);
    assert(lo <= n) by (nonlinear_arith)
        requires
            lo * lo <= n,
    ;
    lo as usize
}

/// The charge in row `r`, column `c` of the grid: nothing where the cell
/// lies past the end of the population.
pub open spec fn cell_charge(values: Seq<Ternary>, side: int, r: int, c: int) -> int {
    let idx = r * side + c;
    if 0 <= idx < values.len() {
        values[idx].charge()
    } else {
        0
    }
}

/// Sum of the charges of the eight neighbours of agent `i`.
pub open spec fn neighbor_charge(values: Seq<Ternary>, side: int, i: int) -> int {
    let row = i / side;
    let col = i % side;
    let up = (row - 1) % side;
    let down = (row + 1) % side;
    let same_row = row % side;
    let left = (col - 1) % side;
    let right = (col + 1) % side;
    cell_charge(values, side, up, left) + cell_charge(values, side, up, col) + cell_charge(
        values,
        side,
        up,
        right,
    ) + cell_charge(values, side, same_row, left) + cell_charge(values, side, same_row, right)
        + cell_charge(values, side, down, left) + cell_charge(values, side, down, col)
        + cell_charge(values, side, down, right)
}

/// Majority rule: a positive neighbourhood makes the agent positive, a
/// negative one negative, and a balanced one leaves it as it was.
pub open spec fn majority(current: Ternary, neighbor_sum: int) -> Ternary {
    if neighbor_sum > 0 {
        Ternary::Positive
    } else if neighbor_sum < 0 {
        Ternary::Negative
    } else {
        current
    }
}

/// The values after every agent has taken the majority of its neighbours,
/// all read from the values before.
pub open spec fn majority_values(values: Seq<Ternary>, side: int) -> Seq<Ternary> {
    Seq::new(values.len(), |i: int| majority(values[i], neighbor_charge(values, side, i)))
}

/// The grid limits under which positions can be computed: the population
/// fits an `i32`, and a populated grid has a side that fits an `i32` and
/// whose full square fits a `usize`. An empty population needs no positions.
pub open spec fn grid_fits(len: int, side: int) -> bool {
    &&& 0 <= len <= i32::MAX
    &&& len > 0 ==> {
        &&& 0 < side <= i32::MAX
        &&& side * side <= usize::MAX
    }
}

fn wrap_back(x: usize, side: usize) -> (r: usize)
    requires
        0 < side <= i32::MAX,
        x <= i32::MAX,
    ensures
        r == (x - 1) % (side as int),
        r < side,
{
    proof {
        vstd::arithmetic::div_mod::lemma_mod_add_multiples_vanish(x - 1, side as int);
    }
    (x + side - 1) % side
}

fn wrap_forward(x: usize, side: usize) -> (r: usize)
    requires
        0 < side <= i32::MAX,
        x <= i32::MAX,
    ensures
        r == (x + 1) % (side as int),
        r < side,
{
    (x + 1) % side
}

fn cell_charge_at(values: &[Ternary], side: usize, r: usize, c: usize) -> (v: i32)
    requires
        r < side,
        c < side,
        side * side <= usize::MAX,
    ensures
        v == cell_charge(values@, side as int, r as int, c as int),
{
    assert(r * side + c < side * side) by (nonlinear_arith)
        requires
            r < side,
            c < side,
    ;
    let idx = r * side + c;
    if idx < values.len() {
        values[idx].to_i8() as i32
    } else {
        0
    }
}

/// Sum of the charges of the eight neighbours of agent `i`.
pub fn neighbor_charge_at(values: &[Ternary], side: usize, i: usize) -> (sum: i32)
    requires
        grid_fits(values@.len() as int, side as int),
        i < values@.len(),
    ensures
        sum == neighbor_charge(values@, side as int, i as int),
        -8 <= sum <= 8,
{
    let row = i / side;
    let col = i % side;
    let up = wrap_back(row, side);
    let down = wrap_forward(row, side);
    let same_row = row % side;
    let left = wrap_back(col, side);
    let right = wrap_forward(col, side);
    let a = cell_charge_at(values, side, up, left);
    let b = cell_charge_at(values, side, up, col);
    let c = cell_charge_at(values, side, up, right);
    let d = cell_charge_at(values, side, same_row, left);
    let e = cell_charge_at(values, side, same_row, right);
    let f = cell_charge_at(values, side, down, left);
    let g = cell_charge_at(values, side, down, col);
    let h = cell_charge_at(values, side, down, right);
    a + b + c + d + e + f + g + h
}

/// Majority rule over the whole grid: each agent takes the sign of the sum
/// of its neighbours' charges, and keeps its value when they balance.
pub fn majority_rule(values: &[Ternary], side: usize) -> (next: Vec<Ternary>)
    requires
        grid_fits(values@.len() as int, side as int),
    ensures
        next@ == majority_values(values@, side as int),
        next@.len() == values@.len(),
        forall|i: int|
            0 <= i < values@.len() ==> {
                &&& neighbor_charge(values@, side as int, i) > 0 ==> #[trigger] next@[i]
                    == Ternary::Positive
                &&& neighbor_charge(values@, side as int, i) < 0 ==> next@[i] == Ternary::Negative
                &&& neighbor_charge(values@, side as int, i) == 0 ==> next@[i] == values@[i]
            },
{
    let mut next: Vec<Ternary> = Vec::new();
    let mut i: usize = 0;
    while i < values.len()
        invariant
            grid_fits(values@.len() as int, side as int),
            i <= values@.len(),
            next@.len() == i,
            forall|j: int|
                0 <= j < i ==> #[trigger] next@[j] == majority(
                    values@[j],
                    neighbor_charge(values@, side as int, j),
                ),
        decreases values@.len() - i,
    {
        let sum = neighbor_charge_at(values, side, i);
        let v = if sum > 0 {
            Ternary::Positive
        } else if sum < 0 {
            Ternary::Negative
        } else {
            values[i]
        };
        next.push(v);
        i = i + 1;
    }
    assert(next@ =~= majority_values(values@, side as int));
    next
}

} // verus!
