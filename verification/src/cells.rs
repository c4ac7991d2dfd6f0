//! The cells of a board, enumerated by their first coordinate and then by
//! their second.

use itertools::Itertools;
use vstd::arithmetic::div_mod::lemma_div_pos_is_pos;
use vstd::arithmetic::div_mod::lemma_fundamental_div_mod;
use vstd::arithmetic::div_mod::lemma_fundamental_div_mod_converse;
use vstd::arithmetic::div_mod::lemma_mod_bound;
use vstd::arithmetic::div_mod::lemma_multiply_divide_lt;
use vstd::prelude::*;

use crate::board::valid_dimension;
use crate::board::Board;

verus! {

/// The coordinates `0, 1, .., count - 1` of one axis.
pub open spec fn axis_indices(count: int) -> Seq<u8> {
    Seq::new(count as nat, |i: int| i as u8)
}

/// All pairs of one item of `first` and one of `second`, in the order in which
/// the pairs of the earlier item of `first` come first and, among those, the
/// pairs of the earlier item of `second`.
pub open spec fn pairs_of(first: Seq<u8>, second: Seq<u8>) -> Seq<(u8, u8)> {
    Seq::new(
        first.len() * second.len(),
        |k: int| (first[k / (second.len() as int)], second[k % (second.len() as int)]),
    )
}

/// The `k`-th cell of a board with `size` cells per side.
pub open spec fn cell_at(size: int, k: int) -> (u8, u8) {
    ((k / size) as u8, (k % size) as u8)
}

/// Every cell of a board with `size` cells per side, once.
pub open spec fn all_cells(size: int) -> Seq<(u8, u8)> {
    Seq::new((size * size) as nat, |k: int| cell_at(size, k))
}

/// Both coordinates of the `k`-th cell are below `size`, and they are the
/// quotient and the remainder of `k` by `size` without any wrapping.
pub proof fn cell_at_is_within(size: int, k: int)
    requires
        valid_dimension(size),
        0 <= k < size * size,
    ensures
        cell_at(size, k).0 == k / size,
        cell_at(size, k).1 == k % size,
        0 <= k / size < size,
        0 <= k % size < size,
{
    lemma_div_pos_is_pos(k, size);
    lemma_multiply_divide_lt(k, size, size);
    lemma_mod_bound(k, size);
}

/// Cells at different places of the enumeration are different cells.
pub proof fn cell_at_is_injective(size: int, j: int, k: int)
    requires
        valid_dimension(size),
        0 <= j < size * size,
        0 <= k < size * size,
        j != k,
    ensures
        cell_at(size, j) != cell_at(size, k),
{
    cell_at_is_within(size, j);
    cell_at_is_within(size, k);
    lemma_fundamental_div_mod(j, size);
    lemma_fundamental_div_mod(k, size);
}

/// Every cell of the board occurs in the enumeration, at the place that its
/// coordinates give.
pub proof fn all_cells_is_complete(size: int, x: int, y: int)
    requires
        valid_dimension(size),
        0 <= x < size,
        0 <= y < size,
    ensures
        0 <= x * size + y < size * size,
        all_cells(size)[x * size + y] == (x as u8, y as u8),
{
    assert(0 <= x * size + y < size * size) by (nonlinear_arith)
        requires
            0 <= x < size,
            0 <= y < size,
    ;
    lemma_fundamental_div_mod_converse(x * size + y, size, x, y);
}

/// `Itertools::cartesian_product` on the items of `first` and of `second`,
/// gathered into a vector. The adaptor yields each item of `first` paired with
/// every item of `second` in turn before it moves on to the next item of
/// `first`, which is the order of [`pairs_of`].
#[verifier::external_body]
fn cartesian_product(first: Vec<u8>, second: Vec<u8>) -> (pairs: Vec<(u8, u8)>)
    ensures
        pairs@ == pairs_of(first@, second@),
{
    first.into_iter().cartesian_product(second.into_iter()).collect()
}

/// The coordinates of one axis of a board with `count` cells per side.
fn axis(count: u8) -> (indices: Vec<u8>)
    ensures
        indices@ == axis_indices(count as int),
{
    let mut indices: Vec<u8> = Vec::new();
    let mut i: u8 = 0;
    while i < count
        invariant
            i <= count,
            indices@ == axis_indices(i as int),
        decreases count - i,
    {
        indices.push(i);
        i = i + 1;
        assert(indices@ =~= axis_indices(i as int));
    }
    indices
}

/// The cells of `board`: those with `x == 0` first, each group by rising `y`.
pub fn grid_cells(board: &Board) -> (cells: Vec<(u8, u8)>)
    ensures
        cells@ == all_cells(board.dimension() as int),
{
    let size: u8 = board.dimension();
    let cells = cartesian_product(axis(size), axis(size));
    proof {
        let n = size as int;
        let indices = axis_indices(n);
        assert(n * n >= 0) by (nonlinear_arith);
        assert forall|k: int| 0 <= k < n * n implies pairs_of(indices, indices)[k] == cell_at(
            n,
            k,
        ) by {
            cell_at_is_within(n, k);
        }
        assert(cells@ =~= all_cells(n));
    }
    cells
}

} // verus!
