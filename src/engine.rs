//! Calls into the h3o grid engine.
use crate::layout::{parent_index, res_of, valid_cell, valid_edge};
use vstd::prelude::*;

verus! {

/// `x` is a cell of resolution `r` that descends from the cell `v`.
pub open spec fn is_child_index(x: u64, v: u64, r: u64) -> bool {
    &&& valid_cell(x)
    &&& res_of(x) == r
    &&& res_of(v) <= r
    &&& parent_index(x, res_of(v)) == v
}

/// The local `(i, j)` coordinates of `cell` in the frame anchored at `origin`, or
/// `None` where h3o finds no consistent frame for the two cells.
pub uninterp spec fn local_ij_of(cell: u64, origin: u64) -> Option<(i32, i32)>;

/// Relies on h3o's `CellIndex::try_from(u64)`: it accepts exactly the bit patterns
/// of the cell index layout (reserved bits clear, cell mode, base cell below 122,
/// used digits below 7 and unused ones 7, no deleted K subsequence below a pentagon).
#[verifier::external_body]
pub(crate) fn h3o_is_cell(bits: u64) -> (r: bool)
    ensures
        r == valid_cell(bits),
{
    h3o::CellIndex::try_from(bits).is_ok()
}

/// Relies on h3o's `DirectedEdgeIndex::try_from(u64)`: it accepts exactly the
/// directed edge mode with a valid origin cell and an edge number in range.
#[verifier::external_body]
pub(crate) fn h3o_is_edge(bits: u64) -> (r: bool)
    ensures
        r == valid_edge(bits),
{
    h3o::DirectedEdgeIndex::try_from(bits).is_ok()
}

/// Relies on h3o's `CellIndex::children`: every descendant of the cell at the
/// resolution, each once.
#[verifier::external_body]
pub(crate) fn h3o_children(bits: u64, res: u8) -> (r: Vec<u64>)
    requires
        valid_cell(bits),
        res <= 15,
    ensures
        r@.no_duplicates(),
        forall|i: int| 0 <= i < r@.len() ==> is_child_index(#[trigger] r@[i], bits, res as u64),
        forall|x: u64| is_child_index(x, bits, res as u64) ==> r@.contains(x),
{
    match (h3o::CellIndex::try_from(bits), h3o::Resolution::try_from(res)) {
        (Ok(cell), Ok(res)) => cell.children(res).map(u64::from).collect(),
        _ => Vec::new(),
    }
}

/// Relies on h3o's `CellIndex::to_local_ij`: the IJ coordinates of a cell in the
/// local frame of an origin, when one covers both.
#[verifier::external_body]
pub(crate) fn h3o_local_ij(cell: u64, origin: u64) -> (r: Option<(i32, i32)>)
    requires
        valid_cell(cell),
        valid_cell(origin),
    ensures
        r == local_ij_of(cell, origin),
{
    match (h3o::CellIndex::try_from(cell), h3o::CellIndex::try_from(origin)) {
        (Ok(cell), Ok(origin)) => cell.to_local_ij(origin).ok().map(|l| (l.coord.i, l.coord.j)),
        _ => None,
    }
}

} // verus!
