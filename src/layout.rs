//! The 64-bit layout of a cell index and its validity rules.
use vstd::prelude::*;

verus! {

/// Mode tag of a cell index.
pub const CELL_MODE: u64 = 1;

/// Mode tag of a directed edge index.
pub const EDGE_MODE: u64 = 2;

/// Highest resolution of the grid.
pub const MAX_RES: u64 = 15;

/// Number of base cells.
pub const BASE_CELL_COUNT: u64 = 122;

/// The direction value that marks an unused digit position.
pub const UNUSED_DIGIT: u64 = 7;

/// The mode field, bits 59 to 62.
pub open spec fn mode_of(v: u64) -> u64 {
    (v >> 59u64) & 0xfu64
}

/// The resolution field, bits 52 to 55.
pub open spec fn res_of(v: u64) -> u64 {
    (v >> 52u64) & 0xfu64
}

/// The base cell field, bits 45 to 51.
pub open spec fn base_of(v: u64) -> u64 {
    (v >> 45u64) & 0x7fu64
}

/// The edge field of a directed edge index, bits 56 to 58.
pub open spec fn edge_of(v: u64) -> u64 {
    (v >> 56u64) & 0x7u64
}

/// Bit offset of the digit of resolution `k` (for `1 <= k <= 15`).
pub open spec fn digit_offset(k: u64) -> u64 {
    (45u64 - 3u64 * k) as u64
}

/// The child digit of resolution `k` (for `1 <= k <= 15`).
pub open spec fn digit_of(v: u64, k: u64) -> u64 {
    (v >> digit_offset(k)) & 7u64
}

/// The twelve base cells whose descendants along the center are pentagons.
pub open spec fn is_pentagon_base(b: u64) -> bool {
    b == 4 || b == 14 || b == 24 || b == 38 || b == 49 || b == 58 || b == 63 || b == 72
        || b == 83 || b == 97 || b == 107 || b == 117
}

/// The first non-center digit is the deleted direction 1 (the K axis).
pub open spec fn has_deleted_subsequence(v: u64) -> bool {
    exists|k: u64|
        1 <= k <= res_of(v) && #[trigger] digit_of(v, k) == 1 && (forall|j: u64|
            1 <= j < k ==> #[trigger] digit_of(v, j) == 0)
}

/// Every bit of `v` obeys the cell index layout.
pub open spec fn valid_cell(v: u64) -> bool {
    &&& v >> 63u64 == 0
    &&& edge_of(v) == 0
    &&& mode_of(v) == CELL_MODE
    &&& base_of(v) < BASE_CELL_COUNT
    &&& forall|k: u64| 1 <= k <= MAX_RES ==> (#[trigger] digit_of(v, k) == UNUSED_DIGIT <==> k > res_of(v))
    &&& is_pentagon_base(base_of(v)) ==> !has_deleted_subsequence(v)
}

/// All digits of a cell are the center direction 0, below a pentagon base cell.
pub open spec fn is_pentagon_index(v: u64) -> bool {
    is_pentagon_base(base_of(v)) && forall|k: u64| 1 <= k <= res_of(v) ==> #[trigger] digit_of(v, k) == 0
}

/// The origin cell of a directed edge index: mode set to cell, edge field cleared.
pub open spec fn edge_origin(v: u64) -> u64 {
    (v & !(0x7fu64 << 56u64)) | (CELL_MODE << 59u64)
}

/// Every bit of `v` obeys the directed edge layout: a valid origin cell and an edge
/// number in 1..=6 (2..=6 when the origin is a pentagon).
pub open spec fn valid_edge(v: u64) -> bool {
    &&& mode_of(v) == EDGE_MODE
    &&& valid_cell(edge_origin(v))
    &&& (if is_pentagon_index(edge_origin(v)) { 2u64 } else { 1u64 }) <= edge_of(v) <= 6
}

/// The bits below the digit of resolution `r`: all digit positions past `r`.
pub open spec fn tail_mask(r: u64) -> u64 {
    ((1u64 << (3u64 * (15u64 - r)) as u64) - 1u64) as u64
}

/// The mask of all digit positions past resolution `r`.
pub fn unused_tail(r: u64) -> (m: u64)
    requires
        r <= 15,
    ensures
        m == tail_mask(r),
{
    let s: u64 = 3 * (15 - r);
    assert(1u64 << s >= 1) by (bit_vector)
        requires s <= 45;
    (1u64 << s) - 1
}

/// `v` with its resolution field set to `r`.
pub open spec fn with_res(v: u64, r: u64) -> u64 {
    (v & !(0xfu64 << 52u64)) | (r << 52u64)
}

/// The ancestor of `v` at resolution `r`: resolution set to `r`, digits past `r` unused.
pub open spec fn parent_index(v: u64, r: u64) -> u64 {
    with_res(v, r) | tail_mask(r)
}

/// The center descendant of `v` at resolution `r`: digits from `res_of(v) + 1`
/// to `r` set to the center direction 0.
pub open spec fn center_child_index(v: u64, r: u64) -> u64 {
    with_res(v, r) & !(tail_mask(res_of(v)) & !tail_mask(r))
}

pub proof fn lemma_with_res_fields(v: u64, r: u64)
    requires
        r <= 15,
    ensures
        res_of(with_res(v, r)) == r,
        base_of(with_res(v, r)) == base_of(v),
        mode_of(with_res(v, r)) == mode_of(v),
        edge_of(with_res(v, r)) == edge_of(v),
        with_res(v, r) >> 63u64 == v >> 63u64,
{
    assert(res_of(with_res(v, r)) == r) by (bit_vector)
        requires r <= 15;
    assert(base_of(with_res(v, r)) == base_of(v)) by (bit_vector)
        requires r <= 15;
    assert(mode_of(with_res(v, r)) == mode_of(v)) by (bit_vector)
        requires r <= 15;
    assert(edge_of(with_res(v, r)) == edge_of(v)) by (bit_vector)
        requires r <= 15;
    assert(with_res(v, r) >> 63u64 == v >> 63u64) by (bit_vector)
        requires r <= 15;
}

pub proof fn lemma_parent_digit(v: u64, r: u64, k: u64)
    requires
        r <= 15,
        1 <= k <= 15,
    ensures
        digit_of(parent_index(v, r), k) == if k <= r { digit_of(v, k) } else { 7 },
{
    assert(digit_of(parent_index(v, r), k) == if k <= r { digit_of(v, k) } else { 7 }) by (bit_vector)
        requires r <= 15, 1 <= k <= 15;
}


pub proof fn lemma_center_child_digit(v: u64, r: u64, k: u64)
    requires
        res_of(v) <= r <= 15,
        1 <= k <= 15,
        k > res_of(v) ==> digit_of(v, k) == 7,
    ensures
        digit_of(center_child_index(v, r), k) == if k <= res_of(v) {
            digit_of(v, k)
        } else if k <= r {
            0
        } else {
            7
        },
{
    assert(digit_of(center_child_index(v, r), k) == if k <= res_of(v) {
        digit_of(v, k)
    } else if k <= r {
        0
    } else {
        7
    }) by (bit_vector)
        requires
            res_of(v) <= r <= 15,
            1 <= k <= 15,
            k > res_of(v) ==> digit_of(v, k) == 7,
    ;
}

pub proof fn lemma_center_child_fields(v: u64, r: u64)
    requires
        r <= 15,
    ensures
        res_of(center_child_index(v, r)) == r,
        base_of(center_child_index(v, r)) == base_of(v),
        mode_of(center_child_index(v, r)) == mode_of(v),
        edge_of(center_child_index(v, r)) == edge_of(v),
        center_child_index(v, r) >> 63u64 == v >> 63u64,
{
    assert(res_of(center_child_index(v, r)) == r) by (bit_vector)
        requires r <= 15;
    assert(base_of(center_child_index(v, r)) == base_of(v)) by (bit_vector)
        requires r <= 15;
    assert(mode_of(center_child_index(v, r)) == mode_of(v)) by (bit_vector)
        requires r <= 15;
    assert(edge_of(center_child_index(v, r)) == edge_of(v)) by (bit_vector)
        requires r <= 15;
    assert(center_child_index(v, r) >> 63u64 == v >> 63u64) by (bit_vector)
        requires r <= 15;
}

/// Two indexes with the same header fields and the same fifteen digits are equal.
pub proof fn lemma_eq_by_fields(a: u64, b: u64)
    requires
        a >> 63u64 == b >> 63u64,
        mode_of(a) == mode_of(b),
        edge_of(a) == edge_of(b),
        res_of(a) == res_of(b),
        base_of(a) == base_of(b),
        forall|k: u64| 1 <= k <= 15 ==> #[trigger] digit_of(a, k) == digit_of(b, k),
    ensures
        a == b,
{
    assert(digit_of(a, 1) == digit_of(b, 1));
    assert(digit_of(a, 2) == digit_of(b, 2));
    assert(digit_of(a, 3) == digit_of(b, 3));
    assert(digit_of(a, 4) == digit_of(b, 4));
    assert(digit_of(a, 5) == digit_of(b, 5));
    assert(digit_of(a, 6) == digit_of(b, 6));
    assert(digit_of(a, 7) == digit_of(b, 7));
    assert(digit_of(a, 8) == digit_of(b, 8));
    assert(digit_of(a, 9) == digit_of(b, 9));
    assert(digit_of(a, 10) == digit_of(b, 10));
    assert(digit_of(a, 11) == digit_of(b, 11));
    assert(digit_of(a, 12) == digit_of(b, 12));
    assert(digit_of(a, 13) == digit_of(b, 13));
    assert(digit_of(a, 14) == digit_of(b, 14));
    assert(digit_of(a, 15) == digit_of(b, 15));
    assert(a == b) by (bit_vector)
        requires
            a >> 63u64 == b >> 63u64,
            mode_of(a) == mode_of(b),
            edge_of(a) == edge_of(b),
            res_of(a) == res_of(b),
            base_of(a) == base_of(b),
            digit_of(a, 1) == digit_of(b, 1),
            digit_of(a, 2) == digit_of(b, 2),
            digit_of(a, 3) == digit_of(b, 3),
            digit_of(a, 4) == digit_of(b, 4),
            digit_of(a, 5) == digit_of(b, 5),
            digit_of(a, 6) == digit_of(b, 6),
            digit_of(a, 7) == digit_of(b, 7),
            digit_of(a, 8) == digit_of(b, 8),
            digit_of(a, 9) == digit_of(b, 9),
            digit_of(a, 10) == digit_of(b, 10),
            digit_of(a, 11) == digit_of(b, 11),
            digit_of(a, 12) == digit_of(b, 12),
            digit_of(a, 13) == digit_of(b, 13),
            digit_of(a, 14) == digit_of(b, 14),
            digit_of(a, 15) == digit_of(b, 15),
    ;
}

/// The ancestor of a valid cell is a valid cell.
pub proof fn lemma_parent_valid(v: u64, r: u64)
    requires
        valid_cell(v),
        r <= res_of(v),
    ensures
        valid_cell(parent_index(v, r)),
        res_of(parent_index(v, r)) == r,
        base_of(parent_index(v, r)) == base_of(v),
{
    let p = parent_index(v, r);
    assert(res_of(v) <= 15) by (bit_vector);
    lemma_with_res_fields(v, r);
    let w = with_res(v, r);
    assert(res_of(p) == r && base_of(p) == base_of(v) && mode_of(p) == mode_of(v) && edge_of(p)
        == edge_of(v) && p >> 63u64 == v >> 63u64) by (bit_vector)
        requires
            r <= 15,
            p == (w | tail_mask(r)),
            res_of(w) == r,
            base_of(w) == base_of(v),
            mode_of(w) == mode_of(v),
            edge_of(w) == edge_of(v),
            w >> 63u64 == v >> 63u64,
    ;
    assert forall|k: u64| 1 <= k <= MAX_RES implies (#[trigger] digit_of(p, k) == UNUSED_DIGIT <==> k
        > res_of(p)) by {
        lemma_parent_digit(v, r, k);
    }
    if is_pentagon_base(base_of(p)) && has_deleted_subsequence(p) {
        let k = choose|k: u64|
            1 <= k <= res_of(p) && #[trigger] digit_of(p, k) == 1 && (forall|j: u64|
                1 <= j < k ==> #[trigger] digit_of(p, j) == 0);
        lemma_parent_digit(v, r, k);
        assert forall|j: u64| 1 <= j < k implies #[trigger] digit_of(v, j) == 0 by {
            lemma_parent_digit(v, r, j);
        }
        assert(has_deleted_subsequence(v));
    }
}

/// The center descendant of a valid cell is a valid cell.
pub proof fn lemma_center_child_valid(v: u64, r: u64)
    requires
        valid_cell(v),
        res_of(v) <= r <= 15,
    ensures
        valid_cell(center_child_index(v, r)),
        res_of(center_child_index(v, r)) == r,
        base_of(center_child_index(v, r)) == base_of(v),
{
    let c = center_child_index(v, r);
    lemma_center_child_fields(v, r);
    assert forall|k: u64| 1 <= k <= MAX_RES implies (#[trigger] digit_of(c, k) == UNUSED_DIGIT <==> k
        > res_of(c)) by {
        lemma_center_child_digit(v, r, k);
    }
    if is_pentagon_base(base_of(c)) && has_deleted_subsequence(c) {
        let k = choose|k: u64|
            1 <= k <= res_of(c) && #[trigger] digit_of(c, k) == 1 && (forall|j: u64|
                1 <= j < k ==> #[trigger] digit_of(c, j) == 0);
        lemma_center_child_digit(v, r, k);
        assert(k <= res_of(v));
        assert forall|j: u64| 1 <= j < k implies #[trigger] digit_of(v, j) == 0 by {
            lemma_center_child_digit(v, r, j);
        }
        assert(has_deleted_subsequence(v));
    }
}

} // verus!
