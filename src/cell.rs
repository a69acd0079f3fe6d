//! Cells of the grid: decoding, fields and hierarchy.
use crate::engine::{h3o_children, h3o_is_cell, h3o_local_ij, is_child_index, local_ij_of};
use crate::error::H3Error;
use crate::hex::{format_hex, hex_text, hex_value, is_hex_text, law_hex_text_of_u64, parse_hex};
use crate::layout::{
    base_of, center_child_index, digit_of, is_pentagon_index, lemma_center_child_digit,
    lemma_center_child_valid, lemma_eq_by_fields, lemma_parent_digit, lemma_parent_valid,
    parent_index, res_of, unused_tail,
    valid_cell, MAX_RES,
};
use vstd::prelude::*;

verus! {

/// What a cell index says: its resolution, its base cell, and one child digit per
/// level from resolution 1 down to its own.
pub struct CellModel {
    pub resolution: nat,
    pub base_cell: nat,
    pub digits: Seq<nat>,
}

impl CellModel {
    /// The ancestor at resolution `r`: the first `r` digits are kept.
    pub open spec fn parent(self, r: nat) -> CellModel {
        CellModel { resolution: r, base_cell: self.base_cell, digits: self.digits.take(r as int) }
    }

    /// The center descendant at resolution `r`: the digits are extended with zeros.
    pub open spec fn center_child(self, r: nat) -> CellModel {
        CellModel {
            resolution: r,
            base_cell: self.base_cell,
            digits: self.digits + Seq::new((r - self.resolution) as nat, |i: int| 0nat),
        }
    }
}

/// The model of the bits `v`.
pub open spec fn model_of(v: u64) -> CellModel {
    CellModel {
        resolution: res_of(v) as nat,
        base_cell: base_of(v) as nat,
        digits: Seq::new(res_of(v) as nat, |i: int| digit_of(v, (i + 1) as u64) as nat),
    }
}

/// Text that decodes to a cell: hexadecimal digits whose value is a valid cell index.
pub open spec fn is_cell_text(s: Seq<char>) -> bool {
    is_hex_text(s) && valid_cell(hex_value(s) as u64)
}

/// The index that cell text writes.
pub open spec fn text_index(s: Seq<char>) -> u64 {
    hex_value(s) as u64
}

/// A valid cell index.
#[derive(Clone, Copy, Debug, PartialEq, Eq, Hash, Structural)]
pub struct Cell {
    bits: u64,
}

impl View for Cell {
    type V = CellModel;

    open spec fn view(&self) -> CellModel {
        model_of(self.index())
    }
}

/// Position in the local IJ frame of an origin cell.
#[derive(Clone, Copy, Debug, PartialEq, Eq, Structural)]
pub struct LocalIj {
    pub i: i32,
    pub j: i32,
}

proof fn lemma_parent_model(v: u64, r: u64)
    requires
        valid_cell(v),
        r <= res_of(v),
    ensures
        model_of(parent_index(v, r)) == model_of(v).parent(r as nat),
{
    lemma_parent_valid(v, r);
    assert(res_of(v) <= 15) by (bit_vector);
    let p = parent_index(v, r);
    assert(model_of(p).digits =~= model_of(v).parent(r as nat).digits) by {
        assert forall|i: int| 0 <= i < r implies #[trigger] model_of(p).digits[i] == model_of(
            v,
        ).digits[i] by {
            lemma_parent_digit(v, r, (i + 1) as u64);
        }
    }
}

proof fn lemma_center_child_model(v: u64, r: u64)
    requires
        valid_cell(v),
        res_of(v) <= r <= 15,
    ensures
        model_of(center_child_index(v, r)) == model_of(v).center_child(r as nat),
{
    lemma_center_child_valid(v, r);
    let c = center_child_index(v, r);
    assert(model_of(c).digits =~= model_of(v).center_child(r as nat).digits) by {
        assert forall|i: int| 0 <= i < r implies #[trigger] model_of(c).digits[i] == model_of(
            v,
        ).center_child(r as nat).digits[i] by {
            let k = (i + 1) as u64;
            assert(1 <= k <= MAX_RES);
            lemma_center_child_digit(v, r, k);
        }
    }
}

/// Some cell of `v` has the index `x`.
pub open spec fn lists_index(v: Seq<Cell>, x: u64) -> bool {
    exists|i: int| 0 <= i < v.len() && #[trigger] v[i].index() == x
}

/// The outcome of a local IJ lookup: the coordinates, or `NoSuchRelation` where no
/// frame covers both cells.
pub open spec fn local_ij_outcome(found: Option<(i32, i32)>) -> Result<LocalIj, H3Error> {
    match found {
        Some((i, j)) => Ok(LocalIj { i, j }),
        None => Err(H3Error::NoSuchRelation),
    }
}

/// Turns the coordinates found by a local IJ lookup into the reported result.
pub fn local_ij_from(found: Option<(i32, i32)>) -> (r: Result<LocalIj, H3Error>)
    ensures
        r == local_ij_outcome(found),
{
    match found {
        Some((i, j)) => Ok(LocalIj { i, j }),
        None => Err(H3Error::NoSuchRelation),
    }
}

/// Writing a cell as text and decoding the text gives back the cell.
pub proof fn law_cell_text_round_trip(v: u64)
    requires
        valid_cell(v),
    ensures
        is_cell_text(hex_text(v as nat)),
        text_index(hex_text(v as nat)) == v,
{
    law_hex_text_of_u64(v);
}

/// The ancestor at resolution `r` has resolution `r`, and taking ancestors in two
/// steps, first at `r2` and then at `r1 <= r2`, is taking the ancestor at `r1`.
pub proof fn law_parent_chain(v: u64, r1: u64, r2: u64)
    requires
        valid_cell(v),
        r1 <= r2 <= res_of(v),
    ensures
        res_of(parent_index(v, r2)) == r2,
        parent_index(parent_index(v, r2), r1) == parent_index(v, r1),
        model_of(v).parent(r2 as nat).parent(r1 as nat) == model_of(v).parent(r1 as nat),
{
    assert(res_of(v) <= 15) by (bit_vector);
    let p2 = parent_index(v, r2);
    lemma_parent_valid(v, r2);
    lemma_parent_valid(p2, r1);
    lemma_parent_valid(v, r1);
    let a = parent_index(p2, r1);
    let b = parent_index(v, r1);
    assert forall|k: u64| 1 <= k <= 15 implies #[trigger] digit_of(a, k) == digit_of(b, k) by {
        lemma_parent_digit(p2, r1, k);
        lemma_parent_digit(v, r2, k);
        lemma_parent_digit(v, r1, k);
    }
    lemma_eq_by_fields(a, b);
    assert(model_of(v).digits.take(r2 as int).take(r1 as int) =~= model_of(v).digits.take(
        r1 as int,
    ));
}

/// The ancestor, at the cell's own resolution, of its center descendant at any finer
/// resolution is the cell itself.
pub proof fn law_center_child_parent(v: u64, r: u64)
    requires
        valid_cell(v),
        res_of(v) <= r <= 15,
    ensures
        parent_index(center_child_index(v, r), res_of(v)) == v,
        model_of(v).center_child(r as nat).parent(res_of(v) as nat) == model_of(v),
{
    let c = center_child_index(v, r);
    lemma_center_child_valid(v, r);
    lemma_parent_valid(c, res_of(v));
    let p = parent_index(c, res_of(v));
    assert forall|k: u64| 1 <= k <= 15 implies #[trigger] digit_of(p, k) == digit_of(v, k) by {
        lemma_parent_digit(c, res_of(v), k);
        lemma_center_child_digit(v, r, k);
    }
    lemma_eq_by_fields(p, v);
    let m = model_of(v);
    assert(m.center_child(r as nat).digits.take(res_of(v) as int) =~= m.digits);
}

impl Cell {
    /// The 64-bit index of the cell.
    pub closed spec fn index(self) -> u64 {
        self.bits
    }

    #[verifier::type_invariant]
    closed spec fn inv(self) -> bool {
        valid_cell(self.bits)
    }

    /// The cell whose index is `v`, if `v` is a valid cell index.
    pub fn from_index(v: u64) -> (r: Option<Cell>)
        ensures
            r is Some <==> valid_cell(v),
            r matches Some(c) ==> c.index() == v,
    {
        if h3o_is_cell(v) {
            Some(Cell { bits: v })
        } else {
            None
        }
    }

    /// The cell whose index `v` is known to be valid.
    pub(crate) fn from_valid(v: u64) -> (r: Cell)
        requires
            valid_cell(v),
        ensures
            r.index() == v,
    {
        Cell { bits: v }
    }

    /// The 64-bit index of the cell.
    pub fn bits(&self) -> (r: u64)
        ensures
            r == self.index(),
            valid_cell(r),
    {
        proof {
            use_type_invariant(self);
        }
        self.bits
    }

    /// The resolution of the cell, in `0..=15`.
    pub fn resolution(&self) -> (r: u8)
        ensures
            r as u64 == res_of(self.index()),
            r as nat == self@.resolution,
            r <= 15,
    {
        let v = self.bits;
        let r = (v >> 52u64) & 0xfu64;
        assert(r <= 15) by (bit_vector)
            requires r == (v >> 52u64) & 0xfu64;
        r as u8
    }

    /// The base cell number, in `0..=121`.
    pub fn base_cell(&self) -> (r: u8)
        ensures
            r as u64 == base_of(self.index()),
            r as nat == self@.base_cell,
            r < 122,
    {
        proof {
            use_type_invariant(self);
        }
        let b = (self.bits >> 45u64) & 0x7fu64;
        b as u8
    }

    /// Whether the resolution is odd (Class III orientation).
    pub fn is_class_iii(&self) -> (r: bool)
        ensures
            r == (res_of(self.index()) % 2 == 1),
    {
        self.resolution() % 2 == 1
    }

    /// Whether the cell is one of the twelve pentagons of its resolution: a pentagon
    /// base cell reached along center digits only.
    pub fn is_pentagon(&self) -> (r: bool)
        ensures
            r == is_pentagon_index(self.index()),
    {
        let b = self.base_cell();
        let pent_base = b == 4 || b == 14 || b == 24 || b == 38 || b == 49 || b == 58 || b == 63
            || b == 72 || b == 83 || b == 97 || b == 107 || b == 117;
        if !pent_base {
            return false;
        }
        let res = self.resolution() as u64;
        let mut k: u64 = 1;
        while k <= res
            invariant
                1 <= k <= res + 1,
                res == res_of(self.index()),
                res <= 15,
                forall|j: u64| 1 <= j < k ==> #[trigger] digit_of(self.index(), j) == 0,
            decreases res + 1 - k,
        {
            let d = (self.bits >> (45 - 3 * k)) & 7u64;
            assert(d == digit_of(self.index(), k));
            if d != 0 {
                return false;
            }
            k = k + 1;
        }
        true
    }

    /// The ancestor at resolution `res`; `None` when `res` is finer than the cell.
    pub fn parent(&self, res: u8) -> (r: Option<Cell>)
        ensures
            r is Some <==> res as u64 <= res_of(self.index()),
            r matches Some(p) ==> p.index() == parent_index(self.index(), res as u64) && p@
                == self@.parent(res as nat),
    {
        proof {
            use_type_invariant(self);
        }
        let cur = self.resolution();
        if res > cur {
            return None;
        }
        let r = res as u64;
        let mask = unused_tail(r);
        let bits = (self.bits & !(0xfu64 << 52u64)) | (r << 52u64) | mask;
        proof {
            lemma_parent_valid(self.bits, r);
            lemma_parent_model(self.bits, r);
        }
        Some(Cell { bits })
    }

    /// The center descendant at resolution `res`; `None` when `res` is coarser than
    /// the cell or above 15.
    pub fn center_child(&self, res: u8) -> (r: Option<Cell>)
        ensures
            r is Some <==> res_of(self.index()) <= res as u64 <= 15,
            r matches Some(c) ==> c.index() == center_child_index(self.index(), res as u64) && c@
                == self@.center_child(res as nat),
    {
        proof {
            use_type_invariant(self);
        }
        let cur = self.resolution() as u64;
        if res > 15 || (res as u64) < cur {
            return None;
        }
        let r = res as u64;
        let from = unused_tail(cur);
        let to = unused_tail(r);
        let bits = ((self.bits & !(0xfu64 << 52u64)) | (r << 52u64)) & !(from & !to);
        proof {
            lemma_center_child_valid(self.bits, r);
            lemma_center_child_model(self.bits, r);
        }
        Some(Cell { bits })
    }

    /// The descendants at resolution `res`, each once; none when `res` is coarser
    /// than the cell.
    pub fn children(&self, res: u8) -> (r: Result<Vec<Cell>, H3Error>)
        ensures
            r is Err <==> res > 15,
            r matches Err(e) ==> e == H3Error::InvalidResolution,
            r matches Ok(v) ==> forall|i: int|
                0 <= i < v@.len() ==> is_child_index(#[trigger] v@[i].index(), self.index(), res as u64),
            r matches Ok(v) ==> forall|x: u64|
                #[trigger] is_child_index(x, self.index(), res as u64) ==> lists_index(v@, x),
            r matches Ok(v) ==> forall|i: int, j: int|
                0 <= i < j < v@.len() ==> v@[i].index() != v@[j].index(),
    {
        proof {
            use_type_invariant(self);
        }
        if res > 15 {
            return Err(H3Error::InvalidResolution);
        }
        let found = h3o_children(self.bits, res);
        let mut out: Vec<Cell> = Vec::new();
        let mut i: usize = 0;
        while i < found.len()
            invariant
                i <= found@.len(),
                out@.len() == i,
                forall|j: int| 0 <= j < i ==> #[trigger] out@[j].index() == found@[j],
                forall|j: int|
                    0 <= j < found@.len() ==> is_child_index(
                        #[trigger] found@[j],
                        self.index(),
                        res as u64,
                    ),
            decreases found@.len() - i,
        {
            let x = found[i];
            out.push(Cell { bits: x });
            i = i + 1;
        }
        assert forall|i: int| 0 <= i < out@.len() implies is_child_index(
            #[trigger] out@[i].index(),
            self.index(),
            res as u64,
        ) by {
            assert(out@[i].index() == found@[i]);
        }
        assert forall|x: u64| #[trigger] is_child_index(x, self.index(), res as u64) implies lists_index(
            out@,
            x,
        ) by {
            assert(found@.contains(x));
            let k = choose|k: int| 0 <= k < found@.len() && found@[k] == x;
            assert(out@[k].index() == x);
        }
        assert forall|i: int, j: int| 0 <= i < j < out@.len() implies out@[i].index()
            != out@[j].index() by {
            assert(found@[i] != found@[j]);
        }
        Ok(out)
    }

    /// Position of this cell in the local IJ frame of `origin`.
    pub fn to_local_ij(&self, origin: &Cell) -> (r: Result<LocalIj, H3Error>)
        ensures
            r == local_ij_outcome(local_ij_of(self.index(), origin.index())),
    {
        proof {
            use_type_invariant(self);
            use_type_invariant(origin);
        }
        local_ij_from(h3o_local_ij(self.bits, origin.bits))
    }

    /// The canonical hexadecimal text of the cell.
    pub fn to_text(&self) -> (r: String)
        ensures
            r@ == hex_text(self.index() as nat),
    {
        format_hex(self.bits)
    }
}

/// Decodes hexadecimal text (one to sixteen digits, either case) into a cell.
pub fn decode_cell(text: &str) -> (r: Result<Cell, H3Error>)
    ensures
        r is Ok <==> is_cell_text(text@),
        r matches Ok(c) ==> c.index() == text_index(text@),
        r matches Err(e) ==> e == H3Error::InvalidFormat,
{
    match parse_hex(text) {
        Some(v) => match Cell::from_index(v) {
            Some(c) => Ok(c),
            None => Err(H3Error::InvalidFormat),
        },
        None => Err(H3Error::InvalidFormat),
    }
}

} // verus!
