//! Entry points that take and return cell indexes as hexadecimal text.
#![allow(non_snake_case)]
use crate::cell::{decode_cell, is_cell_text, local_ij_outcome, lists_index, text_index, Cell, LocalIj};
use crate::edge::{decode_edge, is_edge_text, DirectedEdge};
use crate::engine::{is_child_index, local_ij_of};
use crate::error::H3Error;
use crate::hex::{hex_text, hex_value, law_hex_text_value};
use crate::layout::{base_of, center_child_index, is_pentagon_index, parent_index, res_of, MAX_RES};
use crate::units::{
    area_unit_named, length_unit_named, parse_area_unit, parse_length_unit, AreaUnit, LengthUnit,
};
use vstd::prelude::*;

verus! {

/// Some text of `v` is `t`.
pub open spec fn lists_text(v: Seq<String>, t: Seq<char>) -> bool {
    exists|i: int| 0 <= i < v.len() && #[trigger] v[i]@ == t
}

/// `t` is the text of a descendant of `v` at resolution `r`.
pub open spec fn is_child_text(t: Seq<char>, v: u64, r: u64) -> bool {
    exists|x: u64| #[trigger] is_child_index(x, v, r) && t == hex_text(x as nat)
}

/// Whether the text decodes to a valid cell.
pub fn isValidCell(hex_index: &str) -> (r: bool)
    ensures
        r == is_cell_text(hex_index@),
{
    decode_cell(hex_index).is_ok()
}

/// The resolution of the cell that the text writes.
pub fn getResolution(h3Index: &str) -> (r: Result<u8, H3Error>)
    ensures
        r == if is_cell_text(h3Index@) {
            Ok(res_of(text_index(h3Index@)) as u8)
        } else {
            Err(H3Error::InvalidFormat)
        },
{
    let cell = decode_cell(h3Index)?;
    Ok(cell.resolution())
}

/// Whether the cell that the text writes has an odd (Class III) resolution.
pub fn isResClassIII(hex_index: &str) -> (r: Result<bool, H3Error>)
    ensures
        r == if is_cell_text(hex_index@) {
            Ok(res_of(text_index(hex_index@)) % 2 == 1)
        } else {
            Err(H3Error::InvalidFormat)
        },
{
    let cell = decode_cell(hex_index)?;
    Ok(cell.is_class_iii())
}

/// The base cell number of the cell that the text writes.
pub fn getBaseCellNumber(h3Index: &str) -> (r: Result<u32, H3Error>)
    ensures
        r == if is_cell_text(h3Index@) {
            Ok(base_of(text_index(h3Index@)) as u32)
        } else {
            Err(H3Error::InvalidFormat)
        },
{
    let cell = decode_cell(h3Index)?;
    Ok(cell.base_cell() as u32)
}

/// Whether the cell that the text writes is a pentagon.
pub fn isPentagon(hex_index: &str) -> (r: Result<bool, H3Error>)
    ensures
        r == if is_cell_text(hex_index@) {
            Ok(is_pentagon_index(text_index(hex_index@)))
        } else {
            Err(H3Error::InvalidFormat)
        },
{
    let cell = decode_cell(hex_index)?;
    Ok(cell.is_pentagon())
}

/// The texts of the descendants at resolution `res`, each once.
pub fn cellToChildren(h3_index: &str, res: u8) -> (r: Result<Vec<String>, H3Error>)
    ensures
        !is_cell_text(h3_index@) ==> r == Err::<Vec<String>, H3Error>(H3Error::InvalidFormat),
        is_cell_text(h3_index@) && res > 15 ==> r == Err::<Vec<String>, H3Error>(
            H3Error::InvalidResolution,
        ),
        r is Ok <==> is_cell_text(h3_index@) && res <= 15,
        r matches Ok(v) ==> forall|i: int|
            0 <= i < v@.len() ==> is_child_text(#[trigger] v@[i]@, text_index(h3_index@), res as u64),
        r matches Ok(v) ==> forall|x: u64|
            #[trigger] is_child_index(x, text_index(h3_index@), res as u64) ==> lists_text(
                v@,
                hex_text(x as nat),
            ),
        r matches Ok(v) ==> forall|i: int, j: int| 0 <= i < j < v@.len() ==> v@[i]@ != v@[j]@,
{
    let cell = decode_cell(h3_index)?;
    let kids = cell.children(res)?;
    let mut out: Vec<String> = Vec::new();
    let mut i: usize = 0;
    while i < kids.len()
        invariant
            i <= kids@.len(),
            out@.len() == i,
            forall|j: int| 0 <= j < i ==> #[trigger] out@[j]@ == hex_text(kids@[j].index() as nat),
        decreases kids@.len() - i,
    {
        let t = kids[i].to_text();
        out.push(t);
        i = i + 1;
    }
    let ghost v = cell.index();
    assert forall|i: int| 0 <= i < out@.len() implies is_child_text(
        #[trigger] out@[i]@,
        v,
        res as u64,
    ) by {
        assert(is_child_index(kids@[i].index(), v, res as u64));
    }
    assert forall|x: u64| #[trigger] is_child_index(x, v, res as u64) implies lists_text(
        out@,
        hex_text(x as nat),
    ) by {
        assert(lists_index(kids@, x));
        let k = choose|k: int| 0 <= k < kids@.len() && #[trigger] kids@[k].index() == x;
        assert(out@[k]@ == hex_text(x as nat));
    }
    assert forall|i: int, j: int| 0 <= i < j < out@.len() implies out@[i]@ != out@[j]@ by {
        law_hex_text_value(kids@[i].index() as nat);
        law_hex_text_value(kids@[j].index() as nat);
    }
    Ok(out)
}

/// The text of the ancestor at resolution `res`.
pub fn cellToParent(h3_index: &str, res: u8) -> (r: Result<String, H3Error>)
    ensures
        !is_cell_text(h3_index@) ==> r == Err::<String, H3Error>(H3Error::InvalidFormat),
        is_cell_text(h3_index@) && res > 15 ==> r == Err::<String, H3Error>(
            H3Error::InvalidResolution,
        ),
        is_cell_text(h3_index@) && res <= 15 && res as u64 > res_of(text_index(h3_index@)) ==> r
            == Err::<String, H3Error>(H3Error::NoSuchRelation),
        r is Ok <==> is_cell_text(h3_index@) && res as u64 <= res_of(text_index(h3_index@)),
        r matches Ok(t) ==> t@ == hex_text(parent_index(text_index(h3_index@), res as u64) as nat),
{
    let cell = decode_cell(h3_index)?;
    let ghost v = cell.index();
    assert(res_of(v) <= 15) by (bit_vector);
    if res > 15 {
        return Err(H3Error::InvalidResolution);
    }
    match cell.parent(res) {
        Some(p) => Ok(p.to_text()),
        None => Err(H3Error::NoSuchRelation),
    }
}

/// The text of the center descendant at resolution `res`.
pub fn cellToCenterChild(h3Index: &str, res: u8) -> (r: Result<String, H3Error>)
    ensures
        !is_cell_text(h3Index@) ==> r == Err::<String, H3Error>(H3Error::InvalidFormat),
        is_cell_text(h3Index@) && res > 15 ==> r == Err::<String, H3Error>(
            H3Error::InvalidResolution,
        ),
        is_cell_text(h3Index@) && res <= 15 && (res as u64) < res_of(text_index(h3Index@)) ==> r
            == Err::<String, H3Error>(H3Error::NoSuchRelation),
        r is Ok <==> is_cell_text(h3Index@) && res_of(text_index(h3Index@)) <= res as u64 <= 15,
        r matches Ok(t) ==> t@ == hex_text(
            center_child_index(text_index(h3Index@), res as u64) as nat,
        ),
{
    let cell = decode_cell(h3Index)?;
    if res > 15 {
        return Err(H3Error::InvalidResolution);
    }
    match cell.center_child(res) {
        Some(c) => Ok(c.to_text()),
        None => Err(H3Error::NoSuchRelation),
    }
}

/// The position of the second cell in the local IJ frame of the first.
pub fn cellToLocalIj(h3_origin_index: &str, h3_index: &str) -> (r: Result<LocalIj, H3Error>)
    ensures
        !is_cell_text(h3_origin_index@) || !is_cell_text(h3_index@) ==> r == Err::<
            LocalIj,
            H3Error,
        >(H3Error::InvalidFormat),
        is_cell_text(h3_origin_index@) && is_cell_text(h3_index@) ==> r == local_ij_outcome(
            local_ij_of(text_index(h3_index@), text_index(h3_origin_index@)),
        ),
{
    let origin = decode_cell(h3_origin_index)?;
    let cell = decode_cell(h3_index)?;
    cell.to_local_ij(&origin)
}

/// Checks a resolution: `InvalidResolution` outside `0..=15`.
pub fn checked_resolution(res: u8) -> (r: Result<u8, H3Error>)
    ensures
        r == if res as u64 <= MAX_RES {
            Ok(res)
        } else {
            Err(H3Error::InvalidResolution)
        },
{
    if res <= 15 {
        Ok(res)
    } else {
        Err(H3Error::InvalidResolution)
    }
}

/// The cell and unit of an area request: the index text is decoded first, then
/// the unit name is read.
pub fn area_query(h3Index: &str, unit: &str) -> (r: Result<(Cell, AreaUnit), H3Error>)
    ensures
        !is_cell_text(h3Index@) ==> r == Err::<(Cell, AreaUnit), H3Error>(H3Error::InvalidFormat),
        is_cell_text(h3Index@) && area_unit_named(unit@) is None ==> r == Err::<
            (Cell, AreaUnit),
            H3Error,
        >(H3Error::InvalidUnit),
        r is Ok <==> is_cell_text(h3Index@) && area_unit_named(unit@) is Some,
        r matches Ok((c, u)) ==> c.index() == text_index(h3Index@) && area_unit_named(unit@)
            == Some(u),
{
    let cell = decode_cell(h3Index)?;
    let u = parse_area_unit(unit)?;
    Ok((cell, u))
}

/// The edge and unit of a length request: the edge text is decoded first, then
/// the unit name is read.
pub fn edge_length_query(edge_index: &str, unit: &str) -> (r: Result<(DirectedEdge, LengthUnit), H3Error>)
    ensures
        !is_edge_text(edge_index@) ==> r == Err::<(DirectedEdge, LengthUnit), H3Error>(
            H3Error::InvalidFormat,
        ),
        is_edge_text(edge_index@) && length_unit_named(unit@) is None ==> r == Err::<
            (DirectedEdge, LengthUnit),
            H3Error,
        >(H3Error::InvalidUnit),
        r is Ok <==> is_edge_text(edge_index@) && length_unit_named(unit@) is Some,
        r matches Ok((e, u)) ==> e.index() == hex_value(edge_index@) && length_unit_named(unit@)
            == Some(u),
{
    let edge = decode_edge(edge_index)?;
    let u = parse_length_unit(unit)?;
    Ok((edge, u))
}

/// The resolution of a polygon coverage request: the resolution is checked first,
/// then the ring must have at least three vertices.
pub fn polygon_query(vertex_count: usize, res: u8) -> (r: Result<u8, H3Error>)
    ensures
        res > 15 ==> r == Err::<u8, H3Error>(H3Error::InvalidResolution),
        res <= 15 && vertex_count < 3 ==> r == Err::<u8, H3Error>(H3Error::DegeneratePolygon),
        res <= 15 && vertex_count >= 3 ==> r == Ok::<u8, H3Error>(res),
{
    let res = checked_resolution(res)?;
    if vertex_count < 3 {
        return Err(H3Error::DegeneratePolygon);
    }
    Ok(res)
}

} // verus!
