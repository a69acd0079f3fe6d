//! Units of area and length results.
use crate::error::H3Error;
use vstd::prelude::*;

verus! {

/// Unit of a cell area.
#[derive(Clone, Copy, Debug, PartialEq, Eq, Structural)]
pub enum AreaUnit {
    /// Square kilometers, `km2`.
    Km2,
    /// Square meters, `m2`.
    M2,
    /// Steradians, `rads2`.
    Rads2,
}

/// Unit of an edge length.
#[derive(Clone, Copy, Debug, PartialEq, Eq, Structural)]
pub enum LengthUnit {
    /// Kilometers, `km`.
    Km,
    /// Meters, `m`.
    M,
    /// Radians, `rads`.
    Rads,
}

/// Whether two texts hold the same characters.
pub fn same_text(a: &str, b: &str) -> (r: bool)
    ensures
        r == (a@ == b@),
{
    let n = a.unicode_len();
    if n != b.unicode_len() {
        return false;
    }
    let mut i: usize = 0;
    while i < n
        invariant
            n == a@.len(),
            n == b@.len(),
            i <= n,
            forall|j: int| 0 <= j < i ==> a@[j] == b@[j],
        decreases n - i,
    {
        if a.get_char(i) != b.get_char(i) {
            return false;
        }
        i = i + 1;
    }
    assert(a@ =~= b@);
    true
}

/// The area unit named by `unit`: `km2`, `m2` or `rads2`.
pub open spec fn area_unit_named(unit: Seq<char>) -> Option<AreaUnit> {
    if unit == "km2"@ {
        Some(AreaUnit::Km2)
    } else if unit == "m2"@ {
        Some(AreaUnit::M2)
    } else if unit == "rads2"@ {
        Some(AreaUnit::Rads2)
    } else {
        None
    }
}

/// The length unit named by `unit`: `km`, `m` or `rads`.
pub open spec fn length_unit_named(unit: Seq<char>) -> Option<LengthUnit> {
    if unit == "km"@ {
        Some(LengthUnit::Km)
    } else if unit == "m"@ {
        Some(LengthUnit::M)
    } else if unit == "rads"@ {
        Some(LengthUnit::Rads)
    } else {
        None
    }
}

/// Reads an area unit name; any other text is `InvalidUnit`.
pub fn parse_area_unit(unit: &str) -> (r: Result<AreaUnit, H3Error>)
    ensures
        r == (match area_unit_named(unit@) {
            Some(u) => Ok(u),
            None => Err(H3Error::InvalidUnit),
        }),
{
    if same_text(unit, "km2") {
        Ok(AreaUnit::Km2)
    } else if same_text(unit, "m2") {
        Ok(AreaUnit::M2)
    } else if same_text(unit, "rads2") {
        Ok(AreaUnit::Rads2)
    } else {
        Err(H3Error::InvalidUnit)
    }
}

/// Reads a length unit name; any other text is `InvalidUnit`.
pub fn parse_length_unit(unit: &str) -> (r: Result<LengthUnit, H3Error>)
    ensures
        r == (match length_unit_named(unit@) {
            Some(u) => Ok(u),
            None => Err(H3Error::InvalidUnit),
        }),
{
    if same_text(unit, "km") {
        Ok(LengthUnit::Km)
    } else if same_text(unit, "m") {
        Ok(LengthUnit::M)
    } else if same_text(unit, "rads") {
        Ok(LengthUnit::Rads)
    } else {
        Err(H3Error::InvalidUnit)
    }
}

} // verus!
