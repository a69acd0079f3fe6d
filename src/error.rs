//! The failures that the library reports.
use vstd::prelude::*;

verus! {

/// One kind of failure per request.
#[derive(Clone, Copy, Debug, PartialEq, Eq, Structural)]
pub enum H3Error {
    /// Malformed hexadecimal text, or bits that break the index layout.
    InvalidFormat,
    /// A latitude or longitude that is not finite or out of range.
    InvalidCoordinate,
    /// A resolution outside `0..=15`.
    InvalidResolution,
    /// A unit name that is not recognized.
    InvalidUnit,
    /// The requested relative (parent, center child, local frame) does not exist.
    NoSuchRelation,
    /// A polygon ring with fewer than three vertices.
    DegeneratePolygon,
    /// No seed cell was found for a coverage request.
    CoverageSearchExhausted,
}

impl H3Error {
    /// A short description of the failure.
    pub fn message(&self) -> (r: &'static str) {
        match self {
            H3Error::InvalidFormat => "invalid index format",
            H3Error::InvalidCoordinate => "invalid coordinate",
            H3Error::InvalidResolution => "invalid resolution",
            H3Error::InvalidUnit => "invalid unit",
            H3Error::NoSuchRelation => "no such relation",
            H3Error::DegeneratePolygon => "degenerate polygon",
            H3Error::CoverageSearchExhausted => "coverage search exhausted",
        }
    }
}

} // verus!
