//! Directed edges between neighboring cells.
use crate::cell::Cell;
use crate::engine::h3o_is_edge;
use crate::error::H3Error;
use crate::hex::{hex_value, is_hex_text, parse_hex};
use crate::layout::{edge_of, edge_origin, valid_edge};
use vstd::prelude::*;

verus! {

/// Text that decodes to a directed edge: hexadecimal digits whose value is a valid
/// directed edge index.
pub open spec fn is_edge_text(s: Seq<char>) -> bool {
    is_hex_text(s) && valid_edge(hex_value(s) as u64)
}

/// A valid directed edge index.
#[derive(Clone, Copy, Debug, PartialEq, Eq, Hash, Structural)]
pub struct DirectedEdge {
    bits: u64,
}

impl DirectedEdge {
    /// The 64-bit index of the edge.
    pub closed spec fn index(self) -> u64 {
        self.bits
    }

    #[verifier::type_invariant]
    closed spec fn inv(self) -> bool {
        valid_edge(self.bits)
    }

    /// The 64-bit index of the edge.
    pub fn bits(&self) -> (r: u64)
        ensures
            r == self.index(),
            valid_edge(r),
    {
        proof {
            use_type_invariant(self);
        }
        self.bits
    }

    /// The cell the edge leaves from.
    pub fn origin(&self) -> (r: Cell)
        ensures
            r.index() == edge_origin(self.index()),
    {
        proof {
            use_type_invariant(self);
        }
        let v = self.bits;
        Cell::from_valid((v & !(0x7fu64 << 56u64)) | (1u64 << 59u64))
    }

    /// The edge number, in `1..=6`.
    pub fn edge_number(&self) -> (r: u8)
        ensures
            r as u64 == edge_of(self.index()),
            1 <= r <= 6,
    {
        proof {
            use_type_invariant(self);
        }
        ((self.bits >> 56u64) & 7u64) as u8
    }
}

/// Decodes hexadecimal text (one to sixteen digits, either case) into a directed edge.
pub fn decode_edge(text: &str) -> (r: Result<DirectedEdge, H3Error>)
    ensures
        r is Ok <==> is_edge_text(text@),
        r matches Ok(e) ==> e.index() == hex_value(text@),
        r matches Err(e) ==> e == H3Error::InvalidFormat,
{
    match parse_hex(text) {
        Some(v) => if h3o_is_edge(v) {
            Ok(DirectedEdge { bits: v })
        } else {
            Err(H3Error::InvalidFormat)
        },
        None => Err(H3Error::InvalidFormat),
    }
}

} // verus!
