//! Cell indexes of a hierarchical hexagonal grid of the sphere: decoding and
//! encoding of the 64-bit index, its fields, and navigation between resolutions.
//! Geometry comes from the h3o engine through the calls in `engine`.
pub mod api;
pub mod cell;
pub mod edge;
pub mod engine;
pub mod error;
pub mod hex;
pub mod layout;
pub mod units;
