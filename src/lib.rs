//! Seat apportionment among subdivisions by the highest-ratio method.
//!
//! The library filters a census table down to the apportionable
//! subdivisions and hands out seats one at a time to whichever subdivision
//! currently has the largest population-per-seat ratio.

pub mod types;
pub mod model;
pub mod filter;
pub mod allocation;
pub mod ordering;
