//! The closed curve of a Koch-style snowflake, round by round.
//!
//! The engine is indifferent to what a point is: it copies points, pairs
//! them into segments and lays the subdivided segments end to end. The
//! arithmetic on coordinates is the caller's, handed in as a function from a
//! segment to the three points that go between its ends.

pub mod engine;
pub mod laws;
pub mod model;
