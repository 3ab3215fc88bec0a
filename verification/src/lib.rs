//! Two small verified libraries in one crate: the vertex engine of a
//! Koch-style snowflake, and the rules of a command-line task list.

pub mod snowflake;
pub mod tasks;
