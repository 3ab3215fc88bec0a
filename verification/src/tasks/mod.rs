//! A task list driven by typed commands: what a line of input means, what
//! each command does to the list, and what is shown in return.

pub mod command;
pub mod manager;
pub mod session;
pub mod task;
pub mod text;
