//! Planning and executing the synchronisation of a rule with a directory.

pub mod model;
pub mod planner;
pub mod executor;
