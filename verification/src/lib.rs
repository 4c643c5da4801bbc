//! Verified core of a tool that keeps the pattern set of a custom rule in sync
//! with a local directory of XML pattern files.

pub mod text;
pub mod dto;
pub mod xml;
pub mod config;
pub mod sync;
pub mod local;
pub mod scaffold;
pub mod api;
pub mod logging;
