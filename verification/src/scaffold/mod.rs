//! Creating the directory skeleton of a new rule.

pub mod model;
pub mod templates;
pub mod validation;
pub mod writer;

pub use model::{RuleScaffoldSpec, ScaffoldPatternType, ScaffoldResult};
pub use writer::create_rule_scaffold;
