use vstd::prelude::*;

pub mod base;
pub mod config;
pub mod section;

pub use base::{BaseLevel, GameLevel, Level, TestCase, UserCreatedLevel};
pub use config::{load_all, JLevel, JLevelConfig, JSection, Section};
pub use section::SectionName;

verus! {

} // verus!
