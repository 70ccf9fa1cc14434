//! Schema change management: migration recipes, their ordering and checks,
//! the changelog consolidation and the migration planner.

pub mod text;
pub mod version;
pub mod checksum;
pub mod recipe;
pub mod metadata;
pub mod order;
pub mod changelog;
pub mod migrator;
pub mod pattern;
pub mod loader;
pub mod ddl;
pub mod statements;
pub mod cli;
pub mod laws;
pub mod plan_laws;
