//! Planning of safe schema changes for PostgreSQL views: identifier quoting,
//! migration step plans for view replacement and column drops, deprecation
//! messages, and the parsing and reporting logic of the command line tool.

pub mod text;
pub mod plan;
pub mod plan_laws;
pub mod deprecation;
pub mod target;
pub mod cli;
