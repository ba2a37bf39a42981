//! A relational cache for a tree of markdown documents whose front-matter
//! schema is declared per folder.
//!
//! The library holds the logic: schema model and registry, table naming and
//! DDL synthesis, the upsert/diff planner with its model of the cache tables,
//! the query builder and row decoder, front-matter coercion, and the
//! classifier that turns raw filesystem notifications into cache actions.
//! Executing statements, reading files and watching the disk happen around it.
pub mod cache;
pub mod defaults;
pub mod document;
pub mod error;
pub mod files;
pub mod query;
pub mod registry;
pub mod schema;
pub mod sql;
pub mod tables;
pub mod text;
pub mod watcher;
