//! A music catalog: derives categories from library directory trees, turns
//! extracted tags into catalog records, plans the SQL that persists and
//! queries them, and drives sandboxed transformation plugins.
pub mod api;
pub mod config;
pub mod indexer;
pub mod model;
pub mod paths;
pub mod persist;
pub mod plugin;
pub mod query;
pub mod text;
