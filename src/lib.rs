//! A graph-data store front end: named stores, query dispatch, typed
//! projection of query results, and bulk loading of graph files.
pub mod text;
pub mod prefixes;
pub mod term;
pub mod error;
pub mod engine;
pub mod registry;
pub mod dispatch;
pub mod json;
pub mod plugin;
pub mod remote;
pub mod loader;
