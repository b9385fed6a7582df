//! Alias resolution core: a single-writer connection actor over an alias
//! table, a bounded LRU cache in front of it, and the façade that keeps the
//! two coherent.

pub mod model;
pub mod store;
pub mod cache;
pub mod actor;
pub mod facade;
pub mod destination;
pub mod service;
pub mod laws;
pub mod users;
pub mod logging;
