//! A verified core for a small task service: the entity model, a model of
//! the backing table's CRUD semantics, the pagination arithmetic, and the
//! JSON reply envelope of every route.

pub mod json;
pub mod laws;
pub mod model;
pub mod schema;
pub mod services;
pub mod store;
