//! A database mapper: relations, queries over them, their compilation to SQL,
//! changesets that are applied to a gateway, and the keys that a gateway hands
//! back for stored models.

pub mod key;
pub mod text;
pub mod fieldset;
pub mod wrapper;
pub mod relation;
pub mod gateway;
pub mod changeset;
pub mod query;
pub mod compile;
pub mod sqlite;
pub mod executor;
pub mod memory;
pub mod blog;
