//! Verified core of a small CRUD service over a single `items` table.
//!
//! The library models the table, the response bodies and the routing rules
//! as plain verified code.  All I/O (the HTTP listener and the database
//! driver) lives outside the library and only hands plain values in and out.

pub mod config;
pub mod decimal;
pub mod handlers;
pub mod json;
pub mod responses;
pub mod router;
pub mod models;
pub mod store;
pub mod timestamp;

pub use models::{CreateItem, Item};
