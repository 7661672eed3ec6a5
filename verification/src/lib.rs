//! Foreign-data access core: a canonical cell model, query pushdown and
//! value marshalling between an engine, a remote column store and a
//! sandboxed plugin interface.

pub mod cell;
pub mod datetime;
pub mod error;
pub mod fdw;
pub mod import_schema;
pub mod literal;
pub mod numeric;
pub mod options;
pub mod plugin;
pub mod pushdown;
pub mod remote;
pub mod text;
