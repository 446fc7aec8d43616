//! Schema compilation for CRUD over SQL tables: a record type's field list,
//! with its annotations, is resolved once into a schema, and the schema into
//! the five statements that the record's create, read, update and delete
//! operations run, together with the order in which their arguments are bound.
pub mod dialect;
pub mod schema;
pub mod sql;
pub mod binding;
