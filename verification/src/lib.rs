//! Generates typed data-structure definitions, with their wire-serialization
//! directives, from a set of named interface schemas.

pub mod error;
pub mod text;
pub mod reference;
pub mod collect;
pub mod naming;
pub mod schema;
pub mod definition;
pub mod classify;
pub mod object;
pub mod registry;
pub mod composition;
pub mod expand;
pub mod render;
pub mod generate;
pub mod laws;
pub mod models;
