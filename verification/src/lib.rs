//! An in-memory table with typed columns and one key column.

pub mod coercion;
pub mod command;
pub mod error;
pub mod helper;
pub mod laws;
pub mod master;
pub mod menu;
pub mod model;
pub mod models;
pub mod render;
pub mod table;
pub mod text;
pub mod value;
