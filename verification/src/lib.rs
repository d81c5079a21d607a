//! A small read-only SQL query engine over an in-memory catalog of tables.
//!
//! A query comes as a parsed statement. [`parser::parse`] turns it into a
//! logical plan, [`query::to_physical_plan::to_physical_plan`] into a
//! physical plan, which may probe an index where the logical plan filters a
//! table, and [`query::execute`] runs the physical plan over a
//! [`database::Database`]. The result is a schema, the rows, and the number
//! of rows that the operators touched.
//!
//! Each function states what it returns over a mathematical model of its
//! arguments, and is proved to return that. What holds of every plan is
//! proved in [`laws`] and beside the operators.

pub mod catalog;
pub mod database;
pub mod indexes;
pub mod laws;
pub mod parser;
pub mod query;
pub mod source;
pub mod types;
pub mod value;

pub use parser::parse;
pub use query::run_query;
