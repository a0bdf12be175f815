//! A small relational-database access layer: a holder of one SQLite
//! connection, statement execution, and a verified marshaller that turns the
//! dynamically typed rows of a query into a JSON array of row objects.
pub mod cell;
mod driver;
pub mod holder;
pub mod json;
pub mod record;

pub use cell::Cell;
pub use holder::{marshal, narrow_count, DbError, RSQLite};
pub use json::{encode_cell, encode_row, encode_rows};
pub use record::{classify, RowRecord};
