use vstd::prelude::*;

verus! {

/// One value read from one column of one result row, tagged by the kind
/// of value the database engine reported for it.
///
/// A real number is held by its IEEE-754 bit pattern, beside the JSON
/// number that is written for it.
#[derive(Debug, Clone, PartialEq)]
pub enum Cell {
    Null,
    Integer(i64),
    Real(u64, String),
    Text(String),
    Blob(Vec<u8>),
}

} // verus!
