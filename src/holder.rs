use vstd::prelude::*;
use crate::cell::Cell;
use crate::driver::{
    error_message, execute, next_row, open_connection, prepare, row_value,
    start_query, to_cell,
};
use crate::json::{array_json, encode_rows, json_real};
use crate::record::{distinct_keys, entries_map, name_seq, row_map, RowRecord};
use rusqlite::{Connection, Statement};

verus! {

/// Why a call on the holder failed. Every failure of the engine carries the
/// engine's own message.
#[derive(Debug, Clone, PartialEq)]
pub enum DbError {
    /// `exec` or `query` was called while no connection is held; the text
    /// says so.
    NotOpen(String),
    /// The database file could not be opened or created.
    OpenFailed(String),
    /// The statement could not be compiled.
    PrepareFailed(String),
    /// The statement failed while it ran.
    ExecFailed(String),
    /// Stepping through the rows of a query failed.
    QueryFailed(String),
}

impl DbError {
    /// The human-readable message of the failure.
    pub fn message(&self) -> (r: String)
        ensures
            match self {
                DbError::NotOpen(m) => r@ == m@,
                DbError::OpenFailed(m) => r@ == m@,
                DbError::PrepareFailed(m) => r@ == m@,
                DbError::ExecFailed(m) => r@ == m@,
                DbError::QueryFailed(m) => r@ == m@,
            },
    {
        match self {
            DbError::NotOpen(m) => m.clone(),
            DbError::OpenFailed(m) => m.clone(),
            DbError::PrepareFailed(m) => m.clone(),
            DbError::ExecFailed(m) => m.clone(),
            DbError::QueryFailed(m) => m.clone(),
        }
    }
}

/// Every real among the cells carries the JSON number written for it.
pub open spec fn reals_tagged(cells: Seq<Cell>) -> bool {
    forall|j: int|
        0 <= j < cells.len() ==> (#[trigger] cells[j] matches Cell::Real(bits, text) ==> text@
            == json_real(bits))
}

/// `recs` are the row objects of the result rows `cells` under the columns
/// `names`, one object per row, in row order, with their members in some order.
pub open spec fn marshalled(
    names: Seq<Seq<char>>,
    cells: Seq<Seq<Cell>>,
    recs: Seq<Seq<(Seq<char>, Cell)>>,
) -> bool {
    &&& recs.len() == cells.len()
    &&& forall|k: int|
        0 <= k < cells.len() ==> {
            &&& (#[trigger] cells[k]).len() == names.len()
            &&& distinct_keys(recs[k])
            &&& entries_map(recs[k]) == row_map(names, cells[k])
        }
}

/// The text is the JSON array of the row objects of some result: some
/// column names and rows of cells, each real tagged with its JSON number,
/// each object written with its members in some order.
pub open spec fn is_result_payload(t: Seq<char>) -> bool {
    exists|names: Seq<Seq<char>>, cells: Seq<Seq<Cell>>, recs: Seq<Seq<(Seq<char>, Cell)>>|
        {
            &&& forall|k: int| 0 <= k < cells.len() ==> reals_tagged(#[trigger] cells[k])
            &&& marshalled(names, cells, recs)
            &&& t == array_json(recs)
        }
}

/// The cells of each row, as sequences.
pub open spec fn cell_rows(rows: Seq<Vec<Cell>>) -> Seq<Seq<Cell>> {
    rows.map_values(|v: Vec<Cell>| v@)
}

/// Turns the rows of a result, one cell per column each, into the JSON array
/// of their row objects, in row order.
pub fn marshal(names: &Vec<String>, rows: &Vec<Vec<Cell>>) -> (r: String)
    requires
        forall|k: int| 0 <= k < rows.len() ==> (#[trigger] rows@[k]).len() == names.len(),
    ensures
        exists|recs: Seq<Seq<(Seq<char>, Cell)>>|
            marshalled(name_seq(names@), cell_rows(rows@), recs) && r@ == array_json(recs),
{
    let ghost nm = name_seq(names@);
    let ghost cells = cell_rows(rows@);
    let mut records: Vec<RowRecord> = Vec::new();
    let mut k: usize = 0;
    while k < rows.len()
        invariant
            k <= rows.len(),
            nm == name_seq(names@),
            cells == cell_rows(rows@),
            forall|j: int| 0 <= j < rows.len() ==> (#[trigger] rows@[j]).len() == names.len(),
            records.len() == k,
            forall|j: int|
                0 <= j < k ==> {
                    &&& (#[trigger] records@[j]).wf()
                    &&& records@[j]@ == row_map(nm, cells[j])
                },
        decreases rows.len() - k,
    {
        assert(rows@[k as int].len() == names.len());
        let rec = RowRecord::from_cells(names, &rows[k]);
        records.push(rec);
        k = k + 1;
    }
    let t = encode_rows(&records);
    proof {
        let recs = records@.map_values(|row: RowRecord| row.pairs());
        assert forall|j: int| 0 <= j < cells.len() implies {
            &&& (#[trigger] cells[j]).len() == nm.len()
            &&& distinct_keys(recs[j])
            &&& entries_map(recs[j]) == row_map(nm, cells[j])
        } by {
            assert(rows@[j].len() == names.len());
            assert(recs[j] == records@[j].pairs());
            assert(records@[j].wf());
        }
        assert(marshalled(nm, cells, recs));
    }
    t
}

/// The signed 32-bit number that a count becomes when it is narrowed by
/// keeping its low 32 bits.
pub open spec fn wrap_i32(n: int) -> int {
    let m = n % 0x1_0000_0000;
    if m >= 0x8000_0000 {
        m - 0x1_0000_0000
    } else {
        m
    }
}

/// Narrows an affected-row count to 32 bits, keeping its low 32 bits.
pub fn narrow_count(n: usize) -> (r: i32)
    ensures
        r as int == wrap_i32(n as int),
{
    let m: u64 = (n as u64) % 0x1_0000_0000;
    if m >= 0x8000_0000 {
        ((m as i64) - 0x1_0000_0000) as i32
    } else {
        m as i32
    }
}

/// Holds at most one open database connection.
pub struct RSQLite {
    connection: Option<Connection>,
}

impl RSQLite {
    /// A connection is held.
    pub closed spec fn is_open(&self) -> bool {
        self.connection is Some
    }

    /// A holder with no connection.
    pub fn new() -> (r: RSQLite)
        ensures
            !r.is_open(),
    {
        RSQLite { connection: None }
    }

    /// Opens or creates the database file at `path`, replacing any
    /// connection held before. When it fails no connection is held.
    pub fn open(&mut self, path: String) -> (r: Result<(), DbError>)
        ensures
            r is Ok <==> final(self).is_open(),
            r matches Err(e) ==> e is OpenFailed,
    {
        match open_connection(path.as_str()) {
            Ok(conn) => {
                self.connection = Some(conn);
                Ok(())
            },
            Err(e) => {
                self.connection = None;
                Err(DbError::OpenFailed(error_message(&e)))
            },
        }
    }

    /// Runs one statement without parameters and returns how many rows it
    /// changed, narrowed to 32 bits.
    pub fn exec(&self, sql: String) -> (r: Result<i32, DbError>)
        ensures
            !self.is_open() ==> (r matches Err(DbError::NotOpen(m)) && m@
                == "database not opened."@),
            self.is_open() ==> (r matches Err(e) ==> e is ExecFailed),
    {
        match &self.connection {
            None => Err(DbError::NotOpen(String::from_str("database not opened."))),
            Some(conn) => match execute(conn, sql.as_str()) {
                Ok(n) => Ok(narrow_count(n)),
                Err(e) => Err(DbError::ExecFailed(error_message(&e))),
            },
        }
    }

    /// Runs a query and returns its rows as one JSON array of row objects:
    /// a member per column, named by the column, for each cell that is
    /// not a blob, NULL written as `null`.
    ///
    /// `read_names` gives the names of the prepared statement's columns, in
    /// column order, or `None` where they cannot be read; that fails the
    /// query. (rusqlite's own readers panic on a name that is not valid
    /// UTF-8, so the caller chooses how that is caught.)
    pub fn query<F>(&self, sql: String, read_names: F) -> (r: Result<String, DbError>)
        where
            F: Fn(&Statement) -> Option<Vec<String>>,
        requires
            forall|s: &Statement| read_names.requires((s,)),
        ensures
            !self.is_open() ==> (r matches Err(DbError::NotOpen(m)) && m@
                == "database not opened"@),
            self.is_open() ==> match r {
                Ok(t) => is_result_payload(t@),
                Err(e) => e is PrepareFailed || e is QueryFailed,
            },
    {
        let conn = match &self.connection {
            None => {
                return Err(DbError::NotOpen(String::from_str("database not opened")));
            },
            Some(conn) => conn,
        };
        let mut stmt = match prepare(conn, sql.as_str()) {
            Ok(stmt) => stmt,
            Err(e) => {
                return Err(DbError::PrepareFailed(error_message(&e)));
            },
        };
        let names = match read_names(&stmt) {
            Some(names) => names,
            None => {
                return Err(
                    DbError::QueryFailed(String::from_str("column names could not be read")),
                );
            },
        };
        let n: usize = names.len();
        let mut rows = match start_query(&mut stmt) {
            Ok(rows) => rows,
            Err(e) => {
                return Err(DbError::QueryFailed(error_message(&e)));
            },
        };
        let mut all: Vec<Vec<Cell>> = Vec::new();
        loop
            invariant
                self.is_open(),
                n == names.len(),
                forall|k: int|
                    0 <= k < all.len() ==> {
                        &&& (#[trigger] all@[k]).len() == n
                        &&& reals_tagged(all@[k]@)
                    },
            decreases usize::MAX - all.len(),
        {
            let row = match next_row(&mut rows) {
                Ok(Some(row)) => row,
                Ok(None) => {
                    break;
                },
                Err(e) => {
                    return Err(DbError::QueryFailed(error_message(&e)));
                },
            };
            let mut cells: Vec<Cell> = Vec::new();
            let mut k: usize = 0;
            while k < n
                invariant
                    self.is_open(),
                    k <= n,
                    cells.len() == k,
                    reals_tagged(cells@),
                decreases n - k,
            {
                let v = match row_value(row, k) {
                    Ok(v) => v,
                    Err(e) => {
                        return Err(DbError::QueryFailed(error_message(&e)));
                    },
                };
                cells.push(to_cell(v));
                k = k + 1;
            }
            all.push(cells);
            let count = all.len();
            assert(count <= usize::MAX);
        }
        let t = marshal(&names, &all);
        proof {
            let cells = cell_rows(all@);
            assert forall|k: int| 0 <= k < cells.len() implies reals_tagged(#[trigger] cells[k]) by {
                assert(all@[k].len() == n);
            }
            let recs = choose|recs: Seq<Seq<(Seq<char>, Cell)>>|
                marshalled(name_seq(names@), cells, recs) && t@ == array_json(recs);
            assert(marshalled(name_seq(names@), cells, recs));
        }
        Ok(t)
    }
}

} // verus!
