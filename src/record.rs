use vstd::prelude::*;
use crate::cell::Cell;

verus! {

/// A cell that can appear in a row object: everything but a blob.
pub open spec fn is_supported(c: Cell) -> bool {
    !(c is Blob)
}

/// The row object that the columns `names` and the cells `cells` describe:
/// the cells are taken in column order, a blob is left out, and where two
/// columns share a name the later supported one wins.
pub open spec fn row_map(names: Seq<Seq<char>>, cells: Seq<Cell>) -> Map<Seq<char>, Cell>
    decreases cells.len(),
{
    if cells.len() == 0 {
        Map::empty()
    } else {
        let n = cells.len() - 1;
        let m = row_map(names, cells.take(n));
        if is_supported(cells[n]) {
            m.insert(names[n], cells[n])
        } else {
            m
        }
    }
}

/// The map that a list of (name, cell) pairs stands for.
pub open spec fn entries_map(es: Seq<(Seq<char>, Cell)>) -> Map<Seq<char>, Cell>
    decreases es.len(),
{
    if es.len() == 0 {
        Map::empty()
    } else {
        entries_map(es.drop_last()).insert(es.last().0, es.last().1)
    }
}

/// No name occurs twice among the pairs.
pub open spec fn distinct_keys(es: Seq<(Seq<char>, Cell)>) -> bool {
    forall|i: int, j: int| 0 <= i < j < es.len() ==> es[i].0 != es[j].0
}

/// The names of a list of strings, as character sequences.
pub open spec fn name_seq(names: Seq<String>) -> Seq<Seq<char>> {
    names.map_values(|s: String| s@)
}

/// One result row as an object: a name for each column that holds a
/// supported value, with that value.
pub struct RowRecord {
    entries: Vec<(String, Cell)>,
}

impl View for RowRecord {
    type V = Map<Seq<char>, Cell>;

    open spec fn view(&self) -> Map<Seq<char>, Cell> {
        entries_map(self.pairs())
    }
}

impl RowRecord {
    /// The entries in the order they are written out.
    pub closed spec fn pairs(&self) -> Seq<(Seq<char>, Cell)> {
        self.entries@.map_values(|e: (String, Cell)| (e.0@, e.1))
    }

    /// Names are unique and every value is supported.
    pub open spec fn wf(&self) -> bool {
        &&& distinct_keys(self.pairs())
        &&& forall|i: int| 0 <= i < self.pairs().len() ==> is_supported(#[trigger] self.pairs()[i].1)
    }

    /// The entries, in the order they are written out.
    pub fn entries(&self) -> (r: &Vec<(String, Cell)>)
        ensures
            r@.map_values(|e: (String, Cell)| (e.0@, e.1)) == self.pairs(),
    {
        &self.entries
    }

    /// Builds the row object of one result row from the column names and
    /// the row's cells, one cell per column.
    pub fn from_cells(names: &Vec<String>, cells: &Vec<Cell>) -> (r: RowRecord)
        requires
            names.len() == cells.len(),
        ensures
            r.wf(),
            r@ == row_map(name_seq(names@), cells@),
    {
        let mut entries: Vec<(String, Cell)> = Vec::new();
        let n: usize = cells.len();
        let ghost nm = name_seq(names@);
        let mut i: usize = 0;
        while i < n
            invariant
                n == cells.len(),
                names.len() == n,
                nm == name_seq(names@),
                i <= n,
                (RowRecord { entries }).wf(),
                (RowRecord { entries })@ == row_map(nm, cells@.take(i as int)),
            decreases n - i,
        {
            let ghost before = (RowRecord { entries }).pairs();
            assert(cells@.take(i + 1).take(i as int) =~= cells@.take(i as int));
            assert(nm[i as int] == names@[i as int]@);
            match classify(&cells[i]) {
                Some(c) => {
                    let key = names[i].clone();
                    match find_key(&entries, &key) {
                        Some(j) => {
                            entries.set(j, (key, c));
                            proof {
                                let after = (RowRecord { entries }).pairs();
                                assert(after =~= before.update(j as int, (nm[i as int], c)));
                                lemma_entries_map_update(before, j as int, c);
                            }
                        },
                        None => {
                            entries.push((key, c));
                            proof {
                                let after = (RowRecord { entries }).pairs();
                                assert(after =~= before.push((nm[i as int], c)));
                                assert(after.drop_last() =~= before);
                            }
                        },
                    }
                },
                None => {},
            }
            i = i + 1;
        }
        assert(cells@.take(n as int) =~= cells@);
        RowRecord { entries }
    }
}

/// The supported cells, copied; `None` for a blob.
pub fn classify(c: &Cell) -> (r: Option<Cell>)
    ensures
        is_supported(*c) ==> r == Some(*c),
        !is_supported(*c) ==> r is None,
{
    match c {
        Cell::Null => Some(Cell::Null),
        Cell::Integer(v) => Some(Cell::Integer(*v)),
        Cell::Real(bits, text) => Some(Cell::Real(*bits, text.clone())),
        Cell::Text(s) => Some(Cell::Text(s.clone())),
        Cell::Blob(_) => None,
    }
}

/// The position of the entry named `key`, if there is one.
fn find_key(entries: &Vec<(String, Cell)>, key: &String) -> (r: Option<usize>)
    ensures
        match r {
            Some(j) => j < entries.len() && entries@[j as int].0@ == key@,
            None => forall|k: int| 0 <= k < entries.len() ==> entries@[k].0@ != key@,
        },
{
    let mut j: usize = 0;
    while j < entries.len()
        invariant
            j <= entries.len(),
            forall|k: int| 0 <= k < j ==> entries@[k].0@ != key@,
        decreases entries.len() - j,
    {
        if entries[j].0 == *key {
            return Some(j);
        }
        j = j + 1;
    }
    None
}

/// A supported cell is in its row object under its column's name, with its
/// value, unless a later column of the same name holds a supported value.
pub proof fn supported_cell_is_kept(names: Seq<Seq<char>>, cells: Seq<Cell>, i: int)
    requires
        names.len() == cells.len(),
        0 <= i < cells.len(),
        is_supported(cells[i]),
        forall|j: int| i < j < cells.len() && names[j] == names[i] ==> !is_supported(cells[j]),
    ensures
        row_map(names, cells).contains_key(names[i]),
        row_map(names, cells)[names[i]] == cells[i],
    decreases cells.len(),
{
    let n = cells.len() - 1;
    if i < n {
        supported_cell_is_kept(names.take(n), cells.take(n), i);
        lemma_row_map_names_prefix(names, cells.take(n));
    }
}

/// A NULL cell is written into its row object as an explicit null under its
/// column's name, unless a later column of the same name holds a supported
/// value.
pub proof fn null_cell_is_kept(names: Seq<Seq<char>>, cells: Seq<Cell>, i: int)
    requires
        names.len() == cells.len(),
        0 <= i < cells.len(),
        cells[i] is Null,
        forall|j: int| i < j < cells.len() && names[j] == names[i] ==> !is_supported(cells[j]),
    ensures
        row_map(names, cells).contains_key(names[i]),
        row_map(names, cells)[names[i]] == Cell::Null,
{
    supported_cell_is_kept(names, cells, i);
}

/// A blob column is left out of its row object altogether: its name is not a
/// key of the row unless another column of the same name holds a supported
/// value.
pub proof fn blob_cell_is_absent(names: Seq<Seq<char>>, cells: Seq<Cell>, i: int)
    requires
        names.len() == cells.len(),
        0 <= i < cells.len(),
        cells[i] is Blob,
        forall|j: int| 0 <= j < cells.len() && names[j] == names[i] ==> !is_supported(cells[j]),
    ensures
        !row_map(names, cells).contains_key(names[i]),
{
    lemma_row_map_absent(names, cells, names[i]);
}

/// Every key of a row object is the name of one of the columns.
pub proof fn row_keys_are_column_names(names: Seq<Seq<char>>, cells: Seq<Cell>, k: Seq<char>)
    requires
        names.len() == cells.len(),
        row_map(names, cells).contains_key(k),
    ensures
        exists|j: int| 0 <= j < names.len() && names[j] == k,
    decreases cells.len(),
{
    let n = cells.len() - 1;
    if row_map(names, cells.take(n)).contains_key(k) {
        lemma_row_map_names_prefix(names, cells.take(n));
        row_keys_are_column_names(names.take(n), cells.take(n), k);
        let j = choose|j: int| 0 <= j < names.take(n).len() && names.take(n)[j] == k;
        assert(names[j] == k);
    } else {
        assert(names[n] == k);
    }
}

/// The row object depends only on the names of the columns that have a cell.
proof fn lemma_row_map_names_prefix(names: Seq<Seq<char>>, cells: Seq<Cell>)
    requires
        cells.len() <= names.len(),
    ensures
        row_map(names.take(cells.len() as int), cells) == row_map(names, cells),
    decreases cells.len(),
{
    if cells.len() > 0 {
        let n = cells.len() - 1;
        lemma_row_map_names_prefix(names, cells.take(n));
        lemma_row_map_names_prefix(names.take(cells.len() as int), cells.take(n));
        assert(names.take(cells.len() as int).take(n) =~= names.take(n));
    }
}

/// A name that no supported cell carries is not a key.
proof fn lemma_row_map_absent(names: Seq<Seq<char>>, cells: Seq<Cell>, k: Seq<char>)
    requires
        cells.len() <= names.len(),
        forall|j: int| 0 <= j < cells.len() && names[j] == k ==> !is_supported(cells[j]),
    ensures
        !row_map(names, cells).contains_key(k),
    decreases cells.len(),
{
    if cells.len() > 0 {
        let n = cells.len() - 1;
        lemma_row_map_absent(names, cells.take(n), k);
    }
}

proof fn lemma_entries_map_update(es: Seq<(Seq<char>, Cell)>, j: int, v: Cell)
    requires
        distinct_keys(es),
        0 <= j < es.len(),
    ensures
        entries_map(es.update(j, (es[j].0, v))) == entries_map(es).insert(es[j].0, v),
    decreases es.len(),
{
    let u = es.update(j, (es[j].0, v));
    let d = es.drop_last();
    if j == es.len() - 1 {
        assert(u.drop_last() =~= d);
        assert(entries_map(u) =~= entries_map(es).insert(es[j].0, v));
    } else {
        assert(u.drop_last() =~= d.update(j, (d[j].0, v)));
        lemma_entries_map_update(d, j, v);
        assert(es.last().0 != es[j].0);
        assert(entries_map(u) =~= entries_map(es).insert(es[j].0, v));
    }
}

} // verus!
