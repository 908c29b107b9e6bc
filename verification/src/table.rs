//! A plain relational model of the storage file: named tables with
//! named, typed columns and rows of cells. The migration engine, the
//! seeder and the repair tools are verified against this model; the
//! surrounding process moves it in and out of the embedded database.

use vstd::prelude::*;

verus! {

/// One cell of a row. The embedded engine's dynamic typing is narrowed
/// to what this application stores: integers (also standing for the
/// 0/1 encoding of booleans), text, and null for "unset".
pub enum SqlValue {
    Null,
    Int(i64),
    Text(String),
}

/// The mathematical value of a cell.
pub enum CellVal {
    Null,
    Int(int),
    Text(Seq<char>),
}

impl View for SqlValue {
    type V = CellVal;

    open spec fn view(&self) -> CellVal {
        match self {
            SqlValue::Null => CellVal::Null,
            SqlValue::Int(i) => CellVal::Int(*i as int),
            SqlValue::Text(s) => CellVal::Text(s@),
        }
    }
}

/// The mathematical value of a whole row.
pub open spec fn row_cells(r: Vec<SqlValue>) -> Seq<CellVal> {
    r@.map_values(|v: SqlValue| v@)
}

/// The mathematical value of a table's rows.
pub open spec fn table_cells(t: Table) -> Seq<Seq<CellVal>> {
    t.rows@.map_values(|r: Vec<SqlValue>| row_cells(r))
}

/// The declared type of a column.
#[derive(PartialEq, Eq, Structural, Clone, Copy)]
pub enum ColType {
    Integer,
    Text,
}

/// A column: its name and declared type.
pub struct Column {
    pub name: String,
    pub ty: ColType,
}

/// A table: a name, a column list, and rows in insertion order.
pub struct Table {
    pub name: String,
    pub cols: Vec<Column>,
    pub rows: Vec<Vec<SqlValue>>,
}

/// The index of the first column so named, scanning left to right as
/// the engine resolves column references.
pub open spec fn spec_find_col(cols: Seq<Column>, name: Seq<char>) -> Option<int>
    decreases cols.len(),
{
    if cols.len() == 0 {
        None
    } else if cols[0].name@ == name {
        Some(0)
    } else {
        match spec_find_col(cols.drop_first(), name) {
            Some(i) => Some(i + 1),
            None => None,
        }
    }
}

/// The index of the first table so named.
pub open spec fn spec_find_table(tables: Seq<Table>, name: Seq<char>) -> Option<int>
    decreases tables.len(),
{
    if tables.len() == 0 {
        None
    } else if tables[0].name@ == name {
        Some(0)
    } else {
        match spec_find_table(tables.drop_first(), name) {
            Some(i) => Some(i + 1),
            None => None,
        }
    }
}

/// The first column index lies in range and carries the name, and no
/// earlier column does.
pub proof fn lemma_find_col_range(cols: Seq<Column>, name: Seq<char>)
    ensures
        match spec_find_col(cols, name) {
            Some(i) => 0 <= i < cols.len() && cols[i].name@ == name && (forall|j: int|
                0 <= j < i ==> (#[trigger] cols[j]).name@ != name),
            None => forall|j: int| 0 <= j < cols.len() ==> (#[trigger] cols[j]).name@ != name,
        },
    decreases cols.len(),
{
    if cols.len() == 0 {
    } else if cols[0].name@ == name {
        assert(spec_find_col(cols, name) == Some(0int));
    } else {
        lemma_find_col_range(cols.drop_first(), name);
        assert(forall|j: int| 0 <= j < cols.len() - 1 ==> cols.drop_first()[j] == cols[j + 1]);
        match spec_find_col(cols.drop_first(), name) {
            Some(i) => {
                assert(spec_find_col(cols, name) == Some(i + 1));
                assert(cols[i + 1].name@ == name);
                assert forall|j: int| 0 <= j < i + 1 implies (#[trigger] cols[j]).name@ != name by {
                    if j > 0 {
                        assert(cols.drop_first()[j - 1].name@ != name);
                    }
                }
            },
            None => {
                assert(spec_find_col(cols, name) is None);
                assert forall|j: int| 0 <= j < cols.len() implies (#[trigger] cols[j]).name@
                    != name by {
                    if j > 0 {
                        assert(cols.drop_first()[j - 1].name@ != name);
                    }
                }
            },
        }
    }
}

/// The first table index lies in range and carries the name.
pub proof fn lemma_find_table_range(tables: Seq<Table>, name: Seq<char>)
    ensures
        match spec_find_table(tables, name) {
            Some(i) => 0 <= i < tables.len() && tables[i].name@ == name && (forall|j: int|
                0 <= j < i ==> (#[trigger] tables[j]).name@ != name),
            None => forall|j: int| 0 <= j < tables.len() ==> (#[trigger] tables[j]).name@ != name,
        },
    decreases tables.len(),
{
    if tables.len() == 0 {
    } else if tables[0].name@ == name {
        assert(spec_find_table(tables, name) == Some(0int));
    } else {
        lemma_find_table_range(tables.drop_first(), name);
        assert(forall|j: int| 0 <= j < tables.len() - 1 ==> tables.drop_first()[j] == tables[j
            + 1]);
        match spec_find_table(tables.drop_first(), name) {
            Some(i) => {
                assert(spec_find_table(tables, name) == Some(i + 1));
                assert(tables[i + 1].name@ == name);
                assert forall|j: int| 0 <= j < i + 1 implies (#[trigger] tables[j]).name@
                    != name by {
                    if j > 0 {
                        assert(tables.drop_first()[j - 1].name@ != name);
                    }
                }
            },
            None => {
                assert(spec_find_table(tables, name) is None);
                assert forall|j: int| 0 <= j < tables.len() implies (#[trigger] tables[j]).name@
                    != name by {
                    if j > 0 {
                        assert(tables.drop_first()[j - 1].name@ != name);
                    }
                }
            },
        }
    }
}

/// A table whose name no earlier table carries is the one the scan
/// finds.
pub proof fn lemma_find_table_at(tables: Seq<Table>, k: int, name: Seq<char>)
    requires
        0 <= k < tables.len(),
        tables[k].name@ == name,
        forall|j: int| 0 <= j < k ==> (#[trigger] tables[j]).name@ != name,
    ensures
        spec_find_table(tables, name) == Some(k),
    decreases k,
{
    if k > 0 {
        assert(forall|j: int|
            0 <= j < tables.len() - 1 ==> tables.drop_first()[j] == tables[j + 1]);
        lemma_find_table_at(tables.drop_first(), k - 1, name);
    }
}

/// A table carrying the name makes the scan succeed.
pub proof fn lemma_named_table_found(tables: Seq<Table>, name: Seq<char>)
    requires
        exists|i: int| 0 <= i < tables.len() && (#[trigger] tables[i]).name@ == name,
    ensures
        spec_find_table(tables, name) is Some,
    decreases tables.len(),
{
    if tables[0].name@ != name {
        let i = choose|i: int| 0 <= i < tables.len() && (#[trigger] tables[i]).name@ == name;
        assert(tables.drop_first()[i - 1].name@ == name);
        lemma_named_table_found(tables.drop_first(), name);
    }
}

/// A column carrying the name makes the column scan succeed.
pub proof fn lemma_named_col_found(cols: Seq<Column>, name: Seq<char>)
    requires
        exists|i: int| 0 <= i < cols.len() && (#[trigger] cols[i]).name@ == name,
    ensures
        spec_find_col(cols, name) is Some,
    decreases cols.len(),
{
    if cols[0].name@ != name {
        let i = choose|i: int| 0 <= i < cols.len() && (#[trigger] cols[i]).name@ == name;
        assert(cols.drop_first()[i - 1].name@ == name);
        lemma_named_col_found(cols.drop_first(), name);
    }
}

/// Appending a table leaves every earlier scan result alone; a scan
/// that found nothing still finds nothing unless the newcomer carries
/// the name.
pub proof fn lemma_find_table_push(tables: Seq<Table>, t: Table, name: Seq<char>)
    ensures
        spec_find_table(tables, name) is Some ==> spec_find_table(tables.push(t), name)
            == spec_find_table(tables, name),
        spec_find_table(tables, name) is None && t.name@ != name ==> spec_find_table(
            tables.push(t),
            name,
        ) is None,
    decreases tables.len(),
{
    if tables.len() == 0 {
    } else {
        assert(tables.push(t).drop_first() =~= tables.drop_first().push(t));
        lemma_find_table_push(tables.drop_first(), t, name);
    }
}

/// What no migration may lose: every table whose name the operation
/// does not touch survives, exactly as it was.
pub open spec fn spec_tables_kept(a: Db, b: Db, touched: Seq<Seq<char>>) -> bool {
    forall|i: int|
        0 <= i < a.tables@.len() && !touched.contains((#[trigger] a.tables@[i]).name@)
            ==> b.tables@.contains(a.tables@[i])
}

/// Keeping tables composes across consecutive operations.
pub proof fn lemma_tables_kept_trans(a: Db, b: Db, c: Db, touched: Seq<Seq<char>>)
    requires
        spec_tables_kept(a, b, touched),
        spec_tables_kept(b, c, touched),
    ensures
        spec_tables_kept(a, c, touched),
{
    assert forall|i: int|
        0 <= i < a.tables@.len() && !touched.contains(
            (#[trigger] a.tables@[i]).name@,
        ) implies c.tables@.contains(a.tables@[i]) by {
        let j = choose|j: int| 0 <= j < b.tables@.len() && b.tables@[j] == a.tables@[i];
        assert(!touched.contains(b.tables@[j].name@));
        assert(c.tables@.contains(b.tables@[j]));
    }
}

/// A narrower touched set keeps more, so it also keeps what a wider
/// one claims.
pub proof fn lemma_tables_kept_widen(a: Db, b: Db, narrow: Seq<Seq<char>>, wide: Seq<Seq<char>>)
    requires
        spec_tables_kept(a, b, narrow),
        forall|n: Seq<char>| narrow.contains(n) ==> wide.contains(n),
    ensures
        spec_tables_kept(a, b, wide),
{
    assert forall|i: int|
        0 <= i < a.tables@.len() && !wide.contains(
            (#[trigger] a.tables@[i]).name@,
        ) implies b.tables@.contains(a.tables@[i]) by {
        assert(!narrow.contains(a.tables@[i].name@));
    }
}

/// Tables with the same names in the same places are scanned alike.
pub proof fn lemma_find_table_names(ts1: Seq<Table>, ts2: Seq<Table>, name: Seq<char>)
    requires
        ts1.len() == ts2.len(),
        forall|j: int| 0 <= j < ts1.len() ==> (#[trigger] ts1[j]).name@ == ts2[j].name@,
    ensures
        spec_find_table(ts1, name) == spec_find_table(ts2, name),
    decreases ts1.len(),
{
    if ts1.len() > 0 {
        assert(forall|j: int| 0 <= j < ts1.len() - 1 ==> ts1.drop_first()[j] == ts1[j + 1]);
        assert(forall|j: int| 0 <= j < ts2.len() - 1 ==> ts2.drop_first()[j] == ts2[j + 1]);
        lemma_find_table_names(ts1.drop_first(), ts2.drop_first(), name);
    }
}

impl Table {
    /// Well-formed: every row has one cell per column.
    pub open spec fn wf(self) -> bool {
        forall|r: int| 0 <= r < self.rows@.len() ==> (#[trigger] self.rows@[r])@.len()
            == self.cols@.len()
    }

    pub open spec fn n_rows(self) -> nat {
        self.rows@.len()
    }

    pub open spec fn n_cols(self) -> nat {
        self.cols@.len()
    }

    pub open spec fn has_col(self, name: Seq<char>) -> bool {
        spec_find_col(self.cols@, name) is Some
    }

    /// The index of the column so named: the first with that name, as
    /// the engine resolves column references.
    pub open spec fn col_idx(self, name: Seq<char>) -> int
        recommends
            self.has_col(name),
    {
        spec_find_col(self.cols@, name)->0
    }

    pub open spec fn col_ty(self, name: Seq<char>) -> ColType
        recommends
            self.has_col(name),
    {
        self.cols@[self.col_idx(name)].ty
    }

    /// The cell of row `r` under the column so named.
    pub open spec fn cell(self, r: int, name: Seq<char>) -> CellVal
        recommends
            0 <= r < self.n_rows(),
            self.has_col(name),
    {
        self.rows@[r]@[self.col_idx(name)]@
    }

    /// Whether some row holds the text `key` under the column so named.
    pub open spec fn has_text_key(self, col: Seq<char>, key: Seq<char>) -> bool {
        exists|r: int| 0 <= r < self.n_rows() && self.cell(r, col) == CellVal::Text(key)
    }

    /// Finds the column with the given name.
    pub fn find_col(&self, name: &str) -> (r: Option<usize>)
        ensures
            match r {
                Some(i) => spec_find_col(self.cols@, name@) == Some(i as int) && i
                    < self.cols@.len() && self.cols@[i as int].name@ == name@,
                None => !self.has_col(name@),
            },
    {
        let n = self.cols.len();
        let mut i: usize = 0;
        proof {
            assert(self.cols@.skip(0) =~= self.cols@);
            lemma_find_col_range(self.cols@, name@);
        }
        while i < n
            invariant
                i <= n == self.cols@.len(),
                spec_find_col(self.cols@, name@) is Some ==> spec_find_col(
                    self.cols@,
                    name@,
                )->0 >= i as int && spec_find_col(self.cols@.skip(i as int), name@) == Some(
                    spec_find_col(self.cols@, name@)->0 - i as int,
                ),
                spec_find_col(self.cols@, name@) is None ==> spec_find_col(
                    self.cols@.skip(i as int),
                    name@,
                ) is None,
            decreases n - i,
        {
            proof {
                assert(self.cols@.skip(i as int)[0] == self.cols@[i as int]);
                assert(self.cols@.skip(i as int).drop_first() =~= self.cols@.skip(i as int + 1));
                lemma_find_col_range(self.cols@.skip(i as int + 1), name@);
            }
            if crate::text::str_eq(self.cols[i].name.as_str(), name) {
                return Some(i);
            }
            i = i + 1;
        }
        None
    }

    /// Finds the first row holding the text `key` in column `col`.
    pub fn find_row_text(&self, col: usize, key: &String) -> (r: Option<usize>)
        requires
            self.wf(),
            col < self.cols@.len(),
        ensures
            match r {
                Some(i) => {
                    &&& i < self.n_rows()
                    &&& self.rows@[i as int]@[col as int]@ == CellVal::Text(key@)
                    &&& forall|j: int|
                        0 <= j < i ==> (#[trigger] self.rows@[j])@[col as int]@ != CellVal::Text(
                            key@,
                        )
                },
                None => forall|j: int|
                    0 <= j < self.n_rows() ==> (#[trigger] self.rows@[j])@[col as int]@
                        != CellVal::Text(key@),
            },
    {
        let n = self.rows.len();
        let mut i: usize = 0;
        while i < n
            invariant
                self.wf(),
                col < self.cols@.len(),
                i <= n == self.rows@.len(),
                forall|j: int|
                    0 <= j < i ==> (#[trigger] self.rows@[j])@[col as int]@ != CellVal::Text(key@),
            decreases n - i,
        {
            let row = &self.rows[i];
            match &row[col] {
                SqlValue::Text(s) => {
                    if crate::text::str_eq(s.as_str(), key.as_str()) {
                        return Some(i);
                    }
                },
                _ => {},
            }
            i = i + 1;
        }
        None
    }

    /// Appends a row.
    pub fn push_row(&mut self, row: Vec<SqlValue>)
        ensures
            final(self).name == old(self).name,
            final(self).cols == old(self).cols,
            final(self).rows@ == old(self).rows@.push(row),
    {
        self.rows.push(row);
    }
}

/// The record of one applied schema version in the ledger.
pub struct VersionRow {
    pub version: i64,
    pub applied_at: String,
    pub description: String,
}

/// The whole storage file: the schema-version ledger and the data
/// tables. A missing ledger table in an old file is modelled as an
/// empty ledger.
pub struct Db {
    pub ledger: Vec<VersionRow>,
    pub tables: Vec<Table>,
}

impl Db {
    /// Well-formed: every table is well-formed.
    pub open spec fn wf(self) -> bool {
        forall|i: int| 0 <= i < self.tables@.len() ==> (#[trigger] self.tables@[i]).wf()
    }

    pub open spec fn has_table(self, name: Seq<char>) -> bool {
        spec_find_table(self.tables@, name) is Some
    }

    /// The index of the table so named: the first with that name.
    pub open spec fn table_idx(self, name: Seq<char>) -> int
        recommends
            self.has_table(name),
    {
        spec_find_table(self.tables@, name)->0
    }

    pub open spec fn table(self, name: Seq<char>) -> Table
        recommends
            self.has_table(name),
    {
        self.tables@[self.table_idx(name)]
    }

    /// Finds the table with the given name.
    pub fn find_table(&self, name: &str) -> (r: Option<usize>)
        ensures
            match r {
                Some(i) => spec_find_table(self.tables@, name@) == Some(i as int) && i
                    < self.tables@.len() && self.tables@[i as int].name@ == name@,
                None => !self.has_table(name@),
            },
    {
        let n = self.tables.len();
        let mut i: usize = 0;
        proof {
            assert(self.tables@.skip(0) =~= self.tables@);
            lemma_find_table_range(self.tables@, name@);
        }
        while i < n
            invariant
                i <= n == self.tables@.len(),
                spec_find_table(self.tables@, name@) is Some ==> spec_find_table(
                    self.tables@,
                    name@,
                )->0 >= i as int && spec_find_table(self.tables@.skip(i as int), name@) == Some(
                    spec_find_table(self.tables@, name@)->0 - i as int,
                ),
                spec_find_table(self.tables@, name@) is None ==> spec_find_table(
                    self.tables@.skip(i as int),
                    name@,
                ) is None,
            decreases n - i,
        {
            proof {
                assert(self.tables@.skip(i as int)[0] == self.tables@[i as int]);
                assert(self.tables@.skip(i as int).drop_first() =~= self.tables@.skip(
                    i as int + 1,
                ));
                lemma_find_table_range(self.tables@.skip(i as int + 1), name@);
            }
            if crate::text::str_eq(self.tables[i].name.as_str(), name) {
                return Some(i);
            }
            i = i + 1;
        }
        None
    }

    /// Whether a table of this name exists.
    pub fn table_exists(&self, name: &str) -> (r: bool)
        ensures
            r == self.has_table(name@),
    {
        match self.find_table(name) {
            Some(_) => true,
            None => false,
        }
    }

    /// Adds a new table.
    pub fn create_table(&mut self, t: Table)
        ensures
            final(self).ledger == old(self).ledger,
            final(self).tables@ == old(self).tables@.push(t),
    {
        self.tables.push(t);
    }

    /// Removes the table at `i` and returns it; used by the structural
    /// primitives to take a table out, rework it, and put it back.
    pub fn take_table(&mut self, i: usize) -> (t: Table)
        requires
            i < old(self).tables@.len(),
        ensures
            final(self).ledger == old(self).ledger,
            final(self).tables@ == old(self).tables@.remove(i as int),
            t == old(self).tables@[i as int],
    {
        self.tables.remove(i)
    }

    /// Puts a table back at `i`.
    pub fn put_table(&mut self, i: usize, t: Table)
        requires
            i <= old(self).tables@.len(),
        ensures
            final(self).ledger == old(self).ledger,
            final(self).tables@ == old(self).tables@.insert(i as int, t),
    {
        self.tables.insert(i, t);
    }

    /// Appends a row to the table at `k`, leaving everything else as
    /// it was.
    pub fn push_row_at(&mut self, k: usize, row: Vec<SqlValue>)
        requires
            k < old(self).tables@.len(),
        ensures
            final(self).ledger == old(self).ledger,
            final(self).tables@.len() == old(self).tables@.len(),
            forall|x: int|
                0 <= x < old(self).tables@.len() && x != k ==> final(self).tables@[x] == old(
                    self,
                ).tables@[x],
            final(self).tables@[k as int].name == old(self).tables@[k as int].name,
            final(self).tables@[k as int].cols == old(self).tables@[k as int].cols,
            final(self).tables@[k as int].rows@ == old(self).tables@[k as int].rows@.push(row),
    {
        let mut t = self.take_table(k);
        t.rows.push(row);
        self.put_table(k, t);
        proof {
            assert(self.tables@ =~= old(self).tables@.update(k as int, self.tables@[k as int]));
        }
    }

    /// Removes the table at `i`.
    pub fn drop_table(&mut self, i: usize)
        requires
            i < old(self).tables@.len(),
        ensures
            final(self).ledger == old(self).ledger,
            final(self).tables@ == old(self).tables@.remove(i as int),
    {
        self.tables.remove(i);
    }
}

/// The `(key, payload)` pairs of a table's rows, taking the rows whose
/// cells under both columns are text; rows stored otherwise are passed
/// over, as the reading phase of the repair tools does.
pub open spec fn spec_kv_rows(rows: Seq<Vec<SqlValue>>, ic: int, dc: int) -> Seq<(String, String)>
    decreases rows.len(),
{
    if rows.len() == 0 {
        Seq::empty()
    } else {
        let prev = spec_kv_rows(rows.drop_last(), ic, dc);
        match (rows.last()@[ic], rows.last()@[dc]) {
            (SqlValue::Text(a), SqlValue::Text(b)) => prev.push((a, b)),
            _ => prev,
        }
    }
}

/// Reads the `(key, payload)` text pairs of a table.
pub fn table_kv_rows(t: &Table, ic: usize, dc: usize) -> (pairs: Vec<(String, String)>)
    requires
        t.wf(),
        ic < t.cols@.len(),
        dc < t.cols@.len(),
    ensures
        pairs@ == spec_kv_rows(t.rows@, ic as int, dc as int),
{
    let n = t.rows.len();
    let mut pairs: Vec<(String, String)> = Vec::new();
    let mut i: usize = 0;
    proof {
        assert(t.rows@.take(0) =~= Seq::<Vec<SqlValue>>::empty());
    }
    while i < n
        invariant
            i <= n == t.rows@.len(),
            t.wf(),
            ic < t.cols@.len(),
            dc < t.cols@.len(),
            pairs@ == spec_kv_rows(t.rows@.take(i as int), ic as int, dc as int),
        decreases n - i,
    {
        proof {
            assert(t.rows@.take(i + 1).drop_last() =~= t.rows@.take(i as int));
            assert(t.rows@.take(i + 1).last() == t.rows@[i as int]);
        }
        let row = &t.rows[i];
        match (&row[ic], &row[dc]) {
            (SqlValue::Text(a), SqlValue::Text(b)) => {
                let a2 = a.clone();
                let b2 = b.clone();
                pairs.push((a2, b2));
            },
            _ => {},
        }
        i = i + 1;
    }
    proof {
        assert(t.rows@.take(n as int) =~= t.rows@);
    }
    pairs
}

/// Builds a column.
pub fn col(name: &str, ty: ColType) -> (c: Column)
    ensures
        c.name@ == name@,
        c.ty == ty,
{
    Column { name: String::from_str(name), ty }
}

} // verus!
