//! Integrity repair tools: on-demand analyzers and fixers for
//! duplicate keys left behind by early, weakly-constrained schema
//! versions. Exact-duplicate collapse keeps the first-inserted row per
//! key; newest-wins collapse keeps the row whose embedded date is
//! lexicographically greatest per key.

use vstd::prelude::*;

use crate::json::json_parse;
use crate::json::spec_json_parse;
use crate::json::spec_str_or;
use crate::table::CellVal;
use crate::table::Db;
use crate::table::SqlValue;
use crate::table::spec_kv_rows;
use crate::table::table_kv_rows;
use crate::table::Table;
use crate::text::lex_lt;
use crate::text::spec_lex_lt;
use crate::text::str_eq;

verus! {

/// Whether some row carries this key.
pub open spec fn spec_contains_key(rows: Seq<(String, String)>, key: Seq<char>) -> bool {
    exists|i: int| 0 <= i < rows.len() && rows[i].0@ == key
}

/// Exact-duplicate collapse: of the rows sharing a key, only the
/// first-inserted one remains, in the original order.
pub open spec fn spec_dedup_first(rows: Seq<(String, String)>) -> Seq<(String, String)>
    decreases rows.len(),
{
    if rows.len() == 0 {
        Seq::empty()
    } else {
        let prev = spec_dedup_first(rows.drop_last());
        if spec_contains_key(rows.drop_last(), rows.last().0@) {
            prev
        } else {
            prev.push(rows.last())
        }
    }
}

/// The law of exact-duplicate collapse: every key of the input keeps
/// exactly one row, and the row kept for a key is the first row that
/// carried it.
pub proof fn lemma_dedup_first_one_per_key(rows: Seq<(String, String)>)
    ensures
        ({
            let kept = spec_dedup_first(rows);
            &&& forall|a: int, b: int| 0 <= a < b < kept.len() ==> kept[a].0@ != kept[b].0@
            &&& forall|i: int|
                0 <= i < rows.len() ==> spec_contains_key(kept, (#[trigger] rows[i]).0@)
            &&& forall|k: int|
                0 <= k < kept.len() ==> exists|i: int|
                    0 <= i < rows.len() && rows[i] == #[trigger] kept[k] && (forall|j: int|
                        0 <= j < i ==> rows[j].0@ != rows[i].0@)
        }),
    decreases rows.len(),
{
    if rows.len() > 0 {
        let short = rows.drop_last();
        lemma_dedup_first_one_per_key(short);
        let prev = spec_dedup_first(short);
        let kept = spec_dedup_first(rows);
        assert(forall|i: int| 0 <= i < short.len() ==> short[i] == rows[i]);
        if spec_contains_key(short, rows.last().0@) {
            assert(kept == prev);
            assert forall|i: int| 0 <= i < rows.len() implies spec_contains_key(
                kept,
                (#[trigger] rows[i]).0@,
            ) by {
                if i == rows.len() - 1 {
                    let w = choose|w: int| 0 <= w < short.len() && short[w].0@ == rows.last().0@;
                    assert(spec_contains_key(prev, short[w].0@));
                    let v = choose|v: int| 0 <= v < prev.len() && prev[v].0@ == short[w].0@;
                    assert(kept[v].0@ == rows[i].0@);
                } else {
                    assert(spec_contains_key(prev, short[i].0@));
                }
            }
        } else {
            assert(kept == prev.push(rows.last()));
            assert forall|i: int| 0 <= i < rows.len() implies spec_contains_key(
                kept,
                (#[trigger] rows[i]).0@,
            ) by {
                if i < rows.len() - 1 {
                    assert(spec_contains_key(prev, short[i].0@));
                    let w = choose|w: int| 0 <= w < prev.len() && prev[w].0@ == short[i].0@;
                    assert(kept[w].0@ == rows[i].0@);
                } else {
                    assert(kept[kept.len() - 1].0@ == rows[i].0@);
                }
            }
            assert forall|a: int, b: int| 0 <= a < b < kept.len() implies kept[a].0@
                != kept[b].0@ by {
                if b == kept.len() - 1 {
                    let e = choose|i: int|
                        0 <= i < short.len() && short[i] == prev[a] && (forall|j: int|
                            0 <= j < i ==> short[j].0@ != short[i].0@);
                    assert(spec_contains_key(short, prev[a].0@) == spec_contains_key(
                        short,
                        short[e].0@,
                    ));
                    if kept[a].0@ == kept[b].0@ {
                        assert(spec_contains_key(short, rows.last().0@));
                    }
                }
            }
            assert forall|k: int| 0 <= k < kept.len() implies exists|i: int|
                0 <= i < rows.len() && rows[i] == #[trigger] kept[k] && (forall|j: int|
                    0 <= j < i ==> rows[j].0@ != rows[i].0@) by {
                if k == kept.len() - 1 {
                    let i = rows.len() - 1;
                    assert(rows[i] == kept[k]);
                    assert(forall|j: int| 0 <= j < i ==> rows[j].0@ != rows[i].0@);
                } else {
                    let e = choose|i: int|
                        0 <= i < short.len() && short[i] == prev[k] && (forall|j: int|
                            0 <= j < i ==> short[j].0@ != short[i].0@);
                    assert(rows[e] == kept[k] && (forall|j: int|
                        0 <= j < e ==> rows[j].0@ != rows[e].0@));
                }
            }
        }
    }
}

/// Collapses exact duplicates: keeps the first row of each key, in
/// order, and reports how many rows were dropped.
pub fn dedup_first(rows: &Vec<(String, String)>) -> (r: (Vec<(String, String)>, usize))
    ensures
        r.0@ == spec_dedup_first(rows@),
        r.1 + r.0@.len() == rows@.len(),
{
    let n = rows.len();
    let mut kept: Vec<(String, String)> = Vec::new();
    let mut removed: usize = 0;
    let mut i: usize = 0;
    proof {
        assert(rows@.take(0) =~= Seq::<(String, String)>::empty());
    }
    while i < n
        invariant
            i <= n == rows@.len(),
            kept@ == spec_dedup_first(rows@.take(i as int)),
            removed + kept@.len() == i,
        decreases n - i,
    {
        proof {
            assert(rows@.take(i + 1).drop_last() =~= rows@.take(i as int));
            assert(rows@.take(i + 1).last() == rows@[i as int]);
        }
        let mut seen = false;
        let mut j: usize = 0;
        while j < i
            invariant
                j <= i < rows@.len(),
                seen == spec_contains_key(rows@.take(j as int), rows@[i as int].0@),
            decreases i - j,
        {
            proof {
                assert(rows@.take(j + 1).drop_last() =~= rows@.take(j as int));
                assert(forall|x: int|
                    0 <= x < j + 1 ==> rows@.take(j + 1)[x] == rows@[x]);
            }
            if str_eq(rows[j].0.as_str(), rows[i].0.as_str()) {
                seen = true;
                proof {
                    assert(rows@.take(j + 1)[j as int].0@ == rows@[i as int].0@);
                }
            }
            j = j + 1;
        }
        proof {
            assert(rows@.take(i as int) =~= rows@.take(i as int));
        }
        if seen {
            removed = removed + 1;
        } else {
            let id = rows[i].0.clone();
            let data = rows[i].1.clone();
            kept.push((id, data));
            proof {
                assert((id, data) == rows@[i as int]);
            }
        }
        i = i + 1;
    }
    proof {
        assert(rows@.take(n as int) =~= rows@);
    }
    (kept, removed)
}

/// The date a stored row carries: the `date` field of its JSON
/// payload, or the empty string when the payload does not parse or has
/// no such field. An empty date never displaces anything.
pub open spec fn spec_row_date(data: Seq<char>) -> Seq<char> {
    match spec_json_parse(data) {
        Some(v) => spec_str_or(v, "date"@, ""@),
        None => ""@,
    }
}

/// Reads the date of a row's payload, as `spec_row_date` states.
pub fn row_date(data: &String) -> (d: String)
    ensures
        d@ == spec_row_date(data@),
{
    match json_parse(data.as_str()) {
        Some(v) => v.get_str_or("date", ""),
        None => String::from_str(""),
    }
}

/// The position of `key` among the kept rows, when present.
pub open spec fn spec_key_at(rows: Seq<(String, String)>, key: Seq<char>) -> int {
    choose|j: int| 0 <= j < rows.len() && rows[j].0@ == key
}

/// Newest-wins collapse: one row per key, in first-seen order; a later
/// row replaces the kept one only when its date is strictly greater.
pub open spec fn spec_newest_wins(rows: Seq<(String, String)>) -> Seq<(String, String)>
    decreases rows.len(),
{
    if rows.len() == 0 {
        Seq::empty()
    } else {
        let prev = spec_newest_wins(rows.drop_last());
        let last = rows.last();
        if spec_contains_key(prev, last.0@) {
            let j = spec_key_at(prev, last.0@);
            if spec_lex_lt(spec_row_date(prev[j].1@), spec_row_date(last.1@)) {
                prev.update(j, last)
            } else {
                prev
            }
        } else {
            prev.push(last)
        }
    }
}

/// Collapsing never yields more rows than it was given.
pub proof fn lemma_newest_wins_len(rows: Seq<(String, String)>)
    ensures
        spec_newest_wins(rows).len() <= rows.len(),
    decreases rows.len(),
{
    if rows.len() > 0 {
        lemma_newest_wins_len(rows.drop_last());
    }
}

proof fn lemma_lex_lt_irrefl(a: Seq<char>)
    ensures
        !spec_lex_lt(a, a),
    decreases a.len(),
{
    if a.len() > 0 {
        lemma_lex_lt_irrefl(a.drop_first());
    }
}

proof fn lemma_lex_lt_trans(a: Seq<char>, b: Seq<char>, c: Seq<char>)
    requires
        spec_lex_lt(a, b),
        spec_lex_lt(b, c),
    ensures
        spec_lex_lt(a, c),
    decreases a.len() + b.len() + c.len(),
{
    if a.len() > 0 && b.len() > 0 && c.len() > 0 {
        if (a[0] as u32) < (b[0] as u32) {
        } else if (b[0] as u32) < (c[0] as u32) {
        } else {
            lemma_lex_lt_trans(a.drop_first(), b.drop_first(), c.drop_first());
        }
    }
}

/// The law of newest-wins collapse: keys are unique afterwards, every
/// input key survives, each kept row is one of the input rows for its
/// key, and no input row with the same key carries a strictly greater
/// date than the kept one.
pub proof fn lemma_newest_wins_max_date(rows: Seq<(String, String)>)
    ensures
        ({
            let kept = spec_newest_wins(rows);
            &&& forall|a: int, b: int| 0 <= a < b < kept.len() ==> kept[a].0@ != kept[b].0@
            &&& forall|i: int|
                0 <= i < rows.len() ==> spec_contains_key(kept, (#[trigger] rows[i]).0@)
            &&& forall|k: int|
                0 <= k < kept.len() ==> exists|i: int|
                    0 <= i < rows.len() && rows[i] == #[trigger] kept[k]
            &&& forall|k: int, i: int|
                0 <= k < kept.len() && 0 <= i < rows.len() && (#[trigger] rows[i]).0@ == (
                #[trigger] kept[k]).0@ ==> !spec_lex_lt(
                    spec_row_date(kept[k].1@),
                    spec_row_date(rows[i].1@),
                )
        }),
    decreases rows.len(),
{
    if rows.len() > 0 {
        let short = rows.drop_last();
        lemma_newest_wins_max_date(short);
        let prev = spec_newest_wins(short);
        let kept = spec_newest_wins(rows);
        let last = rows.last();
        assert(forall|i: int| 0 <= i < short.len() ==> short[i] == rows[i]);
        if spec_contains_key(prev, last.0@) {
            let j = spec_key_at(prev, last.0@);
            assert(0 <= j < prev.len() && prev[j].0@ == last.0@);
            let dj = spec_row_date(prev[j].1@);
            let dl = spec_row_date(last.1@);
            if spec_lex_lt(dj, dl) {
                assert(kept == prev.update(j, last));
                assert forall|i: int| 0 <= i < rows.len() implies spec_contains_key(
                    kept,
                    (#[trigger] rows[i]).0@,
                ) by {
                    if i < rows.len() - 1 {
                        assert(spec_contains_key(prev, short[i].0@));
                    }
                    let w = choose|w: int| 0 <= w < prev.len() && prev[w].0@ == rows[i].0@;
                    assert(kept[w].0@ == rows[i].0@);
                }
                assert forall|k: int, i: int|
                    0 <= k < kept.len() && 0 <= i < rows.len() && (#[trigger] rows[i]).0@ == (
                    #[trigger] kept[k]).0@ implies !spec_lex_lt(
                    spec_row_date(kept[k].1@),
                    spec_row_date(rows[i].1@),
                ) by {
                    let di = spec_row_date(rows[i].1@);
                    if k == j {
                        if i < rows.len() - 1 {
                            assert(!spec_lex_lt(dj, di));
                            if spec_lex_lt(dl, di) {
                                lemma_lex_lt_trans(dj, dl, di);
                            }
                        } else {
                            lemma_lex_lt_irrefl(dl);
                        }
                    } else {
                        if i == rows.len() - 1 {
                            assert(prev[j].0@ == rows[i].0@ && prev[k].0@ == rows[i].0@);
                            assert(false);
                        }
                    }
                }
            } else {
                assert(kept == prev);
                assert forall|i: int| 0 <= i < rows.len() implies spec_contains_key(
                    kept,
                    (#[trigger] rows[i]).0@,
                ) by {
                    if i < rows.len() - 1 {
                        assert(spec_contains_key(prev, short[i].0@));
                    }
                }
                assert forall|k: int, i: int|
                    0 <= k < kept.len() && 0 <= i < rows.len() && (#[trigger] rows[i]).0@ == (
                    #[trigger] kept[k]).0@ implies !spec_lex_lt(
                    spec_row_date(kept[k].1@),
                    spec_row_date(rows[i].1@),
                ) by {
                    if i == rows.len() - 1 {
                        if k != j {
                            assert(prev[j].0@ == prev[k].0@);
                            assert(false);
                        }
                    }
                }
            }
        } else {
            assert(kept == prev.push(last));
            assert forall|i: int| 0 <= i < rows.len() implies spec_contains_key(
                kept,
                (#[trigger] rows[i]).0@,
            ) by {
                if i < rows.len() - 1 {
                    assert(spec_contains_key(prev, short[i].0@));
                    let w = choose|w: int| 0 <= w < prev.len() && prev[w].0@ == short[i].0@;
                    assert(kept[w].0@ == rows[i].0@);
                } else {
                    assert(kept[kept.len() - 1].0@ == rows[i].0@);
                }
            }
            assert forall|k: int, i: int|
                0 <= k < kept.len() && 0 <= i < rows.len() && (#[trigger] rows[i]).0@ == (
                #[trigger] kept[k]).0@ implies !spec_lex_lt(
                spec_row_date(kept[k].1@),
                spec_row_date(rows[i].1@),
            ) by {
                if k == kept.len() - 1 {
                    if i < rows.len() - 1 {
                        assert(spec_contains_key(prev, rows[i].0@));
                        let w = spec_key_at(prev, rows[i].0@);
                        assert(0 <= w < prev.len() && prev[w].0@ == last.0@);
                        assert(false);
                    } else {
                        lemma_lex_lt_irrefl(spec_row_date(last.1@));
                    }
                } else {
                    if i == rows.len() - 1 {
                        assert(spec_contains_key(prev, last.0@));
                        assert(false);
                    }
                }
            }
        }
    }
}

/// Collapses rows by key, keeping per key the row with the greatest
/// date, as `spec_newest_wins` states.
pub fn newest_wins(rows: &Vec<(String, String)>) -> (kept: Vec<(String, String)>)
    ensures
        kept@ == spec_newest_wins(rows@),
{
    let n = rows.len();
    let mut kept: Vec<(String, String)> = Vec::new();
    let mut dates: Vec<String> = Vec::new();
    let mut i: usize = 0;
    proof {
        assert(rows@.take(0) =~= Seq::<(String, String)>::empty());
    }
    while i < n
        invariant
            i <= n == rows@.len(),
            kept@ == spec_newest_wins(rows@.take(i as int)),
            dates@.len() == kept@.len(),
            forall|j: int|
                0 <= j < kept@.len() ==> (#[trigger] dates@[j])@ == spec_row_date(kept@[j].1@),
            forall|a: int, b: int| 0 <= a < b < kept@.len() ==> kept@[a].0@ != kept@[b].0@,
        decreases n - i,
    {
        proof {
            assert(rows@.take(i + 1).drop_last() =~= rows@.take(i as int));
            assert(rows@.take(i + 1).last() == rows@[i as int]);
        }
        let id = rows[i].0.clone();
        let data = rows[i].1.clone();
        let d = row_date(&data);
        proof {
            assert((id, data) == rows@[i as int]);
        }
        let mut found: Option<usize> = None;
        let mut j: usize = 0;
        while j < kept.len()
            invariant
                j <= kept@.len(),
                id@ == rows@[i as int].0@,
                match found {
                    Some(x) => x < kept@.len() && kept@[x as int].0@ == id@,
                    None => forall|y: int| 0 <= y < j ==> kept@[y].0@ != id@,
                },
            decreases kept@.len() - j,
        {
            if found.is_none() {
                if str_eq(kept[j].0.as_str(), id.as_str()) {
                    found = Some(j);
                }
            }
            j = j + 1;
        }
        match found {
            Some(x) => {
                proof {
                    assert(spec_contains_key(kept@, id@));
                    let c = spec_key_at(kept@, id@);
                    if c != x {
                        if c < x {
                            assert(kept@[c].0@ != kept@[x as int].0@);
                        } else {
                            assert(kept@[x as int].0@ != kept@[c].0@);
                        }
                    }
                    assert(spec_key_at(kept@, id@) == x as int);
                }
                if lex_lt(&dates[x], &d) {
                    let _ = kept.remove(x);
                    kept.insert(x, (id, data));
                    let _ = dates.remove(x);
                    dates.insert(x, d);
                    proof {
                        assert(kept@ =~= spec_newest_wins(rows@.take(i + 1)));
                    }
                }
            },
            None => {
                proof {
                    assert(!spec_contains_key(kept@, id@));
                }
                kept.push((id, data));
                dates.push(d);
            },
        }
        i = i + 1;
    }
    proof {
        assert(rows@.take(n as int) =~= rows@);
    }
    kept
}

/// What the two collapse tools report.
pub struct DedupReport {
    pub before: usize,
    pub removed: usize,
    pub kept: usize,
}

/// Why a repair tool refused to run.
#[derive(PartialEq, Eq, Structural, Clone, Copy, Debug)]
pub enum RepairError {
    MissingTable,
    MissingColumn,
}

impl RepairError {
    /// The message surfaced to the command layer.
    pub fn message(&self) -> (m: String)
        ensures
            m@ == match *self {
                RepairError::MissingTable => "目标表不存在"@,
                RepairError::MissingColumn => "目标表缺少必需的列"@,
            },
    {
        match self {
            RepairError::MissingTable => String::from_str("目标表不存在"),
            RepairError::MissingColumn => String::from_str("目标表缺少必需的列"),
        }
    }
}

/// The rewritten table after a collapse: same name and columns, one
/// row per kept pair, the key and payload under their columns and
/// every other cell null (the rewrite names only those two columns).
pub open spec fn spec_rewritten(t: Table, nt: Table, kept: Seq<(String, String)>, ic: int, dc: int) -> bool {
    &&& nt.name == t.name
    &&& nt.cols == t.cols
    &&& nt.rows@.len() == kept.len()
    &&& forall|r: int|
        0 <= r < kept.len() ==> {
            let row = (#[trigger] nt.rows@[r])@;
            &&& row.len() == t.cols@.len()
            &&& row[ic]@ == CellVal::Text(kept[r].0@)
            &&& row[dc]@ == CellVal::Text(kept[r].1@)
            &&& forall|c: int|
                0 <= c < row.len() && c != ic && c != dc ==> (#[trigger] row[c])@ == CellVal::Null
        }
}

/// Builds one rewritten row.
fn rebuild_row(ncols: usize, ic: usize, dc: usize, id: String, data: String) -> (row: Vec<
    SqlValue,
>)
    requires
        ic < ncols,
        dc < ncols,
        ic != dc,
    ensures
        row@.len() == ncols,
        row@[ic as int]@ == CellVal::Text(id@),
        row@[dc as int]@ == CellVal::Text(data@),
        forall|c: int|
            0 <= c < ncols && c != ic && c != dc ==> (#[trigger] row@[c])@ == CellVal::Null,
{
    let mut row: Vec<SqlValue> = Vec::new();
    let mut c: usize = 0;
    while c < ncols
        invariant
            c <= ncols,
            ic < ncols,
            dc < ncols,
            ic != dc,
            row@.len() == c,
            ic < c ==> row@[ic as int]@ == CellVal::Text(id@),
            dc < c ==> row@[dc as int]@ == CellVal::Text(data@),
            forall|x: int| 0 <= x < c && x != ic && x != dc ==> (#[trigger] row@[x])@ == CellVal::Null,
        decreases ncols - c,
    {
        if c == ic {
            row.push(SqlValue::Text(id.clone()));
        } else if c == dc {
            row.push(SqlValue::Text(data.clone()));
        } else {
            row.push(SqlValue::Null);
        }
        c = c + 1;
    }
    row
}

/// The common shape of the two collapse tools: read the `(id, data)`
/// pairs of the named table, collapse them with `newest` off (first
/// kept) or on (greatest date kept), and rewrite the table.
fn collapse_table(db: &mut Db, table_name: &str, newest: bool) -> (r: Result<
    DedupReport,
    RepairError,
>)
    requires
        old(db).wf(),
    ensures
        final(db).wf(),
        final(db).ledger == old(db).ledger,
        match r {
            Err(e) => {
                &&& *final(db) == *old(db)
                &&& (e == RepairError::MissingTable) <==> !old(db).has_table(table_name@)
                &&& e == RepairError::MissingColumn ==> old(db).has_table(table_name@) && !(old(
                    db,
                ).table(table_name@).has_col("id"@) && old(db).table(table_name@).has_col(
                    "data"@,
                ))
            },
            Ok(rep) => ({
                let t = old(db).table(table_name@);
                let ic = t.col_idx("id"@);
                let dc = t.col_idx("data"@);
                let pairs = spec_kv_rows(t.rows@, ic, dc);
                let kept = if newest {
                    spec_newest_wins(pairs)
                } else {
                    spec_dedup_first(pairs)
                };
                &&& old(db).has_table(table_name@)
                &&& t.has_col("id"@)
                &&& t.has_col("data"@)
                &&& rep.before == pairs.len()
                &&& rep.kept == kept.len()
                &&& rep.before == rep.kept + rep.removed
                &&& final(db).tables@.len() == old(db).tables@.len()
                &&& forall|x: int|
                    0 <= x < old(db).tables@.len() && x != old(db).table_idx(table_name@)
                        ==> final(db).tables@[x] == old(db).tables@[x]
                &&& spec_rewritten(
                    t,
                    final(db).tables@[old(db).table_idx(table_name@)],
                    kept,
                    ic,
                    dc,
                )
            }),
        },
{
    let ti = match db.find_table(table_name) {
        Some(ti) => ti,
        None => {
            return Err(RepairError::MissingTable);
        },
    };
    let ic = match db.tables[ti].find_col("id") {
        Some(c) => c,
        None => {
            proof {
                assert(db.has_table(table_name@));
            }
            return Err(RepairError::MissingColumn);
        },
    };
    let dc = match db.tables[ti].find_col("data") {
        Some(c) => c,
        None => {
            proof {
                assert(db.has_table(table_name@));
            }
            return Err(RepairError::MissingColumn);
        },
    };
    proof {
        reveal_strlit("id");
        reveal_strlit("data");
        assert("id"@.len() == 2);
        assert("data"@.len() == 4);
        assert(ic != dc);
    }
    let mut t = db.take_table(ti);
    let pairs = table_kv_rows(&t, ic, dc);
    let before = pairs.len();
    let (kept, removed) = if newest {
        let kept = newest_wins(&pairs);
        proof {
            lemma_newest_wins_len(pairs@);
        }
        let removed = before - kept.len();
        (kept, removed)
    } else {
        dedup_first(&pairs)
    };
    let kept_len = kept.len();
    let ncols = t.cols.len();
    let mut new_rows: Vec<Vec<SqlValue>> = Vec::new();
    let ghost kept_view = kept@;
    for k in 0..kept_len
        invariant
            kept_len == kept@.len(),
            kept_view == kept@,
            ic < ncols,
            dc < ncols,
            ic != dc,
            new_rows@.len() == k,
            forall|r: int|
                0 <= r < k ==> {
                    let row = (#[trigger] new_rows@[r])@;
                    &&& row.len() == ncols
                    &&& row[ic as int]@ == CellVal::Text(kept_view[r].0@)
                    &&& row[dc as int]@ == CellVal::Text(kept_view[r].1@)
                    &&& forall|c: int|
                        0 <= c < row.len() && c != ic && c != dc ==> (#[trigger] row[c])@
                            == CellVal::Null
                },
    {
        let id = kept[k].0.clone();
        let data = kept[k].1.clone();
        let row = rebuild_row(ncols, ic, dc, id, data);
        new_rows.push(row);
    }
    t.rows = new_rows;
    db.put_table(ti, t);
    proof {
        assert(db.tables@ =~= old(db).tables@.update(
            ti as int,
            db.tables@[ti as int],
        ));
    }
    Ok(DedupReport { before, removed, kept: kept_len })
}

/// Exact-duplicate collapse of the accounts table: keeps the first
/// row of each id, in original order, and reports the counts.
pub fn deduplicate_accounts(db: &mut Db) -> (r: Result<DedupReport, RepairError>)
    requires
        old(db).wf(),
    ensures
        final(db).wf(),
        final(db).ledger == old(db).ledger,
        match r {
            Err(e) => {
                &&& *final(db) == *old(db)
                &&& (e == RepairError::MissingTable) <==> !old(db).has_table("accounts"@)
                &&& e == RepairError::MissingColumn ==> old(db).has_table("accounts"@)
                    && !(old(db).table("accounts"@).has_col("id"@) && old(db).table(
                    "accounts"@,
                ).has_col("data"@))
            },
            Ok(rep) => ({
                let t = old(db).table("accounts"@);
                let pairs = spec_kv_rows(t.rows@, t.col_idx("id"@), t.col_idx("data"@));
                let kept = spec_dedup_first(pairs);
                &&& rep.before == pairs.len()
                &&& rep.kept == kept.len()
                &&& rep.before == rep.kept + rep.removed
                &&& final(db).tables@.len() == old(db).tables@.len()
                &&& forall|x: int|
                    0 <= x < old(db).tables@.len() && x != old(db).table_idx("accounts"@)
                        ==> final(db).tables@[x] == old(db).tables@[x]
                &&& spec_rewritten(
                    t,
                    final(db).tables@[old(db).table_idx("accounts"@)],
                    kept,
                    t.col_idx("id"@),
                    t.col_idx("data"@),
                )
            }),
        },
{
    collapse_table(db, "accounts", false)
}

/// Newest-wins collapse of the raids table: keeps, per id, the row
/// whose embedded date is lexicographically greatest, and reports the
/// counts.
pub fn deduplicate_raids(db: &mut Db) -> (r: Result<DedupReport, RepairError>)
    requires
        old(db).wf(),
    ensures
        final(db).wf(),
        final(db).ledger == old(db).ledger,
        match r {
            Err(e) => {
                &&& *final(db) == *old(db)
                &&& (e == RepairError::MissingTable) <==> !old(db).has_table("raids"@)
                &&& e == RepairError::MissingColumn ==> old(db).has_table("raids"@)
                    && !(old(db).table("raids"@).has_col("id"@) && old(db).table(
                    "raids"@,
                ).has_col("data"@))
            },
            Ok(rep) => ({
                let t = old(db).table("raids"@);
                let pairs = spec_kv_rows(t.rows@, t.col_idx("id"@), t.col_idx("data"@));
                let kept = spec_newest_wins(pairs);
                &&& rep.before == pairs.len()
                &&& rep.kept == kept.len()
                &&& rep.before == rep.kept + rep.removed
                &&& final(db).tables@.len() == old(db).tables@.len()
                &&& forall|x: int|
                    0 <= x < old(db).tables@.len() && x != old(db).table_idx("raids"@)
                        ==> final(db).tables@[x] == old(db).tables@[x]
                &&& spec_rewritten(
                    t,
                    final(db).tables@[old(db).table_idx("raids"@)],
                    kept,
                    t.col_idx("id"@),
                    t.col_idx("data"@),
                )
            }),
        },
{
    collapse_table(db, "raids", true)
}

/// The text cells of a table's rows under one column, in row order;
/// rows holding something other than text there are passed over.
pub open spec fn spec_text_keys(rows: Seq<Vec<SqlValue>>, ic: int) -> Seq<String>
    decreases rows.len(),
{
    if rows.len() == 0 {
        Seq::empty()
    } else {
        let prev = spec_text_keys(rows.drop_last(), ic);
        match rows.last()@[ic] {
            SqlValue::Text(a) => prev.push(a),
            _ => prev,
        }
    }
}

/// Reads the text keys of a table under one column.
/// Every text value sitting under the key column appears among the
/// collected keys.
pub proof fn lemma_text_keys_complete(rows: Seq<Vec<SqlValue>>, ic: int, rr: int, key: Seq<char>)
    requires
        0 <= rr < rows.len(),
        rows[rr]@[ic]@ == CellVal::Text(key),
    ensures
        exists|k: int|
            0 <= k < spec_text_keys(rows, ic).len() && (#[trigger] spec_text_keys(rows, ic)[k])@
                == key,
    decreases rows.len(),
{
    let ks = spec_text_keys(rows, ic);
    let prev = spec_text_keys(rows.drop_last(), ic);
    if rr == rows.len() - 1 {
        match rows.last()@[ic] {
            SqlValue::Text(a) => {
                assert(ks == prev.push(a));
                assert(ks[prev.len() as int]@ == key);
            },
            _ => {
                assert(false);
            },
        }
    } else {
        assert(rows.drop_last()[rr] == rows[rr]);
        lemma_text_keys_complete(rows.drop_last(), ic, rr, key);
        let k = choose|k: int| 0 <= k < prev.len() && (#[trigger] prev[k])@ == key;
        match rows.last()@[ic] {
            SqlValue::Text(a) => {
                assert(ks == prev.push(a));
                assert(ks[k]@ == key);
            },
            _ => {
                assert(ks == prev);
                assert(ks[k]@ == key);
            },
        }
    }
}

pub(crate) fn table_text_keys(t: &Table, ic: usize) -> (keys: Vec<String>)
    requires
        t.wf(),
        ic < t.cols@.len(),
    ensures
        keys@ == spec_text_keys(t.rows@, ic as int),
{
    let n = t.rows.len();
    let mut keys: Vec<String> = Vec::new();
    let mut i: usize = 0;
    proof {
        assert(t.rows@.take(0) =~= Seq::<Vec<SqlValue>>::empty());
    }
    while i < n
        invariant
            i <= n == t.rows@.len(),
            t.wf(),
            ic < t.cols@.len(),
            keys@ == spec_text_keys(t.rows@.take(i as int), ic as int),
        decreases n - i,
    {
        proof {
            assert(t.rows@.take(i + 1).drop_last() =~= t.rows@.take(i as int));
            assert(t.rows@.take(i + 1).last() == t.rows@[i as int]);
        }
        let row = &t.rows[i];
        match &row[ic] {
            SqlValue::Text(a) => {
                keys.push(a.clone());
            },
            _ => {},
        }
        i = i + 1;
    }
    proof {
        assert(t.rows@.take(n as int) =~= t.rows@);
    }
    keys
}

/// What the analyzer reports of one table.
pub struct TableDupStats {
    pub total: usize,
    pub dups: Vec<(String, usize)>,
}

/// A sound and complete duplicate listing: every listed key occurs
/// that often and at least twice, no key is listed twice, and every
/// key occurring at least twice is listed.
pub open spec fn spec_dup_stats_ok(stats: TableDupStats, keys: Seq<String>, total: nat) -> bool {
    &&& stats.total == total
    &&& forall|k: int|
        0 <= k < stats.dups@.len() ==> (#[trigger] stats.dups@[k]).1 == spec_count_key(
            keys,
            stats.dups@[k].0@,
        ) && stats.dups@[k].1 >= 2
    &&& forall|a: int, b: int|
        0 <= a < b < stats.dups@.len() ==> stats.dups@[a].0@ != stats.dups@[b].0@
    &&& forall|i: int|
        0 <= i < keys.len() && spec_count_key(keys, (#[trigger] keys[i])@) >= 2 ==> exists|k: int|
            0 <= k < stats.dups@.len() && stats.dups@[k].0@ == keys[i]@
}

/// What the analyzer reports: duplicate ids in the three tables whose
/// early schema versions only nominally enforced uniqueness.
pub struct DuplicateReport {
    pub accounts: TableDupStats,
    pub records: TableDupStats,
    pub raids: TableDupStats,
}

/// Analyzes one table's id column for duplicates.
fn analyze_table(t: &Table) -> (r: Result<TableDupStats, RepairError>)
    requires
        t.wf(),
    ensures
        match r {
            Ok(stats) => t.has_col("id"@) && spec_dup_stats_ok(
                stats,
                spec_text_keys(t.rows@, t.col_idx("id"@)),
                t.n_rows(),
            ),
            Err(e) => e == RepairError::MissingColumn && !t.has_col("id"@),
        },
{
    let ic = match t.find_col("id") {
        Some(c) => c,
        None => {
            return Err(RepairError::MissingColumn);
        },
    };
    let keys = table_text_keys(t, ic);
    let dups = duplicate_keys(&keys);
    let stats = TableDupStats { total: t.rows.len(), dups };
    proof {
        let ks = spec_text_keys(t.rows@, t.col_idx("id"@));
        assert(keys@ == ks);
        assert forall|i: int|
            0 <= i < ks.len() && spec_count_key(ks, (#[trigger] ks[i])@) >= 2 implies exists|
            k: int,
        | 0 <= k < stats.dups@.len() && stats.dups@[k].0@ == ks[i]@ by {
            assert(keys@[i] == ks[i]);
            assert(spec_count_key(keys@, keys@[i]@) >= 2);
            let k = choose|k: int| 0 <= k < stats.dups@.len() && stats.dups@[k].0@ == keys@[i]@;
            assert(stats.dups@[k].0@ == ks[i]@);
        }
        assert(spec_dup_stats_ok(stats, ks, t.n_rows()));
    }
    Ok(stats)
}

/// Scans the accounts, records and raids tables for duplicate ids and
/// reports exact counts per offending key; nothing is modified.
pub fn analyze_duplicates(db: &Db) -> (r: Result<DuplicateReport, RepairError>)
    requires
        db.wf(),
    ensures
        match r {
            Ok(rep) => {
                &&& db.has_table("accounts"@) && db.table("accounts"@).has_col("id"@)
                &&& db.has_table("records"@) && db.table("records"@).has_col("id"@)
                &&& db.has_table("raids"@) && db.table("raids"@).has_col("id"@)
                &&& spec_dup_stats_ok(
                    rep.accounts,
                    spec_text_keys(
                        db.table("accounts"@).rows@,
                        db.table("accounts"@).col_idx("id"@),
                    ),
                    db.table("accounts"@).n_rows(),
                )
                &&& spec_dup_stats_ok(
                    rep.records,
                    spec_text_keys(
                        db.table("records"@).rows@,
                        db.table("records"@).col_idx("id"@),
                    ),
                    db.table("records"@).n_rows(),
                )
                &&& spec_dup_stats_ok(
                    rep.raids,
                    spec_text_keys(db.table("raids"@).rows@, db.table("raids"@).col_idx("id"@)),
                    db.table("raids"@).n_rows(),
                )
            },
            Err(_) => !(db.has_table("accounts"@) && db.table("accounts"@).has_col("id"@)
                && db.has_table("records"@) && db.table("records"@).has_col("id"@)
                && db.has_table("raids"@) && db.table("raids"@).has_col("id"@)),
        },
{
    let accounts = match db.find_table("accounts") {
        Some(i) => {
            match analyze_table(&db.tables[i]) {
                Ok(stats) => stats,
                Err(e) => {
                    return Err(e);
                },
            }
        },
        None => {
            return Err(RepairError::MissingTable);
        },
    };
    let records = match db.find_table("records") {
        Some(i) => {
            match analyze_table(&db.tables[i]) {
                Ok(stats) => stats,
                Err(e) => {
                    return Err(e);
                },
            }
        },
        None => {
            return Err(RepairError::MissingTable);
        },
    };
    let raids = match db.find_table("raids") {
        Some(i) => {
            match analyze_table(&db.tables[i]) {
                Ok(stats) => stats,
                Err(e) => {
                    return Err(e);
                },
            }
        },
        None => {
            return Err(RepairError::MissingTable);
        },
    };
    Ok(DuplicateReport { accounts, records, raids })
}

/// How many of the keys equal `key`.
pub open spec fn spec_count_key(keys: Seq<String>, key: Seq<char>) -> nat
    decreases keys.len(),
{
    if keys.len() == 0 {
        0
    } else {
        spec_count_key(keys.drop_last(), key) + if keys.last()@ == key {
            1nat
        } else {
            0nat
        }
    }
}

/// Counts the keys equal to `key`.
pub fn count_key(keys: &Vec<String>, key: &String) -> (c: usize)
    ensures
        c == spec_count_key(keys@, key@),
{
    let n = keys.len();
    let mut c: usize = 0;
    let mut i: usize = 0;
    proof {
        assert(keys@.take(0) =~= Seq::<String>::empty());
    }
    while i < n
        invariant
            i <= n == keys@.len(),
            c == spec_count_key(keys@.take(i as int), key@),
            c <= i,
        decreases n - i,
    {
        proof {
            assert(keys@.take(i + 1).drop_last() =~= keys@.take(i as int));
            assert(keys@.take(i + 1).last() == keys@[i as int]);
        }
        if str_eq(keys[i].as_str(), key.as_str()) {
            c = c + 1;
        }
        i = i + 1;
    }
    proof {
        assert(keys@.take(n as int) =~= keys@);
    }
    c
}

/// The duplicated keys among `keys`: each key that occurs at least
/// twice appears exactly once, with its exact count.
pub fn duplicate_keys(keys: &Vec<String>) -> (dups: Vec<(String, usize)>)
    ensures
        forall|k: int|
            0 <= k < dups@.len() ==> (#[trigger] dups@[k]).1 == spec_count_key(
                keys@,
                dups@[k].0@,
            ) && dups@[k].1 >= 2,
        forall|a: int, b: int| 0 <= a < b < dups@.len() ==> dups@[a].0@ != dups@[b].0@,
        forall|i: int|
            0 <= i < keys@.len() && spec_count_key(keys@, (#[trigger] keys@[i])@) >= 2 ==> exists|
                k: int,
            | 0 <= k < dups@.len() && dups@[k].0@ == keys@[i]@,
{
    let n = keys.len();
    let mut dups: Vec<(String, usize)> = Vec::new();
    let mut i: usize = 0;
    while i < n
        invariant
            i <= n == keys@.len(),
            forall|k: int|
                0 <= k < dups@.len() ==> (#[trigger] dups@[k]).1 == spec_count_key(
                    keys@,
                    dups@[k].0@,
                ) && dups@[k].1 >= 2,
            forall|a: int, b: int| 0 <= a < b < dups@.len() ==> dups@[a].0@ != dups@[b].0@,
            forall|x: int|
                0 <= x < i && spec_count_key(keys@, (#[trigger] keys@[x])@) >= 2 ==> exists|
                    k: int,
                | 0 <= k < dups@.len() && dups@[k].0@ == keys@[x]@,
        decreases n - i,
    {
        let mut already = false;
        let mut j: usize = 0;
        while j < dups.len()
            invariant
                j <= dups@.len(),
                i < keys@.len(),
                already == exists|k: int| 0 <= k < j && (#[trigger] dups@[k]).0@ == keys@[i as int]@,
            decreases dups@.len() - j,
        {
            if str_eq(dups[j].0.as_str(), keys[i].as_str()) {
                already = true;
            }
            j = j + 1;
        }
        if !already {
            let c = count_key(keys, &keys[i]);
            if c >= 2 {
                let ghost dups0 = dups@;
                dups.push((keys[i].clone(), c));
                proof {
                    assert forall|x: int|
                        0 <= x <= i && spec_count_key(keys@, (#[trigger] keys@[x])@)
                            >= 2 implies exists|k: int|
                        0 <= k < dups@.len() && dups@[k].0@ == keys@[x]@ by {
                        if x < i {
                            let k = choose|k: int|
                                0 <= k < dups0.len() && dups0[k].0@ == keys@[x]@;
                            assert(dups@[k].0@ == keys@[x]@);
                        } else {
                            assert(dups@[dups@.len() - 1].0@ == keys@[x]@);
                        }
                    }
                }
            }
        }
        i = i + 1;
    }
    dups
}

} // verus!
