//! The shadow-table swap: the reusable primitive for changing a
//! column's logical type. The embedded engine cannot alter a column
//! in place, so a new-shape table is built, every row is copied with
//! an explicit cast and per-column fallbacks, and the new table is
//! substituted for the old one.

use vstd::prelude::*;

use crate::table::spec_find_col;
use crate::table::CellVal;
use crate::table::ColType;
use crate::table::Column;
use crate::table::SqlValue;
use crate::table::Table;
use crate::text::cast_text_i64;
use crate::text::spec_cast_text_i64;

verus! {

/// What one copied cell holds: the source cell under the same column
/// name, cast to the target type where text meets an integer column;
/// the column's default where the source lacks the column or holds
/// null.
pub open spec fn spec_swap_cell(
    row: Vec<SqlValue>,
    src: Option<int>,
    ty: ColType,
    dv: CellVal,
) -> CellVal {
    match src {
        None => dv,
        Some(ci) => match row@[ci] {
            SqlValue::Null => dv,
            SqlValue::Int(i) => CellVal::Int(i as int),
            SqlValue::Text(s) => if ty == ColType::Integer {
                CellVal::Int(spec_cast_text_i64(s@) as int)
            } else {
                CellVal::Text(s@)
            },
        },
    }
}

/// The swapped table: same name, the target columns, one row per old
/// row, each cell as `spec_swap_cell` states.
pub open spec fn spec_swapped(
    told: Table,
    tnew: Table,
    cols: Seq<Column>,
    dvs: Seq<CellVal>,
) -> bool {
    &&& tnew.name == told.name
    &&& tnew.cols@ == cols
    &&& tnew.rows@.len() == told.rows@.len()
    &&& forall|r: int, c: int|
        #![trigger tnew.rows@[r]@[c]]
        0 <= r < told.rows@.len() && 0 <= c < cols.len() ==> tnew.rows@[r]@[c]@ == spec_swap_cell(
            told.rows@[r],
            spec_find_col(told.cols@, cols[c].name@),
            cols[c].ty,
            dvs[c],
        )
}

/// Copies one value.
fn dup_value(v: &SqlValue) -> (r: SqlValue)
    ensures
        r == *v,
{
    match v {
        SqlValue::Null => SqlValue::Null,
        SqlValue::Int(i) => SqlValue::Int(*i),
        SqlValue::Text(s) => SqlValue::Text(s.clone()),
    }
}

/// Builds the new-shape copy of a table: the shadow-table swap's copy
/// phase, with the explicit cast.
pub fn swap_table(t: &Table, new_cols: Vec<Column>, defaults: &Vec<SqlValue>) -> (nt: Table)
    requires
        t.wf(),
        defaults@.len() == new_cols@.len(),
    ensures
        spec_swapped(
            *t,
            nt,
            new_cols@,
            defaults@.map_values(|d: SqlValue| d@),
        ),
        nt.wf(),
        nt.cols == new_cols,
{
    let ncols = new_cols.len();
    let mut mapping: Vec<Option<usize>> = Vec::new();
    let mut c: usize = 0;
    while c < ncols
        invariant
            c <= ncols == new_cols@.len(),
            mapping@.len() == c,
            forall|x: int|
                0 <= x < c ==> {
                    match #[trigger] mapping@[x] {
                        Some(ci) => spec_find_col(t.cols@, new_cols@[x].name@) == Some(ci as int)
                            && ci < t.cols@.len(),
                        None => spec_find_col(t.cols@, new_cols@[x].name@) is None,
                    }
                },
        decreases ncols - c,
    {
        mapping.push(t.find_col(new_cols[c].name.as_str()));
        c = c + 1;
    }
    let nrows = t.rows.len();
    let mut rows: Vec<Vec<SqlValue>> = Vec::new();
    let mut r: usize = 0;
    while r < nrows
        invariant
            r <= nrows == t.rows@.len(),
            t.wf(),
            ncols == new_cols@.len(),
            defaults@.len() == ncols,
            mapping@.len() == ncols,
            forall|x: int|
                0 <= x < ncols ==> {
                    match #[trigger] mapping@[x] {
                        Some(ci) => spec_find_col(t.cols@, new_cols@[x].name@) == Some(ci as int)
                            && ci < t.cols@.len(),
                        None => spec_find_col(t.cols@, new_cols@[x].name@) is None,
                    }
                },
            rows@.len() == r,
            forall|x: int| 0 <= x < r ==> (#[trigger] rows@[x])@.len() == ncols,
            forall|x: int, y: int|
                #![trigger rows@[x]@[y]]
                0 <= x < r && 0 <= y < ncols ==> rows@[x]@[y]@ == spec_swap_cell(
                    t.rows@[x],
                    spec_find_col(t.cols@, new_cols@[y].name@),
                    new_cols@[y].ty,
                    defaults@[y]@,
                ),
        decreases nrows - r,
    {
        let src_row = &t.rows[r];
        let mut row: Vec<SqlValue> = Vec::new();
        let mut c: usize = 0;
        while c < ncols
            invariant
                c <= ncols == new_cols@.len(),
                r < t.rows@.len(),
                t.wf(),
                src_row == &t.rows[r as int],
                defaults@.len() == ncols,
                mapping@.len() == ncols,
                forall|x: int|
                    0 <= x < ncols ==> {
                        match #[trigger] mapping@[x] {
                            Some(ci) => spec_find_col(t.cols@, new_cols@[x].name@) == Some(
                                ci as int,
                            ) && ci < t.cols@.len(),
                            None => spec_find_col(t.cols@, new_cols@[x].name@) is None,
                        }
                    },
                row@.len() == c,
                forall|y: int|
                    0 <= y < c ==> (#[trigger] row@[y])@ == spec_swap_cell(
                        t.rows@[r as int],
                        spec_find_col(t.cols@, new_cols@[y].name@),
                        new_cols@[y].ty,
                        defaults@[y]@,
                    ),
            decreases ncols - c,
        {
            let cell = match mapping[c] {
                None => dup_value(&defaults[c]),
                Some(ci) => match &src_row[ci] {
                    SqlValue::Null => dup_value(&defaults[c]),
                    SqlValue::Int(i) => SqlValue::Int(*i),
                    SqlValue::Text(s) => {
                        if new_cols[c].ty == ColType::Integer {
                            SqlValue::Int(cast_text_i64(s))
                        } else {
                            SqlValue::Text(s.clone())
                        }
                    },
                },
            };
            row.push(cell);
            c = c + 1;
        }
        rows.push(row);
        r = r + 1;
    }
    let nt = Table { name: t.name.clone(), cols: new_cols, rows };
    nt
}

} // verus!
