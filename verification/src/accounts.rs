//! The first legacy transformation: the free-form JSON account blobs
//! of the earliest on-disk format are split into the structured
//! accounts and roles tables. Field extraction follows the documented
//! fallback order (`accountName` first, then the older `username`;
//! a role keeps its own id, else its name, else a freshly generated
//! one), and a blob that does not parse is passed over rather than
//! failing the whole migration.

use vstd::prelude::*;

use crate::json::json_parse;
use crate::json::spec_bool_or;
use crate::json::spec_json_parse;
use crate::json::spec_get;
use crate::json::spec_get_str;
use crate::json::spec_int_or_text_int;
use crate::json::spec_str_or;
use crate::json::JsonValue;
use crate::schema::accounts_cols;
use crate::schema::fresh_table;
use crate::schema::roles_cols;
use crate::schema::spec_accounts_shape;
use crate::schema::spec_cols_shape;
use crate::schema::spec_roles_shape;
use crate::table::row_cells;
use crate::table::spec_kv_rows;
use crate::table::table_cells;
use crate::table::table_kv_rows;
use crate::table::CellVal;
use crate::table::Db;
use crate::table::SqlValue;
use crate::MigrationError;

verus! {

/// An optional text field as a cell: absent is null.
pub open spec fn spec_opt_text(o: Option<Seq<char>>) -> CellVal {
    match o {
        Some(s) => CellVal::Text(s),
        None => CellVal::Null,
    }
}

/// An optional number field as a cell: absent is null.
pub open spec fn spec_opt_int(o: Option<i64>) -> CellVal {
    match o {
        Some(i) => CellVal::Int(i as int),
        None => CellVal::Null,
    }
}

/// A boolean as its stored 0/1 encoding.
pub open spec fn spec_bool_int(b: bool) -> CellVal {
    CellVal::Int(
        if b {
            1
        } else {
            0
        },
    )
}

/// The structured account row extracted from one legacy blob: the
/// account name prefers `accountName` and falls back to the older
/// `username`; the type defaults to `OWN`; flags default to off; both
/// timestamps are the migration instant.
pub open spec fn spec_account_cells(id: Seq<char>, v: JsonValue, ts: Seq<char>) -> Seq<CellVal> {
    seq![
        CellVal::Text(id),
        CellVal::Text(spec_str_or(v, "accountName"@, spec_str_or(v, "username"@, Seq::empty()))),
        CellVal::Text(spec_str_or(v, "type"@, "OWN"@)),
        spec_opt_text(spec_get_str(v, "password"@)),
        spec_opt_text(spec_get_str(v, "notes"@)),
        spec_bool_int(spec_bool_or(v, "hidden"@, false)),
        spec_bool_int(spec_bool_or(v, "disabled"@, false)),
        CellVal::Text(ts),
        CellVal::Text(ts),
    ]
}

/// The cells of a structured role row after its id: the owning
/// account, the extracted fields, and the migration instant. The
/// equipment score is read from a number or from decimal text, as it
/// has been stored both ways.
pub open spec fn spec_role_rest_cells(
    account_id: Seq<char>,
    v: JsonValue,
    ts: Seq<char>,
) -> Seq<CellVal> {
    seq![
        CellVal::Text(account_id),
        CellVal::Text(spec_str_or(v, "name"@, Seq::empty())),
        spec_opt_text(spec_get_str(v, "server"@)),
        spec_opt_text(spec_get_str(v, "region"@)),
        spec_opt_text(spec_get_str(v, "sect"@)),
        spec_opt_int(spec_int_or_text_int(v, "equipmentScore"@)),
        spec_bool_int(spec_bool_or(v, "disabled"@, false)),
        CellVal::Text(ts),
        CellVal::Text(ts),
    ]
}

/// Where a role's id comes from when the blob carries one: its `id`
/// field, else its `name` field.
pub open spec fn spec_role_id_source(v: JsonValue) -> Option<Seq<char>> {
    match spec_get_str(v, "id"@) {
        Some(s) => Some(s),
        None => spec_get_str(v, "name"@),
    }
}

/// The `roles` array of a legacy blob, empty when absent or not an
/// array.
pub open spec fn spec_roles_arr(v: JsonValue) -> Seq<JsonValue> {
    match spec_get(v, "roles"@) {
        Some(JsonValue::Arr(a)) => a@,
        _ => Seq::empty(),
    }
}

/// Relies on uuid's version-4 generator: a fresh random identifier,
/// rendered in the 36-character hyphenated form.
#[verifier::external_body]
pub(crate) fn fresh_id() -> (r: String)
    ensures
        r@.len() == 36,
{
    uuid::Uuid::new_v4().to_string()
}

/// Builds the structured account row for one legacy blob.
pub fn account_row(id: &String, v: &JsonValue, now: &String) -> (row: Vec<SqlValue>)
    ensures
        row@.len() == 9,
        row_cells(row) == spec_account_cells(id@, *v, now@),
{
    let name = match v.get_opt_str("accountName") {
        Some(s) => s,
        None => v.get_str_or("username", ""),
    };
    let account_type = v.get_str_or("type", "OWN");
    let password = match v.get_opt_str("password") {
        Some(s) => SqlValue::Text(s),
        None => SqlValue::Null,
    };
    let notes = match v.get_opt_str("notes") {
        Some(s) => SqlValue::Text(s),
        None => SqlValue::Null,
    };
    let hidden: i64 = if v.get_bool_or("hidden", false) {
        1
    } else {
        0
    };
    let disabled: i64 = if v.get_bool_or("disabled", false) {
        1
    } else {
        0
    };
    let row: Vec<SqlValue> = vec![
        SqlValue::Text(id.clone()),
        SqlValue::Text(name),
        SqlValue::Text(account_type),
        password,
        notes,
        SqlValue::Int(hidden),
        SqlValue::Int(disabled),
        SqlValue::Text(now.clone()),
        SqlValue::Text(now.clone()),
    ];
    proof {
        reveal_strlit("");
        assert(""@ =~= Seq::<char>::empty());
        assert(row_cells(row) =~= spec_account_cells(id@, *v, now@));
    }
    row
}

/// Builds one structured role row for an element of a blob's `roles`
/// array. The id keeps the role's own id, else its name, else a fresh
/// generated identifier.
pub fn role_row(account_id: &String, v: &JsonValue, now: &String) -> (row: Vec<SqlValue>)
    ensures
        row@.len() == 10,
        row_cells(row).skip(1) == spec_role_rest_cells(account_id@, *v, now@),
        match spec_role_id_source(*v) {
            Some(s) => row@[0]@ == CellVal::Text(s),
            None => row@[0]@ matches CellVal::Text(f) && f.len() == 36,
        },
{
    let rid = match v.get_opt_str("id") {
        Some(s) => s,
        None => match v.get_opt_str("name") {
            Some(s) => s,
            None => fresh_id(),
        },
    };
    let name = v.get_str_or("name", "");
    let server = match v.get_opt_str("server") {
        Some(s) => SqlValue::Text(s),
        None => SqlValue::Null,
    };
    let region = match v.get_opt_str("region") {
        Some(s) => SqlValue::Text(s),
        None => SqlValue::Null,
    };
    let sect = match v.get_opt_str("sect") {
        Some(s) => SqlValue::Text(s),
        None => SqlValue::Null,
    };
    let score = match v.get_int_or_text_int("equipmentScore") {
        Some(i) => SqlValue::Int(i),
        None => SqlValue::Null,
    };
    let disabled: i64 = if v.get_bool_or("disabled", false) {
        1
    } else {
        0
    };
    let row: Vec<SqlValue> = vec![
        SqlValue::Text(rid),
        SqlValue::Text(account_id.clone()),
        SqlValue::Text(name),
        server,
        region,
        sect,
        score,
        SqlValue::Int(disabled),
        SqlValue::Text(now.clone()),
        SqlValue::Text(now.clone()),
    ];
    proof {
        reveal_strlit("");
        assert(""@ =~= Seq::<char>::empty());
        assert(row_cells(row).skip(1) =~= spec_role_rest_cells(account_id@, *v, now@));
    }
    row
}

/// Builds the structured role rows of one legacy blob: one row per
/// element of its `roles` array, each owned by the given account — so
/// the number of rows equals the array's length, and none of them can
/// point to any other account.
pub fn legacy_roles_rows(account_id: &String, v: &JsonValue, now: &String) -> (rows: Vec<
    Vec<SqlValue>,
>)
    ensures
        rows@.len() == spec_roles_arr(*v).len(),
        forall|j: int|
            0 <= j < rows@.len() ==> {
                let arr = spec_roles_arr(*v);
                &&& (#[trigger] rows@[j])@.len() == 10
                &&& row_cells(rows@[j]).skip(1) == spec_role_rest_cells(account_id@, arr[j], now@)
                &&& match spec_role_id_source(arr[j]) {
                    Some(s) => rows@[j]@[0]@ == CellVal::Text(s),
                    None => rows@[j]@[0]@ matches CellVal::Text(f) && f.len() == 36,
                }
            },
{
    let mut rows: Vec<Vec<SqlValue>> = Vec::new();
    match v.get_arr("roles") {
        None => {
        },
        Some(arr) => {
            let n = arr.len();
            let mut j: usize = 0;
            while j < n
                invariant
                    j <= n == arr@.len(),
                    arr@ == spec_roles_arr(*v),
                    rows@.len() == j,
                    forall|x: int|
                        0 <= x < j ==> {
                            &&& (#[trigger] rows@[x])@.len() == 10
                            &&& row_cells(rows@[x]).skip(1) == spec_role_rest_cells(
                                account_id@,
                                arr@[x],
                                now@,
                            )
                            &&& match spec_role_id_source(arr@[x]) {
                                Some(s) => rows@[x]@[0]@ == CellVal::Text(s),
                                None => rows@[x]@[0]@ matches CellVal::Text(f) && f.len() == 36,
                            }
                        },
                decreases n - j,
            {
                let row = role_row(account_id, &arr[j], now);
                rows.push(row);
                j = j + 1;
            }
        },
    }
    rows
}

/// Whether some structured account row carries this id.
pub open spec fn spec_rows_have_id(cells: Seq<Seq<CellVal>>, id: Seq<char>) -> bool {
    exists|r: int| 0 <= r < cells.len() && (#[trigger] cells[r])[0] == CellVal::Text(id)
}

/// The role row points at an account that is stored: its owner cell
/// names an id some account row carries.
pub open spec fn spec_role_linked(row: Vec<SqlValue>, cells: Seq<Seq<CellVal>>) -> bool {
    exists|aid: Seq<char>| row@[1]@ == CellVal::Text(aid) && spec_rows_have_id(cells, aid)
}

/// A linked role row stays linked when account rows are appended.
proof fn lemma_linked_extend(row: Vec<SqlValue>, cells: Seq<Seq<CellVal>>, more: Seq<Seq<CellVal>>)
    requires
        spec_role_linked(row, cells),
        cells.len() <= more.len(),
        forall|w: int| 0 <= w < cells.len() ==> cells[w] == more[w],
    ensures
        spec_role_linked(row, more),
{
    let aid = choose|aid: Seq<char>|
        row@[1]@ == CellVal::Text(aid) && spec_rows_have_id(cells, aid);
    let w = choose|w: int| 0 <= w < cells.len() && (#[trigger] cells[w])[0] == CellVal::Text(aid);
    assert(more[w][0] == CellVal::Text(aid));
    assert(spec_rows_have_id(more, aid));
}

/// The structured account rows produced from the legacy `(id, blob)`
/// pairs, in order: a blob that does not parse is passed over, and a
/// later blob under an already-written id is ignored.
pub open spec fn spec_migrated_accounts(pairs: Seq<(String, String)>, ts: Seq<char>) -> Seq<
    Seq<CellVal>,
>
    decreases pairs.len(),
{
    if pairs.len() == 0 {
        Seq::empty()
    } else {
        let prev = spec_migrated_accounts(pairs.drop_last(), ts);
        match spec_json_parse(pairs.last().1@) {
            None => prev,
            Some(v) => {
                if spec_rows_have_id(prev, pairs.last().0@) {
                    prev
                } else {
                    prev.push(spec_account_cells(pairs.last().0@, v, ts))
                }
            },
        }
    }
}

/// The role row is what the `j`-th element of the `roles` array of
/// the `p`-th legacy pair yields, owned by that pair's account.
pub open spec fn spec_role_row_from(
    row: Vec<SqlValue>,
    pairs: Seq<(String, String)>,
    ts: Seq<char>,
    p: int,
    j: int,
) -> bool {
    &&& 0 <= p < pairs.len()
    &&& spec_json_parse(pairs[p].1@) is Some
    &&& 0 <= j < spec_roles_arr(spec_json_parse(pairs[p].1@)->0).len()
    &&& row@.len() == 10
    &&& row_cells(row).skip(1) == spec_role_rest_cells(
        pairs[p].0@,
        spec_roles_arr(spec_json_parse(pairs[p].1@)->0)[j],
        ts,
    )
}

/// A role row the migration may write: it comes from some element of
/// the `roles` array of one of the legacy pairs, owned by that pair's
/// account.
pub open spec fn spec_role_row_ok(
    row: Vec<SqlValue>,
    pairs: Seq<(String, String)>,
    ts: Seq<char>,
) -> bool {
    exists|p: int, j: int| spec_role_row_from(row, pairs, ts, p, j)
}

/// A role row stays explained when the pair list grows at the end.
proof fn lemma_role_ok_extend(
    row: Vec<SqlValue>,
    pairs: Seq<(String, String)>,
    more: Seq<(String, String)>,
    ts: Seq<char>,
)
    requires
        spec_role_row_ok(row, pairs, ts),
        pairs.len() <= more.len(),
        forall|x: int| 0 <= x < pairs.len() ==> pairs[x] == more[x],
    ensures
        spec_role_row_ok(row, more, ts),
{
    let (p, j) = choose|p: int, j: int| spec_role_row_from(row, pairs, ts, p, j);
    assert(more[p] == pairs[p]);
    assert(spec_role_row_from(row, more, ts, p, j));
}

/// The flat enumeration of every element of every parsed blob's
/// `roles` array, each paired with its owning account id, in blob
/// order: exactly the role rows the migration builds, before the
/// insert-if-absent pass by role id.
pub open spec fn spec_expected_roles(pairs: Seq<(String, String)>) -> Seq<(Seq<char>, JsonValue)>
    decreases pairs.len(),
{
    if pairs.len() == 0 {
        Seq::empty()
    } else {
        let prev = spec_expected_roles(pairs.drop_last());
        match spec_json_parse(pairs.last().1@) {
            Some(v) => prev + spec_roles_arr(v).map_values(
                |e: JsonValue| (pairs.last().0@, e),
            ),
            None => prev,
        }
    }
}

/// Whether some row's id cell carries this text.
pub open spec fn spec_rows_have_id0(rows: Seq<Vec<SqlValue>>, id: Seq<char>) -> bool {
    exists|k: int| 0 <= k < rows.len() && (#[trigger] rows[k])@[0]@ == CellVal::Text(id)
}

/// The insert-if-absent pass over built rows, keyed by the id cell:
/// of rows sharing an id only the first survives, in order.
pub open spec fn spec_first_per_id(rows: Seq<Vec<SqlValue>>) -> Seq<Vec<SqlValue>>
    decreases rows.len(),
{
    if rows.len() == 0 {
        Seq::empty()
    } else {
        let prev = spec_first_per_id(rows.drop_last());
        match rows.last()@[0]@ {
            CellVal::Text(id) => if spec_rows_have_id0(prev, id) {
                prev
            } else {
                prev.push(rows.last())
            },
            _ => prev,
        }
    }
}

/// The row is what one `roles`-array element yields for its owner:
/// ten cells, the fields after the id exact, and the id from the
/// element's own id, else its name, else a fresh 36-character one.
pub open spec fn spec_role_built_ok(
    row: Vec<SqlValue>,
    owner: Seq<char>,
    e: JsonValue,
    ts: Seq<char>,
) -> bool {
    &&& row@.len() == 10
    &&& row_cells(row).skip(1) == spec_role_rest_cells(owner, e, ts)
    &&& match spec_role_id_source(e) {
        Some(s) => row@[0]@ == CellVal::Text(s),
        None => row@[0]@ matches CellVal::Text(f) && f.len() == 36,
    }
}

/// The roles table is fully accounted for: there is a built row per
/// element of every parsed blob's `roles` array, each as
/// `spec_role_built_ok` states, and the table holds exactly the
/// first-per-id survivors of that sequence — nothing missing, nothing
/// extra.
pub open spec fn spec_roles_tracked(
    built: Seq<Vec<SqlValue>>,
    pairs: Seq<(String, String)>,
    rows: Seq<Vec<SqlValue>>,
    ts: Seq<char>,
) -> bool {
    &&& built.len() == spec_expected_roles(pairs).len()
    &&& forall|k: int|
        0 <= k < built.len() ==> spec_role_built_ok(
            #[trigger] built[k],
            spec_expected_roles(pairs)[k].0,
            spec_expected_roles(pairs)[k].1,
            ts,
        )
    &&& rows == spec_first_per_id(built)
}

/// When the built rows carry pairwise-distinct ids, the
/// insert-if-absent pass keeps every one of them — so with distinct
/// role ids the migrated table holds exactly one row per element of
/// each parsed blob's `roles` array.
pub proof fn lemma_first_per_id_keeps_distinct(rows: Seq<Vec<SqlValue>>)
    requires
        forall|a: int, b: int|
            0 <= a < b < rows.len() ==> (#[trigger] rows[a])@[0]@ != (#[trigger] rows[b])@[0]@,
        forall|k: int| 0 <= k < rows.len() ==> (#[trigger] rows[k])@[0]@ is Text,
    ensures
        spec_first_per_id(rows) == rows,
    decreases rows.len(),
{
    if rows.len() > 0 {
        let short = rows.drop_last();
        assert(forall|k: int| 0 <= k < short.len() ==> short[k] == rows[k]);
        lemma_first_per_id_keeps_distinct(short);
        let id = rows.last()@[0]@->Text_0;
        if spec_rows_have_id0(short, id) {
            let w = choose|w: int|
                0 <= w < short.len() && (#[trigger] short[w])@[0]@ == CellVal::Text(id);
            assert(rows[w]@[0]@ == rows[rows.len() - 1]@[0]@);
            assert(false);
        }
        assert(spec_first_per_id(rows) =~= rows);
    }
}

/// The legacy blob table this step targets is present: an `accounts`
/// table that still has the free-form `data` column.
pub open spec fn spec_v1_probe(db: Db) -> bool {
    &&& db.has_table("accounts"@)
    &&& db.table("accounts"@).has_col("data"@)
}

/// The `(id, blob)` pairs the step would migrate.
pub open spec fn spec_v1_pairs(db: Db) -> Seq<(String, String)> {
    spec_kv_rows(
        db.table("accounts"@).rows@,
        db.table("accounts"@).col_idx("id"@),
        db.table("accounts"@).col_idx("data"@),
    )
}

/// A name this step must claim is already taken: the audit copy's
/// name, the roles table's name, or a second table named `accounts`.
pub open spec fn spec_v1_conflict(db: Db) -> bool {
    ||| db.has_table("accounts_legacy"@)
    ||| db.has_table("roles"@)
    ||| exists|j: int|
        db.table_idx("accounts"@) < j < db.tables@.len() && (#[trigger] db.tables@[j]).name@
            == "accounts"@
}

/// What a completed first migration leaves behind: the legacy table
/// renamed with its rows intact as the audit trail, a structured
/// accounts table holding exactly the extracted rows, and a roles
/// table whose every row comes from some blob's `roles` array and
/// refers to a stored account.
pub open spec fn spec_v1_done(old_db: Db, new_db: Db, ts: Seq<char>) -> bool {
    let ti = old_db.table_idx("accounts"@);
    let old_t = old_db.table("accounts"@);
    let pairs = spec_v1_pairs(old_db);
    let n = old_db.tables@.len() as int;
    &&& new_db.tables@.len() == n + 2
    &&& forall|x: int| 0 <= x < n && x != ti ==> new_db.tables@[x] == old_db.tables@[x]
    &&& new_db.has_table("accounts_legacy"@)
    &&& new_db.table_idx("accounts_legacy"@) == ti
    &&& new_db.tables@[ti].cols == old_t.cols
    &&& new_db.tables@[ti].rows == old_t.rows
    &&& new_db.has_table("accounts"@)
    &&& new_db.table_idx("accounts"@) == n
    &&& spec_cols_shape(new_db.tables@[n].cols@) == spec_accounts_shape()
    &&& table_cells(new_db.tables@[n]) == spec_migrated_accounts(pairs, ts)
    &&& new_db.has_table("roles"@)
    &&& new_db.table_idx("roles"@) == n + 1
    &&& spec_cols_shape(new_db.tables@[n + 1].cols@) == spec_roles_shape()
    &&& forall|r: int|
        0 <= r < new_db.tables@[n + 1].rows@.len() ==> spec_role_row_ok(
            #[trigger] new_db.tables@[n + 1].rows@[r],
            pairs,
            ts,
        )
    &&& forall|r: int|
        0 <= r < new_db.tables@[n + 1].rows@.len() ==> spec_role_linked(
            #[trigger] new_db.tables@[n + 1].rows@[r],
            table_cells(new_db.tables@[n]),
        )
    &&& exists|built: Seq<Vec<SqlValue>>|
        #[trigger] spec_roles_tracked(built, pairs, new_db.tables@[n + 1].rows@, ts)
}

/// Whether a table from position `from` on carries this name.
fn another_table_named(db: &Db, from: usize, name: &str) -> (r: bool)
    requires
        from <= db.tables@.len(),
    ensures
        r == exists|j: int|
            from <= j < db.tables@.len() && (#[trigger] db.tables@[j]).name@ == name@,
{
    let n = db.tables.len();
    let mut j: usize = from;
    while j < n
        invariant
            from <= j <= n == db.tables@.len(),
            forall|x: int| from <= x < j ==> (#[trigger] db.tables@[x]).name@ != name@,
        decreases n - j,
    {
        if crate::text::str_eq(db.tables[j].name.as_str(), name) {
            return true;
        }
        j = j + 1;
    }
    false
}

/// Runs the first legacy transformation. It is safe to call whether
/// or not anything is left to do: without the legacy shape, or with
/// nothing to convert, the file is returned untouched, and every
/// refusal leaves it exactly as it was. On success the old table
/// survives renamed as the audit trail and the structured tables hold
/// the extracted rows.
pub fn migrate_v1(db: &mut Db, now: &String) -> (r: Result<(), MigrationError>)
    requires
        old(db).wf(),
    ensures
        final(db).wf(),
        final(db).ledger == old(db).ledger,
        ({
            let dbo = *old(db);
            if !spec_v1_probe(dbo) {
                r == Ok::<(), MigrationError>(()) && *final(db) == dbo
            } else if !dbo.table("accounts"@).has_col("id"@) {
                r == Err::<(), MigrationError>(MigrationError::BadLegacySchema) && *final(db) == dbo
            } else if spec_v1_pairs(dbo).len() == 0 {
                r == Ok::<(), MigrationError>(()) && *final(db) == dbo
            } else if spec_v1_conflict(dbo) {
                r == Err::<(), MigrationError>(MigrationError::NameConflict) && *final(db) == dbo
            } else {
                r == Ok::<(), MigrationError>(()) && spec_v1_done(dbo, *final(db), now@)
            }
        }),
{
    let ti = match db.find_table("accounts") {
        Some(i) => i,
        None => {
            return Ok(());
        },
    };
    let dc = match db.tables[ti].find_col("data") {
        Some(c) => c,
        None => {
            return Ok(());
        },
    };
    let ic = match db.tables[ti].find_col("id") {
        Some(c) => c,
        None => {
            return Err(MigrationError::BadLegacySchema);
        },
    };
    let pairs = table_kv_rows(&db.tables[ti], ic, dc);
    if pairs.len() == 0 {
        return Ok(());
    }
    if db.table_exists("accounts_legacy") {
        return Err(MigrationError::NameConflict);
    }
    if db.table_exists("roles") {
        return Err(MigrationError::NameConflict);
    }
    let ntab = db.tables.len();
    if another_table_named(db, ti + 1, "accounts") {
        return Err(MigrationError::NameConflict);
    }
    let ghost dbo = *db;
    let ghost pairs_v = pairs@;
    let mut at = fresh_table("accounts", accounts_cols());
    let mut rt = fresh_table("roles", roles_cols());
    let ghost mut builtg: Seq<Vec<SqlValue>> = Seq::empty();
    let n = pairs.len();
    let mut i: usize = 0;
    proof {
        assert(pairs_v.take(0) =~= Seq::<(String, String)>::empty());
        assert(table_cells(at) =~= Seq::<Seq<CellVal>>::empty());
        assert(spec_expected_roles(pairs_v.take(0)).len() == 0);
        assert(rt.rows@ == spec_first_per_id(builtg));
        assert(spec_cols_shape(at.cols@).len() == at.cols@.len());
        assert(spec_cols_shape(rt.cols@).len() == rt.cols@.len());
        assert(spec_accounts_shape().len() == 9);
        assert(spec_roles_shape().len() == 10);
    }
    while i < n
        invariant
            i <= n == pairs_v.len(),
            pairs@ == pairs_v,
            at.wf(),
            rt.wf(),
            at.name@ == "accounts"@,
            rt.name@ == "roles"@,
            spec_cols_shape(at.cols@) == spec_accounts_shape(),
            spec_cols_shape(rt.cols@) == spec_roles_shape(),
            at.cols@.len() == 9,
            rt.cols@.len() == 10,
            table_cells(at) == spec_migrated_accounts(pairs_v.take(i as int), now@),
            forall|r: int|
                0 <= r < rt.rows@.len() ==> spec_role_row_ok(
                    #[trigger] rt.rows@[r],
                    pairs_v.take(i as int),
                    now@,
                ),
            forall|r: int|
                0 <= r < rt.rows@.len() ==> spec_role_linked(
                    #[trigger] rt.rows@[r],
                    table_cells(at),
                ),
            builtg.len() == spec_expected_roles(pairs_v.take(i as int)).len(),
            forall|k: int|
                0 <= k < builtg.len() ==> spec_role_built_ok(
                    #[trigger] builtg[k],
                    spec_expected_roles(pairs_v.take(i as int))[k].0,
                    spec_expected_roles(pairs_v.take(i as int))[k].1,
                    now@,
                ),
            rt.rows@ == spec_first_per_id(builtg),
        decreases n - i,
    {
        proof {
            assert(pairs_v.take(i + 1).drop_last() =~= pairs_v.take(i as int));
            assert(pairs_v.take(i + 1).last() == pairs_v[i as int]);
            assert(forall|x: int| 0 <= x < i ==> pairs_v.take(i as int)[x] == pairs_v.take(i + 1)[x]);
        }
        let ghost at0 = at;
        let id = pairs[i].0.clone();
        match json_parse(pairs[i].1.as_str()) {
            None => {
                proof {
                    assert(table_cells(at) == spec_migrated_accounts(pairs_v.take(i + 1), now@));
                    assert(spec_expected_roles(pairs_v.take(i + 1)) == spec_expected_roles(
                        pairs_v.take(i as int),
                    ));
                    assert forall|r: int| 0 <= r < rt.rows@.len() implies spec_role_row_ok(
                        #[trigger] rt.rows@[r],
                        pairs_v.take(i + 1),
                        now@,
                    ) by {
                        lemma_role_ok_extend(
                            rt.rows@[r],
                            pairs_v.take(i as int),
                            pairs_v.take(i + 1),
                            now@,
                        );
                    }
                }
            },
            Some(v) => {
                let mut have = false;
                match at.find_row_text(0, &id) {
                    Some(fr) => {
                        have = true;
                        proof {
                            assert(table_cells(at)[fr as int] == row_cells(at.rows@[fr as int]));
                            assert(row_cells(at.rows@[fr as int])[0] == at.rows@[fr as int]@[0]@);
                            assert(spec_rows_have_id(table_cells(at), id@));
                        }
                    },
                    None => {
                        proof {
                            assert forall|r: int|
                                0 <= r < table_cells(at).len() implies (#[trigger] table_cells(
                                at,
                            )[r])[0] != CellVal::Text(id@) by {
                                assert(table_cells(at)[r] == row_cells(at.rows@[r]));
                                assert(row_cells(at.rows@[r])[0] == at.rows@[r]@[0]@);
                            }
                            assert(!spec_rows_have_id(table_cells(at), id@));
                        }
                    },
                }
                if !have {
                    let row = account_row(&id, &v, now);
                    at.push_row(row);
                    proof {
                        assert(table_cells(at) =~= table_cells(at0).push(
                            spec_account_cells(id@, v, now@),
                        ));
                        assert(table_cells(at) == spec_migrated_accounts(
                            pairs_v.take(i + 1),
                            now@,
                        ));
                        assert(table_cells(at)[table_cells(at).len() - 1][0] == CellVal::Text(
                            id@,
                        ));
                        assert(spec_rows_have_id(table_cells(at), id@));
                    }
                } else {
                    proof {
                        assert(table_cells(at) == spec_migrated_accounts(
                            pairs_v.take(i + 1),
                            now@,
                        ));
                    }
                }
                proof {
                    assert forall|r: int| 0 <= r < rt.rows@.len() implies spec_role_row_ok(
                        #[trigger] rt.rows@[r],
                        pairs_v.take(i + 1),
                        now@,
                    ) by {
                        lemma_role_ok_extend(
                            rt.rows@[r],
                            pairs_v.take(i as int),
                            pairs_v.take(i + 1),
                            now@,
                        );
                    }
                    assert forall|r: int| 0 <= r < rt.rows@.len() implies spec_role_linked(
                        #[trigger] rt.rows@[r],
                        table_cells(at),
                    ) by {
                        lemma_linked_extend(rt.rows@[r], table_cells(at0), table_cells(at));
                    }
                }
                let mut rrows = legacy_roles_rows(&id, &v, now);
                let ghost rrows0 = rrows@;
                let rrows_n = rrows.len();
                let ghost arr = spec_roles_arr(v);
                let ghost exp0 = spec_expected_roles(pairs_v.take(i as int));
                let ghost prior_built = builtg;
                proof {
                    assert(rrows0.len() == rrows_n);
                    assert(spec_expected_roles(pairs_v.take(i + 1)) == exp0 + arr.map_values(
                        |e: JsonValue| (pairs_v[i as int].0@, e),
                    ));
                }
                let mut consumed: usize = 0;
                while rrows.len() > 0
                    invariant
                        consumed + rrows@.len() == rrows0.len(),
                        rrows0.len() <= usize::MAX,
                        forall|x: int|
                            0 <= x < rrows@.len() ==> (#[trigger] rrows@[x]) == rrows0[consumed
                                + x],
                        i < pairs_v.len(),
                        id@ == pairs_v[i as int].0@,
                        v == spec_json_parse(pairs_v[i as int].1@)->0,
                        spec_json_parse(pairs_v[i as int].1@) is Some,
                        arr == spec_roles_arr(v),
                        rrows0.len() == arr.len(),
                        forall|j: int|
                            0 <= j < rrows0.len() ==> spec_role_built_ok(
                                #[trigger] rrows0[j],
                                id@,
                                arr[j],
                                now@,
                            ),
                        exp0 == spec_expected_roles(pairs_v.take(i as int)),
                        spec_expected_roles(pairs_v.take(i + 1)) == exp0 + arr.map_values(
                            |e: JsonValue| (pairs_v[i as int].0@, e),
                        ),
                        prior_built.len() == exp0.len(),
                        builtg == prior_built + rrows0.take(consumed as int),
                        forall|k: int|
                            0 <= k < builtg.len() ==> spec_role_built_ok(
                                #[trigger] builtg[k],
                                spec_expected_roles(pairs_v.take(i + 1))[k].0,
                                spec_expected_roles(pairs_v.take(i + 1))[k].1,
                                now@,
                            ),
                        rt.rows@ == spec_first_per_id(builtg),
                        rt.wf(),
                        rt.name@ == "roles"@,
                        spec_cols_shape(rt.cols@) == spec_roles_shape(),
                        rt.cols@.len() == 10,
                        spec_rows_have_id(table_cells(at), id@),
                        forall|r: int|
                            0 <= r < rt.rows@.len() ==> spec_role_row_ok(
                                #[trigger] rt.rows@[r],
                                pairs_v.take(i + 1),
                                now@,
                            ),
                        forall|r: int|
                            0 <= r < rt.rows@.len() ==> spec_role_linked(
                                #[trigger] rt.rows@[r],
                                table_cells(at),
                            ),
                    decreases rrows@.len(),
                {
                    let row = rrows.remove(0);
                    let ghost rowg = row;
                    let ghost b0 = builtg;
                    proof {
                        assert(row == rrows0[consumed as int]);
                        assert(forall|x: int|
                            0 <= x < rrows@.len() ==> (#[trigger] rrows@[x]) == rrows0[consumed + 1
                                + x]);
                        assert(spec_role_built_ok(rowg, id@, arr[consumed as int], now@));
                    }
                    let mut dup = false;
                    match &row[0] {
                        SqlValue::Text(s) => {
                            match rt.find_row_text(0, s) {
                                Some(_) => {
                                    dup = true;
                                    proof {
                                        assert(rowg@[0]@ == CellVal::Text(s@));
                                        assert(spec_rows_have_id0(rt.rows@, s@));
                                    }
                                },
                                None => {
                                    proof {
                                        assert(rowg@[0]@ == CellVal::Text(s@));
                                        assert(!spec_rows_have_id0(rt.rows@, s@));
                                    }
                                },
                            }
                        },
                        _ => {
                            proof {
                                assert(false);
                            }
                            dup = true;
                        },
                    }
                    if !dup {
                        rt.push_row(row);
                        proof {
                            assert(row_cells(rowg).skip(1)[0] == row_cells(rowg)[1]);
                            assert(row_cells(rowg)[1] == rowg@[1]@);
                            assert(rowg@[1]@ == CellVal::Text(id@));
                            assert(pairs_v.take(i + 1)[i as int] == pairs_v[i as int]);
                            assert(spec_role_row_from(
                                rowg,
                                pairs_v.take(i + 1),
                                now@,
                                i as int,
                                consumed as int,
                            ));
                            assert(spec_role_row_ok(rowg, pairs_v.take(i + 1), now@));
                            assert(spec_role_linked(rowg, table_cells(at)));
                        }
                    }
                    proof {
                        builtg = b0.push(rowg);
                        assert(builtg.drop_last() =~= b0);
                        assert(builtg.last() == rowg);
                        assert(rrows0.take(consumed + 1).drop_last() =~= rrows0.take(
                            consumed as int,
                        ));
                        assert(builtg =~= prior_built + rrows0.take(consumed + 1));
                        assert(rt.rows@ == spec_first_per_id(builtg));
                        let expn = spec_expected_roles(pairs_v.take(i + 1));
                        assert forall|k: int| 0 <= k < builtg.len() implies spec_role_built_ok(
                            #[trigger] builtg[k],
                            expn[k].0,
                            expn[k].1,
                            now@,
                        ) by {
                            if k < b0.len() {
                                assert(builtg[k] == b0[k]);
                            } else {
                                assert(builtg[k] == rowg);
                                assert(expn[k] == arr.map_values(
                                    |e: JsonValue| (pairs_v[i as int].0@, e),
                                )[k - exp0.len()]);
                                assert(expn[k].0 == pairs_v[i as int].0@);
                                assert(expn[k].1 == arr[consumed as int]);
                            }
                        }
                    }
                    consumed = consumed + 1;
                }
                proof {
                    assert(rrows0.take(consumed as int) =~= rrows0);
                }
            },
        }
        i = i + 1;
    }
    proof {
        assert(pairs_v.take(n as int) =~= pairs_v);
    }
    let mut legacy = db.take_table(ti);
    legacy.name = String::from_str("accounts_legacy");
    db.put_table(ti, legacy);
    db.create_table(at);
    db.create_table(rt);
    proof {
        let nt = dbo.tables@.len() as int;
        assert(db.tables@.len() == nt + 2);
        assert(forall|x: int| 0 <= x < nt && x != ti ==> db.tables@[x] == dbo.tables@[x]);
        reveal_strlit("accounts");
        reveal_strlit("accounts_legacy");
        reveal_strlit("roles");
        assert("accounts"@.len() == 8);
        assert("accounts_legacy"@.len() == 15);
        assert("roles"@.len() == 5);
        crate::table::lemma_find_table_range(dbo.tables@, "accounts"@);
        crate::table::lemma_find_table_range(dbo.tables@, "accounts_legacy"@);
        crate::table::lemma_find_table_range(dbo.tables@, "roles"@);
        assert forall|j: int| 0 <= j < ti implies (#[trigger] db.tables@[j]).name@
            != "accounts_legacy"@ by {
            assert(db.tables@[j] == dbo.tables@[j]);
        }
        crate::table::lemma_find_table_at(db.tables@, ti as int, "accounts_legacy"@);
        assert forall|j: int| 0 <= j < nt implies (#[trigger] db.tables@[j]).name@
            != "accounts"@ by {
            if j < ti {
            } else if j == ti {
            } else {
                assert(db.tables@[j] == dbo.tables@[j]);
            }
        }
        crate::table::lemma_find_table_at(db.tables@, nt, "accounts"@);
        assert forall|j: int| 0 <= j < nt + 1 implies (#[trigger] db.tables@[j]).name@
            != "roles"@ by {
            if j < nt && j != ti {
                assert(db.tables@[j] == dbo.tables@[j]);
            }
        }
        crate::table::lemma_find_table_at(db.tables@, nt + 1, "roles"@);
        assert(ntab == dbo.tables@.len());
        assert(dbo.table_idx("accounts"@) == ti as int);
        assert(dbo.table("accounts"@) == dbo.tables@[ti as int]);
        assert(dbo.table("accounts"@).col_idx("id"@) == ic as int);
        assert(dbo.table("accounts"@).col_idx("data"@) == dc as int);
        assert(spec_v1_pairs(dbo) == pairs_v);
        assert(db.tables@[nt] == at);
        assert(db.tables@[nt + 1] == rt);
        assert(table_cells(db.tables@[nt]) == spec_migrated_accounts(spec_v1_pairs(dbo), now@));
        assert(db.tables@[ti as int].cols == dbo.table("accounts"@).cols);
        assert(db.tables@[ti as int].rows == dbo.table("accounts"@).rows);
        assert forall|r: int| 0 <= r < db.tables@[nt + 1].rows@.len() implies spec_role_linked(
            #[trigger] db.tables@[nt + 1].rows@[r],
            table_cells(db.tables@[nt]),
        ) by {
            assert(db.tables@[nt + 1].rows@[r] == rt.rows@[r]);
        }
        assert forall|r: int| 0 <= r < db.tables@[nt + 1].rows@.len() implies spec_role_row_ok(
            #[trigger] db.tables@[nt + 1].rows@[r],
            spec_v1_pairs(dbo),
            now@,
        ) by {
            assert(db.tables@[nt + 1].rows@[r] == rt.rows@[r]);
        }
        assert(spec_roles_tracked(builtg, spec_v1_pairs(dbo), db.tables@[nt + 1].rows@, now@));
        assert(spec_v1_done(dbo, *db, now@));
    }
    Ok(())
}

} // verus!
