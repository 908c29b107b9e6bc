//! The migration step executor and the initialization sequence: the
//! ordered application of the per-version transformations from the
//! file's current version up to the latest one, recording each step
//! in the ledger only after it has been applied, so that an aborted
//! run resumes exactly where it stopped.

use vstd::prelude::*;

use crate::accounts::migrate_v1;
use crate::ledger::get_current_version;
use crate::ledger::now_rfc3339;
use crate::ledger::record_version;
use crate::ledger::spec_current_version;
use crate::schema::baizhan_records_cols;
use crate::schema::create_latest_schema;
use crate::schema::favorite_raids_cols;
use crate::schema::fresh_table;
use crate::schema::instance_types_cols;
use crate::schema::raid_bosses_cols;
use crate::schema::raid_versions_cols;
use crate::schema::raids_cols;
use crate::schema::role_instance_visibility_cols;
use crate::schema::spec_baizhan_records_shape;
use crate::schema::spec_cols_shape;
use crate::schema::spec_favorite_raids_shape;
use crate::schema::spec_instance_types_shape;
use crate::schema::spec_latest_schema;
use crate::schema::spec_raid_bosses_shape;
use crate::schema::spec_raid_versions_shape;
use crate::schema::spec_raids_shape;
use crate::schema::spec_role_instance_visibility_shape;
use crate::schema::spec_shaped_table;
use crate::schema::spec_trial_records_shape;
use crate::schema::trial_records_cols;
use crate::seed::seed;
use crate::seed::spec_added_bosses_derived;
use crate::seed::spec_table_has_int;
use crate::seed::spec_added_raids_derived;
use crate::seed::spec_added_versions_derived;
use crate::seed::spec_seed_complete;
use crate::seed::spec_seed_schema_ok;
use crate::seed::spec_seed_preserved;
use crate::seed::lemma_has_text_push;
use crate::seed::spec_table_has_text;
use crate::seed::static_raids;
use crate::seed::SeedRaid;
use crate::swap::spec_swap_cell;
use crate::swap::swap_table;
use crate::table::spec_find_col;
use crate::table::spec_tables_kept;
use crate::table::CellVal;
use crate::table::Column;
use crate::table::Db;
use crate::table::SqlValue;
use crate::table::Table;
use crate::text::spec_dec_u64;
use crate::text::u64_to_string;
use crate::LATEST_SCHEMA_VERSION;
use crate::MigrationError;

verus! {

/// The ledger description of an upgrade step.
fn version_description(v: i64) -> (d: String)
    requires
        1 <= v,
    ensures
        d@ == "升级到 V"@ + spec_dec_u64(v as u64),
{
    let mut d = String::from_str("升级到 V");
    d.append(u64_to_string(v as u64).as_str());
    d
}

/// A table of this shape and name survived into `b` from `a`.
proof fn lemma_shaped_preserved(
    a: Db,
    b: Db,
    name: Seq<char>,
    shape: Seq<(Seq<char>, crate::table::ColType)>,
)
    requires
        spec_shaped_table(a, name, shape),
        spec_seed_preserved(a, b),
    ensures
        spec_shaped_table(b, name, shape),
{
    let i = choose|i: int|
        0 <= i < a.tables@.len() && (#[trigger] a.tables@[i]).name@ == name && spec_cols_shape(
            a.tables@[i].cols@,
        ) == shape;
    assert(b.tables@[i].name@ == name && spec_cols_shape(b.tables@[i].cols@) == shape);
}

/// Whether the earliest legacy shape is still present, so that a
/// migration pass is still owed.
pub fn is_migration_needed(db: &Db) -> (r: bool)
    ensures
        r == crate::accounts::spec_v1_probe(*db),
{
    match db.find_table("accounts") {
        Some(ti) => match db.tables[ti].find_col("data") {
            Some(_) => true,
            None => false,
        },
        None => false,
    }
}

/// The second transformation: the raid tables move from the free-form
/// blob format to the structured raids, raid_bosses and raid_versions
/// tables. An old blob table is kept renamed as the audit trail; the
/// structured tables are then rebuilt from the static dataset (the
/// old raid rows are deliberately discarded in favour of the shipped
/// data). It refuses — touching nothing — exactly when the blob table
/// is present but its backup name is already taken.
pub open spec fn spec_v2_touched() -> Seq<Seq<char>> {
    seq!["raids"@, "raid_bosses"@, "raid_versions"@, "raids_legacy"@]
}

/// Only the second step's name conflict can refuse it: the raid blob
/// table is present but its backup name is already taken.
pub open spec fn spec_v2_conflict(db: Db) -> bool {
    &&& db.has_table("raids"@)
    &&& db.table("raids"@).has_col("data"@)
    &&& db.has_table("raids_legacy"@)
}

pub fn migrate_v2(db: &mut Db, dataset: &Vec<SeedRaid>) -> (r: Result<u128, MigrationError>)
    requires
        old(db).wf(),
    ensures
        final(db).wf(),
        final(db).ledger == old(db).ledger,
        r is Err <==> spec_v2_conflict(*old(db)),
        match r {
            Ok(n) => {
                &&& spec_seed_complete(*final(db), dataset@)
                &&& !spec_v2_conflict(*final(db))
                &&& spec_shaped_table(*final(db), "raids"@, spec_raids_shape())
                &&& spec_shaped_table(*final(db), "raid_bosses"@, spec_raid_bosses_shape())
                &&& spec_shaped_table(*final(db), "raid_versions"@, spec_raid_versions_shape())
                &&& spec_tables_kept(*old(db), *final(db), spec_v2_touched())
                &&& (old(db).has_table("raids"@) && old(db).table("raids"@).has_col("data"@)
                    ==> exists|i: int|
                    0 <= i < final(db).tables@.len() && (#[trigger] final(db).tables@[i]).name@
                        == "raids_legacy"@ && final(db).tables@[i].cols == old(db).table(
                        "raids"@,
                    ).cols && final(db).tables@[i].rows == old(db).table("raids"@).rows)
                &&& (!(old(db).has_table("raids"@) && old(db).table("raids"@).has_col("data"@))
                    && old(db).has_table("raids_legacy"@) ==> final(db).tables@.contains(
                    old(db).table("raids_legacy"@),
                ))
                &&& spec_added_raids_derived(
                    final(db).table("raids"@),
                    final(db).table("raids"@),
                    0,
                    dataset@,
                )
                &&& spec_added_bosses_derived(
                    final(db).table("raid_bosses"@),
                    final(db).table("raid_bosses"@),
                    0,
                    dataset@,
                )
                &&& spec_added_versions_derived(
                    final(db).table("raid_versions"@),
                    final(db).table("raid_versions"@),
                    0,
                    dataset@,
                )
            },
            Err(e) => e == MigrationError::NameConflict && *final(db) == *old(db),
        },
{
    let ghost dbo = *db;
    proof {
        reveal_strlit("raids");
        reveal_strlit("raid_bosses");
        reveal_strlit("raid_versions");
        reveal_strlit("raids_legacy");
        assert("raids"@.len() == 5);
        assert("raid_bosses"@.len() == 11);
        assert("raid_versions"@.len() == 13);
        assert("raids_legacy"@.len() == 12);
    }
    match db.find_table("raids") {
        Some(ri) => {
            match db.tables[ri].find_col("data") {
                Some(_) => {
                    if db.table_exists("raids_legacy") {
                        return Err(MigrationError::NameConflict);
                    }
                    let mut legacy = db.take_table(ri);
                    legacy.name = String::from_str("raids_legacy");
                    db.put_table(ri, legacy);
                    proof {
                        assert(db.tables@[ri as int].name@ == "raids_legacy"@);
                        assert(db.tables@[ri as int].cols == dbo.table("raids"@).cols);
                        assert(db.tables@[ri as int].rows == dbo.table("raids"@).rows);
                        assert(db.tables@.contains(db.tables@[ri as int]));
                    }
                },
                None => {
                },
            }
        },
        None => {
        },
    }
    let ghost s_ren = *db;
    let ghost has_legacy_copy = dbo.has_table("raids"@) && dbo.table("raids"@).has_col("data"@);
    let ghost lt = if has_legacy_copy {
        db.tables@[dbo.table_idx("raids"@)]
    } else {
        db.tables@[0]
    };
    proof {
        if has_legacy_copy {
            assert(lt.name@ == "raids_legacy"@);
            assert(lt.cols == dbo.table("raids"@).cols);
            assert(lt.rows == dbo.table("raids"@).rows);
            assert(db.tables@.contains(lt));
        }
    }
    drop_all_named(db, "raids");
    let ghost s1 = *db;
    drop_all_named(db, "raid_bosses");
    let ghost s2 = *db;
    drop_all_named(db, "raid_versions");
    proof {
        if has_legacy_copy {
            assert(db.tables@.contains(lt));
        }
        assert(!db.has_table("raids"@)) by {
            if db.has_table("raids"@) {
                crate::table::lemma_find_table_range(db.tables@, "raids"@);
                let k = db.table_idx("raids"@);
                assert(db.tables@.contains(db.tables@[k]));
                assert(s2.tables@.contains(db.tables@[k]));
                assert(s1.tables@.contains(db.tables@[k]));
                let w = choose|w: int| 0 <= w < s1.tables@.len() && s1.tables@[w] == db.tables@[k];
                assert(s1.tables@[w].name@ == "raids"@);
                crate::table::lemma_named_table_found(s1.tables@, "raids"@);
                assert(false);
            }
        }
        assert(!db.has_table("raid_bosses"@)) by {
            if db.has_table("raid_bosses"@) {
                crate::table::lemma_find_table_range(db.tables@, "raid_bosses"@);
                let k = db.table_idx("raid_bosses"@);
                assert(db.tables@.contains(db.tables@[k]));
                assert(s2.tables@.contains(db.tables@[k]));
                let w = choose|w: int| 0 <= w < s2.tables@.len() && s2.tables@[w] == db.tables@[k];
                assert(s2.tables@[w].name@ == "raid_bosses"@);
                crate::table::lemma_named_table_found(s2.tables@, "raid_bosses"@);
                assert(false);
            }
        }
    }
    let ghost mid = *db;
    db.create_table(fresh_table("raids", raids_cols()));
    db.create_table(fresh_table("raid_bosses", raid_bosses_cols()));
    db.create_table(fresh_table("raid_versions", raid_versions_cols()));
    proof {
        if has_legacy_copy {
            let w = choose|w: int| 0 <= w < mid.tables@.len() && mid.tables@[w] == lt;
            assert(db.tables@[w] == lt);
            assert(db.tables@.contains(lt));
        }
    }
    let ghost pre_seed = *db;
    proof {
        let n3 = pre_seed.tables@.len() as int;
        assert(pre_seed.tables@[n3 - 3].name@ == "raids"@);
        assert(pre_seed.tables@[n3 - 2].name@ == "raid_bosses"@);
        assert(pre_seed.tables@[n3 - 1].name@ == "raid_versions"@);
        crate::table::lemma_find_table_range(mid.tables@, "raids"@);
        crate::table::lemma_find_table_range(mid.tables@, "raid_bosses"@);
        crate::table::lemma_find_table_range(mid.tables@, "raid_versions"@);
        assert(!mid.has_table("raids"@));
        assert(!mid.has_table("raid_bosses"@));
        assert(!mid.has_table("raid_versions"@));
        assert forall|j: int| 0 <= j < n3 - 3 implies (#[trigger] pre_seed.tables@[j]).name@
            != "raids"@ by {
            assert(pre_seed.tables@[j] == mid.tables@[j]);
        }
        crate::table::lemma_find_table_at(pre_seed.tables@, n3 - 3, "raids"@);
        assert forall|j: int| 0 <= j < n3 - 2 implies (#[trigger] pre_seed.tables@[j]).name@
            != "raid_bosses"@ by {
            if j < n3 - 3 {
                assert(pre_seed.tables@[j] == mid.tables@[j]);
            }
        }
        crate::table::lemma_find_table_at(pre_seed.tables@, n3 - 2, "raid_bosses"@);
        assert forall|j: int| 0 <= j < n3 - 1 implies (#[trigger] pre_seed.tables@[j]).name@
            != "raid_versions"@ by {
            if j < n3 - 3 {
                assert(pre_seed.tables@[j] == mid.tables@[j]);
            }
        }
        crate::table::lemma_find_table_at(pre_seed.tables@, n3 - 1, "raid_versions"@);
        let rc = pre_seed.tables@[n3 - 3].cols@;
        assert(spec_cols_shape(rc).len() == rc.len());
        assert(rc[0].name@ == "id"@ && rc[1].name@ == "name"@ && rc[2].name@ == "difficulty"@
            && rc[3].name@ == "player_count"@ && rc[4].name@ == "version"@ && rc[5].name@
            == "notes"@ && rc[6].name@ == "is_active"@ && rc[7].name@ == "is_static"@);
        crate::table::lemma_named_col_found(rc, "id"@);
        crate::table::lemma_named_col_found(rc, "name"@);
        crate::table::lemma_named_col_found(rc, "difficulty"@);
        crate::table::lemma_named_col_found(rc, "player_count"@);
        crate::table::lemma_named_col_found(rc, "version"@);
        crate::table::lemma_named_col_found(rc, "notes"@);
        crate::table::lemma_named_col_found(rc, "is_active"@);
        crate::table::lemma_named_col_found(rc, "is_static"@);
        let bc = pre_seed.tables@[n3 - 2].cols@;
        assert(spec_cols_shape(bc).len() == bc.len());
        assert(bc[0].name@ == "id"@ && bc[1].name@ == "raid_name"@ && bc[2].name@ == "name"@
            && bc[3].name@ == "boss_order"@);
        crate::table::lemma_named_col_found(bc, "id"@);
        crate::table::lemma_named_col_found(bc, "raid_name"@);
        crate::table::lemma_named_col_found(bc, "name"@);
        crate::table::lemma_named_col_found(bc, "boss_order"@);
        let vc = pre_seed.tables@[n3 - 1].cols@;
        assert(spec_cols_shape(vc).len() == vc.len());
        assert(vc[0].name@ == "id"@ && vc[1].name@ == "name"@);
        crate::table::lemma_named_col_found(vc, "id"@);
        crate::table::lemma_named_col_found(vc, "name"@);
        assert(spec_seed_schema_ok(pre_seed));
    }
    let n = match seed(db, dataset) {
        Ok(n) => n,
        Err(e) => {
            proof {
                assert(false);
            }
            return Err(e);
        },
    };
    proof {
        let n3 = pre_seed.tables@.len() as int;
        assert(spec_shaped_table(pre_seed, "raids"@, spec_raids_shape()));
        assert(spec_shaped_table(pre_seed, "raid_bosses"@, spec_raid_bosses_shape()));
        assert(spec_shaped_table(pre_seed, "raid_versions"@, spec_raid_versions_shape()));
        lemma_shaped_preserved(pre_seed, *db, "raids"@, spec_raids_shape());
        lemma_shaped_preserved(pre_seed, *db, "raid_bosses"@, spec_raid_bosses_shape());
        lemma_shaped_preserved(pre_seed, *db, "raid_versions"@, spec_raid_versions_shape());
        if has_legacy_copy {
            let w = choose|w: int| 0 <= w < pre_seed.tables@.len() && pre_seed.tables@[w] == lt;
            assert(pre_seed.tables@[pre_seed.table_idx("raids"@)].name@ == "raids"@);
            assert(pre_seed.tables@[pre_seed.table_idx("raid_bosses"@)].name@ == "raid_bosses"@);
            assert(pre_seed.tables@[pre_seed.table_idx("raid_versions"@)].name@
                == "raid_versions"@);
            assert(w != pre_seed.table_idx("raids"@));
            assert(w != pre_seed.table_idx("raid_bosses"@));
            assert(w != pre_seed.table_idx("raid_versions"@));
            assert(db.tables@[w] == lt);
        }
        let touched = spec_v2_touched();
        assert(touched[0] == "raids"@ && touched[1] == "raid_bosses"@ && touched[2]
            == "raid_versions"@ && touched[3] == "raids_legacy"@);
        assert forall|x: int|
            0 <= x < dbo.tables@.len() && !touched.contains(
                (#[trigger] dbo.tables@[x]).name@,
            ) implies db.tables@.contains(dbo.tables@[x]) by {
            let t = dbo.tables@[x];
            assert(t.name@ != "raids"@ && t.name@ != "raid_bosses"@ && t.name@
                != "raid_versions"@ && t.name@ != "raids_legacy"@);
            assert(s_ren.tables@.contains(t)) by {
                if has_legacy_copy {
                    assert(x != dbo.table_idx("raids"@));
                    assert(s_ren.tables@[x] == t);
                } else {
                    assert(s_ren.tables@[x] == t);
                }
            }
            assert(s1.tables@.contains(t));
            assert(s2.tables@.contains(t));
            assert(mid.tables@.contains(t));
            let w = choose|w: int| 0 <= w < mid.tables@.len() && mid.tables@[w] == t;
            assert(pre_seed.tables@[w] == t);
            let n3 = pre_seed.tables@.len() as int;
            assert(pre_seed.tables@[pre_seed.table_idx("raids"@)].name@ == "raids"@);
            assert(pre_seed.tables@[pre_seed.table_idx("raid_bosses"@)].name@ == "raid_bosses"@);
            assert(pre_seed.tables@[pre_seed.table_idx("raid_versions"@)].name@
                == "raid_versions"@);
            assert(w != pre_seed.table_idx("raids"@));
            assert(w != pre_seed.table_idx("raid_bosses"@));
            assert(w != pre_seed.table_idx("raid_versions"@));
            assert(db.tables@[w] == t);
        }
        assert(spec_tables_kept(dbo, *db, touched));
        let n3b = pre_seed.tables@.len() as int;
        assert(pre_seed.table_idx("raids"@) == n3b - 3);
        assert(pre_seed.table_idx("raid_bosses"@) == n3b - 2);
        assert(pre_seed.table_idx("raid_versions"@) == n3b - 1);
        assert(pre_seed.table("raids"@).rows@.len() == 0);
        assert(pre_seed.table("raid_bosses"@).rows@.len() == 0);
        assert(pre_seed.table("raid_versions"@).rows@.len() == 0);
        crate::table::lemma_find_table_names(db.tables@, pre_seed.tables@, "raids"@);
        crate::table::lemma_find_table_names(db.tables@, pre_seed.tables@, "raid_bosses"@);
        crate::table::lemma_find_table_names(db.tables@, pre_seed.tables@, "raid_versions"@);
        assert(db.table("raids"@).cols == pre_seed.table("raids"@).cols);
        assert(db.table("raid_bosses"@).cols == pre_seed.table("raid_bosses"@).cols);
        assert(db.table("raid_versions"@).cols == pre_seed.table("raid_versions"@).cols);
        crate::seed::lemma_raids_derived_cols(
            db.table("raids"@),
            pre_seed.table("raids"@),
            db.table("raids"@),
            0,
            dataset@,
        );
        crate::seed::lemma_bosses_derived_cols(
            db.table("raid_bosses"@),
            pre_seed.table("raid_bosses"@),
            db.table("raid_bosses"@),
            0,
            dataset@,
        );
        crate::seed::lemma_versions_derived_cols(
            db.table("raid_versions"@),
            pre_seed.table("raid_versions"@),
            db.table("raid_versions"@),
            0,
            dataset@,
        );
        assert(!spec_v2_conflict(*db)) by {
            if db.has_table("raids"@) && db.table("raids"@).has_col("data"@) {
                reveal_strlit("data");
                reveal_strlit("id");
                reveal_strlit("name");
                reveal_strlit("difficulty");
                reveal_strlit("player_count");
                reveal_strlit("version");
                reveal_strlit("notes");
                reveal_strlit("is_active");
                reveal_strlit("is_static");
                assert("data"@.len() == 4);
                assert("id"@.len() == 2);
                assert("name"@.len() == 4);
                assert("difficulty"@.len() == 10);
                assert("player_count"@.len() == 12);
                assert("version"@.len() == 7);
                assert("notes"@.len() == 5);
                assert("is_active"@.len() == 9);
                assert("is_static"@.len() == 9);
                assert("data"@[0] == 'd');
                assert("name"@[0] == 'n');
                let dc = db.table("raids"@).cols@;
                assert(dc == pre_seed.table("raids"@).cols@);
                assert(dc.len() == 8);
                crate::table::lemma_find_col_range(dc, "data"@);
                let k = db.table("raids"@).col_idx("data"@);
                assert(dc[k].name@ == "data"@);
                assert(false);
            }
        }
        if !(dbo.has_table("raids"@) && dbo.table("raids"@).has_col("data"@)) && dbo.has_table(
            "raids_legacy"@,
        ) {
            let tl = dbo.table("raids_legacy"@);
            crate::table::lemma_find_table_range(dbo.tables@, "raids_legacy"@);
            let xl = dbo.table_idx("raids_legacy"@);
            assert(dbo.tables@.contains(tl));
            assert(tl.name@ == "raids_legacy"@);
            assert(s_ren.tables@[xl] == tl);
            assert(s_ren.tables@.contains(tl));
            assert(s1.tables@.contains(tl));
            assert(s2.tables@.contains(tl));
            assert(mid.tables@.contains(tl));
            let w = choose|w: int| 0 <= w < mid.tables@.len() && mid.tables@[w] == tl;
            assert(pre_seed.tables@[w] == tl);
            assert(w != pre_seed.table_idx("raids"@));
            assert(w != pre_seed.table_idx("raid_bosses"@));
            assert(w != pre_seed.table_idx("raid_versions"@));
            assert(db.tables@[w] == tl);
            assert(db.tables@.contains(tl));
        }
    }
    Ok(n)
}

/// Drops every table carrying this name.
fn drop_all_named(db: &mut Db, name: &str)
    requires
        old(db).wf(),
    ensures
        final(db).wf(),
        final(db).ledger == old(db).ledger,
        !final(db).has_table(name@),
        forall|t: Table|
            #![trigger final(db).tables@.contains(t)]
            final(db).tables@.contains(t) ==> old(db).tables@.contains(t),
        forall|t: Table|
            #![trigger old(db).tables@.contains(t)]
            old(db).tables@.contains(t) && t.name@ != name@ ==> final(db).tables@.contains(t),
    decreases old(db).tables@.len(),
{
    match db.find_table(name) {
        Some(i) => {
            let ghost before = db.tables@;
            db.drop_table(i);
            proof {
                assert forall|t: Table| db.tables@.contains(t) implies before.contains(t) by {
                    let w = choose|w: int| 0 <= w < db.tables@.len() && db.tables@[w] == t;
                    if w < i {
                        assert(before[w] == t);
                    } else {
                        assert(before[w + 1] == t);
                    }
                }
                assert forall|t: Table|
                    before.contains(t) && t.name@ != name@ implies db.tables@.contains(t) by {
                    let w = choose|w: int| 0 <= w < before.len() && before[w] == t;
                    if w < i {
                        assert(db.tables@[w] == t);
                    } else {
                        assert(w != i);
                        assert(db.tables@[w - 1] == t);
                    }
                }
            }
            drop_all_named(db, name);
        },
        None => {
        },
    }
}

/// What the copy phase of a shadow-table swap leaves, stated over the
/// target shape and per-column default cells.
pub open spec fn spec_swapped_shape(
    told: Table,
    tnew: Table,
    shape: Seq<(Seq<char>, crate::table::ColType)>,
    dvs: Seq<CellVal>,
) -> bool {
    &&& tnew.name == told.name
    &&& spec_cols_shape(tnew.cols@) == shape
    &&& tnew.rows@.len() == told.rows@.len()
    &&& forall|r: int, c: int|
        #![trigger tnew.rows@[r]@[c]]
        0 <= r < told.rows@.len() && 0 <= c < shape.len() ==> tnew.rows@[r]@[c]@ == spec_swap_cell(
            told.rows@[r],
            spec_find_col(told.cols@, shape[c].0),
            shape[c].1,
            dvs[c],
        )
}

/// The defaults the third transformation fills into the reshaped
/// trial records: empty text for the added role fields, the `trial`
/// record type, null elsewhere.
pub open spec fn spec_trial_defaults() -> Seq<CellVal> {
    seq![
        CellVal::Null,
        CellVal::Null,
        CellVal::Null,
        CellVal::Text(Seq::empty()),
        CellVal::Text(Seq::empty()),
        CellVal::Null,
        CellVal::Null,
        CellVal::Null,
        CellVal::Null,
        CellVal::Null,
        CellVal::Null,
        CellVal::Null,
        CellVal::Null,
        CellVal::Text("trial"@),
        CellVal::Null,
        CellVal::Null,
        CellVal::Null,
    ]
}

/// The defaults for the reshaped training-ground records: the
/// `baizhan` record type, null elsewhere.
pub open spec fn spec_baizhan_defaults() -> Seq<CellVal> {
    seq![
        CellVal::Null,
        CellVal::Null,
        CellVal::Null,
        CellVal::Null,
        CellVal::Null,
        CellVal::Null,
        CellVal::Null,
        CellVal::Null,
        CellVal::Null,
        CellVal::Text("baizhan"@),
        CellVal::Null,
    ]
}

/// The precondition probe of the third transformation: the table
/// already carries every target column and its date column is already
/// declared an integer — the shape this step produces — so the step
/// must leave it completely alone.
pub open spec fn spec_v3_current(
    t: Table,
    shape: Seq<(Seq<char>, crate::table::ColType)>,
) -> bool {
    &&& forall|c: int| 0 <= c < shape.len() ==> t.has_col((#[trigger] shape[c]).0)
    &&& t.has_col("date"@)
    &&& t.col_ty("date"@) == crate::table::ColType::Integer
}

/// Probes whether the table already has the target shape's columns
/// with an integer date column.
fn v3_current(t: &Table, cols: &Vec<Column>) -> (r: bool)
    ensures
        r == spec_v3_current(*t, spec_cols_shape(cols@)),
{
    let n = cols.len();
    let mut c: usize = 0;
    while c < n
        invariant
            c <= n == cols@.len(),
            forall|x: int| 0 <= x < c ==> t.has_col((#[trigger] spec_cols_shape(cols@)[x]).0),
        decreases n - c,
    {
        proof {
            assert(spec_cols_shape(cols@)[c as int].0 == cols@[c as int].name@);
        }
        match t.find_col(cols[c].name.as_str()) {
            Some(_) => {},
            None => {
                return false;
            },
        }
        c = c + 1;
    }
    match t.find_col("date") {
        Some(i) => {
            proof {
                assert(t.col_idx("date"@) == i as int);
            }
            t.cols[i].ty == crate::table::ColType::Integer
        },
        None => false,
    }
}

/// Reshapes the named table to the target columns via a shadow-table
/// swap; a table that already has the target shape is left untouched
/// (the step must be safe to re-run), and a missing table is laid
/// down fresh.
fn reshape_or_create(
    db: &mut Db,
    name: &str,
    cols: Vec<Column>,
    defaults: &Vec<SqlValue>,
)
    requires
        old(db).wf(),
        defaults@.len() == cols@.len(),
    ensures
        final(db).wf(),
        final(db).ledger == old(db).ledger,
        old(db).has_table(name@) && spec_v3_current(
            old(db).table(name@),
            spec_cols_shape(cols@),
        ) ==> *final(db) == *old(db),
        old(db).has_table(name@) ==> {
            &&& final(db).tables@.len() == old(db).tables@.len()
            &&& forall|x: int|
                0 <= x < old(db).tables@.len() && x != old(db).table_idx(name@)
                    ==> final(db).tables@[x] == old(db).tables@[x]
            &&& final(db).tables@[old(db).table_idx(name@)].name == old(db).table(name@).name
        },
        old(db).has_table(name@) && !spec_v3_current(
            old(db).table(name@),
            spec_cols_shape(cols@),
        ) ==> spec_swapped_shape(
            old(db).table(name@),
            final(db).tables@[old(db).table_idx(name@)],
            spec_cols_shape(cols@),
            defaults@.map_values(|d: SqlValue| d@),
        ),
        !old(db).has_table(name@) ==> {
            &&& final(db).tables@.len() == old(db).tables@.len() + 1
            &&& forall|x: int|
                0 <= x < old(db).tables@.len() ==> final(db).tables@[x] == old(db).tables@[x]
            &&& final(db).tables@.last().name@ == name@
            &&& spec_cols_shape(final(db).tables@.last().cols@) == spec_cols_shape(cols@)
            &&& final(db).tables@.last().rows@.len() == 0
        },
{
    match db.find_table(name) {
        Some(ti) => {
            if v3_current(&db.tables[ti], &cols) {
                return ;
            }
            let t = db.take_table(ti);
            let nt = swap_table(&t, cols, defaults);
            db.put_table(ti, nt);
            proof {
                assert(db.tables@ =~= old(db).tables@.update(ti as int, db.tables@[ti as int]));
            }
        },
        None => {
            db.create_table(fresh_table(name, cols));
        },
    }
}

/// The third transformation: the play-session log tables take their
/// final shape, and the date column narrows from free text to an
/// integer through the shadow-table swap's explicit cast. A table
/// that already has the final shape — every target column present,
/// date already an integer — is left completely untouched, so a
/// resumed run changes nothing.
pub fn migrate_v3(db: &mut Db) -> (r: Result<(), MigrationError>)
    requires
        old(db).wf(),
    ensures
        final(db).wf(),
        final(db).ledger == old(db).ledger,
        r == Ok::<(), MigrationError>(()),
        ({
            let dbo = *old(db);
            let trial_here = dbo.has_table("trial_records"@);
            let baizhan_here = dbo.has_table("baizhan_records"@);
            let trial_done = trial_here && spec_v3_current(
                dbo.table("trial_records"@),
                spec_trial_records_shape(),
            );
            let baizhan_done = baizhan_here && spec_v3_current(
                dbo.table("baizhan_records"@),
                spec_baizhan_records_shape(),
            );
            &&& (trial_done && baizhan_done ==> *final(db) == dbo)
            &&& (trial_done ==> final(db).tables@[dbo.table_idx("trial_records"@)] == dbo.table(
                "trial_records"@,
            ))
            &&& (baizhan_done ==> final(db).tables@[dbo.table_idx("baizhan_records"@)]
                == dbo.table("baizhan_records"@))
            &&& (trial_here && !trial_done ==> exists|i: int|
                0 <= i < final(db).tables@.len() && spec_swapped_shape(
                    dbo.table("trial_records"@),
                    #[trigger] final(db).tables@[i],
                    spec_trial_records_shape(),
                    spec_trial_defaults(),
                ))
            &&& (baizhan_here && !baizhan_done ==> exists|i: int|
                0 <= i < final(db).tables@.len() && spec_swapped_shape(
                    dbo.table("baizhan_records"@),
                    #[trigger] final(db).tables@[i],
                    spec_baizhan_records_shape(),
                    spec_baizhan_defaults(),
                ))
            &&& (!trial_done ==> spec_shaped_table(
                *final(db),
                "trial_records"@,
                spec_trial_records_shape(),
            ))
            &&& (!baizhan_done ==> spec_shaped_table(
                *final(db),
                "baizhan_records"@,
                spec_baizhan_records_shape(),
            ))
            &&& final(db).has_table("trial_records"@)
            &&& final(db).has_table("baizhan_records"@)
            &&& dbo.tables@.len() <= final(db).tables@.len() <= dbo.tables@.len() + 2
            &&& (forall|x: int|
                0 <= x < dbo.tables@.len() && (!trial_here || x != dbo.table_idx(
                    "trial_records"@,
                )) && (!baizhan_here || x != dbo.table_idx("baizhan_records"@))
                    ==> final(db).tables@[x] == dbo.tables@[x])
            &&& (forall|x: int|
                0 <= x < dbo.tables@.len() ==> (#[trigger] final(db).tables@[x]).name
                    == dbo.tables@[x].name)
            &&& (forall|x: int|
                dbo.tables@.len() <= x < final(db).tables@.len() ==> (
                #[trigger] final(db).tables@[x]).name@ == "trial_records"@
                    || final(db).tables@[x].name@ == "baizhan_records"@)
        }),
{
    let ghost dbo = *db;
    let trial_defaults: Vec<SqlValue> = vec![
        SqlValue::Null,
        SqlValue::Null,
        SqlValue::Null,
        SqlValue::Text(String::new()),
        SqlValue::Text(String::new()),
        SqlValue::Null,
        SqlValue::Null,
        SqlValue::Null,
        SqlValue::Null,
        SqlValue::Null,
        SqlValue::Null,
        SqlValue::Null,
        SqlValue::Null,
        SqlValue::Text(String::from_str("trial")),
        SqlValue::Null,
        SqlValue::Null,
        SqlValue::Null,
    ];
    proof {
        assert(trial_defaults@.map_values(|d: SqlValue| d@) =~= spec_trial_defaults());
    }
    let tcols = trial_records_cols();
    proof {
        assert(trial_defaults@.len() == 17);
        assert(spec_cols_shape(tcols@).len() == tcols@.len());
        assert(spec_trial_records_shape().len() == 17);
    }
    reshape_or_create(db, "trial_records", tcols, &trial_defaults);
    let ghost mid = *db;
    let baizhan_defaults: Vec<SqlValue> = vec![
        SqlValue::Null,
        SqlValue::Null,
        SqlValue::Null,
        SqlValue::Null,
        SqlValue::Null,
        SqlValue::Null,
        SqlValue::Null,
        SqlValue::Null,
        SqlValue::Null,
        SqlValue::Text(String::from_str("baizhan")),
        SqlValue::Null,
    ];
    proof {
        assert(baizhan_defaults@.map_values(|d: SqlValue| d@) =~= spec_baizhan_defaults());
    }
    let bcols = baizhan_records_cols();
    proof {
        assert(baizhan_defaults@.len() == 11);
        assert(spec_cols_shape(bcols@).len() == bcols@.len());
        assert(spec_baizhan_records_shape().len() == 11);
    }
    reshape_or_create(db, "baizhan_records", bcols, &baizhan_defaults);
    proof {
        reveal_strlit("trial_records");
        reveal_strlit("baizhan_records");
        assert("trial_records"@.len() == 13);
        assert("baizhan_records"@.len() == 15);
        let trial_here = dbo.has_table("trial_records"@);
        let baizhan_here = dbo.has_table("baizhan_records"@);
        if trial_here {
            let k1 = dbo.table_idx("trial_records"@);
            crate::table::lemma_find_table_range(dbo.tables@, "trial_records"@);
            assert(mid.tables@[k1].name@ == "trial_records"@);
            if mid.has_table("baizhan_records"@) {
                let k2 = mid.table_idx("baizhan_records"@);
                crate::table::lemma_find_table_range(mid.tables@, "baizhan_records"@);
                assert(mid.tables@[k2].name@ == "baizhan_records"@);
                assert(k1 != k2);
                assert(db.tables@[k1] == mid.tables@[k1]);
            } else {
                assert(db.tables@[k1] == mid.tables@[k1]);
            }
        }
        if baizhan_here {
            let kb = dbo.table_idx("baizhan_records"@);
            crate::table::lemma_find_table_range(dbo.tables@, "baizhan_records"@);
            assert(dbo.tables@[kb].name@ == "baizhan_records"@);
            if trial_here {
                let k1 = dbo.table_idx("trial_records"@);
                crate::table::lemma_find_table_range(dbo.tables@, "trial_records"@);
                assert(k1 != kb);
                assert(mid.tables@[kb] == dbo.tables@[kb]);
                assert forall|j: int| 0 <= j < kb implies (#[trigger] mid.tables@[j]).name@
                    != "baizhan_records"@ by {
                    if j != k1 {
                        assert(mid.tables@[j] == dbo.tables@[j]);
                    } else {
                        assert(mid.tables@[j].name@ == "trial_records"@);
                    }
                }
            } else {
                assert(mid.tables@[kb] == dbo.tables@[kb]);
                assert forall|j: int| 0 <= j < kb implies (#[trigger] mid.tables@[j]).name@
                    != "baizhan_records"@ by {
                    assert(mid.tables@[j] == dbo.tables@[j]);
                }
            }
            crate::table::lemma_find_table_at(mid.tables@, kb, "baizhan_records"@);
            assert(mid.table("baizhan_records"@) == dbo.table("baizhan_records"@));
            assert(db.tables@[kb].name@ == "baizhan_records"@);
            if !spec_v3_current(dbo.table("baizhan_records"@), spec_baizhan_records_shape()) {
                assert(spec_swapped_shape(
                    dbo.table("baizhan_records"@),
                    db.tables@[kb],
                    spec_baizhan_records_shape(),
                    spec_baizhan_defaults(),
                ));
                assert(spec_shaped_table(*db, "baizhan_records"@, spec_baizhan_records_shape()));
            } else {
                assert(db.tables@[kb] == dbo.tables@[kb]);
            }
            crate::table::lemma_named_table_found(db.tables@, "baizhan_records"@);
        }
        if trial_here {
            let k1 = dbo.table_idx("trial_records"@);
            assert(db.tables@[k1].name@ == "trial_records"@);
            if !spec_v3_current(dbo.table("trial_records"@), spec_trial_records_shape()) {
                assert(spec_cols_shape(db.tables@[k1].cols@) == spec_trial_records_shape());
                assert(spec_shaped_table(*db, "trial_records"@, spec_trial_records_shape()));
            }
            crate::table::lemma_named_table_found(db.tables@, "trial_records"@);
        } else {
            let ml = mid.tables@.len() - 1;
            assert(mid.tables@[ml].name@ == "trial_records"@ && spec_cols_shape(
                mid.tables@[ml].cols@,
            ) == spec_trial_records_shape());
            if mid.has_table("baizhan_records"@) {
                let k2 = mid.table_idx("baizhan_records"@);
                crate::table::lemma_find_table_range(mid.tables@, "baizhan_records"@);
                assert(k2 != ml);
                assert(db.tables@[ml] == mid.tables@[ml]);
            } else {
                assert(db.tables@[ml] == mid.tables@[ml]);
            }
            assert(spec_shaped_table(*db, "trial_records"@, spec_trial_records_shape()));
            crate::table::lemma_named_table_found(db.tables@, "trial_records"@);
        }
        if !baizhan_here {
            assert(!mid.has_table("baizhan_records"@)) by {
                if mid.has_table("baizhan_records"@) {
                    let k2 = mid.table_idx("baizhan_records"@);
                    crate::table::lemma_find_table_range(mid.tables@, "baizhan_records"@);
                    if trial_here {
                        let k1 = dbo.table_idx("trial_records"@);
                        assert(k2 != k1);
                        assert(mid.tables@[k2] == dbo.tables@[k2]);
                        crate::table::lemma_named_table_found(dbo.tables@, "baizhan_records"@);
                    } else {
                        if k2 < dbo.tables@.len() {
                            assert(mid.tables@[k2] == dbo.tables@[k2]);
                            crate::table::lemma_named_table_found(dbo.tables@, "baizhan_records"@);
                        } else {
                            assert(mid.tables@[k2].name@ == "trial_records"@);
                        }
                    }
                    assert(false);
                }
            }
            let fl = db.tables@.len() - 1;
            assert(db.tables@[fl].name@ == "baizhan_records"@ && spec_cols_shape(
                db.tables@[fl].cols@,
            ) == spec_baizhan_records_shape());
            assert(spec_shaped_table(*db, "baizhan_records"@, spec_baizhan_records_shape()));
            crate::table::lemma_named_table_found(db.tables@, "baizhan_records"@);
        }
    }
    Ok(())
}

pub open spec fn spec_v4_touched() -> Seq<Seq<char>> {
    seq!["raids"@, "raid_bosses"@, "raid_versions"@]
}

/// The fourth transformation: the favorites table is added, and the
/// raids table is emptied and rebuilt from the static dataset, so
/// that its rows sit in shipped order again. It refuses — touching
/// nothing — exactly when the structured raid tables the seeder needs
/// are not all present with their columns.
pub fn migrate_v4(db: &mut Db, dataset: &Vec<SeedRaid>) -> (r: Result<u128, MigrationError>)
    requires
        old(db).wf(),
    ensures
        final(db).wf(),
        final(db).ledger == old(db).ledger,
        r is Err <==> !spec_seed_schema_ok(*old(db)),
        match r {
            Ok(_) => {
                &&& final(db).has_table("favorite_raids"@)
                &&& (!old(db).has_table("favorite_raids"@) ==> spec_shaped_table(
                    *final(db),
                    "favorite_raids"@,
                    spec_favorite_raids_shape(),
                ))
                &&& spec_seed_complete(*final(db), dataset@)
                &&& spec_tables_kept(*old(db), *final(db), spec_v4_touched())
                &&& spec_added_raids_derived(
                    final(db).table("raids"@),
                    final(db).table("raids"@),
                    0,
                    dataset@,
                )
                &&& old(db).table("raid_bosses"@).rows@.len() <= final(db).table(
                    "raid_bosses"@,
                ).rows@.len()
                &&& (forall|rr: int|
                    0 <= rr < old(db).table("raid_bosses"@).rows@.len() ==> final(db).table(
                        "raid_bosses"@,
                    ).rows@[rr] == old(db).table("raid_bosses"@).rows@[rr])
                &&& spec_added_bosses_derived(
                    final(db).table("raid_bosses"@),
                    old(db).table("raid_bosses"@),
                    old(db).table("raid_bosses"@).rows@.len() as int,
                    dataset@,
                )
                &&& old(db).table("raid_versions"@).rows@.len() <= final(db).table(
                    "raid_versions"@,
                ).rows@.len()
                &&& (forall|rr: int|
                    0 <= rr < old(db).table("raid_versions"@).rows@.len() ==> final(db).table(
                        "raid_versions"@,
                    ).rows@[rr] == old(db).table("raid_versions"@).rows@[rr])
                &&& spec_added_versions_derived(
                    final(db).table("raid_versions"@),
                    old(db).table("raid_versions"@),
                    old(db).table("raid_versions"@).rows@.len() as int,
                    dataset@,
                )
            },
            Err(e) => e == MigrationError::MissingSchema && *final(db) == *old(db),
        },
{
    proof {
        reveal_strlit("favorite_raids");
        reveal_strlit("raids");
        reveal_strlit("raid_bosses");
        reveal_strlit("raid_versions");
        assert("favorite_raids"@.len() == 14);
        assert("raids"@.len() == 5);
        assert("raid_bosses"@.len() == 11);
        assert("raid_versions"@.len() == 13);
    }
    if !crate::seed::seed_schema_check(db) {
        return Err(MigrationError::MissingSchema);
    }
    let ghost dbo = *db;
    let created_fav = !db.table_exists("favorite_raids");
    if created_fav {
        db.create_table(fresh_table("favorite_raids", favorite_raids_cols()));
    }
    let ghost dbf = *db;
    let ghost fav_at = dbf.tables@.len() - 1;
    proof {
        crate::table::lemma_find_table_range(dbo.tables@, "raids"@);
        crate::table::lemma_find_table_range(dbo.tables@, "raid_bosses"@);
        crate::table::lemma_find_table_range(dbo.tables@, "raid_versions"@);
        if created_fav {
            crate::table::lemma_find_table_push(
                dbo.tables@,
                dbf.tables@.last(),
                "raids"@,
            );
            crate::table::lemma_find_table_push(
                dbo.tables@,
                dbf.tables@.last(),
                "raid_bosses"@,
            );
            crate::table::lemma_find_table_push(
                dbo.tables@,
                dbf.tables@.last(),
                "raid_versions"@,
            );
            assert(dbf.tables@ =~= dbo.tables@.push(dbf.tables@.last()));
        }
        assert(dbf.table("raids"@) == dbo.table("raids"@));
        assert(dbf.table("raid_bosses"@) == dbo.table("raid_bosses"@));
        assert(dbf.table("raid_versions"@) == dbo.table("raid_versions"@));
        assert(spec_seed_schema_ok(dbf));
    }
    let ri = match db.find_table("raids") {
        Some(ri) => ri,
        None => {
            proof {
                assert(false);
            }
            return Err(MigrationError::MissingSchema);
        },
    };
    let mut t = db.take_table(ri);
    t.rows = Vec::new();
    db.put_table(ri, t);
    let ghost pre = *db;
    proof {
        assert(pre.tables@ =~= dbf.tables@.update(ri as int, pre.tables@[ri as int]));
        assert(pre.tables@[ri as int].name@ == "raids"@);
        assert(forall|x: int|
            0 <= x < dbf.tables@.len() ==> (#[trigger] pre.tables@[x]).name@
                == dbf.tables@[x].name@);
        crate::table::lemma_find_table_names(dbf.tables@, pre.tables@, "raids"@);
        crate::table::lemma_find_table_names(dbf.tables@, pre.tables@, "raid_bosses"@);
        crate::table::lemma_find_table_names(dbf.tables@, pre.tables@, "raid_versions"@);
        assert(pre.table("raids"@).cols == dbf.table("raids"@).cols);
        assert(pre.table("raid_bosses"@) == dbf.table("raid_bosses"@));
        assert(pre.table("raid_versions"@) == dbf.table("raid_versions"@));
        assert(spec_seed_schema_ok(pre));
    }
    let n = match seed(db, dataset) {
        Ok(n) => n,
        Err(e) => {
            proof {
                assert(false);
            }
            return Err(e);
        },
    };
    proof {
        if !dbo.has_table("favorite_raids"@) {
            assert(pre.tables@[fav_at].name@ == "favorite_raids"@ && spec_cols_shape(
                pre.tables@[fav_at].cols@,
            ) == spec_favorite_raids_shape());
            assert(spec_shaped_table(pre, "favorite_raids"@, spec_favorite_raids_shape()));
            lemma_shaped_preserved(pre, *db, "favorite_raids"@, spec_favorite_raids_shape());
            let w = choose|w: int|
                0 <= w < db.tables@.len() && (#[trigger] db.tables@[w]).name@ == "favorite_raids"@
                    && spec_cols_shape(db.tables@[w].cols@) == spec_favorite_raids_shape();
            crate::table::lemma_named_table_found(db.tables@, "favorite_raids"@);
        } else {
            let w = dbo.table_idx("favorite_raids"@);
            crate::table::lemma_find_table_range(dbo.tables@, "favorite_raids"@);
            assert(pre.tables@[w].name@ == "favorite_raids"@);
            assert(db.tables@[w].name@ == pre.tables@[w].name@);
            crate::table::lemma_named_table_found(db.tables@, "favorite_raids"@);
        }
        let touched = spec_v4_touched();
        assert(touched[0] == "raids"@ && touched[1] == "raid_bosses"@ && touched[2]
            == "raid_versions"@);
        crate::table::lemma_find_table_range(pre.tables@, "raids"@);
        crate::table::lemma_find_table_range(pre.tables@, "raid_bosses"@);
        crate::table::lemma_find_table_range(pre.tables@, "raid_versions"@);
        assert forall|x: int|
            0 <= x < dbo.tables@.len() && !touched.contains(
                (#[trigger] dbo.tables@[x]).name@,
            ) implies db.tables@.contains(dbo.tables@[x]) by {
            let t2 = dbo.tables@[x];
            assert(t2.name@ != "raids"@ && t2.name@ != "raid_bosses"@ && t2.name@
                != "raid_versions"@);
            assert(dbf.tables@[x] == t2);
            assert(x != ri);
            assert(pre.tables@[x] == t2);
            assert(x != pre.table_idx("raids"@));
            assert(x != pre.table_idx("raid_bosses"@));
            assert(x != pre.table_idx("raid_versions"@));
            assert(db.tables@[x] == t2);
        }
        assert(spec_tables_kept(dbo, *db, touched));
        crate::table::lemma_find_table_names(db.tables@, pre.tables@, "raids"@);
        crate::table::lemma_find_table_names(db.tables@, pre.tables@, "raid_bosses"@);
        crate::table::lemma_find_table_names(db.tables@, pre.tables@, "raid_versions"@);
        assert(pre.table("raids"@) == pre.tables@[ri as int]);
        assert(pre.table("raids"@).rows@.len() == 0);
        assert(db.table("raids"@).cols == pre.table("raids"@).cols);
        crate::seed::lemma_raids_derived_cols(
            db.table("raids"@),
            pre.table("raids"@),
            db.table("raids"@),
            0,
            dataset@,
        );
        assert(pre.table("raid_bosses"@) == dbo.table("raid_bosses"@));
        assert(pre.table("raid_versions"@) == dbo.table("raid_versions"@));
        let bix = pre.table_idx("raid_bosses"@);
        assert(db.tables@[bix].rows@.len() >= pre.tables@[bix].rows@.len());
        assert(db.table("raid_bosses"@) == db.tables@[bix]);
        let vix = pre.table_idx("raid_versions"@);
        assert(db.tables@[vix].rows@.len() >= pre.tables@[vix].rows@.len());
        assert(db.table("raid_versions"@) == db.tables@[vix]);
    }
    Ok(n)
}

/// Inserts one instance-type row unless its code is already present.
fn ensure_instance_type(
    db: &mut Db,
    iti: usize,
    c_id: usize,
    c_type: usize,
    c_name: usize,
    code: &str,
    label: &str,
)
    requires
        old(db).wf(),
        iti < old(db).tables@.len(),
        c_id < old(db).tables@[iti as int].cols@.len(),
        c_type < old(db).tables@[iti as int].cols@.len(),
        c_name < old(db).tables@[iti as int].cols@.len(),
        c_type != c_id,
        c_type != c_name,
    ensures
        final(db).wf(),
        final(db).ledger == old(db).ledger,
        final(db).tables@.len() == old(db).tables@.len(),
        forall|x: int|
            0 <= x < old(db).tables@.len() && x != iti ==> final(db).tables@[x] == old(
                db,
            ).tables@[x],
        final(db).tables@[iti as int].name == old(db).tables@[iti as int].name,
        final(db).tables@[iti as int].cols == old(db).tables@[iti as int].cols,
        old(db).tables@[iti as int].rows@.len() <= final(db).tables@[iti as int].rows@.len(),
        final(db).tables@[iti as int].rows@.len() <= old(db).tables@[iti as int].rows@.len() + 1,
        spec_table_has_text(old(db).tables@[iti as int], c_type as int, code@) ==> *final(db)
            == *old(db),
        forall|rr: int|
            0 <= rr < old(db).tables@[iti as int].rows@.len() ==> old(
                db,
            ).tables@[iti as int].rows@[rr] == (#[trigger] final(db).tables@[iti as int].rows@[rr]),
        spec_table_has_text(final(db).tables@[iti as int], c_type as int, code@),
{
    let key = String::from_str(code);
    match db.tables[iti].find_row_text(c_type, &key) {
        Some(_) => {
            proof {
                assert(spec_table_has_text(db.tables@[iti as int], c_type as int, code@));
            }
        },
        None => {
            let next_id = {
                let m = crate::seed::max_int_col(&db.tables[iti], c_id);
                if m < 0x7fff_ffff_ffff_ffff {
                    m + 1
                } else {
                    m
                }
            };
            let ncols = db.tables[iti].cols.len();
            let mut row = crate::seed::blank_row(ncols);
            crate::seed::set_cell(&mut row, c_id, SqlValue::Int(next_id));
            crate::seed::set_cell(&mut row, c_type, SqlValue::Text(key));
            crate::seed::set_cell(&mut row, c_name, SqlValue::Text(String::from_str(label)));
            db.push_row_at(iti, row);
            proof {
                let t = db.tables@[iti as int];
                assert(t.rows@[t.rows@.len() - 1]@[c_type as int]@ == CellVal::Text(code@));
                assert(spec_table_has_text(t, c_type as int, code@));
            }
        },
    }
}

/// A visibility row for this role and instance type, marked visible,
/// is present.
pub open spec fn spec_vis_row_present(
    t: Table,
    cr: int,
    ct: int,
    cv: int,
    role: Seq<char>,
    ty: int,
) -> bool {
    exists|rr: int|
        0 <= rr < t.rows@.len() && (#[trigger] t.rows@[rr])@[cr]@ == CellVal::Text(role)
            && t.rows@[rr]@[ct]@ == CellVal::Int(ty) && t.rows@[rr]@[cv]@ == CellVal::Int(1)
}

/// The backfill has reached the pair `(x, y)`: a visible row exists
/// for every role-and-type pair before it in the scan order.
pub open spec fn spec_vis_covered(
    t: Table,
    cr: int,
    ct: int,
    cv: int,
    roles: Seq<String>,
    tys: Seq<i64>,
    x: int,
    y: int,
) -> bool {
    forall|x2: int, y2: int|
        0 <= x2 < roles.len() && 0 <= y2 < tys.len() && (x2 < x || (x2 == x && y2 < y))
            ==> spec_vis_row_present(t, cr, ct, cv, (#[trigger] roles[x2])@, #[trigger] tys[y2] as int)
}

/// Appending rows never loses a covered pair.
proof fn lemma_vis_covered_push(
    told: Table,
    tnew: Table,
    cr: int,
    ct: int,
    cv: int,
    roles: Seq<String>,
    tys: Seq<i64>,
    x: int,
    y: int,
)
    requires
        spec_vis_covered(told, cr, ct, cv, roles, tys, x, y),
        told.rows@.len() <= tnew.rows@.len(),
        forall|rr: int| 0 <= rr < told.rows@.len() ==> told.rows@[rr] == tnew.rows@[rr],
    ensures
        spec_vis_covered(tnew, cr, ct, cv, roles, tys, x, y),
{
    assert forall|x2: int, y2: int|
        0 <= x2 < roles.len() && 0 <= y2 < tys.len() && (x2 < x || (x2 == x && y2 < y))
            implies spec_vis_row_present(
        tnew,
        cr,
        ct,
        cv,
        (#[trigger] roles[x2])@,
        #[trigger] tys[y2] as int,
    ) by {
        assert(spec_vis_row_present(told, cr, ct, cv, roles[x2]@, tys[y2] as int));
        let rr = choose|rr: int|
            0 <= rr < told.rows@.len() && (#[trigger] told.rows@[rr])@[cr]@ == CellVal::Text(
                roles[x2]@,
            ) && told.rows@[rr]@[ct]@ == CellVal::Int(tys[y2] as int) && told.rows@[rr]@[cv]@
                == CellVal::Int(1);
        assert(tnew.rows@[rr] == told.rows@[rr]);
    }
}

pub open spec fn spec_v5_touched() -> Seq<Seq<char>> {
    seq!["instance_types"@, "role_instance_visibility"@]
}

/// What the fifth step needs before it runs: an existing
/// instance-type table must carry its columns, an existing visibility
/// table its columns, and when the visibility records are still to be
/// backfilled (no table yet, or an empty one) the roles table must be
/// there to read.
pub open spec fn spec_v5_ready(db: Db) -> bool {
    &&& db.has_table("instance_types"@) ==> {
        &&& db.table("instance_types"@).has_col("id"@)
        &&& db.table("instance_types"@).has_col("type"@)
        &&& db.table("instance_types"@).has_col("name"@)
    }
    &&& db.has_table("role_instance_visibility"@) ==> {
        &&& db.table("role_instance_visibility"@).has_col("id"@)
        &&& db.table("role_instance_visibility"@).has_col("role_id"@)
        &&& db.table("role_instance_visibility"@).has_col("instance_type_id"@)
        &&& db.table("role_instance_visibility"@).has_col("visible"@)
        &&& db.table("role_instance_visibility"@).has_col("created_at"@)
        &&& db.table("role_instance_visibility"@).has_col("updated_at"@)
    }
    &&& (!db.has_table("role_instance_visibility"@) || db.table(
        "role_instance_visibility"@,
    ).rows@.len() == 0) ==> {
        &&& db.has_table("roles"@)
        &&& db.table("roles"@).has_col("id"@)
    }
}

/// Probes whether the fifth step can run; nothing is touched.
fn v5_ready_check(db: &Db) -> (r: bool)
    ensures
        r == spec_v5_ready(*db),
{
    match db.find_table("instance_types") {
        Some(i) => {
            if db.tables[i].find_col("id").is_none() {
                return false;
            }
            if db.tables[i].find_col("type").is_none() {
                return false;
            }
            if db.tables[i].find_col("name").is_none() {
                return false;
            }
        },
        None => {},
    }
    let vis_pending = match db.find_table("role_instance_visibility") {
        Some(i) => {
            if db.tables[i].find_col("id").is_none() {
                return false;
            }
            if db.tables[i].find_col("role_id").is_none() {
                return false;
            }
            if db.tables[i].find_col("instance_type_id").is_none() {
                return false;
            }
            if db.tables[i].find_col("visible").is_none() {
                return false;
            }
            if db.tables[i].find_col("created_at").is_none() {
                return false;
            }
            if db.tables[i].find_col("updated_at").is_none() {
                return false;
            }
            db.tables[i].rows.len() == 0
        },
        None => true,
    };
    if vis_pending {
        match db.find_table("roles") {
            Some(i) => {
                if db.tables[i].find_col("id").is_none() {
                    return false;
                }
            },
            None => {
                return false;
            },
        }
    }
    true
}

/// The fifth transformation: the per-role instance visibility feature
/// arrives. The instance-type lookup table and the visibility table
/// are laid down, the three instance categories are recorded once
/// each, and existing roles get a default all-visible record — but
/// only on a file that has none yet, so a resumed run adds nothing.
/// It refuses — touching nothing — exactly when the tables it must
/// read or extend are present but missing columns, or the roles to
/// backfill for cannot be read.
#[verifier::rlimit(100)]
pub fn migrate_v5(db: &mut Db, now: &String) -> (r: Result<(), MigrationError>)
    requires
        old(db).wf(),
    ensures
        final(db).wf(),
        final(db).ledger == old(db).ledger,
        r is Err <==> !spec_v5_ready(*old(db)),
        match r {
            Ok(_) => {
                &&& final(db).has_table("instance_types"@)
                &&& final(db).has_table("role_instance_visibility"@)
                &&& (!old(db).has_table("instance_types"@) ==> spec_shaped_table(
                    *final(db),
                    "instance_types"@,
                    spec_instance_types_shape(),
                ))
                &&& (!old(db).has_table("role_instance_visibility"@) ==> spec_shaped_table(
                    *final(db),
                    "role_instance_visibility"@,
                    spec_role_instance_visibility_shape(),
                ))
                &&& spec_tables_kept(*old(db), *final(db), spec_v5_touched())
                &&& spec_table_has_text(
                    final(db).table("instance_types"@),
                    final(db).table("instance_types"@).col_idx("type"@),
                    "raid"@,
                )
                &&& spec_table_has_text(
                    final(db).table("instance_types"@),
                    final(db).table("instance_types"@).col_idx("type"@),
                    "baizhan"@,
                )
                &&& spec_table_has_text(
                    final(db).table("instance_types"@),
                    final(db).table("instance_types"@).col_idx("type"@),
                    "trial"@,
                )
                &&& (old(db).has_table("role_instance_visibility"@) && old(db).table(
                    "role_instance_visibility"@,
                ).rows@.len() > 0 ==> final(db).tables@.contains(old(db).table(
                    "role_instance_visibility"@,
                )))
                &&& (old(db).has_table("instance_types"@) && spec_table_has_text(
                    old(db).table("instance_types"@),
                    old(db).table("instance_types"@).col_idx("type"@),
                    "raid"@,
                ) && spec_table_has_text(
                    old(db).table("instance_types"@),
                    old(db).table("instance_types"@).col_idx("type"@),
                    "baizhan"@,
                ) && spec_table_has_text(
                    old(db).table("instance_types"@),
                    old(db).table("instance_types"@).col_idx("type"@),
                    "trial"@,
                ) ==> final(db).table("instance_types"@) == old(db).table("instance_types"@))
                &&& ((!old(db).has_table("role_instance_visibility"@) || old(db).table(
                    "role_instance_visibility"@,
                ).rows@.len() == 0) ==> (forall|rr: int|
                    0 <= rr < final(db).table("role_instance_visibility"@).rows@.len()
                        ==> (#[trigger] final(db).table(
                        "role_instance_visibility"@,
                    ).rows@[rr])@[final(db).table("role_instance_visibility"@).col_idx(
                        "visible"@,
                    )]@ == CellVal::Int(1)))
                &&& ((!old(db).has_table("role_instance_visibility"@) || old(db).table(
                    "role_instance_visibility"@,
                ).rows@.len() == 0) && old(db).has_table("roles"@) ==> (forall|
                    role: Seq<char>,
                    ty: int,
                |
                    spec_table_has_text(
                        old(db).table("roles"@),
                        old(db).table("roles"@).col_idx("id"@),
                        role,
                    ) && spec_table_has_int(
                        final(db).table("instance_types"@),
                        final(db).table("instance_types"@).col_idx("id"@),
                        ty,
                    ) ==> spec_vis_row_present(
                        final(db).table("role_instance_visibility"@),
                        final(db).table("role_instance_visibility"@).col_idx("role_id"@),
                        final(db).table("role_instance_visibility"@).col_idx(
                            "instance_type_id"@,
                        ),
                        final(db).table("role_instance_visibility"@).col_idx("visible"@),
                        role,
                        ty,
                    )))
            },
            Err(e) => e == MigrationError::MissingSchema && *final(db) == *old(db),
        },
{
    proof {
        reveal_strlit("instance_types");
        reveal_strlit("role_instance_visibility");
        reveal_strlit("roles");
        assert("instance_types"@.len() == 14);
        assert("role_instance_visibility"@.len() == 24);
        assert("roles"@.len() == 5);
    }
    if !v5_ready_check(db) {
        return Err(MigrationError::MissingSchema);
    }
    let ghost dbo = *db;
    let had_types = db.table_exists("instance_types");
    let had_vis = db.table_exists("role_instance_visibility");
    if !had_types {
        db.create_table(fresh_table("instance_types", instance_types_cols()));
    }
    let ghost dbt = *db;
    if !had_vis {
        db.create_table(
            fresh_table("role_instance_visibility", role_instance_visibility_cols()),
        );
    }
    let ghost dbc = *db;
    proof {
        crate::table::lemma_find_table_range(dbo.tables@, "instance_types"@);
        crate::table::lemma_find_table_range(dbo.tables@, "role_instance_visibility"@);
        crate::table::lemma_find_table_range(dbo.tables@, "roles"@);
        if !had_types {
            assert(dbt.tables@ =~= dbo.tables@.push(dbt.tables@.last()));
            assert(dbt.tables@.last().name@ == "instance_types"@);
            crate::table::lemma_find_table_at(
                dbt.tables@,
                dbo.tables@.len() as int,
                "instance_types"@,
            );
            crate::table::lemma_find_table_push(
                dbo.tables@,
                dbt.tables@.last(),
                "role_instance_visibility"@,
            );
            crate::table::lemma_find_table_push(dbo.tables@, dbt.tables@.last(), "roles"@);
        }
        crate::table::lemma_find_table_range(dbt.tables@, "instance_types"@);
        if !had_vis {
            assert(dbc.tables@ =~= dbt.tables@.push(dbc.tables@.last()));
            assert(dbc.tables@.last().name@ == "role_instance_visibility"@);
            crate::table::lemma_find_table_at(
                dbc.tables@,
                dbt.tables@.len() as int,
                "role_instance_visibility"@,
            );
            crate::table::lemma_find_table_push(
                dbt.tables@,
                dbc.tables@.last(),
                "instance_types"@,
            );
            crate::table::lemma_find_table_push(dbt.tables@, dbc.tables@.last(), "roles"@);
        }
        crate::table::lemma_find_table_range(dbc.tables@, "instance_types"@);
        crate::table::lemma_find_table_range(dbc.tables@, "role_instance_visibility"@);
        assert(dbc.has_table("instance_types"@));
        assert(dbc.has_table("role_instance_visibility"@));
        if had_types {
            assert(dbc.table("instance_types"@) == dbo.table("instance_types"@));
        } else {
            assert(dbc.table("instance_types"@) == dbt.tables@.last());
            let tc = dbt.tables@.last().cols@;
            assert(spec_cols_shape(tc).len() == tc.len());
            assert(tc[0].name@ == "id"@ && tc[1].name@ == "type"@ && tc[2].name@ == "name"@);
            crate::table::lemma_named_col_found(tc, "id"@);
            crate::table::lemma_named_col_found(tc, "type"@);
            crate::table::lemma_named_col_found(tc, "name"@);
        }
        if had_vis {
            assert(dbc.table("role_instance_visibility"@) == dbo.table(
                "role_instance_visibility"@,
            ));
        } else {
            assert(dbc.table("role_instance_visibility"@) == dbc.tables@.last());
            let vc = dbc.tables@.last().cols@;
            assert(spec_cols_shape(vc).len() == vc.len());
            assert(vc[0].name@ == "id"@ && vc[1].name@ == "role_id"@ && vc[2].name@
                == "instance_type_id"@ && vc[3].name@ == "visible"@ && vc[4].name@
                == "created_at"@ && vc[5].name@ == "updated_at"@);
            crate::table::lemma_named_col_found(vc, "id"@);
            crate::table::lemma_named_col_found(vc, "role_id"@);
            crate::table::lemma_named_col_found(vc, "instance_type_id"@);
            crate::table::lemma_named_col_found(vc, "visible"@);
            crate::table::lemma_named_col_found(vc, "created_at"@);
            crate::table::lemma_named_col_found(vc, "updated_at"@);
        }
        assert(dbc.has_table("roles"@) == dbo.has_table("roles"@));
        if dbo.has_table("roles"@) {
            assert(dbc.table("roles"@) == dbo.table("roles"@));
        }
    }
    let iti = match db.find_table("instance_types") {
        Some(i) => i,
        None => {
            proof {
                assert(false);
            }
            return Err(MigrationError::MissingSchema);
        },
    };
    let c_id = match db.tables[iti].find_col("id") {
        Some(c) => c,
        None => {
            proof {
                assert(false);
            }
            return Err(MigrationError::MissingSchema);
        },
    };
    let c_type = match db.tables[iti].find_col("type") {
        Some(c) => c,
        None => {
            proof {
                assert(false);
            }
            return Err(MigrationError::MissingSchema);
        },
    };
    let c_name = match db.tables[iti].find_col("name") {
        Some(c) => c,
        None => {
            proof {
                assert(false);
            }
            return Err(MigrationError::MissingSchema);
        },
    };
    proof {
        reveal_strlit("id");
        reveal_strlit("type");
        reveal_strlit("name");
        assert("id"@.len() == 2);
        assert("type"@.len() == 4);
        assert("name"@.len() == 4);
        assert("type"@[0] == 't');
        assert("name"@[0] == 'n');
        assert(c_type != c_id && c_type != c_name);
    }
    ensure_instance_type(db, iti, c_id, c_type, c_name, "raid", "团队副本");
    let ghost e1 = *db;
    ensure_instance_type(db, iti, c_id, c_type, c_name, "baizhan", "百战");
    let ghost e2 = *db;
    ensure_instance_type(db, iti, c_id, c_type, c_name, "trial", "试炼之地");
    let ghost dbe = *db;
    proof {
        crate::seed::lemma_has_text_push(
            e1.tables@[iti as int],
            e2.tables@[iti as int],
            c_type as int,
            "raid"@,
        );
        crate::seed::lemma_has_text_push(
            e2.tables@[iti as int],
            dbe.tables@[iti as int],
            c_type as int,
            "raid"@,
        );
        crate::seed::lemma_has_text_push(
            e2.tables@[iti as int],
            dbe.tables@[iti as int],
            c_type as int,
            "baizhan"@,
        );
    }
    proof {
        assert(db.tables@.len() == dbc.tables@.len());
        assert(forall|j: int|
            0 <= j < db.tables@.len() ==> (#[trigger] db.tables@[j]).name == dbc.tables@[j].name
                && db.tables@[j].cols == dbc.tables@[j].cols);
        assert(forall|j: int|
            0 <= j < db.tables@.len() && j != iti ==> (#[trigger] db.tables@[j])
                == dbc.tables@[j]);
        crate::table::lemma_find_table_names(dbc.tables@, db.tables@, "role_instance_visibility"@);
        crate::table::lemma_find_table_names(dbc.tables@, db.tables@, "roles"@);
        crate::table::lemma_find_table_range(db.tables@, "role_instance_visibility"@);
    }
    let vvi = match db.find_table("role_instance_visibility") {
        Some(i) => i,
        None => {
            proof {
                assert(false);
            }
            return Err(MigrationError::MissingSchema);
        },
    };
    proof {
        assert(db.tables@[vvi as int].cols == dbc.table("role_instance_visibility"@).cols);
        assert(db.tables@[iti as int].name@ == "instance_types"@);
        assert(vvi != iti);
        assert(db.tables@[vvi as int] == dbc.table("role_instance_visibility"@));
    }
    let v_id = match db.tables[vvi].find_col("id") {
        Some(c) => c,
        None => {
            proof {
                assert(false);
            }
            return Err(MigrationError::MissingSchema);
        },
    };
    let v_role = match db.tables[vvi].find_col("role_id") {
        Some(c) => c,
        None => {
            proof {
                assert(false);
            }
            return Err(MigrationError::MissingSchema);
        },
    };
    let v_type = match db.tables[vvi].find_col("instance_type_id") {
        Some(c) => c,
        None => {
            proof {
                assert(false);
            }
            return Err(MigrationError::MissingSchema);
        },
    };
    let v_vis = match db.tables[vvi].find_col("visible") {
        Some(c) => c,
        None => {
            proof {
                assert(false);
            }
            return Err(MigrationError::MissingSchema);
        },
    };
    let v_created = match db.tables[vvi].find_col("created_at") {
        Some(c) => c,
        None => {
            proof {
                assert(false);
            }
            return Err(MigrationError::MissingSchema);
        },
    };
    let v_updated = match db.tables[vvi].find_col("updated_at") {
        Some(c) => c,
        None => {
            proof {
                assert(false);
            }
            return Err(MigrationError::MissingSchema);
        },
    };
    proof {
        reveal_strlit("role_id");
        reveal_strlit("instance_type_id");
        reveal_strlit("visible");
        reveal_strlit("created_at");
        reveal_strlit("updated_at");
        reveal_strlit("id");
        assert("role_id"@.len() == 7);
        assert("instance_type_id"@.len() == 16);
        assert("visible"@.len() == 7);
        assert("created_at"@.len() == 10);
        assert("updated_at"@.len() == 10);
        assert("id"@.len() == 2);
        assert("role_id"@[0] == 'r');
        assert("visible"@[0] == 'v');
        assert(v_role != v_type && v_role != v_vis && v_role != v_created && v_role != v_updated);
        assert(v_type != v_vis && v_type != v_created && v_type != v_updated);
        assert(v_vis != v_created && v_vis != v_updated);
        assert(v_id != v_role && v_id != v_type && v_id != v_vis && v_id != v_created && v_id
            != v_updated);
    }
    if db.tables[vvi].rows.len() == 0 {
        proof {
            if had_vis {
                assert(db.tables@[vvi as int].rows == dbo.table(
                    "role_instance_visibility"@,
                ).rows);
            }
            assert(dbo.has_table("roles"@));
            assert(dbo.table("roles"@).has_col("id"@));
        }
        let type_ids = {
            let t = &db.tables[iti];
            let nrows = t.rows.len();
            let mut ids: Vec<i64> = Vec::new();
            let mut x: usize = 0;
            while x < nrows
                invariant
                    x <= nrows == t.rows@.len(),
                    t.wf(),
                    c_id < t.cols@.len(),
                    forall|rr: int|
                        0 <= rr < x ==> ((#[trigger] t.rows@[rr])@[c_id as int]@ matches
                            CellVal::Int(v) ==> exists|k: int|
                            0 <= k < ids@.len() && (#[trigger] ids@[k]) as int == v),
                decreases nrows - x,
            {
                let ghost idsb = ids@;
                match &t.rows[x][c_id] {
                    SqlValue::Int(i) => {
                        ids.push(*i);
                    },
                    _ => {},
                }
                proof {
                    let cell = t.rows@[x as int]@[c_id as int];
                    assert forall|rr: int|
                        0 <= rr < x as int + 1 implies ((#[trigger] t.rows@[rr])@[c_id as int]@ matches
                            CellVal::Int(v) ==> exists|k: int|
                            0 <= k < ids@.len() && (#[trigger] ids@[k]) as int == v) by {
                        if t.rows@[rr]@[c_id as int]@ is Int {
                            let v0 = t.rows@[rr]@[c_id as int]@->Int_0;
                            if rr < x as int {
                                assert(exists|k: int|
                                    0 <= k < idsb.len() && (#[trigger] idsb[k]) as int == v0);
                                let k0 = choose|k0: int|
                                    0 <= k0 < idsb.len() && (#[trigger] idsb[k0]) as int == v0;
                                assert(ids@[k0] as int == v0);
                            } else {
                                assert(cell is Int);
                                assert(ids@ == idsb.push(cell->Int_0));
                                assert(ids@[idsb.len() as int] as int == v0);
                            }
                        }
                    }
                }
                x = x + 1;
            }
            ids
        };
        proof {
            assert(forall|rr: int|
                0 <= rr < db.tables@[iti as int].rows@.len() ==> ((#[trigger] db.tables@[iti as int].rows@[rr])@[c_id as int]@ matches
                    CellVal::Int(v) ==> exists|k: int|
                    0 <= k < type_ids@.len() && (#[trigger] type_ids@[k]) as int == v));
        }
        let role_ids = match db.find_table("roles") {
            Some(ri) => {
                match db.tables[ri].find_col("id") {
                    Some(rc) => {
                        let keys = crate::repair::table_text_keys(&db.tables[ri], rc);
                        proof {
                            assert(db.tables@[ri as int] == dbc.table("roles"@));
                            assert(dbc.table("roles"@) == dbo.table("roles"@));
                            assert(rc as int == dbo.table("roles"@).col_idx("id"@));
                            assert(keys@ == crate::repair::spec_text_keys(
                                dbo.table("roles"@).rows@,
                                dbo.table("roles"@).col_idx("id"@),
                            ));
                        }
                        keys
                    },
                    None => {
                        proof {
                            assert(db.tables@[ri as int] == dbc.table("roles"@));
                            assert(dbc.table("roles"@) == dbo.table("roles"@));
                            assert(false);
                        }
                        return Err(MigrationError::MissingSchema);
                    },
                }
            },
            None => {
                proof {
                    crate::table::lemma_named_table_found(dbo.tables@, "roles"@);
                    assert(false);
                }
                return Err(MigrationError::MissingSchema);
            },
        };
        if type_ids.len() > 0 && role_ids.len() > 0 {
            let nroles = role_ids.len();
            let mut x: usize = 0;
            while x < nroles
                invariant
                    x <= nroles == role_ids@.len(),
                    db.wf(),
                    vvi < db.tables@.len(),
                    v_id < db.tables@[vvi as int].cols@.len(),
                    v_role < db.tables@[vvi as int].cols@.len(),
                    v_type < db.tables@[vvi as int].cols@.len(),
                    v_vis < db.tables@[vvi as int].cols@.len(),
                    v_created < db.tables@[vvi as int].cols@.len(),
                    v_updated < db.tables@[vvi as int].cols@.len(),
                    v_role != v_type && v_role != v_vis && v_role != v_created && v_role
                        != v_updated,
                    v_type != v_vis && v_type != v_created && v_type != v_updated,
                    v_vis != v_created && v_vis != v_updated,
                    v_id != v_role && v_id != v_type && v_id != v_vis,
                    db.ledger == old(db).ledger,
                    db.tables@.len() == dbe.tables@.len(),
                    forall|j: int|
                        0 <= j < db.tables@.len() ==> (#[trigger] db.tables@[j]).name
                            == dbe.tables@[j].name && db.tables@[j].cols == dbe.tables@[j].cols,
                    forall|j: int|
                        0 <= j < db.tables@.len() && j != vvi ==> (#[trigger] db.tables@[j])
                            == dbe.tables@[j],
                    spec_vis_covered(
                        db.tables@[vvi as int],
                        v_role as int,
                        v_type as int,
                        v_vis as int,
                        role_ids@,
                        type_ids@,
                        x as int,
                        0,
                    ),
                    forall|rr: int|
                        0 <= rr < db.tables@[vvi as int].rows@.len() ==> (
                        #[trigger] db.tables@[vvi as int].rows@[rr])@[v_vis as int]@
                            == CellVal::Int(1),
                decreases nroles - x,
            {
                let nt = type_ids.len();
                let mut y: usize = 0;
                while y < nt
                    invariant
                        y <= nt == type_ids@.len(),
                        x < role_ids@.len(),
                        db.wf(),
                        vvi < db.tables@.len(),
                        v_id < db.tables@[vvi as int].cols@.len(),
                        v_role < db.tables@[vvi as int].cols@.len(),
                        v_type < db.tables@[vvi as int].cols@.len(),
                        v_vis < db.tables@[vvi as int].cols@.len(),
                        v_created < db.tables@[vvi as int].cols@.len(),
                        v_updated < db.tables@[vvi as int].cols@.len(),
                        v_role != v_type && v_role != v_vis && v_role != v_created && v_role
                            != v_updated,
                        v_type != v_vis && v_type != v_created && v_type != v_updated,
                        v_vis != v_created && v_vis != v_updated,
                        v_id != v_role && v_id != v_type && v_id != v_vis,
                        db.ledger == old(db).ledger,
                        db.tables@.len() == dbe.tables@.len(),
                        forall|j: int|
                            0 <= j < db.tables@.len() ==> (#[trigger] db.tables@[j]).name
                                == dbe.tables@[j].name && db.tables@[j].cols
                                == dbe.tables@[j].cols,
                        forall|j: int|
                            0 <= j < db.tables@.len() && j != vvi ==> (#[trigger] db.tables@[j])
                                == dbe.tables@[j],
                        spec_vis_covered(
                            db.tables@[vvi as int],
                            v_role as int,
                            v_type as int,
                            v_vis as int,
                            role_ids@,
                            type_ids@,
                            x as int,
                            y as int,
                        ),
                        forall|rr: int|
                            0 <= rr < db.tables@[vvi as int].rows@.len() ==> (
                            #[trigger] db.tables@[vvi as int].rows@[rr])@[v_vis as int]@
                                == CellVal::Int(1),
                    decreases nt - y,
                {
                    let ncols = db.tables[vvi].cols.len();
                    let mut row = crate::seed::blank_row(ncols);
                    crate::seed::set_cell(&mut row, v_id, SqlValue::Text(crate::accounts::fresh_id()));
                    crate::seed::set_cell(&mut row, v_role, SqlValue::Text(role_ids[x].clone()));
                    crate::seed::set_cell(&mut row, v_type, SqlValue::Int(type_ids[y]));
                    crate::seed::set_cell(&mut row, v_vis, SqlValue::Int(1));
                    crate::seed::set_cell(&mut row, v_created, SqlValue::Text(now.clone()));
                    crate::seed::set_cell(&mut row, v_updated, SqlValue::Text(now.clone()));
                    proof {
                        assert(row@[v_role as int]@ == CellVal::Text(role_ids@[x as int]@));
                        assert(row@[v_type as int]@ == CellVal::Int(type_ids@[y as int] as int));
                        assert(row@[v_vis as int]@ == CellVal::Int(1));
                    }
                    let ghost rowg: Vec<SqlValue> = row;
                    let ghost tb = db.tables@[vvi as int];
                    db.push_row_at(vvi, row);
                    proof {
                        let ta = db.tables@[vvi as int];
                        assert(ta.rows@ == tb.rows@.push(rowg));
                        assert(ta.rows@[ta.rows@.len() - 1] == rowg);
                        lemma_vis_covered_push(
                            tb,
                            ta,
                            v_role as int,
                            v_type as int,
                            v_vis as int,
                            role_ids@,
                            type_ids@,
                            x as int,
                            y as int,
                        );
                        assert(spec_vis_row_present(
                            ta,
                            v_role as int,
                            v_type as int,
                            v_vis as int,
                            role_ids@[x as int]@,
                            type_ids@[y as int] as int,
                        ));
                        assert forall|x2: int, y2: int|
                            0 <= x2 < role_ids@.len() && 0 <= y2 < type_ids@.len() && (x2
                                < x as int || (x2 == x as int && y2 < y as int + 1)) implies spec_vis_row_present(
                            ta,
                            v_role as int,
                            v_type as int,
                            v_vis as int,
                            (#[trigger] role_ids@[x2])@,
                            #[trigger] type_ids@[y2] as int,
                        ) by {
                            if x2 < x as int || (x2 == x as int && y2 < y as int) {
                                assert(spec_vis_row_present(
                                    ta,
                                    v_role as int,
                                    v_type as int,
                                    v_vis as int,
                                    role_ids@[x2]@,
                                    type_ids@[y2] as int,
                                ));
                            }
                        }
                        assert(spec_vis_covered(
                            ta,
                            v_role as int,
                            v_type as int,
                            v_vis as int,
                            role_ids@,
                            type_ids@,
                            x as int,
                            y as int + 1,
                        ));
                        assert forall|rr: int| 0 <= rr < ta.rows@.len() implies (
                        #[trigger] ta.rows@[rr])@[v_vis as int]@ == CellVal::Int(1) by {
                            if rr < tb.rows@.len() {
                                assert(ta.rows@[rr] == tb.rows@[rr]);
                            } else {
                                assert(ta.rows@[rr] == rowg);
                            }
                        }
                    }
                    y = y + 1;
                }
                proof {
                    assert forall|x2: int, y2: int|
                        0 <= x2 < role_ids@.len() && 0 <= y2 < type_ids@.len() && (x2 < x as int
                            + 1 || (x2 == x as int + 1 && y2 < 0)) implies spec_vis_row_present(
                        db.tables@[vvi as int],
                        v_role as int,
                        v_type as int,
                        v_vis as int,
                        (#[trigger] role_ids@[x2])@,
                        #[trigger] type_ids@[y2] as int,
                    ) by {
                        assert(spec_vis_row_present(
                            db.tables@[vvi as int],
                            v_role as int,
                            v_type as int,
                            v_vis as int,
                            role_ids@[x2]@,
                            type_ids@[y2] as int,
                        ));
                    }
                    assert(spec_vis_covered(
                        db.tables@[vvi as int],
                        v_role as int,
                        v_type as int,
                        v_vis as int,
                        role_ids@,
                        type_ids@,
                        x as int + 1,
                        0,
                    ));
                }
                x = x + 1;
            }
        }
        proof {
            assert forall|role: Seq<char>, ty: int|
                spec_table_has_text(
                    dbo.table("roles"@),
                    dbo.table("roles"@).col_idx("id"@),
                    role,
                ) && spec_table_has_int(db.tables@[iti as int], c_id as int, ty) implies spec_vis_row_present(
                db.tables@[vvi as int],
                v_role as int,
                v_type as int,
                v_vis as int,
                role,
                ty,
            ) by {
                let rt = dbo.table("roles"@);
                let rrr = choose|rrr: int|
                    0 <= rrr < rt.rows@.len() && (#[trigger] rt.rows@[rrr])@[rt.col_idx(
                        "id"@,
                    )]@ == CellVal::Text(role);
                crate::repair::lemma_text_keys_complete(rt.rows@, rt.col_idx("id"@), rrr, role);
                let k = choose|k: int|
                    0 <= k < role_ids@.len() && (#[trigger] role_ids@[k])@ == role;
                let itt = db.tables@[iti as int];
                let rrt = choose|rrt: int|
                    0 <= rrt < itt.rows@.len() && (#[trigger] itt.rows@[rrt])@[c_id as int]@
                        == CellVal::Int(ty);
                let kk = choose|kk: int|
                    0 <= kk < type_ids@.len() && (#[trigger] type_ids@[kk]) as int == ty;
                assert(role_ids@.len() > 0 && type_ids@.len() > 0);
                assert(spec_vis_covered(
                    db.tables@[vvi as int],
                    v_role as int,
                    v_type as int,
                    v_vis as int,
                    role_ids@,
                    type_ids@,
                    role_ids@.len() as int,
                    0,
                ));
                assert(spec_vis_row_present(
                    db.tables@[vvi as int],
                    v_role as int,
                    v_type as int,
                    v_vis as int,
                    role_ids@[k]@,
                    type_ids@[kk] as int,
                ));
            }
            assert(forall|rr: int|
                0 <= rr < db.tables@[vvi as int].rows@.len() ==> (
                #[trigger] db.tables@[vvi as int].rows@[rr])@[v_vis as int]@ == CellVal::Int(1));
        }
    }
    proof {
        assert(forall|j: int|
            0 <= j < db.tables@.len() ==> (#[trigger] db.tables@[j]).name == dbc.tables@[j].name
                && db.tables@[j].cols == dbc.tables@[j].cols);
        assert(forall|j: int|
            0 <= j < db.tables@.len() && j != vvi && j != iti ==> (#[trigger] db.tables@[j])
                == dbc.tables@[j]);
        assert(db.tables@[iti as int].name@ == "instance_types"@);
        crate::table::lemma_named_table_found(db.tables@, "instance_types"@);
        assert(db.tables@[vvi as int].name@ == "role_instance_visibility"@);
        crate::table::lemma_named_table_found(db.tables@, "role_instance_visibility"@);
        if !dbo.has_table("instance_types"@) {
            let ci = dbo.tables@.len() as int;
            assert(dbc.tables@[ci].name@ == "instance_types"@ && spec_cols_shape(
                dbc.tables@[ci].cols@,
            ) == spec_instance_types_shape());
            assert(db.tables@[ci].name == dbc.tables@[ci].name && db.tables@[ci].cols
                == dbc.tables@[ci].cols);
            assert(spec_shaped_table(*db, "instance_types"@, spec_instance_types_shape()));
        }
        if !dbo.has_table("role_instance_visibility"@) {
            let cv = dbc.tables@.len() - 1;
            assert(dbc.tables@[cv].name@ == "role_instance_visibility"@ && spec_cols_shape(
                dbc.tables@[cv].cols@,
            ) == spec_role_instance_visibility_shape());
            assert(db.tables@[cv].name == dbc.tables@[cv].name && db.tables@[cv].cols
                == dbc.tables@[cv].cols);
            assert(spec_shaped_table(
                *db,
                "role_instance_visibility"@,
                spec_role_instance_visibility_shape(),
            ));
        }
        crate::table::lemma_find_table_names(dbc.tables@, db.tables@, "instance_types"@);
        crate::table::lemma_find_table_range(db.tables@, "instance_types"@);
        assert(db.table("instance_types"@) == db.tables@[iti as int]) by {
            crate::table::lemma_find_table_range(dbc.tables@, "instance_types"@);
        }
        assert(db.tables@[iti as int] == dbe.tables@[iti as int]);
        assert(db.table("instance_types"@).col_idx("type"@) == c_type as int);
        assert(spec_table_has_text(db.tables@[iti as int], c_type as int, "raid"@));
        assert(spec_table_has_text(db.tables@[iti as int], c_type as int, "baizhan"@));
        assert(spec_table_has_text(db.tables@[iti as int], c_type as int, "trial"@));
        if dbo.has_table("instance_types"@) && spec_table_has_text(
            dbo.table("instance_types"@),
            dbo.table("instance_types"@).col_idx("type"@),
            "raid"@,
        ) && spec_table_has_text(
            dbo.table("instance_types"@),
            dbo.table("instance_types"@).col_idx("type"@),
            "baizhan"@,
        ) && spec_table_has_text(
            dbo.table("instance_types"@),
            dbo.table("instance_types"@).col_idx("type"@),
            "trial"@,
        ) {
            assert(dbc.tables@[iti as int] == dbo.table("instance_types"@));
            assert(dbo.table("instance_types"@).col_idx("type"@) == c_type as int);
            assert(spec_table_has_text(dbc.tables@[iti as int], c_type as int, "raid"@));
            assert(e1.tables@[iti as int] == dbc.tables@[iti as int]);
            assert(spec_table_has_text(e1.tables@[iti as int], c_type as int, "baizhan"@));
            assert(e2.tables@[iti as int] == e1.tables@[iti as int]);
            assert(spec_table_has_text(e2.tables@[iti as int], c_type as int, "trial"@));
            assert(dbe.tables@[iti as int] == e2.tables@[iti as int]);
            assert(db.tables@[iti as int] == dbo.table("instance_types"@));
        }
        if dbo.has_table("role_instance_visibility"@) && dbo.table(
            "role_instance_visibility"@,
        ).rows@.len() > 0 {
            crate::table::lemma_find_table_range(dbo.tables@, "role_instance_visibility"@);
            let ov = dbo.table_idx("role_instance_visibility"@);
            assert(dbc.tables@[ov] == dbo.tables@[ov]);
            assert(db.tables@[ov] == dbo.tables@[ov]);
        }
        crate::table::lemma_find_table_names(dbc.tables@, db.tables@, "role_instance_visibility"@);
        crate::table::lemma_find_table_range(db.tables@, "role_instance_visibility"@);
        crate::table::lemma_find_table_range(dbc.tables@, "role_instance_visibility"@);
        assert(db.table("role_instance_visibility"@) == db.tables@[vvi as int]);
        assert(db.table("role_instance_visibility"@).col_idx("visible"@) == v_vis as int);
        assert(db.table("role_instance_visibility"@).col_idx("role_id"@) == v_role as int);
        assert(db.table("role_instance_visibility"@).col_idx("instance_type_id"@)
            == v_type as int);
        assert(db.table("instance_types"@).col_idx("id"@) == c_id as int);
        if !dbo.has_table("role_instance_visibility"@) || dbo.table(
            "role_instance_visibility"@,
        ).rows@.len() == 0 {
            assert(dbe.tables@[vvi as int].rows@.len() == 0) by {
                if had_vis {
                    assert(dbc.tables@[vvi as int] == dbc.table("role_instance_visibility"@));
                } else {
                    assert(vvi as int == dbt.tables@.len() as int);
                    assert(dbc.tables@[vvi as int] == dbc.tables@.last());
                }
                assert(dbe.tables@[vvi as int] == dbc.tables@[vvi as int]);
            };
        }
        let touched = spec_v5_touched();
        assert(touched[0] == "instance_types"@ && touched[1] == "role_instance_visibility"@);
        assert forall|x: int|
            0 <= x < dbo.tables@.len() && !touched.contains(
                (#[trigger] dbo.tables@[x]).name@,
            ) implies db.tables@.contains(dbo.tables@[x]) by {
            let t2 = dbo.tables@[x];
            assert(t2.name@ != "instance_types"@ && t2.name@ != "role_instance_visibility"@);
            assert(dbc.tables@[x] == t2);
            assert(x != iti && x != vvi);
            assert(db.tables@[x] == t2);
        }
        assert(spec_tables_kept(dbo, *db, touched));
    }
    Ok(())
}

/// When the first transformation refuses: the legacy blob shape is
/// present but cannot be read, or a name it must claim is taken.
pub open spec fn spec_v1_refuses(db: Db) -> bool {
    &&& crate::accounts::spec_v1_probe(db)
    &&& {
        ||| !db.table("accounts"@).has_col("id"@)
        ||| (db.table("accounts"@).has_col("id"@) && crate::accounts::spec_v1_pairs(db).len() > 0
            && crate::accounts::spec_v1_conflict(db))
    }
}

/// When the step for a version refuses to run, as a condition on the
/// state it is handed; a failed step leaves that state untouched, so
/// this also describes the state a failed run returns.
pub open spec fn spec_step_refuses(version: int, db: Db) -> bool {
    if version == 1 {
        spec_v1_refuses(db)
    } else if version == 2 {
        spec_v2_conflict(db)
    } else if version == 3 {
        false
    } else if version == 4 {
        !spec_seed_schema_ok(db)
    } else if version == 5 {
        !spec_v5_ready(db)
    } else {
        true
    }
}

/// Whether the ledger records this version.
pub open spec fn spec_has_version(l: Seq<crate::table::VersionRow>, v: int) -> bool {
    exists|j: int| 0 <= j < l.len() && (#[trigger] l[j]).version as int == v
}

/// Every table name some migration step may claim or rework; a table
/// under any other name survives every run untouched.
pub open spec fn spec_migration_touched() -> Seq<Seq<char>> {
    seq![
        "accounts"@,
        "accounts_legacy"@,
        "roles"@,
        "raids"@,
        "raid_bosses"@,
        "raid_versions"@,
        "raids_legacy"@,
        "trial_records"@,
        "baizhan_records"@,
        "instance_types"@,
        "role_instance_visibility"@,
    ]
}

/// Dispatches one migration step by its target version. Exactly one
/// step exists per version up to the latest; asking for any other
/// version is a fatal configuration error, never a silent skip.
pub fn apply_step(db: &mut Db, version: i64, now: &String) -> (r: Result<(), MigrationError>)
    requires
        old(db).wf(),
    ensures
        final(db).wf(),
        final(db).ledger == old(db).ledger,
        (version < 1 || version > LATEST_SCHEMA_VERSION) <==> r == Err::<(), MigrationError>(
            MigrationError::UnknownVersion,
        ),
        (version < 1 || version > LATEST_SCHEMA_VERSION) ==> *final(db) == *old(db),
        spec_tables_kept(*old(db), *final(db), spec_migration_touched()),
        1 <= version <= LATEST_SCHEMA_VERSION ==> (r matches Err(e) ==> (e
            == MigrationError::NameConflict || e == MigrationError::BadLegacySchema || e
            == MigrationError::MissingSchema) && *final(db) == *old(db)),
        1 <= version <= LATEST_SCHEMA_VERSION ==> (r is Err <==> spec_step_refuses(
            version as int,
            *old(db),
        )),
{
    proof {
        let touched = spec_migration_touched();
        assert(touched[0] == "accounts"@ && touched[1] == "accounts_legacy"@ && touched[2]
            == "roles"@ && touched[3] == "raids"@ && touched[4] == "raid_bosses"@ && touched[5]
            == "raid_versions"@ && touched[6] == "raids_legacy"@ && touched[7]
            == "trial_records"@ && touched[8] == "baizhan_records"@ && touched[9]
            == "instance_types"@ && touched[10] == "role_instance_visibility"@);
    }
    let ghost dbo = *db;
    let ghost touched = spec_migration_touched();
    if version == 1 {
        let r = migrate_v1(db, now);
        proof {
            assert forall|x: int|
                0 <= x < dbo.tables@.len() && !touched.contains(
                    (#[trigger] dbo.tables@[x]).name@,
                ) implies db.tables@.contains(dbo.tables@[x]) by {
                if *db == dbo {
                    assert(db.tables@[x] == dbo.tables@[x]);
                } else {
                    crate::table::lemma_find_table_range(dbo.tables@, "accounts"@);
                    assert(dbo.tables@[dbo.table_idx("accounts"@)].name@ == "accounts"@);
                    assert(x != dbo.table_idx("accounts"@));
                    assert(db.tables@[x] == dbo.tables@[x]);
                }
            }
        }
        r
    } else if version == 2 {
        let ds = static_raids();
        let r = match migrate_v2(db, &ds) {
            Ok(_) => Ok(()),
            Err(e) => Err(e),
        };
        proof {
            if r is Ok {
                crate::table::lemma_tables_kept_widen(dbo, *db, spec_v2_touched(), touched);
            } else {
                assert forall|x: int|
                    0 <= x < dbo.tables@.len() && !touched.contains(
                        (#[trigger] dbo.tables@[x]).name@,
                    ) implies db.tables@.contains(dbo.tables@[x]) by {
                    assert(db.tables@[x] == dbo.tables@[x]);
                }
            }
        }
        r
    } else if version == 3 {
        let r = migrate_v3(db);
        proof {
            assert forall|x: int|
                0 <= x < dbo.tables@.len() && !touched.contains(
                    (#[trigger] dbo.tables@[x]).name@,
                ) implies db.tables@.contains(dbo.tables@[x]) by {
                let t2 = dbo.tables@[x];
                assert(t2.name@ != "trial_records"@ && t2.name@ != "baizhan_records"@);
                if dbo.has_table("trial_records"@) {
                    crate::table::lemma_find_table_range(dbo.tables@, "trial_records"@);
                    assert(dbo.tables@[dbo.table_idx("trial_records"@)].name@
                        == "trial_records"@);
                    assert(x != dbo.table_idx("trial_records"@));
                }
                if dbo.has_table("baizhan_records"@) {
                    crate::table::lemma_find_table_range(dbo.tables@, "baizhan_records"@);
                    assert(dbo.tables@[dbo.table_idx("baizhan_records"@)].name@
                        == "baizhan_records"@);
                    assert(x != dbo.table_idx("baizhan_records"@));
                }
                assert(db.tables@[x] == dbo.tables@[x]);
            }
        }
        r
    } else if version == 4 {
        let ds = static_raids();
        let r = match migrate_v4(db, &ds) {
            Ok(_) => Ok(()),
            Err(e) => Err(e),
        };
        proof {
            if r is Ok {
                crate::table::lemma_tables_kept_widen(dbo, *db, spec_v4_touched(), touched);
            } else {
                assert forall|x: int|
                    0 <= x < dbo.tables@.len() && !touched.contains(
                        (#[trigger] dbo.tables@[x]).name@,
                    ) implies db.tables@.contains(dbo.tables@[x]) by {
                    assert(db.tables@[x] == dbo.tables@[x]);
                }
            }
        }
        r
    } else if version == 5 {
        let r = migrate_v5(db, now);
        proof {
            if r is Ok {
                crate::table::lemma_tables_kept_widen(dbo, *db, spec_v5_touched(), touched);
            } else {
                assert forall|x: int|
                    0 <= x < dbo.tables@.len() && !touched.contains(
                        (#[trigger] dbo.tables@[x]).name@,
                    ) implies db.tables@.contains(dbo.tables@[x]) by {
                    assert(db.tables@[x] == dbo.tables@[x]);
                }
            }
        }
        r
    } else {
        Err(MigrationError::UnknownVersion)
    }
}

/// The migration executor: reads the current version and applies each
/// missing step in strictly ascending order, recording a version in
/// the ledger only after its step has been applied. A failure aborts
/// the run with the ledger at the last completed version, so the next
/// run resumes exactly there; a file already at the latest version is
/// returned untouched. Whatever happens, every table outside the
/// migration's reach survives untouched, and the only ledger rows
/// added are those of the steps that completed.
pub fn apply_migrations(db: &mut Db) -> (r: Result<(), MigrationError>)
    requires
        old(db).wf(),
    ensures
        final(db).wf(),
        spec_tables_kept(*old(db), *final(db), spec_migration_touched()),
        ({
            let before = spec_current_version(old(db).ledger@);
            let after = spec_current_version(final(db).ledger@);
            &&& (before >= LATEST_SCHEMA_VERSION ==> *final(db) == *old(db) && r == Ok::<
                (),
                MigrationError,
            >(()))
            &&& (r is Ok ==> after == if before >= LATEST_SCHEMA_VERSION {
                before
            } else {
                LATEST_SCHEMA_VERSION as int
            })
            &&& (r is Err ==> before <= after < LATEST_SCHEMA_VERSION)
            &&& (r matches Err(e) ==> e == MigrationError::NameConflict || e
                == MigrationError::BadLegacySchema || e == MigrationError::MissingSchema)
            &&& (r is Err ==> spec_step_refuses(after + 1, *final(db)))
            &&& (forall|w: int| before < w <= after ==> spec_has_version(final(db).ledger@, w))
            &&& (forall|j: int|
                0 <= j < final(db).ledger@.len() ==> old(db).ledger@.contains(
                    #[trigger] final(db).ledger@[j],
                ) || (before < (final(db).ledger@[j].version as int) && (final(db).ledger@[j].version as int) <= after))
        }),
{
    let cur = get_current_version(db);
    if cur >= LATEST_SCHEMA_VERSION {
        return Ok(());
    }
    proof {
        crate::ledger::lemma_current_version_bounds(db.ledger@);
    }
    let mut v = cur;
    while v < LATEST_SCHEMA_VERSION
        invariant
            db.wf(),
            0 <= cur <= v <= LATEST_SCHEMA_VERSION,
            cur as int == spec_current_version(old(db).ledger@),
            v as int == spec_current_version(db.ledger@),
            spec_tables_kept(*old(db), *db, spec_migration_touched()),
            forall|w: int| (cur as int) < w <= (v as int) ==> spec_has_version(db.ledger@, w),
            forall|j: int|
                0 <= j < db.ledger@.len() ==> old(db).ledger@.contains(#[trigger] db.ledger@[j])
                    || ((cur as int) < (db.ledger@[j].version as int) && (db.ledger@[j].version as int) <= (v as int)),
        decreases LATEST_SCHEMA_VERSION - v,
    {
        let next = v + 1;
        let ts = now_rfc3339();
        let ghost dbstart = *db;
        match apply_step(db, next, &ts) {
            Ok(()) => {},
            Err(e) => {
                proof {
                    crate::table::lemma_tables_kept_trans(
                        *old(db),
                        dbstart,
                        *db,
                        spec_migration_touched(),
                    );
                }
                return Err(e);
            },
        }
        proof {
            crate::table::lemma_tables_kept_trans(
                *old(db),
                dbstart,
                *db,
                spec_migration_touched(),
            );
        }
        let desc = version_description(next);
        let ghost lprev = db.ledger@;
        crate::ledger::mark_version_applied(db, next, desc);
        proof {
            crate::ledger::lemma_current_version_bounds(old(db).ledger@);
            assert forall|j: int| 0 <= j < lprev.len() implies (#[trigger] lprev[j]).version
                != next by {
                if old(db).ledger@.contains(lprev[j]) {
                    let w = choose|w: int|
                        0 <= w < old(db).ledger@.len() && old(db).ledger@[w] == lprev[j];
                    assert(old(db).ledger@[w].version <= cur);
                }
            }
            assert(db.ledger@.len() == lprev.len() + 1);
            assert(db.ledger@.last().version == next);
            assert(forall|x: int| 0 <= x < lprev.len() ==> (#[trigger] db.ledger@[x]) == lprev[x]);
            assert forall|w: int| (cur as int) < w <= (next as int) implies spec_has_version(
                db.ledger@,
                w,
            ) by {
                if w <= v {
                    assert(spec_has_version(lprev, w));
                    let j = choose|j: int|
                        0 <= j < lprev.len() && (#[trigger] lprev[j]).version as int == w;
                    assert(db.ledger@[j].version as int == w);
                    assert(spec_has_version(db.ledger@, w));
                } else {
                    assert(db.ledger@[db.ledger@.len() - 1].version as int == w);
                    assert(spec_has_version(db.ledger@, w));
                }
            }
            assert forall|j: int| 0 <= j < db.ledger@.len() implies old(db).ledger@.contains(
                #[trigger] db.ledger@[j],
            ) || ((cur as int) < (db.ledger@[j].version as int) && (db.ledger@[j].version
                as int) <= (next as int)) by {
                if j < lprev.len() {
                    assert(db.ledger@[j] == lprev[j]);
                }
            }
        }
        v = next;
    }
    Ok(())
}

/// A handle to an opened, fully migrated store. It is only built by
/// [`Database::open`], which runs the whole detect-create-upgrade
/// sequence; holding the process's single handle is what makes the
/// bootstrap run exactly once, instead of an ambient mutable flag.
pub struct Database {
    pub db: Db,
}

impl Database {
    /// The ledger records at least the latest schema version.
    pub open spec fn migrated(self) -> bool {
        spec_current_version(self.db.ledger@) >= LATEST_SCHEMA_VERSION as int
    }

    /// Opens the store with an explicit dataset: a fresh file gets the
    /// latest schema laid down, the target version recorded and the
    /// dataset seeded — and cannot fail; an existing file is migrated
    /// up from whatever version it records, then seeded. A file that
    /// is already at the latest version, well shaped and fully seeded
    /// comes back exactly as it went in, so a second bootstrap changes
    /// nothing; and whatever happens, every table outside the
    /// migration's reach survives untouched.
    pub fn open_with(db: Db, fresh: bool, dataset: &Vec<SeedRaid>) -> (r: Result<
        Database,
        MigrationError,
    >)
        requires
            db.wf(),
            fresh ==> db.tables@.len() == 0 && db.ledger@.len() == 0,
        ensures
            match r {
                Ok(d) => {
                    &&& d.db.wf()
                    &&& d.migrated()
                    &&& spec_seed_schema_ok(d.db)
                    &&& spec_seed_complete(d.db, dataset@)
                    &&& spec_current_version(d.db.ledger@) == if spec_current_version(db.ledger@)
                        >= LATEST_SCHEMA_VERSION as int {
                        spec_current_version(db.ledger@)
                    } else {
                        LATEST_SCHEMA_VERSION as int
                    }
                    &&& spec_tables_kept(db, d.db, spec_migration_touched())
                    &&& (fresh ==> spec_latest_schema(d.db) && d.db.tables@.len() == 15
                        && !d.db.has_table("accounts_legacy"@) && !d.db.has_table(
                        "raids_legacy"@,
                    ))
                },
                Err(e) => e == MigrationError::NameConflict || e
                    == MigrationError::BadLegacySchema || e == MigrationError::MissingSchema,
            },
            fresh ==> r is Ok,
            spec_current_version(db.ledger@) >= LATEST_SCHEMA_VERSION as int
                && spec_seed_schema_ok(db) && spec_seed_complete(db, dataset@) ==> (r matches Ok(d)
                && d.db == db),
    {
        let ghost db0 = db;
        let mut db = db;
        if fresh {
            create_latest_schema(&mut db);
            let ghost created = db;
            let ts = now_rfc3339();
            record_version(&mut db, LATEST_SCHEMA_VERSION, ts, String::from_str("初始安装"));
            let ghost recorded = db;
            proof {
                assert(recorded.tables == created.tables);
                assert(spec_seed_schema_ok(recorded));
            }
            match seed(&mut db, dataset) {
                Ok(_) => {},
                Err(e) => {
                    proof {
                        assert(false);
                    }
                    return Err(e);
                },
            }
            proof {
                assert(spec_latest_schema(recorded));
                assert(spec_latest_schema(db)) by {
                    lemma_shaped_preserved(recorded, db, "records"@, crate::schema::spec_records_shape());
                    lemma_shaped_preserved(recorded, db, "config"@, crate::schema::spec_config_shape());
                    lemma_shaped_preserved(recorded, db, "cache"@, crate::schema::spec_cache_shape());
                    lemma_shaped_preserved(recorded, db, "migration_flags"@, crate::schema::spec_migration_flags_shape());
                    lemma_shaped_preserved(recorded, db, "equipments"@, crate::schema::spec_equipments_shape());
                    lemma_shaped_preserved(recorded, db, "trial_records"@, spec_trial_records_shape());
                    lemma_shaped_preserved(recorded, db, "baizhan_records"@, spec_baizhan_records_shape());
                    lemma_shaped_preserved(recorded, db, "accounts"@, crate::schema::spec_accounts_shape());
                    lemma_shaped_preserved(recorded, db, "roles"@, crate::schema::spec_roles_shape());
                    lemma_shaped_preserved(recorded, db, "raids"@, spec_raids_shape());
                    lemma_shaped_preserved(recorded, db, "raid_bosses"@, spec_raid_bosses_shape());
                    lemma_shaped_preserved(recorded, db, "raid_versions"@, spec_raid_versions_shape());
                    lemma_shaped_preserved(recorded, db, "favorite_raids"@, spec_favorite_raids_shape());
                    lemma_shaped_preserved(recorded, db, "instance_types"@, spec_instance_types_shape());
                    lemma_shaped_preserved(recorded, db, "role_instance_visibility"@, spec_role_instance_visibility_shape());
                }
                assert(forall|j: int|
                    0 <= j < recorded.tables@.len() ==> (#[trigger] db.tables@[j]).name@
                        == recorded.tables@[j].name@);
                crate::table::lemma_find_table_names(
                    recorded.tables@,
                    db.tables@,
                    "accounts_legacy"@,
                );
                crate::table::lemma_find_table_names(
                    recorded.tables@,
                    db.tables@,
                    "raids_legacy"@,
                );
                assert(spec_tables_kept(db0, db, spec_migration_touched()));
            }
            Ok(Database { db })
        } else {
            match apply_migrations(&mut db) {
                Ok(()) => {},
                Err(e) => {
                    return Err(e);
                },
            }
            let ghost mid = db;
            match seed(&mut db, dataset) {
                Ok(_) => {},
                Err(e) => {
                    return Err(e);
                },
            }
            proof {
                crate::table::lemma_find_table_range(mid.tables@, "raids"@);
                crate::table::lemma_find_table_range(mid.tables@, "raid_bosses"@);
                crate::table::lemma_find_table_range(mid.tables@, "raid_versions"@);
                let touched = spec_migration_touched();
                assert(touched[3] == "raids"@ && touched[4] == "raid_bosses"@ && touched[5]
                    == "raid_versions"@);
                assert forall|x: int|
                    0 <= x < mid.tables@.len() && !touched.contains(
                        (#[trigger] mid.tables@[x]).name@,
                    ) implies db.tables@.contains(mid.tables@[x]) by {
                    let t2 = mid.tables@[x];
                    assert(t2.name@ != "raids"@ && t2.name@ != "raid_bosses"@ && t2.name@
                        != "raid_versions"@);
                    assert(mid.tables@[mid.table_idx("raids"@)].name@ == "raids"@);
                    assert(mid.tables@[mid.table_idx("raid_bosses"@)].name@ == "raid_bosses"@);
                    assert(mid.tables@[mid.table_idx("raid_versions"@)].name@
                        == "raid_versions"@);
                    assert(x != mid.table_idx("raids"@));
                    assert(x != mid.table_idx("raid_bosses"@));
                    assert(x != mid.table_idx("raid_versions"@));
                    assert(db.tables@[x] == mid.tables@[x]);
                }
                crate::table::lemma_tables_kept_trans(db0, mid, db, spec_migration_touched());
            }
            Ok(Database { db })
        }
    }

    /// Opens the store with the shipped static dataset. The clauses
    /// that speak of the dataset's contents live on [`Self::open_with`],
    /// which this calls with [`static_raids`].
    pub fn open(db: Db, fresh: bool) -> (r: Result<Database, MigrationError>)
        requires
            db.wf(),
            fresh ==> db.tables@.len() == 0 && db.ledger@.len() == 0,
        ensures
            match r {
                Ok(d) => {
                    &&& d.db.wf()
                    &&& d.migrated()
                    &&& spec_seed_schema_ok(d.db)
                    &&& spec_current_version(d.db.ledger@) == if spec_current_version(db.ledger@)
                        >= LATEST_SCHEMA_VERSION as int {
                        spec_current_version(db.ledger@)
                    } else {
                        LATEST_SCHEMA_VERSION as int
                    }
                    &&& spec_tables_kept(db, d.db, spec_migration_touched())
                    &&& (fresh ==> spec_latest_schema(d.db) && d.db.tables@.len() == 15
                        && !d.db.has_table("accounts_legacy"@) && !d.db.has_table(
                        "raids_legacy"@,
                    ))
                },
                Err(e) => e == MigrationError::NameConflict || e
                    == MigrationError::BadLegacySchema || e == MigrationError::MissingSchema,
            },
            fresh ==> r is Ok,
    {
        let ds = static_raids();
        Database::open_with(db, fresh, &ds)
    }
}

} // verus!
