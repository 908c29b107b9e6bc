use jx3_store::accounts::migrate_v1;
use jx3_store::engine::apply_step;
use jx3_store::engine::migrate_v2;
use jx3_store::ledger::get_current_version;
use jx3_store::ledger::record_version;
use jx3_store::seed::static_raids;
use jx3_store::table::col;
use jx3_store::table::ColType;
use jx3_store::table::Db;
use jx3_store::table::SqlValue;
use jx3_store::table::Table;
use jx3_store::MigrationError;

fn empty_db() -> Db {
    Db { ledger: Vec::new(), tables: Vec::new() }
}

#[test]
fn ledger_defaults_to_zero() {
    assert_eq!(get_current_version(&empty_db()), 0);
}

#[test]
fn ledger_takes_the_maximum() {
    let mut db = empty_db();
    record_version(&mut db, 2, "t2".to_string(), "second".to_string());
    record_version(&mut db, 1, "t1".to_string(), "first".to_string());
    assert_eq!(get_current_version(&db), 2);
    assert_eq!(db.ledger.len(), 2);
}

#[test]
fn recording_a_version_again_is_an_upsert() {
    let mut db = empty_db();
    record_version(&mut db, 1, "t1".to_string(), "first".to_string());
    record_version(&mut db, 1, "t2".to_string(), "first again".to_string());
    assert_eq!(db.ledger.len(), 1);
    assert_eq!(db.ledger[0].applied_at, "t2");
    assert_eq!(get_current_version(&db), 1);
}

#[test]
fn unknown_versions_are_fatal() {
    let now = "t".to_string();
    let mut db = empty_db();
    assert_eq!(apply_step(&mut db, 0, &now), Err(MigrationError::UnknownVersion));
    assert_eq!(apply_step(&mut db, 6, &now), Err(MigrationError::UnknownVersion));
    assert_eq!(apply_step(&mut db, -1, &now), Err(MigrationError::UnknownVersion));
}

#[test]
fn raid_blobs_are_archived_and_reseeded() {
    let legacy_raids = Table {
        name: "raids".to_string(),
        cols: vec![col("id", ColType::Text), col("data", ColType::Text)],
        rows: vec![vec![
            SqlValue::Text("old".to_string()),
            SqlValue::Text("{\"name\":\"旧副本\"}".to_string()),
        ]],
    };
    let mut db = Db { ledger: Vec::new(), tables: vec![legacy_raids] };
    let dataset = static_raids();
    let inserted = migrate_v2(&mut db, &dataset).expect("migrates");
    assert!(inserted > 0);
    let li = db.find_table("raids_legacy").expect("audit copy kept");
    assert_eq!(db.tables[li].rows.len(), 1, "the old blob row survives");
    let ri = db.find_table("raids").expect("structured raids");
    assert_eq!(db.tables[ri].cols.len(), 8);
    assert!(db.tables[ri].rows.len() > 0, "rebuilt from the dataset");
}

#[test]
fn first_step_refuses_a_taken_name() {
    let accounts = Table {
        name: "accounts".to_string(),
        cols: vec![col("id", ColType::Text), col("data", ColType::Text)],
        rows: vec![vec![
            SqlValue::Text("a".to_string()),
            SqlValue::Text("{}".to_string()),
        ]],
    };
    let squatter = Table {
        name: "accounts_legacy".to_string(),
        cols: vec![col("id", ColType::Text)],
        rows: Vec::new(),
    };
    let mut db = Db { ledger: Vec::new(), tables: vec![accounts, squatter] };
    let now = "t".to_string();
    assert_eq!(migrate_v1(&mut db, &now), Err(MigrationError::NameConflict));
    assert_eq!(db.tables.len(), 2, "a refusal leaves the file untouched");
}

#[test]
fn legacy_table_without_ids_is_fatal() {
    let accounts = Table {
        name: "accounts".to_string(),
        cols: vec![col("data", ColType::Text)],
        rows: vec![vec![SqlValue::Text("{}".to_string())]],
    };
    let mut db = Db { ledger: Vec::new(), tables: vec![accounts] };
    let now = "t".to_string();
    assert_eq!(migrate_v1(&mut db, &now), Err(MigrationError::BadLegacySchema));
    assert_eq!(db.tables.len(), 1, "a refusal leaves the file untouched");
}

#[test]
fn fourth_step_needs_the_raids_table() {
    let mut db = empty_db();
    let now = "t".to_string();
    assert_eq!(apply_step(&mut db, 4, &now), Err(MigrationError::MissingSchema));
}

#[test]
fn seeding_an_empty_dataset_inserts_nothing() {
    let d = jx3_store::engine::Database::open(empty_db(), true).expect("opens");
    let mut db = d.db;
    let n = jx3_store::seed::seed(&mut db, &Vec::new()).expect("runs");
    assert_eq!(n, 0);
}
