use jx3_store::accounts::migrate_v1;
use jx3_store::engine::apply_migrations;
use jx3_store::engine::is_migration_needed;
use jx3_store::engine::migrate_v2;
use jx3_store::engine::migrate_v3;
use jx3_store::engine::migrate_v5;
use jx3_store::engine::Database;
use jx3_store::ledger::get_current_version;
use jx3_store::seed::static_raids;
use jx3_store::table::col;
use jx3_store::table::ColType;
use jx3_store::table::Db;
use jx3_store::table::SqlValue;
use jx3_store::table::Table;
use jx3_store::LATEST_SCHEMA_VERSION;

fn legacy_accounts_db(rows: Vec<(&str, &str)>) -> Db {
    let table = Table {
        name: "accounts".to_string(),
        cols: vec![col("id", ColType::Text), col("data", ColType::Text)],
        rows: rows
            .into_iter()
            .map(|(id, data)| {
                vec![
                    SqlValue::Text(id.to_string()),
                    SqlValue::Text(data.to_string()),
                ]
            })
            .collect(),
    };
    Db { ledger: Vec::new(), tables: vec![table] }
}

fn text_cell(t: &Table, row: usize, name: &str) -> String {
    let c = t.find_col(name).expect("column present");
    match &t.rows[row][c] {
        SqlValue::Text(s) => s.clone(),
        other => panic!("expected text, found {:?}", std::mem::discriminant(other)),
    }
}

fn int_cell(t: &Table, row: usize, name: &str) -> i64 {
    let c = t.find_col(name).expect("column present");
    match &t.rows[row][c] {
        SqlValue::Int(i) => *i,
        _ => panic!("expected an integer cell"),
    }
}

#[test]
fn fresh_install_reaches_latest_version() {
    let d = Database::open(Db { ledger: Vec::new(), tables: Vec::new() }, true).expect("opens");
    assert_eq!(get_current_version(&d.db), LATEST_SCHEMA_VERSION);
    for name in [
        "records",
        "config",
        "cache",
        "accounts",
        "roles",
        "raids",
        "raid_bosses",
        "raid_versions",
        "trial_records",
        "baizhan_records",
        "favorite_raids",
        "instance_types",
        "role_instance_visibility",
        "migration_flags",
        "equipments",
    ] {
        assert!(d.db.table_exists(name), "missing table {}", name);
    }
    assert!(d.db.find_table("accounts_legacy").is_none());
    assert!(d.db.find_table("raids_legacy").is_none());
    let ri = d.db.find_table("raids").unwrap();
    assert!(d.db.tables[ri].rows.len() > 0, "seed dataset present");
}

#[test]
fn bootstrap_is_idempotent() {
    let d = Database::open(Db { ledger: Vec::new(), tables: Vec::new() }, true).expect("opens");
    let v1 = get_current_version(&d.db);
    let tables: Vec<(String, usize)> =
        d.db.tables.iter().map(|t| (t.name.clone(), t.rows.len())).collect();
    let ledger_len = d.db.ledger.len();
    let d2 = Database::open(d.db, false).expect("reopens");
    assert_eq!(get_current_version(&d2.db), v1);
    let d3 = Database::open(d2.db, false).expect("reopens again");
    assert_eq!(get_current_version(&d3.db), v1);
    let tables3: Vec<(String, usize)> =
        d3.db.tables.iter().map(|t| (t.name.clone(), t.rows.len())).collect();
    assert_eq!(tables, tables3, "later bootstraps change no table");
    assert_eq!(d3.db.ledger.len(), ledger_len, "and record nothing new");
}

#[test]
fn migrations_skip_a_current_file() {
    let d = Database::open(Db { ledger: Vec::new(), tables: Vec::new() }, true).expect("opens");
    let tables_before = d.db.tables.len();
    let rows_before: Vec<usize> = d.db.tables.iter().map(|t| t.rows.len()).collect();
    let mut db = d.db;
    apply_migrations(&mut db).expect("no work left");
    assert_eq!(db.tables.len(), tables_before);
    let rows_after: Vec<usize> = db.tables.iter().map(|t| t.rows.len()).collect();
    assert_eq!(rows_before, rows_after);
    let n = jx3_store::seed::seed(&mut db, &jx3_store::seed::static_raids()).expect("seeds");
    assert_eq!(n, 0);
}

#[test]
fn legacy_account_blob_is_split() {
    let mut db = legacy_accounts_db(vec![(
        "acc-1",
        "{\"username\":\"foo\",\"roles\":[{\"name\":\"bar\"}]}",
    )]);
    assert!(is_migration_needed(&db));
    let ts = "2024-01-01T00:00:00Z".to_string();
    migrate_v1(&mut db, &ts).expect("migrates");
    assert!(!is_migration_needed(&db));

    let li = db.find_table("accounts_legacy").expect("audit copy kept");
    let legacy = &db.tables[li];
    assert_eq!(legacy.rows.len(), 1);
    assert_eq!(text_cell(legacy, 0, "id"), "acc-1");
    assert_eq!(
        text_cell(legacy, 0, "data"),
        "{\"username\":\"foo\",\"roles\":[{\"name\":\"bar\"}]}"
    );

    let ai = db.find_table("accounts").expect("structured accounts");
    let accounts = &db.tables[ai];
    assert_eq!(accounts.rows.len(), 1);
    assert_eq!(text_cell(accounts, 0, "id"), "acc-1");
    assert_eq!(text_cell(accounts, 0, "account_name"), "foo");
    assert_eq!(text_cell(accounts, 0, "account_type"), "OWN");
    assert_eq!(int_cell(accounts, 0, "hidden"), 0);

    let ri = db.find_table("roles").expect("structured roles");
    let roles = &db.tables[ri];
    assert_eq!(roles.rows.len(), 1);
    assert_eq!(text_cell(roles, 0, "name"), "bar");
    assert_eq!(text_cell(roles, 0, "account_id"), "acc-1");
    assert_eq!(text_cell(roles, 0, "id"), "bar");
}

#[test]
fn account_name_prefers_new_field() {
    let mut db = legacy_accounts_db(vec![(
        "a",
        "{\"accountName\":\"new\",\"username\":\"old\",\"type\":\"FRIEND\",\"hidden\":true}",
    )]);
    let ts = "t".to_string();
    migrate_v1(&mut db, &ts).expect("migrates");
    let ai = db.find_table("accounts").unwrap();
    assert_eq!(text_cell(&db.tables[ai], 0, "account_name"), "new");
    assert_eq!(text_cell(&db.tables[ai], 0, "account_type"), "FRIEND");
    assert_eq!(int_cell(&db.tables[ai], 0, "hidden"), 1);
}

#[test]
fn role_count_matches_input_and_links_back() {
    let mut db = legacy_accounts_db(vec![
        (
            "a1",
            "{\"username\":\"u1\",\"roles\":[{\"name\":\"r1\"},{\"name\":\"r2\",\"equipmentScore\":\"5000\"},{\"name\":\"r3\"}]}",
        ),
        ("a2", "not valid json at all"),
        ("a3", "{\"username\":\"u3\"}"),
    ]);
    let ts = "t".to_string();
    migrate_v1(&mut db, &ts).expect("migrates");
    let ai = db.find_table("accounts").unwrap();
    assert_eq!(db.tables[ai].rows.len(), 2, "unparsable blob skipped");
    let ri = db.find_table("roles").unwrap();
    let roles = &db.tables[ri];
    assert_eq!(roles.rows.len(), 3, "one row per role entry");
    let accounts = &db.tables[ai];
    let idc = accounts.find_col("id").unwrap();
    for row in 0..roles.rows.len() {
        let owner = text_cell(roles, row, "account_id");
        assert!(accounts.find_row_text(idc, &owner).is_some(), "role links to a stored account");
    }
    assert_eq!(int_cell(roles, 1, "equipment_score"), 5000, "score parsed from text");
}

#[test]
fn rerunning_the_first_step_changes_nothing() {
    let mut db = legacy_accounts_db(vec![("a", "{\"username\":\"u\"}")]);
    let ts = "t".to_string();
    migrate_v1(&mut db, &ts).expect("migrates");
    let tables_before = db.tables.len();
    migrate_v1(&mut db, &ts).expect("no-op on the structured shape");
    assert_eq!(db.tables.len(), tables_before);
}

#[test]
fn date_column_narrows_through_the_swap() {
    let old_trial = Table {
        name: "trial_records".to_string(),
        cols: vec![
            col("id", ColType::Text),
            col("account_id", ColType::Text),
            col("role_id", ColType::Text),
            col("layer", ColType::Integer),
            col("bosses", ColType::Text),
            col("card_1", ColType::Text),
            col("card_2", ColType::Text),
            col("card_3", ColType::Text),
            col("card_4", ColType::Text),
            col("card_5", ColType::Text),
            col("flipped_index", ColType::Integer),
            col("date", ColType::Text),
            col("notes", ColType::Text),
            col("updated_at", ColType::Text),
        ],
        rows: vec![vec![
            SqlValue::Text("t1".to_string()),
            SqlValue::Text("a1".to_string()),
            SqlValue::Text("r1".to_string()),
            SqlValue::Int(9),
            SqlValue::Text("[]".to_string()),
            SqlValue::Text("c1".to_string()),
            SqlValue::Text("c2".to_string()),
            SqlValue::Text("c3".to_string()),
            SqlValue::Text("c4".to_string()),
            SqlValue::Text("c5".to_string()),
            SqlValue::Int(2),
            SqlValue::Text("2024-05-06".to_string()),
            SqlValue::Null,
            SqlValue::Null,
        ]],
    };
    let mut db = Db { ledger: Vec::new(), tables: vec![old_trial] };
    migrate_v3(&mut db).expect("reshapes");
    let ti = db.find_table("trial_records").unwrap();
    let t = &db.tables[ti];
    assert_eq!(t.cols.len(), 17);
    assert_eq!(int_cell(t, 0, "date"), 2024, "text date cast to its leading number");
    assert_eq!(text_cell(t, 0, "role_name"), "", "added column filled with its default");
    assert_eq!(text_cell(t, 0, "record_type"), "trial");
    assert_eq!(int_cell(t, 0, "layer"), 9);
    let bi = db.find_table("baizhan_records").unwrap();
    assert_eq!(db.tables[bi].rows.len(), 0, "missing table laid down fresh");
}

#[test]
fn upgrade_from_a_version_zero_file() {
    let mut db = legacy_accounts_db(vec![(
        "acc-1",
        "{\"username\":\"foo\",\"roles\":[{\"name\":\"bar\"}]}",
    )]);
    let d = Database::open(db, false).expect("upgrades");
    db = d.db;
    assert_eq!(get_current_version(&db), LATEST_SCHEMA_VERSION);
    assert!(db.find_table("accounts_legacy").is_some());
    let ai = db.find_table("accounts").unwrap();
    assert_eq!(text_cell(&db.tables[ai], 0, "account_name"), "foo");
    let ri = db.find_table("raids").unwrap();
    assert!(db.tables[ri].rows.len() > 0, "static raids seeded");
    let iti = db.find_table("instance_types").unwrap();
    assert_eq!(db.tables[iti].rows.len(), 3, "three instance categories");
    let vi = db.find_table("role_instance_visibility").unwrap();
    assert_eq!(db.tables[vi].rows.len(), 3, "one role gets one row per category");
}

#[test]
fn rerunning_the_reshape_changes_nothing() {
    let final_shape = Table {
        name: "trial_records".to_string(),
        cols: vec![
            col("id", ColType::Text),
            col("account_id", ColType::Text),
            col("role_id", ColType::Text),
            col("role_name", ColType::Text),
            col("server", ColType::Text),
            col("layer", ColType::Integer),
            col("bosses", ColType::Text),
            col("card_1", ColType::Text),
            col("card_2", ColType::Text),
            col("card_3", ColType::Text),
            col("card_4", ColType::Text),
            col("card_5", ColType::Text),
            col("flipped_index", ColType::Integer),
            col("record_type", ColType::Text),
            col("date", ColType::Integer),
            col("notes", ColType::Text),
            col("updated_at", ColType::Text),
        ],
        rows: vec![vec![
            SqlValue::Text("t1".to_string()),
            SqlValue::Text("a1".to_string()),
            SqlValue::Text("r1".to_string()),
            SqlValue::Null,
            SqlValue::Null,
            SqlValue::Int(3),
            SqlValue::Text("[]".to_string()),
            SqlValue::Null,
            SqlValue::Null,
            SqlValue::Null,
            SqlValue::Null,
            SqlValue::Null,
            SqlValue::Int(0),
            SqlValue::Text("trial".to_string()),
            SqlValue::Int(2024),
            SqlValue::Null,
            SqlValue::Null,
        ]],
    };
    let mut db = Db { ledger: Vec::new(), tables: vec![final_shape] };
    migrate_v3(&mut db).expect("runs");
    let ti = db.find_table("trial_records").unwrap();
    let t = &db.tables[ti];
    assert_eq!(t.rows.len(), 1);
    let rn = t.find_col("role_name").unwrap();
    assert!(
        matches!(t.rows[0][rn], SqlValue::Null),
        "a null cell in an already-migrated table stays null"
    );
    let dc = t.find_col("date").unwrap();
    assert!(matches!(t.rows[0][dc], SqlValue::Int(2024)));
}

#[test]
fn migrations_leave_unrelated_tables_alone() {
    let keep = Table {
        name: "user_notes".to_string(),
        cols: vec![col("id", ColType::Text), col("body", ColType::Text)],
        rows: vec![vec![
            SqlValue::Text("n1".to_string()),
            SqlValue::Text("do not lose this".to_string()),
        ]],
    };
    let accounts = Table {
        name: "accounts".to_string(),
        cols: vec![col("id", ColType::Text), col("data", ColType::Text)],
        rows: vec![vec![
            SqlValue::Text("a1".to_string()),
            SqlValue::Text("{\"username\":\"u\",\"roles\":[{\"name\":\"r\"}]}".to_string()),
        ]],
    };
    let mut db = Db { ledger: Vec::new(), tables: vec![keep, accounts] };
    apply_migrations(&mut db).expect("migrates a legacy file");
    let ki = db.find_table("user_notes").expect("the unrelated table survives");
    assert_eq!(db.tables[ki].rows.len(), 1);
    match &db.tables[ki].rows[0][1] {
        SqlValue::Text(s) => assert_eq!(s, "do not lose this"),
        _ => panic!("expected text"),
    }
}

#[test]
fn rebuilt_raids_hold_only_dataset_rows() {
    let legacy = Table {
        name: "raids".to_string(),
        cols: vec![col("id", ColType::Text), col("data", ColType::Text)],
        rows: vec![vec![
            SqlValue::Text("user-raid".to_string()),
            SqlValue::Text("{\"name\":\"手工副本\"}".to_string()),
        ]],
    };
    let mut db = Db { ledger: Vec::new(), tables: vec![legacy] };
    let dataset = static_raids();
    migrate_v2(&mut db, &dataset).expect("rebuilds");
    let ri = db.find_table("raids").unwrap();
    let t = &db.tables[ri];
    let expected: usize = dataset.iter().map(|r| r.configurations.len()).sum();
    assert_eq!(t.rows.len(), expected, "one row per shipped configuration");
    for row in 0..t.rows.len() {
        assert_eq!(int_cell(t, row, "is_static"), 1, "every rebuilt row is shipped data");
    }
    let names: Vec<String> = (0..t.rows.len()).map(|r| text_cell(t, r, "name")).collect();
    assert!(!names.contains(&"手工副本".to_string()), "the user blob row is gone from raids");
    let li = db.find_table("raids_legacy").unwrap();
    assert_eq!(db.tables[li].rows.len(), 1, "the blob row survives in the archive");
}

#[test]
fn visibility_backfill_covers_every_role_and_category() {
    let roles = Table {
        name: "roles".to_string(),
        cols: vec![col("id", ColType::Text), col("name", ColType::Text)],
        rows: vec![
            vec![SqlValue::Text("r1".to_string()), SqlValue::Text("甲".to_string())],
            vec![SqlValue::Text("r2".to_string()), SqlValue::Text("乙".to_string())],
        ],
    };
    let mut db = Db { ledger: Vec::new(), tables: vec![roles] };
    let now = "2024-05-01T00:00:00+00:00".to_string();
    migrate_v5(&mut db, &now).expect("backfills");
    let vi = db.find_table("role_instance_visibility").unwrap();
    let t = &db.tables[vi];
    assert_eq!(t.rows.len(), 6, "two roles, three categories each");
    for role in ["r1", "r2"] {
        for ty in 1..=3 {
            assert!(
                (0..t.rows.len()).any(|r| text_cell(t, r, "role_id") == role
                    && int_cell(t, r, "instance_type_id") == ty
                    && int_cell(t, r, "visible") == 1),
                "a visible row exists for each pair"
            );
        }
    }
    for row in 0..t.rows.len() {
        assert_eq!(int_cell(t, row, "visible"), 1, "every backfilled row is visible");
    }
}
