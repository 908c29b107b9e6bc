use jx3_store::repair::analyze_duplicates;
use jx3_store::repair::RepairError;
use jx3_store::repair::dedup_first;
use jx3_store::repair::deduplicate_accounts;
use jx3_store::repair::deduplicate_raids;
use jx3_store::repair::newest_wins;
use jx3_store::seed::raid_natural_key;
use jx3_store::seed::seed;
use jx3_store::seed::static_raids;
use jx3_store::seed::SeedBoss;
use jx3_store::seed::SeedConfig;
use jx3_store::seed::SeedRaid;
use jx3_store::table::col;
use jx3_store::table::ColType;
use jx3_store::table::Db;
use jx3_store::table::SqlValue;
use jx3_store::table::Table;

fn kv_table(name: &str, rows: Vec<(&str, &str)>) -> Table {
    Table {
        name: name.to_string(),
        cols: vec![col("id", ColType::Text), col("data", ColType::Text)],
        rows: rows
            .into_iter()
            .map(|(id, data)| {
                vec![
                    SqlValue::Text(id.to_string()),
                    SqlValue::Text(data.to_string()),
                ]
            })
            .collect(),
    }
}

fn pairs(rows: Vec<(&str, &str)>) -> Vec<(String, String)> {
    rows.into_iter().map(|(a, b)| (a.to_string(), b.to_string())).collect()
}

#[test]
fn first_occurrence_wins_per_key() {
    let rows = pairs(vec![("a", "1"), ("b", "2"), ("a", "3"), ("c", "4"), ("b", "5")]);
    let (kept, removed) = dedup_first(&rows);
    assert_eq!(removed, 2);
    assert_eq!(kept.len(), 3);
    assert_eq!(kept[0], ("a".to_string(), "1".to_string()));
    assert_eq!(kept[1], ("b".to_string(), "2".to_string()));
    assert_eq!(kept[2], ("c".to_string(), "4".to_string()));
}

#[test]
fn ten_copies_collapse_to_the_first() {
    let mut rows = Vec::new();
    for i in 0..10 {
        rows.push(("same-id".to_string(), format!("{{\"n\":{}}}", i)));
    }
    let t = Table {
        name: "accounts".to_string(),
        cols: vec![col("id", ColType::Text), col("data", ColType::Text)],
        rows: rows
            .iter()
            .map(|(a, b)| vec![SqlValue::Text(a.clone()), SqlValue::Text(b.clone())])
            .collect(),
    };
    let mut db = Db { ledger: Vec::new(), tables: vec![t] };
    let rep = deduplicate_accounts(&mut db).expect("runs");
    assert_eq!(rep.before, 10);
    assert_eq!(rep.removed, 9);
    assert_eq!(rep.kept, 1);
    let ai = db.find_table("accounts").unwrap();
    assert_eq!(db.tables[ai].rows.len(), 1);
    match &db.tables[ai].rows[0][1] {
        SqlValue::Text(s) => assert_eq!(s, "{\"n\":0}", "the first-inserted row is the survivor"),
        _ => panic!("expected text"),
    }
}

#[test]
fn newest_date_wins_per_key() {
    let rows = pairs(vec![
        ("r1", "{\"date\":\"2024-01-02\"}"),
        ("r1", "{\"date\":\"2024-03-01\"}"),
        ("r1", "{\"date\":\"2023-12-31\"}"),
        ("r2", "{\"date\":\"2022-01-01\"}"),
    ]);
    let kept = newest_wins(&rows);
    assert_eq!(kept.len(), 2);
    assert_eq!(kept[0].1, "{\"date\":\"2024-03-01\"}");
    assert_eq!(kept[1].1, "{\"date\":\"2022-01-01\"}");
}

#[test]
fn undated_rows_never_displace_dated_ones() {
    let rows = pairs(vec![
        ("r1", "{\"date\":\"2024-01-02\"}"),
        ("r1", "this is not json"),
        ("r2", "also not json"),
    ]);
    let kept = newest_wins(&rows);
    assert_eq!(kept.len(), 2);
    assert_eq!(kept[0].1, "{\"date\":\"2024-01-02\"}");
    assert_eq!(kept[1].1, "also not json", "an undated row survives only alone");
}

#[test]
fn raids_collapse_through_the_store() {
    let t = kv_table(
        "raids",
        vec![
            ("k", "{\"date\":\"2024-01-01\"}"),
            ("k", "{\"date\":\"2024-06-01\"}"),
        ],
    );
    let mut db = Db { ledger: Vec::new(), tables: vec![t] };
    let rep = deduplicate_raids(&mut db).expect("runs");
    assert_eq!((rep.before, rep.removed, rep.kept), (2, 1, 1));
    let ri = db.find_table("raids").unwrap();
    match &db.tables[ri].rows[0][1] {
        SqlValue::Text(s) => assert_eq!(s, "{\"date\":\"2024-06-01\"}"),
        _ => panic!("expected text"),
    }
}

#[test]
fn analyzer_counts_offending_keys() {
    let accounts = kv_table("accounts", vec![("a", "1"), ("a", "2"), ("b", "3")]);
    let records = kv_table("records", vec![("x", "1")]);
    let raids = kv_table("raids", vec![("k", "1"), ("k", "2"), ("k", "3")]);
    let db = Db { ledger: Vec::new(), tables: vec![accounts, records, raids] };
    let rep = analyze_duplicates(&db).expect("runs");
    assert_eq!(rep.accounts.total, 3);
    assert_eq!(rep.accounts.dups.len(), 1);
    assert_eq!(rep.accounts.dups[0], ("a".to_string(), 2));
    assert_eq!(rep.records.total, 1);
    assert!(rep.records.dups.is_empty());
    assert_eq!(rep.raids.dups[0], ("k".to_string(), 3));
}

#[test]
fn natural_key_concatenates_capacity_difficulty_name() {
    assert_eq!(raid_natural_key(25, &"普通".to_string(), &"敖龙岛".to_string()), "25人普通敖龙岛");
    assert_eq!(raid_natural_key(10, &"英雄".to_string(), &"太极宫".to_string()), "10人英雄太极宫");
}

#[test]
fn seeding_twice_inserts_nothing_new() {
    let raids = Table {
        name: "raids".to_string(),
        cols: vec![
            col("id", ColType::Text),
            col("name", ColType::Text),
            col("difficulty", ColType::Text),
            col("player_count", ColType::Integer),
            col("version", ColType::Text),
            col("notes", ColType::Text),
            col("is_active", ColType::Integer),
            col("is_static", ColType::Integer),
        ],
        rows: Vec::new(),
    };
    let bosses = Table {
        name: "raid_bosses".to_string(),
        cols: vec![
            col("id", ColType::Text),
            col("raid_name", ColType::Text),
            col("name", ColType::Text),
            col("boss_order", ColType::Integer),
        ],
        rows: Vec::new(),
    };
    let versions = Table {
        name: "raid_versions".to_string(),
        cols: vec![col("id", ColType::Integer), col("name", ColType::Text)],
        rows: Vec::new(),
    };
    let mut db = Db { ledger: Vec::new(), tables: vec![raids, bosses, versions] };
    let dataset = static_raids();
    let first = seed(&mut db, &dataset).expect("first run seeds");
    assert!(first > 0);
    let second = seed(&mut db, &dataset).expect("second run is a no-op");
    assert_eq!(second, 0);
    let third = seed(&mut db, &dataset).expect("still a no-op");
    assert_eq!(third, 0);
}

#[test]
fn seeding_never_overwrites_a_user_row() {
    let raids = Table {
        name: "raids".to_string(),
        cols: vec![
            col("id", ColType::Text),
            col("name", ColType::Text),
            col("difficulty", ColType::Text),
            col("player_count", ColType::Integer),
            col("version", ColType::Text),
            col("notes", ColType::Text),
            col("is_active", ColType::Integer),
            col("is_static", ColType::Integer),
        ],
        rows: vec![vec![
            SqlValue::Text("25人普通敖龙岛".to_string()),
            SqlValue::Text("用户改过的名字".to_string()),
            SqlValue::Text("普通".to_string()),
            SqlValue::Int(25),
            SqlValue::Null,
            SqlValue::Text("note".to_string()),
            SqlValue::Int(0),
            SqlValue::Int(0),
        ]],
    };
    let bosses = Table {
        name: "raid_bosses".to_string(),
        cols: vec![
            col("id", ColType::Text),
            col("raid_name", ColType::Text),
            col("name", ColType::Text),
            col("boss_order", ColType::Integer),
        ],
        rows: Vec::new(),
    };
    let versions = Table {
        name: "raid_versions".to_string(),
        cols: vec![col("id", ColType::Integer), col("name", ColType::Text)],
        rows: Vec::new(),
    };
    let mut db = Db { ledger: Vec::new(), tables: vec![raids, bosses, versions] };
    let dataset = vec![SeedRaid {
        name: "敖龙岛".to_string(),
        version: "110级".to_string(),
        configurations: vec![SeedConfig {
            player_count: 25,
            difficulty: "普通".to_string(),
            is_active: true,
        }],
        bosses: vec![SeedBoss { id: "b1".to_string(), name: "头目".to_string(), order: 1 }],
    }];
    let n = seed(&mut db, &dataset).expect("seeds");
    let ri = db.find_table("raids").unwrap();
    assert_eq!(db.tables[ri].rows.len(), 1, "the key was already present");
    match &db.tables[ri].rows[0][1] {
        SqlValue::Text(s) => assert_eq!(s, "用户改过的名字", "the user's row is untouched"),
        _ => panic!("expected text"),
    }
    let bi = db.find_table("raid_bosses").unwrap();
    assert_eq!(db.tables[bi].rows.len(), 1, "the boss list was still missing");
    let vi = db.find_table("raid_versions").unwrap();
    assert_eq!(db.tables[vi].rows.len(), 1, "the version label was still missing");
    assert_eq!(n, 2, "only the boss list and the version label were inserted");
}

#[test]
fn repairs_name_what_is_missing() {
    let mut empty = Db { ledger: Vec::new(), tables: Vec::new() };
    assert!(matches!(deduplicate_accounts(&mut empty), Err(RepairError::MissingTable)));
    assert!(analyze_duplicates(&empty).is_err());

    let no_data_col = Table {
        name: "accounts".to_string(),
        cols: vec![col("id", ColType::Text)],
        rows: Vec::new(),
    };
    let mut db = Db { ledger: Vec::new(), tables: vec![no_data_col] };
    assert!(matches!(deduplicate_accounts(&mut db), Err(RepairError::MissingColumn)));
}

#[test]
fn collapsing_nothing_reports_nothing() {
    let (kept, removed) = dedup_first(&Vec::new());
    assert!(kept.is_empty());
    assert_eq!(removed, 0);
    assert!(newest_wins(&Vec::new()).is_empty());
}
