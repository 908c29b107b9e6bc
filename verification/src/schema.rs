//! The structured table shapes of the latest schema version, and the
//! builder that lays down a fresh file's schema. Each migration step
//! reuses these shapes when it creates its tables.

use vstd::prelude::*;

use crate::table::ColType;
use crate::table::Column;
use crate::table::Db;
use crate::table::Table;

verus! {

/// The names and declared types of a column list.
pub open spec fn spec_cols_shape(cols: Seq<Column>) -> Seq<(Seq<char>, ColType)> {
    cols.map_values(|c: Column| (c.name@, c.ty))
}

/// A table with this name, these columns, and no rows yet.
pub open spec fn spec_fresh_table(
    t: Table,
    name: Seq<char>,
    shape: Seq<(Seq<char>, ColType)>,
) -> bool {
    &&& t.name@ == name
    &&& spec_cols_shape(t.cols@) == shape
    &&& t.rows@.len() == 0
}

/// Some table of this name and shape is present, whatever its rows
/// hold.
pub open spec fn spec_shaped_table(
    db: Db,
    name: Seq<char>,
    shape: Seq<(Seq<char>, ColType)>,
) -> bool {
    exists|i: int|
        0 <= i < db.tables@.len() && (#[trigger] db.tables@[i]).name@ == name && spec_cols_shape(
            db.tables@[i].cols@,
        ) == shape
}

/// Builds a table with no rows.
pub fn fresh_table(name: &str, cols: Vec<Column>) -> (t: Table)
    ensures
        spec_fresh_table(t, name@, spec_cols_shape(cols@)),
        t.cols == cols,
        t.wf(),
{
    Table { name: String::from_str(name), cols, rows: Vec::new() }
}

/// The shape of the `records` table.
pub open spec fn spec_records_shape() -> Seq<(Seq<char>, ColType)> {
    seq![
        ("id"@, ColType::Text),
        ("data"@, ColType::Text),
    ]
}

/// Builds the `records` column list.
pub fn records_cols() -> (cols: Vec<Column>)
    ensures
        spec_cols_shape(cols@) == spec_records_shape(),
{
    let cols: Vec<Column> = vec![
        crate::table::col("id", ColType::Text),
        crate::table::col("data", ColType::Text),
    ];
    proof {
        reveal_strlit("id");
        reveal_strlit("data");
        assert(spec_cols_shape(cols@) =~= spec_records_shape());
    }
    cols
}

/// The shape of the `config` table.
pub open spec fn spec_config_shape() -> Seq<(Seq<char>, ColType)> {
    seq![
        ("id"@, ColType::Integer),
        ("value"@, ColType::Text),
    ]
}

/// Builds the `config` column list.
pub fn config_cols() -> (cols: Vec<Column>)
    ensures
        spec_cols_shape(cols@) == spec_config_shape(),
{
    let cols: Vec<Column> = vec![
        crate::table::col("id", ColType::Integer),
        crate::table::col("value", ColType::Text),
    ];
    proof {
        reveal_strlit("id");
        reveal_strlit("value");
        assert(spec_cols_shape(cols@) =~= spec_config_shape());
    }
    cols
}

/// The shape of the `cache` table.
pub open spec fn spec_cache_shape() -> Seq<(Seq<char>, ColType)> {
    seq![
        ("key"@, ColType::Text),
        ("value"@, ColType::Text),
        ("updated_at"@, ColType::Text),
    ]
}

/// Builds the `cache` column list.
pub fn cache_cols() -> (cols: Vec<Column>)
    ensures
        spec_cols_shape(cols@) == spec_cache_shape(),
{
    let cols: Vec<Column> = vec![
        crate::table::col("key", ColType::Text),
        crate::table::col("value", ColType::Text),
        crate::table::col("updated_at", ColType::Text),
    ];
    proof {
        reveal_strlit("key");
        reveal_strlit("value");
        reveal_strlit("updated_at");
        assert(spec_cols_shape(cols@) =~= spec_cache_shape());
    }
    cols
}

/// The shape of the `migration_flags` table.
pub open spec fn spec_migration_flags_shape() -> Seq<(Seq<char>, ColType)> {
    seq![
        ("key"@, ColType::Text),
        ("value"@, ColType::Text),
        ("updated_at"@, ColType::Text),
    ]
}

/// Builds the `migration_flags` column list.
pub fn migration_flags_cols() -> (cols: Vec<Column>)
    ensures
        spec_cols_shape(cols@) == spec_migration_flags_shape(),
{
    let cols: Vec<Column> = vec![
        crate::table::col("key", ColType::Text),
        crate::table::col("value", ColType::Text),
        crate::table::col("updated_at", ColType::Text),
    ];
    proof {
        reveal_strlit("key");
        reveal_strlit("value");
        reveal_strlit("updated_at");
        assert(spec_cols_shape(cols@) =~= spec_migration_flags_shape());
    }
    cols
}

/// The shape of the `equipments` table.
pub open spec fn spec_equipments_shape() -> Seq<(Seq<char>, ColType)> {
    seq![
        ("id"@, ColType::Text),
        ("name"@, ColType::Text),
        ("ui_id"@, ColType::Text),
        ("icon_id"@, ColType::Integer),
        ("level"@, ColType::Integer),
        ("quality"@, ColType::Text),
        ("bind_type"@, ColType::Integer),
        ("type_label"@, ColType::Text),
        ("attribute_types"@, ColType::Text),
        ("attributes"@, ColType::Text),
        ("recommend"@, ColType::Text),
        ("diamonds"@, ColType::Text),
        ("data"@, ColType::Text),
        ("updated_at"@, ColType::Text),
    ]
}

/// Builds the `equipments` column list.
pub fn equipments_cols() -> (cols: Vec<Column>)
    ensures
        spec_cols_shape(cols@) == spec_equipments_shape(),
{
    let cols: Vec<Column> = vec![
        crate::table::col("id", ColType::Text),
        crate::table::col("name", ColType::Text),
        crate::table::col("ui_id", ColType::Text),
        crate::table::col("icon_id", ColType::Integer),
        crate::table::col("level", ColType::Integer),
        crate::table::col("quality", ColType::Text),
        crate::table::col("bind_type", ColType::Integer),
        crate::table::col("type_label", ColType::Text),
        crate::table::col("attribute_types", ColType::Text),
        crate::table::col("attributes", ColType::Text),
        crate::table::col("recommend", ColType::Text),
        crate::table::col("diamonds", ColType::Text),
        crate::table::col("data", ColType::Text),
        crate::table::col("updated_at", ColType::Text),
    ];
    proof {
        reveal_strlit("id");
        reveal_strlit("name");
        reveal_strlit("ui_id");
        reveal_strlit("icon_id");
        reveal_strlit("level");
        reveal_strlit("quality");
        reveal_strlit("bind_type");
        reveal_strlit("type_label");
        reveal_strlit("attribute_types");
        reveal_strlit("attributes");
        reveal_strlit("recommend");
        reveal_strlit("diamonds");
        reveal_strlit("data");
        reveal_strlit("updated_at");
        assert(spec_cols_shape(cols@) =~= spec_equipments_shape());
    }
    cols
}

/// The shape of the `trial_records` table.
pub open spec fn spec_trial_records_shape() -> Seq<(Seq<char>, ColType)> {
    seq![
        ("id"@, ColType::Text),
        ("account_id"@, ColType::Text),
        ("role_id"@, ColType::Text),
        ("role_name"@, ColType::Text),
        ("server"@, ColType::Text),
        ("layer"@, ColType::Integer),
        ("bosses"@, ColType::Text),
        ("card_1"@, ColType::Text),
        ("card_2"@, ColType::Text),
        ("card_3"@, ColType::Text),
        ("card_4"@, ColType::Text),
        ("card_5"@, ColType::Text),
        ("flipped_index"@, ColType::Integer),
        ("record_type"@, ColType::Text),
        ("date"@, ColType::Integer),
        ("notes"@, ColType::Text),
        ("updated_at"@, ColType::Text),
    ]
}

/// Builds the `trial_records` column list.
pub fn trial_records_cols() -> (cols: Vec<Column>)
    ensures
        spec_cols_shape(cols@) == spec_trial_records_shape(),
{
    let cols: Vec<Column> = vec![
        crate::table::col("id", ColType::Text),
        crate::table::col("account_id", ColType::Text),
        crate::table::col("role_id", ColType::Text),
        crate::table::col("role_name", ColType::Text),
        crate::table::col("server", ColType::Text),
        crate::table::col("layer", ColType::Integer),
        crate::table::col("bosses", ColType::Text),
        crate::table::col("card_1", ColType::Text),
        crate::table::col("card_2", ColType::Text),
        crate::table::col("card_3", ColType::Text),
        crate::table::col("card_4", ColType::Text),
        crate::table::col("card_5", ColType::Text),
        crate::table::col("flipped_index", ColType::Integer),
        crate::table::col("record_type", ColType::Text),
        crate::table::col("date", ColType::Integer),
        crate::table::col("notes", ColType::Text),
        crate::table::col("updated_at", ColType::Text),
    ];
    proof {
        reveal_strlit("id");
        reveal_strlit("account_id");
        reveal_strlit("role_id");
        reveal_strlit("role_name");
        reveal_strlit("server");
        reveal_strlit("layer");
        reveal_strlit("bosses");
        reveal_strlit("card_1");
        reveal_strlit("card_2");
        reveal_strlit("card_3");
        reveal_strlit("card_4");
        reveal_strlit("card_5");
        reveal_strlit("flipped_index");
        reveal_strlit("record_type");
        reveal_strlit("date");
        reveal_strlit("notes");
        reveal_strlit("updated_at");
        assert(spec_cols_shape(cols@) =~= spec_trial_records_shape());
    }
    cols
}

/// The shape of the `baizhan_records` table.
pub open spec fn spec_baizhan_records_shape() -> Seq<(Seq<char>, ColType)> {
    seq![
        ("id"@, ColType::Text),
        ("account_id"@, ColType::Text),
        ("role_id"@, ColType::Text),
        ("role_name"@, ColType::Text),
        ("server"@, ColType::Text),
        ("date"@, ColType::Integer),
        ("gold_income"@, ColType::Integer),
        ("gold_expense"@, ColType::Integer),
        ("notes"@, ColType::Text),
        ("record_type"@, ColType::Text),
        ("updated_at"@, ColType::Text),
    ]
}

/// Builds the `baizhan_records` column list.
pub fn baizhan_records_cols() -> (cols: Vec<Column>)
    ensures
        spec_cols_shape(cols@) == spec_baizhan_records_shape(),
{
    let cols: Vec<Column> = vec![
        crate::table::col("id", ColType::Text),
        crate::table::col("account_id", ColType::Text),
        crate::table::col("role_id", ColType::Text),
        crate::table::col("role_name", ColType::Text),
        crate::table::col("server", ColType::Text),
        crate::table::col("date", ColType::Integer),
        crate::table::col("gold_income", ColType::Integer),
        crate::table::col("gold_expense", ColType::Integer),
        crate::table::col("notes", ColType::Text),
        crate::table::col("record_type", ColType::Text),
        crate::table::col("updated_at", ColType::Text),
    ];
    proof {
        reveal_strlit("id");
        reveal_strlit("account_id");
        reveal_strlit("role_id");
        reveal_strlit("role_name");
        reveal_strlit("server");
        reveal_strlit("date");
        reveal_strlit("gold_income");
        reveal_strlit("gold_expense");
        reveal_strlit("notes");
        reveal_strlit("record_type");
        reveal_strlit("updated_at");
        assert(spec_cols_shape(cols@) =~= spec_baizhan_records_shape());
    }
    cols
}

/// The shape of the `accounts` table.
pub open spec fn spec_accounts_shape() -> Seq<(Seq<char>, ColType)> {
    seq![
        ("id"@, ColType::Text),
        ("account_name"@, ColType::Text),
        ("account_type"@, ColType::Text),
        ("password"@, ColType::Text),
        ("notes"@, ColType::Text),
        ("hidden"@, ColType::Integer),
        ("disabled"@, ColType::Integer),
        ("created_at"@, ColType::Text),
        ("updated_at"@, ColType::Text),
    ]
}

/// Builds the `accounts` column list.
pub fn accounts_cols() -> (cols: Vec<Column>)
    ensures
        spec_cols_shape(cols@) == spec_accounts_shape(),
{
    let cols: Vec<Column> = vec![
        crate::table::col("id", ColType::Text),
        crate::table::col("account_name", ColType::Text),
        crate::table::col("account_type", ColType::Text),
        crate::table::col("password", ColType::Text),
        crate::table::col("notes", ColType::Text),
        crate::table::col("hidden", ColType::Integer),
        crate::table::col("disabled", ColType::Integer),
        crate::table::col("created_at", ColType::Text),
        crate::table::col("updated_at", ColType::Text),
    ];
    proof {
        reveal_strlit("id");
        reveal_strlit("account_name");
        reveal_strlit("account_type");
        reveal_strlit("password");
        reveal_strlit("notes");
        reveal_strlit("hidden");
        reveal_strlit("disabled");
        reveal_strlit("created_at");
        reveal_strlit("updated_at");
        assert(spec_cols_shape(cols@) =~= spec_accounts_shape());
    }
    cols
}

/// The shape of the `roles` table.
pub open spec fn spec_roles_shape() -> Seq<(Seq<char>, ColType)> {
    seq![
        ("id"@, ColType::Text),
        ("account_id"@, ColType::Text),
        ("name"@, ColType::Text),
        ("server"@, ColType::Text),
        ("region"@, ColType::Text),
        ("sect"@, ColType::Text),
        ("equipment_score"@, ColType::Integer),
        ("disabled"@, ColType::Integer),
        ("created_at"@, ColType::Text),
        ("updated_at"@, ColType::Text),
    ]
}

/// Builds the `roles` column list.
pub fn roles_cols() -> (cols: Vec<Column>)
    ensures
        spec_cols_shape(cols@) == spec_roles_shape(),
{
    let cols: Vec<Column> = vec![
        crate::table::col("id", ColType::Text),
        crate::table::col("account_id", ColType::Text),
        crate::table::col("name", ColType::Text),
        crate::table::col("server", ColType::Text),
        crate::table::col("region", ColType::Text),
        crate::table::col("sect", ColType::Text),
        crate::table::col("equipment_score", ColType::Integer),
        crate::table::col("disabled", ColType::Integer),
        crate::table::col("created_at", ColType::Text),
        crate::table::col("updated_at", ColType::Text),
    ];
    proof {
        reveal_strlit("id");
        reveal_strlit("account_id");
        reveal_strlit("name");
        reveal_strlit("server");
        reveal_strlit("region");
        reveal_strlit("sect");
        reveal_strlit("equipment_score");
        reveal_strlit("disabled");
        reveal_strlit("created_at");
        reveal_strlit("updated_at");
        assert(spec_cols_shape(cols@) =~= spec_roles_shape());
    }
    cols
}

/// The shape of the `raids` table.
pub open spec fn spec_raids_shape() -> Seq<(Seq<char>, ColType)> {
    seq![
        ("id"@, ColType::Text),
        ("name"@, ColType::Text),
        ("difficulty"@, ColType::Text),
        ("player_count"@, ColType::Integer),
        ("version"@, ColType::Text),
        ("notes"@, ColType::Text),
        ("is_active"@, ColType::Integer),
        ("is_static"@, ColType::Integer),
    ]
}

/// Builds the `raids` column list.
pub fn raids_cols() -> (cols: Vec<Column>)
    ensures
        spec_cols_shape(cols@) == spec_raids_shape(),
{
    let cols: Vec<Column> = vec![
        crate::table::col("id", ColType::Text),
        crate::table::col("name", ColType::Text),
        crate::table::col("difficulty", ColType::Text),
        crate::table::col("player_count", ColType::Integer),
        crate::table::col("version", ColType::Text),
        crate::table::col("notes", ColType::Text),
        crate::table::col("is_active", ColType::Integer),
        crate::table::col("is_static", ColType::Integer),
    ];
    proof {
        reveal_strlit("id");
        reveal_strlit("name");
        reveal_strlit("difficulty");
        reveal_strlit("player_count");
        reveal_strlit("version");
        reveal_strlit("notes");
        reveal_strlit("is_active");
        reveal_strlit("is_static");
        assert(spec_cols_shape(cols@) =~= spec_raids_shape());
    }
    cols
}

/// The shape of the `raid_bosses` table.
pub open spec fn spec_raid_bosses_shape() -> Seq<(Seq<char>, ColType)> {
    seq![
        ("id"@, ColType::Text),
        ("raid_name"@, ColType::Text),
        ("name"@, ColType::Text),
        ("boss_order"@, ColType::Integer),
    ]
}

/// Builds the `raid_bosses` column list.
pub fn raid_bosses_cols() -> (cols: Vec<Column>)
    ensures
        spec_cols_shape(cols@) == spec_raid_bosses_shape(),
{
    let cols: Vec<Column> = vec![
        crate::table::col("id", ColType::Text),
        crate::table::col("raid_name", ColType::Text),
        crate::table::col("name", ColType::Text),
        crate::table::col("boss_order", ColType::Integer),
    ];
    proof {
        reveal_strlit("id");
        reveal_strlit("raid_name");
        reveal_strlit("name");
        reveal_strlit("boss_order");
        assert(spec_cols_shape(cols@) =~= spec_raid_bosses_shape());
    }
    cols
}

/// The shape of the `raid_versions` table.
pub open spec fn spec_raid_versions_shape() -> Seq<(Seq<char>, ColType)> {
    seq![
        ("id"@, ColType::Integer),
        ("name"@, ColType::Text),
    ]
}

/// Builds the `raid_versions` column list.
pub fn raid_versions_cols() -> (cols: Vec<Column>)
    ensures
        spec_cols_shape(cols@) == spec_raid_versions_shape(),
{
    let cols: Vec<Column> = vec![
        crate::table::col("id", ColType::Integer),
        crate::table::col("name", ColType::Text),
    ];
    proof {
        reveal_strlit("id");
        reveal_strlit("name");
        assert(spec_cols_shape(cols@) =~= spec_raid_versions_shape());
    }
    cols
}

/// The shape of the `favorite_raids` table.
pub open spec fn spec_favorite_raids_shape() -> Seq<(Seq<char>, ColType)> {
    seq![
        ("id"@, ColType::Integer),
        ("raid_name"@, ColType::Text),
        ("created_at"@, ColType::Text),
    ]
}

/// Builds the `favorite_raids` column list.
pub fn favorite_raids_cols() -> (cols: Vec<Column>)
    ensures
        spec_cols_shape(cols@) == spec_favorite_raids_shape(),
{
    let cols: Vec<Column> = vec![
        crate::table::col("id", ColType::Integer),
        crate::table::col("raid_name", ColType::Text),
        crate::table::col("created_at", ColType::Text),
    ];
    proof {
        reveal_strlit("id");
        reveal_strlit("raid_name");
        reveal_strlit("created_at");
        assert(spec_cols_shape(cols@) =~= spec_favorite_raids_shape());
    }
    cols
}

/// The shape of the `instance_types` table.
pub open spec fn spec_instance_types_shape() -> Seq<(Seq<char>, ColType)> {
    seq![
        ("id"@, ColType::Integer),
        ("type"@, ColType::Text),
        ("name"@, ColType::Text),
    ]
}

/// Builds the `instance_types` column list.
pub fn instance_types_cols() -> (cols: Vec<Column>)
    ensures
        spec_cols_shape(cols@) == spec_instance_types_shape(),
{
    let cols: Vec<Column> = vec![
        crate::table::col("id", ColType::Integer),
        crate::table::col("type", ColType::Text),
        crate::table::col("name", ColType::Text),
    ];
    proof {
        reveal_strlit("id");
        reveal_strlit("type");
        reveal_strlit("name");
        assert(spec_cols_shape(cols@) =~= spec_instance_types_shape());
    }
    cols
}

/// The shape of the `role_instance_visibility` table.
pub open spec fn spec_role_instance_visibility_shape() -> Seq<(Seq<char>, ColType)> {
    seq![
        ("id"@, ColType::Text),
        ("role_id"@, ColType::Text),
        ("instance_type_id"@, ColType::Integer),
        ("visible"@, ColType::Integer),
        ("created_at"@, ColType::Text),
        ("updated_at"@, ColType::Text),
    ]
}

/// Builds the `role_instance_visibility` column list.
pub fn role_instance_visibility_cols() -> (cols: Vec<Column>)
    ensures
        spec_cols_shape(cols@) == spec_role_instance_visibility_shape(),
{
    let cols: Vec<Column> = vec![
        crate::table::col("id", ColType::Text),
        crate::table::col("role_id", ColType::Text),
        crate::table::col("instance_type_id", ColType::Integer),
        crate::table::col("visible", ColType::Integer),
        crate::table::col("created_at", ColType::Text),
        crate::table::col("updated_at", ColType::Text),
    ];
    proof {
        reveal_strlit("id");
        reveal_strlit("role_id");
        reveal_strlit("instance_type_id");
        reveal_strlit("visible");
        reveal_strlit("created_at");
        reveal_strlit("updated_at");
        assert(spec_cols_shape(cols@) =~= spec_role_instance_visibility_shape());
    }
    cols
}

/// Every structured table of the latest schema version is present
/// with its shape.
pub open spec fn spec_latest_schema(db: Db) -> bool {
    &&& spec_shaped_table(db, "records"@, spec_records_shape())
    &&& spec_shaped_table(db, "config"@, spec_config_shape())
    &&& spec_shaped_table(db, "cache"@, spec_cache_shape())
    &&& spec_shaped_table(db, "migration_flags"@, spec_migration_flags_shape())
    &&& spec_shaped_table(db, "equipments"@, spec_equipments_shape())
    &&& spec_shaped_table(db, "trial_records"@, spec_trial_records_shape())
    &&& spec_shaped_table(db, "baizhan_records"@, spec_baizhan_records_shape())
    &&& spec_shaped_table(db, "accounts"@, spec_accounts_shape())
    &&& spec_shaped_table(db, "roles"@, spec_roles_shape())
    &&& spec_shaped_table(db, "raids"@, spec_raids_shape())
    &&& spec_shaped_table(db, "raid_bosses"@, spec_raid_bosses_shape())
    &&& spec_shaped_table(db, "raid_versions"@, spec_raid_versions_shape())
    &&& spec_shaped_table(db, "favorite_raids"@, spec_favorite_raids_shape())
    &&& spec_shaped_table(db, "instance_types"@, spec_instance_types_shape())
    &&& spec_shaped_table(db, "role_instance_visibility"@, spec_role_instance_visibility_shape())
}

/// Lays down the latest schema in an empty file: every structured
/// table, each with its final column list and no rows. The three
/// tables the seeder fills come first, so a fresh file can be seeded
/// right away; no audit-trail table is ever created here.
pub fn create_latest_schema(db: &mut Db)
    requires
        old(db).tables@.len() == 0,
    ensures
        final(db).ledger == old(db).ledger,
        final(db).wf(),
        spec_latest_schema(*final(db)),
        final(db).tables@.len() == 15,
        forall|i: int| 0 <= i < final(db).tables@.len() ==> (#[trigger] final(db).tables@[i]).rows@.len()
            == 0,
        crate::seed::spec_seed_schema_ok(*final(db)),
        !final(db).has_table("accounts_legacy"@),
        !final(db).has_table("raids_legacy"@),
{
    let ghost g0 = *db;
    proof {
        reveal_strlit("accounts_legacy");
        reveal_strlit("raids_legacy");
        reveal_strlit("raids");
        reveal_strlit("raid_bosses");
        reveal_strlit("raid_versions");
        reveal_strlit("records");
        reveal_strlit("config");
        reveal_strlit("cache");
        reveal_strlit("migration_flags");
        reveal_strlit("equipments");
        reveal_strlit("trial_records");
        reveal_strlit("baizhan_records");
        reveal_strlit("accounts");
        reveal_strlit("roles");
        reveal_strlit("favorite_raids");
        reveal_strlit("instance_types");
        reveal_strlit("role_instance_visibility");
        assert("accounts_legacy"@.len() == 15);
        assert("raids_legacy"@.len() == 12);
        assert("raids"@.len() == 5);
        assert("raid_bosses"@.len() == 11);
        assert("raid_versions"@.len() == 13);
        assert("records"@.len() == 7);
        assert("config"@.len() == 6);
        assert("cache"@.len() == 5);
        assert("migration_flags"@.len() == 15);
        assert("equipments"@.len() == 10);
        assert("trial_records"@.len() == 13);
        assert("baizhan_records"@.len() == 15);
        assert("accounts"@.len() == 8);
        assert("roles"@.len() == 5);
        assert("favorite_raids"@.len() == 14);
        assert("instance_types"@.len() == 14);
        assert("role_instance_visibility"@.len() == 24);
        assert("migration_flags"@[0] == 'm' && "accounts_legacy"@[0] == 'a'
            && "baizhan_records"@[0] == 'b');
        assert(!g0.has_table("accounts_legacy"@));
        assert(!g0.has_table("raids_legacy"@));
    }
    db.create_table(fresh_table("raids", raids_cols()));
    let ghost g1 = *db;
    proof {
        assert(g1.tables@ =~= g0.tables@.push(g1.tables@.last()));
        crate::table::lemma_find_table_push(
            g0.tables@,
            g1.tables@.last(),
            "accounts_legacy"@,
        );
        crate::table::lemma_find_table_push(
            g0.tables@,
            g1.tables@.last(),
            "raids_legacy"@,
        );
    }
    db.create_table(fresh_table("raid_bosses", raid_bosses_cols()));
    let ghost g2 = *db;
    proof {
        assert(g2.tables@ =~= g1.tables@.push(g2.tables@.last()));
        crate::table::lemma_find_table_push(
            g1.tables@,
            g2.tables@.last(),
            "accounts_legacy"@,
        );
        crate::table::lemma_find_table_push(
            g1.tables@,
            g2.tables@.last(),
            "raids_legacy"@,
        );
    }
    db.create_table(fresh_table("raid_versions", raid_versions_cols()));
    let ghost g3 = *db;
    proof {
        assert(g3.tables@ =~= g2.tables@.push(g3.tables@.last()));
        crate::table::lemma_find_table_push(
            g2.tables@,
            g3.tables@.last(),
            "accounts_legacy"@,
        );
        crate::table::lemma_find_table_push(
            g2.tables@,
            g3.tables@.last(),
            "raids_legacy"@,
        );
    }
    db.create_table(fresh_table("records", records_cols()));
    let ghost g4 = *db;
    proof {
        assert(g4.tables@ =~= g3.tables@.push(g4.tables@.last()));
        crate::table::lemma_find_table_push(
            g3.tables@,
            g4.tables@.last(),
            "accounts_legacy"@,
        );
        crate::table::lemma_find_table_push(
            g3.tables@,
            g4.tables@.last(),
            "raids_legacy"@,
        );
    }
    db.create_table(fresh_table("config", config_cols()));
    let ghost g5 = *db;
    proof {
        assert(g5.tables@ =~= g4.tables@.push(g5.tables@.last()));
        crate::table::lemma_find_table_push(
            g4.tables@,
            g5.tables@.last(),
            "accounts_legacy"@,
        );
        crate::table::lemma_find_table_push(
            g4.tables@,
            g5.tables@.last(),
            "raids_legacy"@,
        );
    }
    db.create_table(fresh_table("cache", cache_cols()));
    let ghost g6 = *db;
    proof {
        assert(g6.tables@ =~= g5.tables@.push(g6.tables@.last()));
        crate::table::lemma_find_table_push(
            g5.tables@,
            g6.tables@.last(),
            "accounts_legacy"@,
        );
        crate::table::lemma_find_table_push(
            g5.tables@,
            g6.tables@.last(),
            "raids_legacy"@,
        );
    }
    db.create_table(fresh_table("migration_flags", migration_flags_cols()));
    let ghost g7 = *db;
    proof {
        assert(g7.tables@ =~= g6.tables@.push(g7.tables@.last()));
        crate::table::lemma_find_table_push(
            g6.tables@,
            g7.tables@.last(),
            "accounts_legacy"@,
        );
        crate::table::lemma_find_table_push(
            g6.tables@,
            g7.tables@.last(),
            "raids_legacy"@,
        );
    }
    db.create_table(fresh_table("equipments", equipments_cols()));
    let ghost g8 = *db;
    proof {
        assert(g8.tables@ =~= g7.tables@.push(g8.tables@.last()));
        crate::table::lemma_find_table_push(
            g7.tables@,
            g8.tables@.last(),
            "accounts_legacy"@,
        );
        crate::table::lemma_find_table_push(
            g7.tables@,
            g8.tables@.last(),
            "raids_legacy"@,
        );
    }
    db.create_table(fresh_table("trial_records", trial_records_cols()));
    let ghost g9 = *db;
    proof {
        assert(g9.tables@ =~= g8.tables@.push(g9.tables@.last()));
        crate::table::lemma_find_table_push(
            g8.tables@,
            g9.tables@.last(),
            "accounts_legacy"@,
        );
        crate::table::lemma_find_table_push(
            g8.tables@,
            g9.tables@.last(),
            "raids_legacy"@,
        );
    }
    db.create_table(fresh_table("baizhan_records", baizhan_records_cols()));
    let ghost g10 = *db;
    proof {
        assert(g10.tables@ =~= g9.tables@.push(g10.tables@.last()));
        crate::table::lemma_find_table_push(
            g9.tables@,
            g10.tables@.last(),
            "accounts_legacy"@,
        );
        crate::table::lemma_find_table_push(
            g9.tables@,
            g10.tables@.last(),
            "raids_legacy"@,
        );
    }
    db.create_table(fresh_table("accounts", accounts_cols()));
    let ghost g11 = *db;
    proof {
        assert(g11.tables@ =~= g10.tables@.push(g11.tables@.last()));
        crate::table::lemma_find_table_push(
            g10.tables@,
            g11.tables@.last(),
            "accounts_legacy"@,
        );
        crate::table::lemma_find_table_push(
            g10.tables@,
            g11.tables@.last(),
            "raids_legacy"@,
        );
    }
    db.create_table(fresh_table("roles", roles_cols()));
    let ghost g12 = *db;
    proof {
        assert(g12.tables@ =~= g11.tables@.push(g12.tables@.last()));
        crate::table::lemma_find_table_push(
            g11.tables@,
            g12.tables@.last(),
            "accounts_legacy"@,
        );
        crate::table::lemma_find_table_push(
            g11.tables@,
            g12.tables@.last(),
            "raids_legacy"@,
        );
    }
    db.create_table(fresh_table("favorite_raids", favorite_raids_cols()));
    let ghost g13 = *db;
    proof {
        assert(g13.tables@ =~= g12.tables@.push(g13.tables@.last()));
        crate::table::lemma_find_table_push(
            g12.tables@,
            g13.tables@.last(),
            "accounts_legacy"@,
        );
        crate::table::lemma_find_table_push(
            g12.tables@,
            g13.tables@.last(),
            "raids_legacy"@,
        );
    }
    db.create_table(fresh_table("instance_types", instance_types_cols()));
    let ghost g14 = *db;
    proof {
        assert(g14.tables@ =~= g13.tables@.push(g14.tables@.last()));
        crate::table::lemma_find_table_push(
            g13.tables@,
            g14.tables@.last(),
            "accounts_legacy"@,
        );
        crate::table::lemma_find_table_push(
            g13.tables@,
            g14.tables@.last(),
            "raids_legacy"@,
        );
    }
    db.create_table(fresh_table("role_instance_visibility", role_instance_visibility_cols()));
    let ghost g15 = *db;
    proof {
        assert(g15.tables@ =~= g14.tables@.push(g15.tables@.last()));
        crate::table::lemma_find_table_push(
            g14.tables@,
            g15.tables@.last(),
            "accounts_legacy"@,
        );
        crate::table::lemma_find_table_push(
            g14.tables@,
            g15.tables@.last(),
            "raids_legacy"@,
        );
    }
    proof {
        assert(db.tables@[0].name@ == "raids"@);
        assert(spec_shaped_table(*db, "raids"@, spec_raids_shape()));
        assert(db.tables@[1].name@ == "raid_bosses"@);
        assert(spec_shaped_table(*db, "raid_bosses"@, spec_raid_bosses_shape()));
        assert(db.tables@[2].name@ == "raid_versions"@);
        assert(spec_shaped_table(*db, "raid_versions"@, spec_raid_versions_shape()));
        assert(db.tables@[3].name@ == "records"@);
        assert(spec_shaped_table(*db, "records"@, spec_records_shape()));
        assert(db.tables@[4].name@ == "config"@);
        assert(spec_shaped_table(*db, "config"@, spec_config_shape()));
        assert(db.tables@[5].name@ == "cache"@);
        assert(spec_shaped_table(*db, "cache"@, spec_cache_shape()));
        assert(db.tables@[6].name@ == "migration_flags"@);
        assert(spec_shaped_table(*db, "migration_flags"@, spec_migration_flags_shape()));
        assert(db.tables@[7].name@ == "equipments"@);
        assert(spec_shaped_table(*db, "equipments"@, spec_equipments_shape()));
        assert(db.tables@[8].name@ == "trial_records"@);
        assert(spec_shaped_table(*db, "trial_records"@, spec_trial_records_shape()));
        assert(db.tables@[9].name@ == "baizhan_records"@);
        assert(spec_shaped_table(*db, "baizhan_records"@, spec_baizhan_records_shape()));
        assert(db.tables@[10].name@ == "accounts"@);
        assert(spec_shaped_table(*db, "accounts"@, spec_accounts_shape()));
        assert(db.tables@[11].name@ == "roles"@);
        assert(spec_shaped_table(*db, "roles"@, spec_roles_shape()));
        assert(db.tables@[12].name@ == "favorite_raids"@);
        assert(spec_shaped_table(*db, "favorite_raids"@, spec_favorite_raids_shape()));
        assert(db.tables@[13].name@ == "instance_types"@);
        assert(spec_shaped_table(*db, "instance_types"@, spec_instance_types_shape()));
        assert(db.tables@[14].name@ == "role_instance_visibility"@);
        assert(spec_shaped_table(*db, "role_instance_visibility"@, spec_role_instance_visibility_shape()));
        crate::table::lemma_find_table_at(db.tables@, 0, "raids"@);
        assert(db.tables@[0].name@ != "raid_bosses"@);
        crate::table::lemma_find_table_at(db.tables@, 1, "raid_bosses"@);
        assert(db.tables@[1].name@ != "raid_versions"@);
        crate::table::lemma_find_table_at(db.tables@, 2, "raid_versions"@);
        let rc = db.tables@[0].cols@;
        assert(spec_cols_shape(rc).len() == rc.len());
        assert(rc[0].name@ == "id"@ && rc[1].name@ == "name"@ && rc[2].name@ == "difficulty"@
            && rc[3].name@ == "player_count"@ && rc[4].name@ == "version"@ && rc[5].name@
            == "notes"@ && rc[6].name@ == "is_active"@ && rc[7].name@ == "is_static"@);
        crate::table::lemma_named_col_found(rc, "id"@);
        crate::table::lemma_named_col_found(rc, "name"@);
        crate::table::lemma_named_col_found(rc, "difficulty"@);
        crate::table::lemma_named_col_found(rc, "player_count"@);
        crate::table::lemma_named_col_found(rc, "version"@);
        crate::table::lemma_named_col_found(rc, "notes"@);
        crate::table::lemma_named_col_found(rc, "is_active"@);
        crate::table::lemma_named_col_found(rc, "is_static"@);
        let bc = db.tables@[1].cols@;
        assert(spec_cols_shape(bc).len() == bc.len());
        assert(bc[0].name@ == "id"@ && bc[1].name@ == "raid_name"@ && bc[2].name@ == "name"@
            && bc[3].name@ == "boss_order"@);
        crate::table::lemma_named_col_found(bc, "id"@);
        crate::table::lemma_named_col_found(bc, "raid_name"@);
        crate::table::lemma_named_col_found(bc, "name"@);
        crate::table::lemma_named_col_found(bc, "boss_order"@);
        let vc = db.tables@[2].cols@;
        assert(spec_cols_shape(vc).len() == vc.len());
        assert(vc[0].name@ == "id"@ && vc[1].name@ == "name"@);
        crate::table::lemma_named_col_found(vc, "id"@);
        crate::table::lemma_named_col_found(vc, "name"@);
        assert(crate::seed::spec_seed_schema_ok(*db));
    }
}

} // verus!
