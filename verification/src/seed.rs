//! The static reference seeder: a fixed dataset of named encounters,
//! each with its difficulty-and-capacity configurations and ordered
//! boss list, merged into the structured tables with insert-if-absent
//! semantics. A row a user already has is never overwritten, and a
//! repeated run inserts nothing.

use vstd::prelude::*;

use crate::table::CellVal;
use crate::table::Db;
use crate::table::SqlValue;
use crate::table::Table;
use crate::text::spec_dec_u64;
use crate::text::u64_to_string;
use crate::MigrationError;

verus! {

/// One boss of an encounter, with its place in the fight order.
pub struct SeedBoss {
    pub id: String,
    pub name: String,
    pub order: i64,
}

/// One difficulty-and-capacity variant of an encounter.
pub struct SeedConfig {
    pub player_count: u64,
    pub difficulty: String,
    pub is_active: bool,
}

/// One named encounter of the static dataset.
pub struct SeedRaid {
    pub name: String,
    pub version: String,
    pub configurations: Vec<SeedConfig>,
    pub bosses: Vec<SeedBoss>,
}

/// The deterministic composite natural key of a raid row: capacity,
/// then the difficulty label, then the name, run together. Note that
/// the key embeds these display fields on purpose: renaming a raid or
/// changing its difficulty makes a new logical row, and the repair
/// tools and this seeder depend on exactly this derivation.
pub open spec fn spec_raid_key(pc: u64, difficulty: Seq<char>, name: Seq<char>) -> Seq<char> {
    spec_dec_u64(pc) + "人"@ + difficulty + name
}

/// Builds the composite natural key.
pub fn raid_natural_key(pc: u64, difficulty: &String, name: &String) -> (k: String)
    ensures
        k@ == spec_raid_key(pc, difficulty@, name@),
{
    let mut k = u64_to_string(pc);
    k.append("人");
    k.append(difficulty.as_str());
    k.append(name.as_str());
    k
}

/// Whether some row of the table holds this text under column `col`.
pub open spec fn spec_table_has_text(t: Table, col: int, key: Seq<char>) -> bool {
    exists|r: int|
        0 <= r < t.rows@.len() && (#[trigger] t.rows@[r])@[col]@ == CellVal::Text(key)
}

/// An integer value sits under this column in some row.
pub open spec fn spec_table_has_int(t: Table, col: int, v: int) -> bool {
    exists|r: int|
        0 <= r < t.rows@.len() && (#[trigger] t.rows@[r])@[col]@ == CellVal::Int(v)
}

/// Text present under a column stays present when rows are appended.
pub proof fn lemma_has_text_push(t: Table, t2: Table, col: int, key: Seq<char>)
    requires
        spec_table_has_text(t, col, key),
        t.rows@.len() <= t2.rows@.len(),
        forall|x: int| 0 <= x < t.rows@.len() ==> t2.rows@[x] == t.rows@[x],
    ensures
        spec_table_has_text(t2, col, key),
{
    let w = choose|w: int|
        0 <= w < t.rows@.len() && (#[trigger] t.rows@[w])@[col]@ == CellVal::Text(key);
    assert(t2.rows@[w]@[col]@ == CellVal::Text(key));
}

/// The column indexes the seeder writes in the raids table.
pub struct RaidCols {
    pub id: usize,
    pub name: usize,
    pub difficulty: usize,
    pub player_count: usize,
    pub version: usize,
    pub notes: usize,
    pub is_active: usize,
    pub is_static: usize,
}

/// The column indexes the seeder writes in the raid_bosses table.
pub struct BossCols {
    pub id: usize,
    pub raid_name: usize,
    pub name: usize,
    pub boss_order: usize,
}

/// A row of all nulls.
pub fn blank_row(ncols: usize) -> (row: Vec<SqlValue>)
    ensures
        row@.len() == ncols,
        forall|c: int| 0 <= c < ncols ==> (#[trigger] row@[c])@ == CellVal::Null,
{
    let mut row: Vec<SqlValue> = Vec::new();
    let mut c: usize = 0;
    while c < ncols
        invariant
            c <= ncols,
            row@.len() == c,
            forall|x: int| 0 <= x < c ==> (#[trigger] row@[x])@ == CellVal::Null,
        decreases ncols - c,
    {
        row.push(SqlValue::Null);
        c = c + 1;
    }
    row
}

/// Replaces one cell of a row.
pub fn set_cell(row: &mut Vec<SqlValue>, i: usize, v: SqlValue)
    requires
        i < old(row)@.len(),
    ensures
        final(row)@ == old(row)@.update(i as int, v),
{
    let _ = row.remove(i);
    row.insert(i, v);
    proof {
        assert(row@ =~= old(row)@.update(i as int, v));
    }
}

/// The largest integer under column `col`, or zero; the next synthetic
/// id of an append-only lookup table is one above it.
pub(crate) fn max_int_col(t: &Table, col: usize) -> (m: i64)
    requires
        t.wf(),
        col < t.cols@.len(),
    ensures
        m >= 0,
        forall|r: int|
            0 <= r < t.rows@.len() ==> ((#[trigger] t.rows@[r])@[col as int]@ matches CellVal::Int(
                i,
            ) ==> i <= m),
{
    let n = t.rows.len();
    let mut m: i64 = 0;
    let mut r: usize = 0;
    while r < n
        invariant
            r <= n == t.rows@.len(),
            t.wf(),
            col < t.cols@.len(),
            m >= 0,
            forall|x: int|
                0 <= x < r ==> ((#[trigger] t.rows@[x])@[col as int]@ matches CellVal::Int(i) ==> i
                    <= m),
        decreases n - r,
    {
        let row = &t.rows[r];
        match &row[col] {
            SqlValue::Int(i) => {
                if *i > m {
                    m = *i;
                }
            },
            _ => {},
        }
        r = r + 1;
    }
    m
}

/// The structured tables the seeder needs, with every column it
/// writes.
pub open spec fn spec_seed_schema_ok(db: Db) -> bool {
    &&& db.has_table("raids"@)
    &&& db.table("raids"@).has_col("id"@)
    &&& db.table("raids"@).has_col("name"@)
    &&& db.table("raids"@).has_col("difficulty"@)
    &&& db.table("raids"@).has_col("player_count"@)
    &&& db.table("raids"@).has_col("version"@)
    &&& db.table("raids"@).has_col("notes"@)
    &&& db.table("raids"@).has_col("is_active"@)
    &&& db.table("raids"@).has_col("is_static"@)
    &&& db.has_table("raid_bosses"@)
    &&& db.table("raid_bosses"@).has_col("id"@)
    &&& db.table("raid_bosses"@).has_col("raid_name"@)
    &&& db.table("raid_bosses"@).has_col("name"@)
    &&& db.table("raid_bosses"@).has_col("boss_order"@)
    &&& db.has_table("raid_versions"@)
    &&& db.table("raid_versions"@).has_col("id"@)
    &&& db.table("raid_versions"@).has_col("name"@)
}

/// Probes whether the structured tables the seeder needs are present
/// with every column it writes; nothing is touched.
pub fn seed_schema_check(db: &Db) -> (r: bool)
    ensures
        r == spec_seed_schema_ok(*db),
{
    let ri = match db.find_table("raids") {
        Some(i) => i,
        None => {
            return false;
        },
    };
    if db.tables[ri].find_col("id").is_none() {
        return false;
    }
    if db.tables[ri].find_col("name").is_none() {
        return false;
    }
    if db.tables[ri].find_col("difficulty").is_none() {
        return false;
    }
    if db.tables[ri].find_col("player_count").is_none() {
        return false;
    }
    if db.tables[ri].find_col("version").is_none() {
        return false;
    }
    if db.tables[ri].find_col("notes").is_none() {
        return false;
    }
    if db.tables[ri].find_col("is_active").is_none() {
        return false;
    }
    if db.tables[ri].find_col("is_static").is_none() {
        return false;
    }
    let bi = match db.find_table("raid_bosses") {
        Some(i) => i,
        None => {
            return false;
        },
    };
    if db.tables[bi].find_col("id").is_none() {
        return false;
    }
    if db.tables[bi].find_col("raid_name").is_none() {
        return false;
    }
    if db.tables[bi].find_col("name").is_none() {
        return false;
    }
    if db.tables[bi].find_col("boss_order").is_none() {
        return false;
    }
    let vi = match db.find_table("raid_versions") {
        Some(i) => i,
        None => {
            return false;
        },
    };
    if db.tables[vi].find_col("id").is_none() {
        return false;
    }
    if db.tables[vi].find_col("name").is_none() {
        return false;
    }
    true
}

/// Everything the dataset asks for is present: every configuration's
/// natural key among the raid ids, a boss list under every encounter
/// name that has one, and every version label.
pub open spec fn spec_seed_complete(db: Db, dataset: Seq<SeedRaid>) -> bool {
    &&& forall|r: int, c: int|
        0 <= r < dataset.len() && 0 <= c < (#[trigger] dataset[r]).configurations@.len()
            ==> spec_table_has_text(
            db.table("raids"@),
            db.table("raids"@).col_idx("id"@),
            spec_raid_key(
                (#[trigger] dataset[r].configurations@[c]).player_count,
                dataset[r].configurations@[c].difficulty@,
                dataset[r].name@,
            ),
        )
    &&& forall|r: int|
        0 <= r < dataset.len() && (#[trigger] dataset[r]).bosses@.len() > 0
            ==> spec_table_has_text(
            db.table("raid_bosses"@),
            db.table("raid_bosses"@).col_idx("raid_name"@),
            dataset[r].name@,
        )
    &&& forall|r: int|
        0 <= r < dataset.len() && (#[trigger] dataset[r]).version@.len() > 0
            ==> spec_table_has_text(
            db.table("raid_versions"@),
            db.table("raid_versions"@).col_idx("name"@),
            dataset[r].version@,
        )
}


/// The raid row the seeder writes for one configuration of one
/// encounter, located by the table's own column positions: the
/// composite key, the display fields, the saturated capacity, empty
/// notes, the configured active flag, and the static marker.
pub open spec fn spec_seeded_raid_row(
    row: Vec<SqlValue>,
    t: Table,
    raid: SeedRaid,
    cfg: SeedConfig,
) -> bool {
    &&& row@.len() == t.cols@.len()
    &&& row@[t.col_idx("id"@)]@ == CellVal::Text(
        spec_raid_key(cfg.player_count, cfg.difficulty@, raid.name@),
    )
    &&& row@[t.col_idx("name"@)]@ == CellVal::Text(raid.name@)
    &&& row@[t.col_idx("difficulty"@)]@ == CellVal::Text(cfg.difficulty@)
    &&& row@[t.col_idx("player_count"@)]@ == CellVal::Int(
        if cfg.player_count <= 0x7fff_ffff_ffff_ffff {
            cfg.player_count as int
        } else {
            i64::MAX as int
        },
    )
    &&& row@[t.col_idx("version"@)]@ == CellVal::Text(raid.version@)
    &&& row@[t.col_idx("notes"@)]@ == CellVal::Text(Seq::empty())
    &&& row@[t.col_idx("is_active"@)]@ == CellVal::Int(
        if cfg.is_active {
            1
        } else {
            0
        },
    )
    &&& row@[t.col_idx("is_static"@)]@ == CellVal::Int(1)
}

/// The row derives from configuration `c` of encounter `r`.
pub open spec fn spec_seeded_raid_row_from(
    row: Vec<SqlValue>,
    t: Table,
    dataset: Seq<SeedRaid>,
    r: int,
    c: int,
) -> bool {
    &&& 0 <= r < dataset.len()
    &&& 0 <= c < dataset[r].configurations@.len()
    &&& spec_seeded_raid_row(row, t, dataset[r], dataset[r].configurations@[c])
}

/// The boss row the seeder writes for one entry of an encounter's
/// boss list.
pub open spec fn spec_seeded_boss_row(
    row: Vec<SqlValue>,
    t: Table,
    raid: SeedRaid,
    boss: SeedBoss,
) -> bool {
    &&& row@.len() == t.cols@.len()
    &&& row@[t.col_idx("id"@)]@ == CellVal::Text(boss.id@)
    &&& row@[t.col_idx("raid_name"@)]@ == CellVal::Text(raid.name@)
    &&& row@[t.col_idx("name"@)]@ == CellVal::Text(boss.name@)
    &&& row@[t.col_idx("boss_order"@)]@ == CellVal::Int(boss.order as int)
}

/// The row derives from boss `b` of encounter `r`.
pub open spec fn spec_seeded_boss_row_from(
    row: Vec<SqlValue>,
    t: Table,
    dataset: Seq<SeedRaid>,
    r: int,
    b: int,
) -> bool {
    &&& 0 <= r < dataset.len()
    &&& 0 <= b < dataset[r].bosses@.len()
    &&& spec_seeded_boss_row(row, t, dataset[r], dataset[r].bosses@[b])
}

/// The version row the seeder writes for an encounter's version
/// label; its synthetic id is some integer.
pub open spec fn spec_seeded_version_row(row: Vec<SqlValue>, t: Table, raid: SeedRaid) -> bool {
    &&& row@.len() == t.cols@.len()
    &&& row@[t.col_idx("name"@)]@ == CellVal::Text(raid.version@)
    &&& row@[t.col_idx("id"@)]@ is Int
}

/// The row derives from encounter `r`'s version label.
pub open spec fn spec_seeded_version_row_from(
    row: Vec<SqlValue>,
    t: Table,
    dataset: Seq<SeedRaid>,
    r: int,
) -> bool {
    &&& 0 <= r < dataset.len()
    &&& dataset[r].version@.len() > 0
    &&& spec_seeded_version_row(row, t, dataset[r])
}

/// The row derives from some configuration of the dataset.
pub open spec fn spec_raid_row_derived(row: Vec<SqlValue>, t0: Table, dataset: Seq<SeedRaid>) -> bool {
    exists|r2: int, c2: int| spec_seeded_raid_row_from(row, t0, dataset, r2, c2)
}

/// The row derives from some boss entry of the dataset.
pub open spec fn spec_boss_row_derived(row: Vec<SqlValue>, t0: Table, dataset: Seq<SeedRaid>) -> bool {
    exists|r2: int, b2: int| spec_seeded_boss_row_from(row, t0, dataset, r2, b2)
}

/// The row derives from some version label of the dataset.
pub open spec fn spec_version_row_derived(
    row: Vec<SqlValue>,
    t0: Table,
    dataset: Seq<SeedRaid>,
) -> bool {
    exists|r2: int| spec_seeded_version_row_from(row, t0, dataset, r2)
}

/// Every raid row appended beyond the first `o1` derives from some
/// configuration of the dataset.
pub open spec fn spec_added_raids_derived(
    t: Table,
    t0: Table,
    o1: int,
    dataset: Seq<SeedRaid>,
) -> bool {
    forall|rr: int|
        o1 <= rr < t.rows@.len() ==> spec_raid_row_derived(#[trigger] t.rows@[rr], t0, dataset)
}

/// Every boss row appended beyond the first `o2` derives from some
/// boss entry of the dataset.
pub open spec fn spec_added_bosses_derived(
    t: Table,
    t0: Table,
    o2: int,
    dataset: Seq<SeedRaid>,
) -> bool {
    forall|rr: int|
        o2 <= rr < t.rows@.len() ==> spec_boss_row_derived(#[trigger] t.rows@[rr], t0, dataset)
}

/// Every version row appended beyond the first `o3` derives from some
/// version label of the dataset.
pub open spec fn spec_added_versions_derived(
    t: Table,
    t0: Table,
    o3: int,
    dataset: Seq<SeedRaid>,
) -> bool {
    forall|rr: int|
        o3 <= rr < t.rows@.len() ==> spec_version_row_derived(#[trigger] t.rows@[rr], t0, dataset)
}

/// Every row the pass has appended so far derives from the dataset.
pub open spec fn spec_seed_added_derived(
    dbo: Db,
    db: Db,
    ri: int,
    bi: int,
    vi: int,
    o1: int,
    o2: int,
    o3: int,
    dataset: Seq<SeedRaid>,
) -> bool {
    &&& spec_added_raids_derived(db.tables@[ri], dbo.tables@[ri], o1, dataset)
    &&& spec_added_bosses_derived(db.tables@[bi], dbo.tables@[bi], o2, dataset)
    &&& spec_added_versions_derived(db.tables@[vi], dbo.tables@[vi], o3, dataset)
}

/// Appending a dataset-derived raid row keeps every appended row
/// dataset-derived.
proof fn lemma_added_raids_push(
    told: Table,
    tnew: Table,
    t0: Table,
    o1: int,
    dataset: Seq<SeedRaid>,
    r: int,
    c: int,
)
    requires
        spec_added_raids_derived(told, t0, o1, dataset),
        0 <= o1 <= told.rows@.len(),
        tnew.rows@.len() == told.rows@.len() + 1,
        forall|x: int| 0 <= x < told.rows@.len() ==> tnew.rows@[x] == told.rows@[x],
        spec_seeded_raid_row_from(tnew.rows@[tnew.rows@.len() - 1], t0, dataset, r, c),
    ensures
        spec_added_raids_derived(tnew, t0, o1, dataset),
{
    assert forall|rr: int| o1 <= rr < tnew.rows@.len() implies spec_raid_row_derived(
        #[trigger] tnew.rows@[rr],
        t0,
        dataset,
    ) by {
        if rr < told.rows@.len() {
            assert(tnew.rows@[rr] == told.rows@[rr]);
            assert(spec_raid_row_derived(told.rows@[rr], t0, dataset));
        } else {
            assert(spec_seeded_raid_row_from(tnew.rows@[rr], t0, dataset, r, c));
            assert(spec_raid_row_derived(tnew.rows@[rr], t0, dataset));
        }
    }
}

/// Appending a dataset-derived boss row keeps every appended row
/// dataset-derived.
proof fn lemma_added_bosses_push(
    told: Table,
    tnew: Table,
    t0: Table,
    o2: int,
    dataset: Seq<SeedRaid>,
    r: int,
    b: int,
)
    requires
        spec_added_bosses_derived(told, t0, o2, dataset),
        0 <= o2 <= told.rows@.len(),
        tnew.rows@.len() == told.rows@.len() + 1,
        forall|x: int| 0 <= x < told.rows@.len() ==> tnew.rows@[x] == told.rows@[x],
        spec_seeded_boss_row_from(tnew.rows@[tnew.rows@.len() - 1], t0, dataset, r, b),
    ensures
        spec_added_bosses_derived(tnew, t0, o2, dataset),
{
    assert forall|rr: int| o2 <= rr < tnew.rows@.len() implies spec_boss_row_derived(
        #[trigger] tnew.rows@[rr],
        t0,
        dataset,
    ) by {
        if rr < told.rows@.len() {
            assert(tnew.rows@[rr] == told.rows@[rr]);
            assert(spec_boss_row_derived(told.rows@[rr], t0, dataset));
        } else {
            assert(spec_seeded_boss_row_from(tnew.rows@[rr], t0, dataset, r, b));
            assert(spec_boss_row_derived(tnew.rows@[rr], t0, dataset));
        }
    }
}

/// Appending a dataset-derived version row keeps every appended row
/// dataset-derived.
proof fn lemma_added_versions_push(
    told: Table,
    tnew: Table,
    t0: Table,
    o3: int,
    dataset: Seq<SeedRaid>,
    r: int,
)
    requires
        spec_added_versions_derived(told, t0, o3, dataset),
        0 <= o3 <= told.rows@.len(),
        tnew.rows@.len() == told.rows@.len() + 1,
        forall|x: int| 0 <= x < told.rows@.len() ==> tnew.rows@[x] == told.rows@[x],
        spec_seeded_version_row_from(tnew.rows@[tnew.rows@.len() - 1], t0, dataset, r),
    ensures
        spec_added_versions_derived(tnew, t0, o3, dataset),
{
    assert forall|rr: int| o3 <= rr < tnew.rows@.len() implies spec_version_row_derived(
        #[trigger] tnew.rows@[rr],
        t0,
        dataset,
    ) by {
        if rr < told.rows@.len() {
            assert(tnew.rows@[rr] == told.rows@[rr]);
            assert(spec_version_row_derived(told.rows@[rr], t0, dataset));
        } else {
            assert(spec_seeded_version_row_from(tnew.rows@[rr], t0, dataset, r));
            assert(spec_version_row_derived(tnew.rows@[rr], t0, dataset));
        }
    }
}

/// Dataset-derivedness reads the position table only through its
/// columns, so any table with the same columns serves as the
/// position source.
pub proof fn lemma_raids_derived_cols(
    t: Table,
    t0a: Table,
    t0b: Table,
    o: int,
    dataset: Seq<SeedRaid>,
)
    requires
        spec_added_raids_derived(t, t0a, o, dataset),
        t0b.cols == t0a.cols,
    ensures
        spec_added_raids_derived(t, t0b, o, dataset),
{
    assert forall|rr: int| o <= rr < t.rows@.len() implies spec_raid_row_derived(
        #[trigger] t.rows@[rr],
        t0b,
        dataset,
    ) by {
        assert(spec_raid_row_derived(t.rows@[rr], t0a, dataset));
        let (r2, c2) = choose|r2: int, c2: int|
            spec_seeded_raid_row_from(t.rows@[rr], t0a, dataset, r2, c2);
        assert(spec_seeded_raid_row_from(t.rows@[rr], t0b, dataset, r2, c2));
    }
}

/// As above, for boss rows.
pub proof fn lemma_bosses_derived_cols(
    t: Table,
    t0a: Table,
    t0b: Table,
    o: int,
    dataset: Seq<SeedRaid>,
)
    requires
        spec_added_bosses_derived(t, t0a, o, dataset),
        t0b.cols == t0a.cols,
    ensures
        spec_added_bosses_derived(t, t0b, o, dataset),
{
    assert forall|rr: int| o <= rr < t.rows@.len() implies spec_boss_row_derived(
        #[trigger] t.rows@[rr],
        t0b,
        dataset,
    ) by {
        assert(spec_boss_row_derived(t.rows@[rr], t0a, dataset));
        let (r2, b2) = choose|r2: int, b2: int|
            spec_seeded_boss_row_from(t.rows@[rr], t0a, dataset, r2, b2);
        assert(spec_seeded_boss_row_from(t.rows@[rr], t0b, dataset, r2, b2));
    }
}

/// As above, for version rows.
pub proof fn lemma_versions_derived_cols(
    t: Table,
    t0a: Table,
    t0b: Table,
    o: int,
    dataset: Seq<SeedRaid>,
)
    requires
        spec_added_versions_derived(t, t0a, o, dataset),
        t0b.cols == t0a.cols,
    ensures
        spec_added_versions_derived(t, t0b, o, dataset),
{
    assert forall|rr: int| o <= rr < t.rows@.len() implies spec_version_row_derived(
        #[trigger] t.rows@[rr],
        t0b,
        dataset,
    ) by {
        assert(spec_version_row_derived(t.rows@[rr], t0a, dataset));
        let r2 = choose|r2: int| spec_seeded_version_row_from(t.rows@[rr], t0a, dataset, r2);
        assert(spec_seeded_version_row_from(t.rows@[rr], t0b, dataset, r2));
    }
}

/// The facts the seeding loops carry: the probed positions of the
/// three tables and their columns, the starting row counts, and the
/// file's well-formedness.
pub open spec fn spec_seed_ctx(
    dbo: Db,
    db: Db,
    ri: int,
    bi: int,
    vi: int,
    rc: RaidCols,
    bc: BossCols,
    vc_id: int,
    vc_name: int,
    o1: int,
    o2: int,
    o3: int,
) -> bool {
    &&& dbo.wf()
    &&& db.wf()
    &&& 0 <= ri < dbo.tables@.len()
    &&& 0 <= bi < dbo.tables@.len()
    &&& 0 <= vi < dbo.tables@.len()
    &&& dbo.has_table("raids"@) && dbo.table_idx("raids"@) == ri
    &&& dbo.has_table("raid_bosses"@) && dbo.table_idx("raid_bosses"@) == bi
    &&& dbo.has_table("raid_versions"@) && dbo.table_idx("raid_versions"@) == vi
    &&& rc.id < dbo.tables@[ri].cols@.len()
    &&& rc.name < dbo.tables@[ri].cols@.len()
    &&& rc.difficulty < dbo.tables@[ri].cols@.len()
    &&& rc.player_count < dbo.tables@[ri].cols@.len()
    &&& rc.version < dbo.tables@[ri].cols@.len()
    &&& rc.notes < dbo.tables@[ri].cols@.len()
    &&& rc.is_active < dbo.tables@[ri].cols@.len()
    &&& rc.is_static < dbo.tables@[ri].cols@.len()
    &&& bc.id < dbo.tables@[bi].cols@.len()
    &&& bc.raid_name < dbo.tables@[bi].cols@.len()
    &&& bc.name < dbo.tables@[bi].cols@.len()
    &&& bc.boss_order < dbo.tables@[bi].cols@.len()
    &&& 0 <= vc_id < dbo.tables@[vi].cols@.len()
    &&& 0 <= vc_name < dbo.tables@[vi].cols@.len()
    &&& dbo.tables@[ri].has_col("id"@) && dbo.tables@[ri].col_idx("id"@) == rc.id as int
    &&& dbo.tables@[ri].has_col("name"@) && dbo.tables@[ri].col_idx("name"@) == rc.name as int
    &&& dbo.tables@[ri].has_col("difficulty"@) && dbo.tables@[ri].col_idx("difficulty"@)
        == rc.difficulty as int
    &&& dbo.tables@[ri].has_col("player_count"@) && dbo.tables@[ri].col_idx("player_count"@)
        == rc.player_count as int
    &&& dbo.tables@[ri].has_col("version"@) && dbo.tables@[ri].col_idx("version"@) == rc.version
        as int
    &&& dbo.tables@[ri].has_col("notes"@) && dbo.tables@[ri].col_idx("notes"@) == rc.notes as int
    &&& dbo.tables@[ri].has_col("is_active"@) && dbo.tables@[ri].col_idx("is_active"@)
        == rc.is_active as int
    &&& dbo.tables@[ri].has_col("is_static"@) && dbo.tables@[ri].col_idx("is_static"@)
        == rc.is_static as int
    &&& dbo.tables@[bi].has_col("id"@) && dbo.tables@[bi].col_idx("id"@) == bc.id as int
    &&& dbo.tables@[bi].has_col("raid_name"@) && dbo.tables@[bi].col_idx("raid_name"@)
        == bc.raid_name as int
    &&& dbo.tables@[bi].has_col("name"@) && dbo.tables@[bi].col_idx("name"@) == bc.name as int
    &&& dbo.tables@[bi].has_col("boss_order"@) && dbo.tables@[bi].col_idx("boss_order"@)
        == bc.boss_order as int
    &&& dbo.tables@[vi].has_col("id"@) && dbo.tables@[vi].col_idx("id"@) == vc_id
    &&& dbo.tables@[vi].has_col("name"@) && dbo.tables@[vi].col_idx("name"@) == vc_name
    &&& rc.id != rc.name && rc.id != rc.difficulty && rc.id != rc.player_count && rc.id
        != rc.version && rc.id != rc.notes && rc.id != rc.is_active && rc.id != rc.is_static
    &&& rc.name != rc.difficulty && rc.name != rc.player_count && rc.name != rc.version
        && rc.name != rc.notes && rc.name != rc.is_active && rc.name != rc.is_static
    &&& rc.difficulty != rc.player_count && rc.difficulty != rc.version && rc.difficulty
        != rc.notes && rc.difficulty != rc.is_active && rc.difficulty != rc.is_static
    &&& rc.player_count != rc.version && rc.player_count != rc.notes && rc.player_count
        != rc.is_active && rc.player_count != rc.is_static
    &&& rc.version != rc.notes && rc.version != rc.is_active && rc.version != rc.is_static
    &&& rc.notes != rc.is_active && rc.notes != rc.is_static
    &&& rc.is_active != rc.is_static
    &&& bc.id != bc.raid_name && bc.id != bc.name && bc.id != bc.boss_order
    &&& bc.raid_name != bc.name && bc.raid_name != bc.boss_order
    &&& bc.name != bc.boss_order
    &&& vc_id != vc_name
    &&& o1 == dbo.tables@[ri].rows@.len()
    &&& o2 == dbo.tables@[bi].rows@.len()
    &&& o3 == dbo.tables@[vi].rows@.len()
    &&& ri != bi && ri != vi && bi != vi
}

/// The most rows one seeding pass can add: per encounter, one row
/// per configuration, its boss list written once, and one version
/// label.
pub open spec fn spec_seed_budget(dataset: Seq<SeedRaid>) -> int
    decreases dataset.len(),
{
    if dataset.len() == 0 {
        0
    } else {
        spec_seed_budget(dataset.drop_last()) + dataset.last().configurations@.len()
            + dataset.last().bosses@.len() + 1
    }
}

/// Nothing is lost by seeding: same tables, same columns, same
/// ledger, and every row that was there is still there, in place.
pub open spec fn spec_seed_preserved(a: Db, b: Db) -> bool {
    &&& b.tables@.len() == a.tables@.len()
    &&& b.ledger == a.ledger
    &&& forall|x: int|
        0 <= x < a.tables@.len() ==> {
            &&& (#[trigger] b.tables@[x]).name == a.tables@[x].name
            &&& b.tables@[x].cols == a.tables@[x].cols
            &&& a.tables@[x].rows@.len() <= b.tables@[x].rows@.len()
            &&& forall|rr: int|
                0 <= rr < a.tables@[x].rows@.len() ==> a.tables@[x].rows@[rr] == (
                #[trigger] b.tables@[x].rows@[rr])
        }
}

/// The total number of rows in the three seeded tables.
pub open spec fn spec_seed_rows(db: Db) -> int {
    db.table("raids"@).rows@.len() as int + db.table("raid_bosses"@).rows@.len() as int
        + db.table("raid_versions"@).rows@.len() as int
}

/// Merges the dataset into the structured tables, inserting only what
/// is absent: a raid row per configuration keyed by the composite
/// natural key, one boss list per encounter name, and each version
/// label once. Returns how many rows were newly inserted; on a file
/// already carrying the dataset that is zero and nothing at all is
/// touched.
pub fn seed(db: &mut Db, dataset: &Vec<SeedRaid>) -> (res: Result<u128, MigrationError>)
    requires
        old(db).wf(),
    ensures
        final(db).wf(),
        final(db).ledger == old(db).ledger,
        match res {
            Err(e) => {
                &&& e == MigrationError::MissingSchema
                &&& *final(db) == *old(db)
                &&& !spec_seed_schema_ok(*old(db))
            },
            Ok(n) => {
                &&& spec_seed_schema_ok(*old(db))
                &&& spec_seed_schema_ok(*final(db))
                &&& spec_seed_complete(*final(db), dataset@)
                &&& spec_seed_preserved(*old(db), *final(db))
                &&& forall|x: int|
                    0 <= x < old(db).tables@.len() && x != old(db).table_idx("raids"@) && x != old(
                        db,
                    ).table_idx("raid_bosses"@) && x != old(db).table_idx("raid_versions"@)
                        ==> final(db).tables@[x] == old(db).tables@[x]
                &&& n == spec_seed_rows(*final(db)) - spec_seed_rows(*old(db))
                &&& n <= spec_seed_budget(dataset@)
                &&& spec_added_raids_derived(
                    final(db).table("raids"@),
                    old(db).table("raids"@),
                    old(db).table("raids"@).rows@.len() as int,
                    dataset@,
                )
                &&& spec_added_bosses_derived(
                    final(db).table("raid_bosses"@),
                    old(db).table("raid_bosses"@),
                    old(db).table("raid_bosses"@).rows@.len() as int,
                    dataset@,
                )
                &&& spec_added_versions_derived(
                    final(db).table("raid_versions"@),
                    old(db).table("raid_versions"@),
                    old(db).table("raid_versions"@).rows@.len() as int,
                    dataset@,
                )
                &&& spec_seed_complete(*old(db), dataset@) ==> *final(db) == *old(db) && n == 0
            },
        },
{
    let ri = match db.find_table("raids") {
        Some(i) => i,
        None => {
            return Err(MigrationError::MissingSchema);
        },
    };
    let rc = RaidCols {
        id: match db.tables[ri].find_col("id") {
            Some(c) => c,
            None => {
                return Err(MigrationError::MissingSchema);
            },
        },
        name: match db.tables[ri].find_col("name") {
            Some(c) => c,
            None => {
                return Err(MigrationError::MissingSchema);
            },
        },
        difficulty: match db.tables[ri].find_col("difficulty") {
            Some(c) => c,
            None => {
                return Err(MigrationError::MissingSchema);
            },
        },
        player_count: match db.tables[ri].find_col("player_count") {
            Some(c) => c,
            None => {
                return Err(MigrationError::MissingSchema);
            },
        },
        version: match db.tables[ri].find_col("version") {
            Some(c) => c,
            None => {
                return Err(MigrationError::MissingSchema);
            },
        },
        notes: match db.tables[ri].find_col("notes") {
            Some(c) => c,
            None => {
                return Err(MigrationError::MissingSchema);
            },
        },
        is_active: match db.tables[ri].find_col("is_active") {
            Some(c) => c,
            None => {
                return Err(MigrationError::MissingSchema);
            },
        },
        is_static: match db.tables[ri].find_col("is_static") {
            Some(c) => c,
            None => {
                return Err(MigrationError::MissingSchema);
            },
        },
    };
    let bi = match db.find_table("raid_bosses") {
        Some(i) => i,
        None => {
            return Err(MigrationError::MissingSchema);
        },
    };
    let bc = BossCols {
        id: match db.tables[bi].find_col("id") {
            Some(c) => c,
            None => {
                return Err(MigrationError::MissingSchema);
            },
        },
        raid_name: match db.tables[bi].find_col("raid_name") {
            Some(c) => c,
            None => {
                return Err(MigrationError::MissingSchema);
            },
        },
        name: match db.tables[bi].find_col("name") {
            Some(c) => c,
            None => {
                return Err(MigrationError::MissingSchema);
            },
        },
        boss_order: match db.tables[bi].find_col("boss_order") {
            Some(c) => c,
            None => {
                return Err(MigrationError::MissingSchema);
            },
        },
    };
    let vi = match db.find_table("raid_versions") {
        Some(i) => i,
        None => {
            return Err(MigrationError::MissingSchema);
        },
    };
    let vc_id = match db.tables[vi].find_col("id") {
        Some(c) => c,
        None => {
            return Err(MigrationError::MissingSchema);
        },
    };
    let vc_name = match db.tables[vi].find_col("name") {
        Some(c) => c,
        None => {
            return Err(MigrationError::MissingSchema);
        },
    };
    let ghost dbo = *db;
    let o1 = db.tables[ri].rows.len();
    let o2 = db.tables[bi].rows.len();
    let o3 = db.tables[vi].rows.len();
    let nr = dataset.len();
    proof {
        reveal_strlit("id");
        reveal_strlit("name");
        reveal_strlit("difficulty");
        reveal_strlit("player_count");
        reveal_strlit("version");
        reveal_strlit("notes");
        reveal_strlit("is_active");
        reveal_strlit("is_static");
        reveal_strlit("raid_name");
        reveal_strlit("boss_order");
        assert("id"@.len() == 2);
        assert("name"@.len() == 4);
        assert("difficulty"@.len() == 10);
        assert("player_count"@.len() == 12);
        assert("version"@.len() == 7);
        assert("notes"@.len() == 5);
        assert("is_active"@.len() == 9);
        assert("is_static"@.len() == 9);
        assert("is_active"@[3] == 'a');
        assert("is_static"@[3] == 's');
        assert("raid_name"@.len() == 9);
        assert("boss_order"@.len() == 10);
        reveal_strlit("raids");
        reveal_strlit("raid_bosses");
        reveal_strlit("raid_versions");
        assert("raids"@.len() == 5);
        assert("raid_bosses"@.len() == 11);
        assert("raid_versions"@.len() == 13);
        assert(spec_seed_ctx(
            dbo,
            *db,
            ri as int,
            bi as int,
            vi as int,
            rc,
            bc,
            vc_id as int,
            vc_name as int,
            o1 as int,
            o2 as int,
            o3 as int,
        ));
    }
    let mut r: usize = 0;
    while r < nr
        invariant
            r <= nr == dataset@.len(),
            spec_seed_ctx(
                dbo,
                *db,
                ri as int,
                bi as int,
                vi as int,
                rc,
                bc,
                vc_id as int,
                vc_name as int,
                o1 as int,
                o2 as int,
                o3 as int,
            ),
            (db.tables@[ri as int].rows@.len() - o1) + (db.tables@[bi as int].rows@.len() - o2)
                + (db.tables@[vi as int].rows@.len() - o3) <= spec_seed_budget(
                dataset@.take(r as int),
            ),
            spec_seed_added_derived(dbo, *db, ri as int, bi as int, vi as int, o1 as int, o2 as int, o3 as int, dataset@),
            spec_seed_preserved(dbo, *db),
            forall|x: int|
                0 <= x < dbo.tables@.len() && x != ri as int && x != bi as int && x != vi as int
                    ==> db.tables@[x] == dbo.tables@[x],
            spec_seed_complete(dbo, dataset@) ==> *db == dbo,
            forall|rr: int, cc: int|
                0 <= rr < r && 0 <= cc < (#[trigger] dataset@[rr]).configurations@.len()
                    ==> spec_table_has_text(
                    db.tables@[ri as int],
                    rc.id as int,
                    spec_raid_key(
                        (#[trigger] dataset@[rr].configurations@[cc]).player_count,
                        dataset@[rr].configurations@[cc].difficulty@,
                        dataset@[rr].name@,
                    ),
                ),
            forall|rr: int|
                0 <= rr < r && (#[trigger] dataset@[rr]).bosses@.len() > 0
                    ==> spec_table_has_text(
                    db.tables@[bi as int],
                    bc.raid_name as int,
                    dataset@[rr].name@,
                ),
            forall|rr: int|
                0 <= rr < r && (#[trigger] dataset@[rr]).version@.len() > 0
                    ==> spec_table_has_text(
                    db.tables@[vi as int],
                    vc_name as int,
                    dataset@[rr].version@,
                ),
        decreases nr - r,
    {
        let raid = &dataset[r];
        let nc = raid.configurations.len();
        let mut c: usize = 0;
        while c < nc
            invariant
                c <= nc == dataset@[r as int].configurations@.len(),
                r < dataset@.len(),
                raid == &dataset[r as int],
                spec_seed_ctx(
                    dbo,
                    *db,
                    ri as int,
                    bi as int,
                    vi as int,
                    rc,
                    bc,
                    vc_id as int,
                    vc_name as int,
                    o1 as int,
                    o2 as int,
                    o3 as int,
                ),
                (db.tables@[ri as int].rows@.len() - o1) + (db.tables@[bi as int].rows@.len()
                    - o2) + (db.tables@[vi as int].rows@.len() - o3) <= spec_seed_budget(
                    dataset@.take(r as int),
                ) + c,
                spec_seed_added_derived(dbo, *db, ri as int, bi as int, vi as int, o1 as int, o2 as int, o3 as int, dataset@),
                spec_seed_preserved(dbo, *db),
                forall|x: int|
                    0 <= x < dbo.tables@.len() && x != ri as int && x != bi as int && x != vi
                        as int ==> db.tables@[x] == dbo.tables@[x],
                spec_seed_complete(dbo, dataset@) ==> *db == dbo,
                forall|rr: int, cc: int|
                    0 <= rr < r && 0 <= cc < (#[trigger] dataset@[rr]).configurations@.len()
                        ==> spec_table_has_text(
                        db.tables@[ri as int],
                        rc.id as int,
                        spec_raid_key(
                            (#[trigger] dataset@[rr].configurations@[cc]).player_count,
                            dataset@[rr].configurations@[cc].difficulty@,
                            dataset@[rr].name@,
                        ),
                    ),
                forall|cc: int|
                    0 <= cc < c ==> spec_table_has_text(
                        db.tables@[ri as int],
                        rc.id as int,
                        spec_raid_key(
                            (#[trigger] dataset@[r as int].configurations@[cc]).player_count,
                            dataset@[r as int].configurations@[cc].difficulty@,
                            dataset@[r as int].name@,
                        ),
                    ),
                forall|rr: int|
                    0 <= rr < r && (#[trigger] dataset@[rr]).bosses@.len() > 0
                        ==> spec_table_has_text(
                        db.tables@[bi as int],
                        bc.raid_name as int,
                        dataset@[rr].name@,
                    ),
                forall|rr: int|
                    0 <= rr < r && (#[trigger] dataset@[rr]).version@.len() > 0
                        ==> spec_table_has_text(
                        db.tables@[vi as int],
                        vc_name as int,
                        dataset@[rr].version@,
                    ),
            decreases nc - c,
        {
            let cfg = &raid.configurations[c];
            let key = raid_natural_key(cfg.player_count, &cfg.difficulty, &raid.name);
            let ghost dbp = *db;
            let present = match db.tables[ri].find_row_text(rc.id, &key) {
                Some(_) => true,
                None => false,
            };
            if !present {
                proof {
                    if spec_seed_complete(dbo, dataset@) {
                        assert(*db == dbo);
                        assert(dataset@[r as int].configurations@[c as int] == *cfg);
                        assert(spec_table_has_text(
                            dbo.table("raids"@),
                            dbo.table("raids"@).col_idx("id"@),
                            spec_raid_key(cfg.player_count, cfg.difficulty@, raid.name@),
                        ));
                        assert(dbo.table("raids"@) == dbo.tables@[ri as int]);
                        assert(false);
                    }
                }
                let ncols = db.tables[ri].cols.len();
                let mut row = blank_row(ncols);
                set_cell(&mut row, rc.id, SqlValue::Text(key));
                set_cell(&mut row, rc.name, SqlValue::Text(raid.name.clone()));
                set_cell(&mut row, rc.difficulty, SqlValue::Text(cfg.difficulty.clone()));
                let pc_cell: i64 = if cfg.player_count <= 0x7fff_ffff_ffff_ffff {
                    cfg.player_count as i64
                } else {
                    i64::MAX
                };
                set_cell(&mut row, rc.player_count, SqlValue::Int(pc_cell));
                set_cell(&mut row, rc.version, SqlValue::Text(raid.version.clone()));
                set_cell(&mut row, rc.notes, SqlValue::Text(String::new()));
                set_cell(
                    &mut row,
                    rc.is_active,
                    SqlValue::Int(
                        if cfg.is_active {
                            1
                        } else {
                            0
                        },
                    ),
                );
                set_cell(&mut row, rc.is_static, SqlValue::Int(1));
                let ghost rowg = row;
                db.push_row_at(ri, row);
                proof {
                    let tnew = db.tables@[ri as int];
                    let told = dbp.tables@[ri as int];
                    assert(rowg@.len() == dbo.tables@[ri as int].cols@.len());
                    assert(spec_seeded_raid_row(
                        rowg,
                        dbo.tables@[ri as int],
                        dataset@[r as int],
                        dataset@[r as int].configurations@[c as int],
                    ));
                    assert(spec_seeded_raid_row_from(
                        rowg,
                        dbo.tables@[ri as int],
                        dataset@,
                        r as int,
                        c as int,
                    ));
                    lemma_added_raids_push(
                        told,
                        tnew,
                        dbo.tables@[ri as int],
                        o1 as int,
                        dataset@,
                        r as int,
                        c as int,
                    );
                    assert(tnew.rows@[tnew.rows@.len() - 1]@[rc.id as int]@ == CellVal::Text(
                        spec_raid_key(cfg.player_count, cfg.difficulty@, raid.name@),
                    ));
                    assert(spec_table_has_text(
                        tnew,
                        rc.id as int,
                        spec_raid_key(cfg.player_count, cfg.difficulty@, raid.name@),
                    ));
                    assert forall|rr: int, cc: int|
                        0 <= rr < r && 0 <= cc < (#[trigger] dataset@[rr]).configurations@.len()
                            implies spec_table_has_text(
                        db.tables@[ri as int],
                        rc.id as int,
                        spec_raid_key(
                            (#[trigger] dataset@[rr].configurations@[cc]).player_count,
                            dataset@[rr].configurations@[cc].difficulty@,
                            dataset@[rr].name@,
                        ),
                    ) by {
                        lemma_has_text_push(
                            told,
                            tnew,
                            rc.id as int,
                            spec_raid_key(
                                dataset@[rr].configurations@[cc].player_count,
                                dataset@[rr].configurations@[cc].difficulty@,
                                dataset@[rr].name@,
                            ),
                        );
                    }
                    assert forall|cc: int| 0 <= cc < c implies spec_table_has_text(
                        db.tables@[ri as int],
                        rc.id as int,
                        spec_raid_key(
                            (#[trigger] dataset@[r as int].configurations@[cc]).player_count,
                            dataset@[r as int].configurations@[cc].difficulty@,
                            dataset@[r as int].name@,
                        ),
                    ) by {
                        lemma_has_text_push(
                            told,
                            tnew,
                            rc.id as int,
                            spec_raid_key(
                                dataset@[r as int].configurations@[cc].player_count,
                                dataset@[r as int].configurations@[cc].difficulty@,
                                dataset@[r as int].name@,
                            ),
                        );
                    }
                }
            } else {
                proof {
                    assert(spec_table_has_text(db.tables@[ri as int], rc.id as int, key@));
                }
            }
            c = c + 1;
        }
        // the boss list is written once per encounter name
        if raid.bosses.len() > 0 {
            let has_bosses = match db.tables[bi].find_row_text(bc.raid_name, &raid.name) {
                Some(_) => {
                    proof {
                        assert(spec_table_has_text(
                            db.tables@[bi as int],
                            bc.raid_name as int,
                            dataset@[r as int].name@,
                        ));
                    }
                    true
                },
                None => false,
            };
            if !has_bosses {
                proof {
                    if spec_seed_complete(dbo, dataset@) {
                        assert(*db == dbo);
                        assert(spec_table_has_text(
                            dbo.table("raid_bosses"@),
                            dbo.table("raid_bosses"@).col_idx("raid_name"@),
                            dataset@[r as int].name@,
                        ));
                        assert(dbo.table("raid_bosses"@) == dbo.tables@[bi as int]);
                        assert(false);
                    }
                }
                let nb = raid.bosses.len();
                let mut b: usize = 0;
                while b < nb
                    invariant
                        b <= nb == dataset@[r as int].bosses@.len(),
                        r < dataset@.len(),
                        raid == &dataset[r as int],
                        spec_seed_ctx(
                            dbo,
                            *db,
                            ri as int,
                            bi as int,
                            vi as int,
                            rc,
                            bc,
                            vc_id as int,
                            vc_name as int,
                            o1 as int,
                            o2 as int,
                            o3 as int,
                        ),
                        (db.tables@[ri as int].rows@.len() - o1) + (db.tables@[bi
                            as int].rows@.len() - o2) + (db.tables@[vi as int].rows@.len() - o3)
                            <= spec_seed_budget(dataset@.take(r as int))
                            + dataset@[r as int].configurations@.len() + b,
                        spec_seed_added_derived(dbo, *db, ri as int, bi as int, vi as int, o1 as int, o2 as int, o3 as int, dataset@),
                        spec_seed_preserved(dbo, *db),
                        forall|x: int|
                            0 <= x < dbo.tables@.len() && x != ri as int && x != bi as int && x
                                != vi as int ==> db.tables@[x] == dbo.tables@[x],
                        b > 0 ==> spec_table_has_text(
                            db.tables@[bi as int],
                            bc.raid_name as int,
                            dataset@[r as int].name@,
                        ),
                        !spec_seed_complete(dbo, dataset@),
                        forall|rr: int, cc: int|
                            0 <= rr <= r && 0 <= cc < (
                            #[trigger] dataset@[rr]).configurations@.len()
                                ==> spec_table_has_text(
                                db.tables@[ri as int],
                                rc.id as int,
                                spec_raid_key(
                                    (#[trigger] dataset@[rr].configurations@[cc]).player_count,
                                    dataset@[rr].configurations@[cc].difficulty@,
                                    dataset@[rr].name@,
                                ),
                            ),
                        forall|rr: int|
                            0 <= rr < r && (#[trigger] dataset@[rr]).bosses@.len() > 0
                                ==> spec_table_has_text(
                                db.tables@[bi as int],
                                bc.raid_name as int,
                                dataset@[rr].name@,
                            ),
                        forall|rr: int|
                            0 <= rr < r && (#[trigger] dataset@[rr]).version@.len() > 0
                                ==> spec_table_has_text(
                                db.tables@[vi as int],
                                vc_name as int,
                                dataset@[rr].version@,
                            ),
                    decreases nb - b,
                {
                    let boss = &raid.bosses[b];
                    let ghost dbp = *db;
                    let ncols = db.tables[bi].cols.len();
                    let mut row = blank_row(ncols);
                    set_cell(&mut row, bc.id, SqlValue::Text(boss.id.clone()));
                    set_cell(&mut row, bc.raid_name, SqlValue::Text(raid.name.clone()));
                    set_cell(&mut row, bc.name, SqlValue::Text(boss.name.clone()));
                    set_cell(&mut row, bc.boss_order, SqlValue::Int(boss.order));
                    let ghost rowg = row;
                    db.push_row_at(bi, row);
                    proof {
                        let tnew = db.tables@[bi as int];
                        let told = dbp.tables@[bi as int];
                        assert(rowg@.len() == dbo.tables@[bi as int].cols@.len());
                        assert(spec_seeded_boss_row(
                            rowg,
                            dbo.tables@[bi as int],
                            dataset@[r as int],
                            dataset@[r as int].bosses@[b as int],
                        ));
                        assert(spec_seeded_boss_row_from(
                            rowg,
                            dbo.tables@[bi as int],
                            dataset@,
                            r as int,
                            b as int,
                        ));
                        lemma_added_bosses_push(
                            told,
                            tnew,
                            dbo.tables@[bi as int],
                            o2 as int,
                            dataset@,
                            r as int,
                            b as int,
                        );
                        assert(tnew.rows@[tnew.rows@.len() - 1]@[bc.raid_name as int]@
                            == CellVal::Text(dataset@[r as int].name@));
                        assert(spec_table_has_text(
                            tnew,
                            bc.raid_name as int,
                            dataset@[r as int].name@,
                        ));
                        assert forall|rr: int|
                            0 <= rr < r && (#[trigger] dataset@[rr]).bosses@.len()
                                > 0 implies spec_table_has_text(
                            db.tables@[bi as int],
                            bc.raid_name as int,
                            dataset@[rr].name@,
                        ) by {
                            lemma_has_text_push(told, tnew, bc.raid_name as int, dataset@[rr].name@);
                        }
                    }
                    b = b + 1;
                }
            }
        }
        // each distinct version label is recorded once
        if !raid.version.as_str().is_empty() {
            let has_version = match db.tables[vi].find_row_text(vc_name, &raid.version) {
                Some(_) => {
                    proof {
                        assert(spec_table_has_text(
                            db.tables@[vi as int],
                            vc_name as int,
                            dataset@[r as int].version@,
                        ));
                    }
                    true
                },
                None => false,
            };
            if !has_version {
                proof {
                    if spec_seed_complete(dbo, dataset@) {
                        assert(*db == dbo);
                        assert(spec_table_has_text(
                            dbo.table("raid_versions"@),
                            dbo.table("raid_versions"@).col_idx("name"@),
                            dataset@[r as int].version@,
                        ));
                        assert(dbo.table("raid_versions"@) == dbo.tables@[vi as int]);
                        assert(false);
                    }
                }
                let ghost dbp = *db;
                let next_id = {
                    let m = max_int_col(&db.tables[vi], vc_id);
                    if m < 0x7fff_ffff_ffff_ffff {
                        m + 1
                    } else {
                        m
                    }
                };
                let ncols = db.tables[vi].cols.len();
                let mut row = blank_row(ncols);
                set_cell(&mut row, vc_id, SqlValue::Int(next_id));
                set_cell(&mut row, vc_name, SqlValue::Text(raid.version.clone()));
                let ghost rowg = row;
                db.push_row_at(vi, row);
                proof {
                    let tnew = db.tables@[vi as int];
                    let told = dbp.tables@[vi as int];
                    assert(rowg@.len() == dbo.tables@[vi as int].cols@.len());
                    assert(spec_seeded_version_row(
                        rowg,
                        dbo.tables@[vi as int],
                        dataset@[r as int],
                    ));
                    assert(spec_seeded_version_row_from(
                        rowg,
                        dbo.tables@[vi as int],
                        dataset@,
                        r as int,
                    ));
                    lemma_added_versions_push(
                        told,
                        tnew,
                        dbo.tables@[vi as int],
                        o3 as int,
                        dataset@,
                        r as int,
                    );
                    assert(tnew.rows@[tnew.rows@.len() - 1]@[vc_name as int]@ == CellVal::Text(
                        dataset@[r as int].version@,
                    ));
                    assert(spec_table_has_text(tnew, vc_name as int, dataset@[r as int].version@));
                    assert forall|rr: int|
                        0 <= rr < r && (#[trigger] dataset@[rr]).version@.len()
                            > 0 implies spec_table_has_text(
                        db.tables@[vi as int],
                        vc_name as int,
                        dataset@[rr].version@,
                    ) by {
                        lemma_has_text_push(told, tnew, vc_name as int, dataset@[rr].version@);
                    }
                }
            }
        }
        proof {
            assert(dataset@.take(r + 1).drop_last() =~= dataset@.take(r as int));
            assert(dataset@.take(r + 1).last() == dataset@[r as int]);
            assert(spec_seed_budget(dataset@.take(r + 1)) == spec_seed_budget(
                dataset@.take(r as int),
            ) + dataset@[r as int].configurations@.len() + dataset@[r as int].bosses@.len() + 1);
        }
        r = r + 1;
    }
    let l1 = db.tables[ri].rows.len();
    let l2 = db.tables[bi].rows.len();
    let l3 = db.tables[vi].rows.len();
    let n: u128 = (l1 - o1) as u128 + (l2 - o2) as u128 + (l3 - o3) as u128;
    proof {
        assert(dataset@.take(nr as int) =~= dataset@);
        crate::table::lemma_find_table_names(dbo.tables@, db.tables@, "raids"@);
        crate::table::lemma_find_table_names(dbo.tables@, db.tables@, "raid_bosses"@);
        crate::table::lemma_find_table_names(dbo.tables@, db.tables@, "raid_versions"@);
        assert(db.table("raids"@) == db.tables@[ri as int]);
        assert(db.table("raid_bosses"@) == db.tables@[bi as int]);
        assert(db.table("raid_versions"@) == db.tables@[vi as int]);
        assert(db.table("raids"@).col_idx("id"@) == rc.id as int);
        assert(db.table("raid_bosses"@).col_idx("raid_name"@) == bc.raid_name as int);
        assert(db.table("raid_versions"@).col_idx("name"@) == vc_name as int);
        assert(db.table("raids"@).cols == dbo.table("raids"@).cols);
        assert(db.table("raid_bosses"@).cols == dbo.table("raid_bosses"@).cols);
        assert(db.table("raid_versions"@).cols == dbo.table("raid_versions"@).cols);
        assert(spec_seed_schema_ok(*db));
        assert(db.table("raids"@) == db.tables@[ri as int]);
        assert(dbo.table("raids"@) == dbo.tables@[ri as int]);
        assert(spec_added_raids_derived(
            db.tables@[ri as int],
            dbo.tables@[ri as int],
            o1 as int,
            dataset@,
        ));
        assert(db.table("raid_bosses"@) == db.tables@[bi as int]);
        assert(dbo.table("raid_bosses"@) == dbo.tables@[bi as int]);
        assert(spec_added_bosses_derived(
            db.tables@[bi as int],
            dbo.tables@[bi as int],
            o2 as int,
            dataset@,
        ));
        assert(db.table("raid_versions"@) == db.tables@[vi as int]);
        assert(dbo.table("raid_versions"@) == dbo.tables@[vi as int]);
        assert(spec_added_versions_derived(
            db.tables@[vi as int],
            dbo.tables@[vi as int],
            o3 as int,
            dataset@,
        ));
    }
    Ok(n)
}

/// Builds one configuration variant.
fn cfg(pc: u64, difficulty: &str, active: bool) -> (c: SeedConfig)
    ensures
        c.player_count == pc,
        c.difficulty@ == difficulty@,
        c.is_active == active,
{
    SeedConfig { player_count: pc, difficulty: String::from_str(difficulty), is_active: active }
}

/// Builds one boss entry.
fn boss(id: &str, name: &str, order: i64) -> (b: SeedBoss)
    ensures
        b.id@ == id@,
        b.name@ == name@,
        b.order == order,
{
    SeedBoss { id: String::from_str(id), name: String::from_str(name), order }
}

/// The static reference dataset shipped with the application: the
/// named encounters, their difficulty-and-capacity variants, and
/// their ordered boss lists. It is consumed read-only and merged by
/// [`seed`]; it is never mutated at run time.
pub fn static_raids() -> (ds: Vec<SeedRaid>)
    ensures
        ds@.len() == 4,
        forall|i: int|
            0 <= i < ds@.len() ==> (#[trigger] ds@[i]).configurations@.len() > 0
                && ds@[i].bosses@.len() > 0 && ds@[i].name@.len() > 0 && ds@[i].version@.len()
                > 0,
{
    let mut ds: Vec<SeedRaid> = Vec::new();
    ds.push(
        SeedRaid {
            name: String::from_str("敖龙岛"),
            version: String::from_str("110级"),
            configurations: vec![cfg(25, "普通", true), cfg(25, "英雄", true)],
            bosses: vec![
                boss("ald-1", "赤軍刀兵", 1),
                boss("ald-2", "牡丹", 2),
                boss("ald-3", "呼延石峰", 3),
                boss("ald-4", "武雪散", 4),
                boss("ald-5", "悉达罗摩", 5),
            ],
        },
    );
    ds.push(
        SeedRaid {
            name: String::from_str("范阳夜变"),
            version: String::from_str("110级"),
            configurations: vec![cfg(25, "普通", true), cfg(25, "英雄", true)],
            bosses: vec![
                boss("fy-1", "迟驻", 1),
                boss("fy-2", "卫栖梧", 2),
                boss("fy-3", "牧之仁", 3),
                boss("fy-4", "安小逢", 4),
            ],
        },
    );
    ds.push(
        SeedRaid {
            name: String::from_str("太极宫"),
            version: String::from_str("120级"),
            configurations: vec![cfg(10, "普通", true), cfg(25, "普通", true), cfg(25, "英雄", true)],
            bosses: vec![
                boss("tjg-1", "冷龙峰", 1),
                boss("tjg-2", "萧沙", 2),
                boss("tjg-3", "空怖", 3),
            ],
        },
    );
    ds.push(
        SeedRaid {
            name: String::from_str("一之窟"),
            version: String::from_str("120级"),
            configurations: vec![cfg(25, "普通", true)],
            bosses: vec![
                boss("yzk-1", "猗更", 1),
                boss("yzk-2", "宫厌", 2),
                boss("yzk-3", "竺法兰", 3),
            ],
        },
    );
    proof {
        reveal_strlit("敖龙岛");
        reveal_strlit("范阳夜变");
        reveal_strlit("太极宫");
        reveal_strlit("一之窟");
        reveal_strlit("110级");
        reveal_strlit("120级");
        assert("敖龙岛"@.len() == 3);
        assert("范阳夜变"@.len() == 4);
        assert("太极宫"@.len() == 3);
        assert("一之窟"@.len() == 3);
        assert("110级"@.len() == 4);
        assert("120级"@.len() == 4);
        assert(ds@[0].configurations@.len() == 2 && ds@[0].bosses@.len() == 5);
        assert(ds@[1].configurations@.len() == 2 && ds@[1].bosses@.len() == 4);
        assert(ds@[2].configurations@.len() == 3 && ds@[2].bosses@.len() == 3);
        assert(ds@[3].configurations@.len() == 1 && ds@[3].bosses@.len() == 3);
        assert(ds@[0].name@.len() == 3 && ds@[0].version@.len() == 4);
        assert(ds@[1].name@.len() == 4 && ds@[1].version@.len() == 4);
        assert(ds@[2].name@.len() == 3 && ds@[2].version@.len() == 4);
        assert(ds@[3].name@.len() == 3 && ds@[3].version@.len() == 4);
    }
    ds
}

} // verus!
