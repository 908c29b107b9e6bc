//! Verified storage core for a desktop raid-manager application.
//!
//! The library models the application's embedded database as a plain
//! relational value and verifies the logic that is hard to get right:
//! the schema-version ledger, the sequential migration steps that turn
//! legacy JSON blobs into structured tables, the idempotent seeding of
//! static reference data, and the duplicate-repair utilities.
//! The surrounding process performs the actual file and SQL I/O and
//! hands the resulting plain values to this crate.

use vstd::prelude::*;

pub mod accounts;
pub mod engine;
pub mod gkp;
pub mod json;
pub mod ledger;
pub mod records;
pub mod repair;
pub mod schema;
pub mod seed;
pub mod swap;
pub mod table;
pub mod text;

verus! {

/// Highest schema version this crate knows how to migrate to.
pub const LATEST_SCHEMA_VERSION: i64 = 5;

/// Why a migration step refused to run. Structural failures abort the
/// whole run and leave the ledger at the last completed version.
#[derive(PartialEq, Eq, Structural, Clone, Copy, Debug)]
pub enum MigrationError {
    /// A table name this step must claim is already taken.
    NameConflict,
    /// A legacy table misses a column the step must read.
    BadLegacySchema,
    /// A structured table or column the step must write is missing.
    MissingSchema,
    /// The executor was asked for a version no step exists for.
    UnknownVersion,
}

impl MigrationError {
    /// The message surfaced to the command layer.
    pub fn message(&self) -> (m: String)
        ensures
            m@ == match *self {
                MigrationError::NameConflict => "迁移失败: 备份表名已被占用"@,
                MigrationError::BadLegacySchema => "迁移失败: 旧表缺少必需的列"@,
                MigrationError::MissingSchema => "迁移失败: 结构化表或列缺失"@,
                MigrationError::UnknownVersion => "迁移失败: 未知的目标版本"@,
            },
    {
        match self {
            MigrationError::NameConflict => String::from_str("迁移失败: 备份表名已被占用"),
            MigrationError::BadLegacySchema => String::from_str("迁移失败: 旧表缺少必需的列"),
            MigrationError::MissingSchema => String::from_str("迁移失败: 结构化表或列缺失"),
            MigrationError::UnknownVersion => String::from_str("迁移失败: 未知的目标版本"),
        }
    }
}

} // verus!
