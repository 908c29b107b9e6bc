//! The schema-version ledger: the durable record of which schema
//! versions have been applied. The current version is the maximum
//! recorded version, or zero for a file that has no record yet.

use vstd::prelude::*;

use crate::table::Db;
use crate::table::VersionRow;

verus! {

/// The maximum recorded version, or zero when nothing is recorded.
pub open spec fn spec_current_version(l: Seq<VersionRow>) -> int
    decreases l.len(),
{
    if l.len() == 0 {
        0
    } else {
        let rest = spec_current_version(l.drop_last());
        if l.last().version > rest {
            l.last().version as int
        } else {
            rest
        }
    }
}

/// The current version bounds every recorded version, and is itself
/// recorded unless it is the zero default.
pub proof fn lemma_current_version_bounds(l: Seq<VersionRow>)
    ensures
        spec_current_version(l) >= 0,
        forall|i: int| 0 <= i < l.len() ==> (#[trigger] l[i]).version <= spec_current_version(l),
        spec_current_version(l) != 0 ==> exists|i: int|
            0 <= i < l.len() && (#[trigger] l[i]).version == spec_current_version(l),
    decreases l.len(),
{
    if l.len() > 0 {
        lemma_current_version_bounds(l.drop_last());
        assert(forall|i: int| 0 <= i < l.len() - 1 ==> l[i] == l.drop_last()[i]);
    }
}

/// Replacing a row by one recording the same version leaves the
/// current version unchanged.
pub proof fn lemma_current_version_update(l: Seq<VersionRow>, j: int, r: VersionRow)
    requires
        0 <= j < l.len(),
        l[j].version == r.version,
    ensures
        spec_current_version(l.update(j, r)) == spec_current_version(l),
    decreases l.len(),
{
    let u = l.update(j, r);
    if j == l.len() - 1 {
        assert(u.drop_last() =~= l.drop_last());
    } else {
        assert(u.drop_last() =~= l.drop_last().update(j, r));
        lemma_current_version_update(l.drop_last(), j, r);
    }
}

/// Appending a row raises the current version to that row's version if
/// it is higher.
pub proof fn lemma_current_version_push(l: Seq<VersionRow>, r: VersionRow)
    ensures
        spec_current_version(l.push(r)) == if r.version > spec_current_version(l) {
            r.version as int
        } else {
            spec_current_version(l)
        },
{
    assert(l.push(r).drop_last() =~= l);
}

/// Reads the current schema version; total, with the defensive zero
/// default for an empty (or never created) ledger.
pub fn get_current_version(db: &Db) -> (v: i64)
    ensures
        v as int == spec_current_version(db.ledger@),
{
    let n = db.ledger.len();
    let mut cur: i64 = 0;
    let mut i: usize = 0;
    proof {
        assert(db.ledger@.take(0) =~= Seq::<VersionRow>::empty());
    }
    while i < n
        invariant
            i <= n == db.ledger@.len(),
            cur as int == spec_current_version(db.ledger@.take(i as int)),
        decreases n - i,
    {
        proof {
            assert(db.ledger@.take(i + 1).drop_last() =~= db.ledger@.take(i as int));
            assert(db.ledger@.take(i + 1).last() == db.ledger@[i as int]);
        }
        let row_version = db.ledger[i].version;
        if row_version > cur {
            cur = row_version;
        }
        i = i + 1;
    }
    proof {
        assert(db.ledger@.take(n as int) =~= db.ledger@);
    }
    cur
}

/// Relies on chrono: the present UTC instant, rendered in RFC 3339
/// form. The value depends on the clock, so nothing is assumed of it.
#[verifier::external_body]
pub(crate) fn now_rfc3339() -> String {
    chrono::Utc::now().to_rfc3339()
}

/// No two ledger rows carry the same version number.
pub open spec fn spec_versions_distinct(l: Seq<VersionRow>) -> bool {
    forall|a: int, b: int|
        0 <= a < b < l.len() ==> (#[trigger] l[a]).version != (#[trigger] l[b]).version
}

/// Marks a version as applied, stamped with the present wall-clock
/// time. It is only called right after the matching transformation
/// has been applied; re-recording a version is harmless.
pub fn mark_version_applied(db: &mut Db, version: i64, description: String)
    ensures
        final(db).tables == old(db).tables,
        spec_versions_distinct(old(db).ledger@) ==> spec_versions_distinct(final(db).ledger@),
        spec_current_version(final(db).ledger@) == if version > spec_current_version(
            old(db).ledger@,
        ) {
            version as int
        } else {
            spec_current_version(old(db).ledger@)
        },
        ({
            ||| exists|j: int|
                0 <= j < old(db).ledger@.len() && (#[trigger] old(db).ledger@[j]).version
                    == version && final(db).ledger@.len() == old(db).ledger@.len() && final(db).ledger@[j].version == version && final(db).ledger@[j].description == description
                    && (forall|x: int|
                    0 <= x < old(db).ledger@.len() && x != j ==> final(db).ledger@[x] == old(db).ledger@[x])
            ||| (forall|j: int|
                0 <= j < old(db).ledger@.len() ==> (#[trigger] old(db).ledger@[j]).version
                    != version) && final(db).ledger@.len() == old(db).ledger@.len() + 1 && final(db).ledger@.last().version == version && final(db).ledger@.last().description
                == description && (forall|x: int|
                0 <= x < old(db).ledger@.len() ==> final(db).ledger@[x] == old(db).ledger@[x])
        }),
{
    let ts = now_rfc3339();
    let ghost d = description;
    let ghost tso = ts;
    record_version(db, version, ts, description);
    proof {
        let row = (VersionRow { version, applied_at: tso, description: d });
        if exists|j: int|
            0 <= j < old(db).ledger@.len() && (#[trigger] old(db).ledger@[j]).version == version
                && db.ledger@ == old(db).ledger@.update(j, row) {
            let j = choose|j: int|
                0 <= j < old(db).ledger@.len() && (#[trigger] old(db).ledger@[j]).version
                    == version && db.ledger@ == old(db).ledger@.update(j, row);
            assert(db.ledger@[j] == row);
        } else {
            assert(db.ledger@ == old(db).ledger@.push(row));
            assert(db.ledger@[db.ledger@.len() - 1] == row);
        }
    }
}

/// Records a version in the ledger: an upsert by version number, so
/// re-recording a version after a resumed run is harmless. Only the
/// migration executor calls this, right after the matching step has
/// been applied.
pub fn record_version(db: &mut Db, version: i64, applied_at: String, description: String)
    ensures
        final(db).tables == old(db).tables,
        spec_versions_distinct(old(db).ledger@) ==> spec_versions_distinct(final(db).ledger@),
        ({
            let row = (VersionRow { version, applied_at, description });
            ||| exists|j: int|
                0 <= j < old(db).ledger@.len() && (#[trigger] old(db).ledger@[j]).version
                    == version && final(db).ledger@ == old(db).ledger@.update(j, row)
            ||| (forall|j: int|
                0 <= j < old(db).ledger@.len() ==> (#[trigger] old(db).ledger@[j]).version
                    != version) && final(db).ledger@ == old(db).ledger@.push(row)
        }),
        spec_current_version(final(db).ledger@) == if version > spec_current_version(
            old(db).ledger@,
        ) {
            version as int
        } else {
            spec_current_version(old(db).ledger@)
        },
{
    let row = VersionRow { version, applied_at, description };
    let n = db.ledger.len();
    let mut i: usize = 0;
    while i < n
        invariant
            i <= n == db.ledger@.len(),
            db.ledger@ == old(db).ledger@,
            db.tables == old(db).tables,
            row == (VersionRow { version, applied_at, description }),
            forall|j: int| 0 <= j < i ==> (#[trigger] db.ledger@[j]).version != version,
        decreases n - i,
    {
        if db.ledger[i].version == version {
            let _ = db.ledger.remove(i);
            db.ledger.insert(i, row);
            proof {
                assert(db.ledger@ =~= old(db).ledger@.update(i as int, row));
                lemma_current_version_update(old(db).ledger@, i as int, row);
                lemma_current_version_bounds(old(db).ledger@);
                if spec_versions_distinct(old(db).ledger@) {
                    assert forall|a: int, b: int| 0 <= a < b < db.ledger@.len() implies (
                    #[trigger] db.ledger@[a]).version != (#[trigger] db.ledger@[b]).version by {
                        assert(db.ledger@[a].version == old(db).ledger@[a].version);
                        assert(db.ledger@[b].version == old(db).ledger@[b].version);
                    }
                }
            }
            return ;
        }
        i = i + 1;
    }
    db.ledger.push(row);
    proof {
        lemma_current_version_push(old(db).ledger@, row);
        if spec_versions_distinct(old(db).ledger@) {
            assert forall|a: int, b: int| 0 <= a < b < db.ledger@.len() implies (
            #[trigger] db.ledger@[a]).version != (#[trigger] db.ledger@[b]).version by {
                if b < db.ledger@.len() - 1 {
                    assert(db.ledger@[a] == old(db).ledger@[a]);
                    assert(db.ledger@[b] == old(db).ledger@[b]);
                } else {
                    assert(db.ledger@[a] == old(db).ledger@[a]);
                    assert(old(db).ledger@[a].version != version);
                }
            }
        }
    }
}

} // verus!
