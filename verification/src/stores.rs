use vstd::prelude::*;

use crate::text::{append_str, chars_of, owned, string_from_chars};

verus! {

/// Failure of the audit-event store.
#[derive(Debug)]
pub enum AuditStoreError {
    Sql(String),
    LockPoisoned,
}

impl AuditStoreError {
    /// "sqlite error: <detail>" or "store lock poisoned".
    pub fn message(&self) -> (r: String)
        ensures
            r@ == match self {
                AuditStoreError::Sql(d) => "sqlite error: "@ + d@,
                AuditStoreError::LockPoisoned => "store lock poisoned"@,
            },
    {
        match self {
            AuditStoreError::Sql(d) => {
                let mut v = chars_of("sqlite error: ");
                append_str(&mut v, d.as_str());
                string_from_chars(&v)
            },
            AuditStoreError::LockPoisoned => owned("store lock poisoned"),
        }
    }
}

/// Failure of the schema migration runner.
#[derive(Debug)]
pub enum DbMigrationError {
    Open(String),
    Sql(String),
}

impl DbMigrationError {
    /// "sqlite open failed: <detail>" or "sqlite migrate failed: <detail>".
    pub fn message(&self) -> (r: String)
        ensures
            r@ == match self {
                DbMigrationError::Open(d) => "sqlite open failed: "@ + d@,
                DbMigrationError::Sql(d) => "sqlite migrate failed: "@ + d@,
            },
    {
        match self {
            DbMigrationError::Open(d) => {
                let mut v = chars_of("sqlite open failed: ");
                append_str(&mut v, d.as_str());
                string_from_chars(&v)
            },
            DbMigrationError::Sql(d) => {
                let mut v = chars_of("sqlite migrate failed: ");
                append_str(&mut v, d.as_str());
                string_from_chars(&v)
            },
        }
    }
}

/// The schema version the migrations lead to.
pub const LATEST_SCHEMA_VERSION: i64 = 1;

/// One schema migration: its version, name and SQL batch.
pub struct Migration {
    pub version: i64,
    pub name: String,
    pub sql: String,
}

/// The migrations, in ascending version order.
pub fn migrations() -> (r: Vec<Migration>)
    ensures
        r@.len() == 1,
        r@[0].version == 1,
        r@[0].name@ == "initial_audit_and_jobs"@,
        forall|i: int, j: int| 0 <= i < j < r@.len() ==> r@[i].version < r@[j].version,
        forall|i: int| 0 <= i < r@.len() ==> r@[i].version <= LATEST_SCHEMA_VERSION,
{
    let mut v: Vec<Migration> = Vec::new();
    v.push(
        Migration {
            version: 1,
            name: owned("initial_audit_and_jobs"),
            sql: owned(
                "
            CREATE TABLE IF NOT EXISTS operation_events (
                id INTEGER PRIMARY KEY AUTOINCREMENT,
                timestamp_ms INTEGER NOT NULL,
                kind TEXT NOT NULL,
                detail TEXT NOT NULL,
                success INTEGER NOT NULL
            );
            CREATE INDEX IF NOT EXISTS idx_operation_events_timestamp
            ON operation_events(timestamp_ms DESC);

            CREATE TABLE IF NOT EXISTS jobs (
                id INTEGER PRIMARY KEY AUTOINCREMENT,
                kind TEXT NOT NULL,
                status TEXT NOT NULL,
                created_at_ms INTEGER NOT NULL,
                updated_at_ms INTEGER NOT NULL,
                payload_json TEXT NOT NULL,
                result_json TEXT,
                error TEXT
            );
            CREATE INDEX IF NOT EXISTS idx_jobs_updated
            ON jobs(updated_at_ms DESC);
        ",
            ),
        },
    );
    v
}

/// The migrations with a version above `current`, in order.
pub open spec fn pending_of(all: Seq<Migration>, current: i64) -> Seq<Migration>
    decreases all.len(),
{
    if all.len() == 0 {
        seq![]
    } else {
        let r = pending_of(all.drop_last(), current);
        if all.last().version > current {
            r.push(all.last())
        } else {
            r
        }
    }
}

/// The migrations still to apply on a database at `current_version`: those
/// with a greater version, in order.
pub fn pending_migrations(all: Vec<Migration>, current_version: i64) -> (r: Vec<Migration>)
    ensures
        r@ == pending_of(all@, current_version),
{
    let mut out: Vec<Migration> = Vec::new();
    let mut rest = all;
    let ghost orig = rest@;
    let mut stack: Vec<Migration> = Vec::new();
    while rest.len() > 0
        invariant
            stack@.len() + rest@.len() == orig.len(),
            rest@ == orig.take(rest@.len() as int),
            forall|k: int| 0 <= k < stack@.len() ==> #[trigger] stack@[k] == orig[orig.len() - 1 - k],
        decreases rest.len(),
    {
        let x = rest.pop().unwrap();
        stack.push(x);
        assert(rest@ =~= orig.take(rest@.len() as int));
    }
    let ghost mut taken: int = 0;
    while stack.len() > 0
        invariant
            taken + stack@.len() == orig.len(),
            0 <= taken,
            forall|k: int| 0 <= k < stack@.len() ==> #[trigger] stack@[k] == orig[orig.len() - 1 - k],
            out@ == pending_of(orig.take(taken), current_version),
        decreases stack.len(),
    {
        let x = stack.pop().unwrap();
        assert(x == orig[taken]);
        assert(orig.take(taken + 1).drop_last() =~= orig.take(taken));
        assert(orig.take(taken + 1).last() == x);
        if x.version > current_version {
            out.push(x);
        }
        proof {
            taken = taken + 1;
        }
    }
    assert(orig.take(taken) =~= orig);
    out
}


/// Each migration still to apply on a database at `current` is newer than it,
/// and the pending ones keep their order.
pub proof fn lemma_pending_are_newer(all: Seq<Migration>, current: i64)
    ensures
        forall|i: int| 0 <= i < pending_of(all, current).len() ==> #[trigger] pending_of(all, current)[i].version > current,
        forall|i: int| 0 <= i < pending_of(all, current).len() ==> all.contains(#[trigger] pending_of(all, current)[i]),
    decreases all.len(),
{
    if all.len() > 0 {
        lemma_pending_are_newer(all.drop_last(), current);
        let r = pending_of(all.drop_last(), current);
        assert forall|i: int| 0 <= i < pending_of(all, current).len() implies all.contains(
            #[trigger] pending_of(all, current)[i],
        ) by {
            if i < r.len() {
                let k = choose|k: int| 0 <= k < all.drop_last().len() && all.drop_last()[k] == r[i];
                assert(all[k] == r[i]);
            } else {
                assert(all[all.len() - 1] == all.last());
            }
        }
    }
}

/// Running the migrations again applies nothing: a database whose version is
/// at least that of every migration has none pending.
pub proof fn lemma_rerun_applies_nothing(all: Seq<Migration>, current: i64)
    requires
        forall|i: int| 0 <= i < all.len() ==> #[trigger] all[i].version <= current,
    ensures
        pending_of(all, current).len() == 0,
    decreases all.len(),
{
    if all.len() > 0 {
        assert forall|i: int| 0 <= i < all.drop_last().len() implies #[trigger] all.drop_last()[i].version
            <= current by {
            assert(all.drop_last()[i] == all[i]);
        }
        lemma_rerun_applies_nothing(all.drop_last(), current);
        assert(all.last() == all[all.len() - 1]);
    }
}

} // verus!
