//! The schema migrator: a model of the database (the record of applied
//! migrations plus the `region` table, absent until created) and the runner
//! that applies the fixed, ordered migration sequence, skipping migrations
//! already recorded and recording each one right after it runs.

use vstd::prelude::*;

use crate::add_regions_table;
use crate::region::{RegionError, RegionView};
use crate::seed_regions_data;
use crate::store::{RegionTable, RegionTableView};
use crate::text::str_eq;

verus! {

/// The model of the backing database: which migrations are recorded as
/// applied, in the order they ran, and the `region` table, `None` until the
/// first migration creates it.
pub struct DbState {
    pub applied: Vec<String>,
    pub table: Option<RegionTable>,
}

/// The mathematical value of a [`DbState`].
#[verifier::ext_equal]
pub ghost struct DbStateView {
    pub applied: Seq<Seq<char>>,
    pub table: Option<RegionTableView>,
}

impl View for DbState {
    type V = DbStateView;

    open spec fn view(&self) -> DbStateView {
        DbStateView {
            applied: self.applied@.map_values(|s: String| s@),
            table: match self.table {
                Some(ref t) => Some(t@),
                None => None,
            },
        }
    }
}

impl DbStateView {
    /// Well-formedness: whenever the table exists, it is well formed.
    pub open spec fn wf(self) -> bool {
        match self.table {
            Some(t) => t.wf(),
            None => true,
        }
    }

    /// The migration of this name is recorded as applied.
    pub open spec fn is_applied(self, name: Seq<char>) -> bool {
        self.applied.contains(name)
    }

    /// The state after recording one more migration name.
    pub open spec fn record(self, name: Seq<char>) -> DbStateView {
        DbStateView { applied: self.applied.push(name), table: self.table }
    }
}

/// The database after the table-creating migration was run if pending: when
/// its name is recorded nothing happens; otherwise the table is created (kept
/// when it somehow already exists) and the name is recorded.
pub open spec fn after_add_table(db: DbStateView) -> DbStateView {
    if db.is_applied(add_regions_table::spec_name()) {
        db
    } else {
        DbStateView {
            applied: db.applied.push(add_regions_table::spec_name()),
            table: add_regions_table::table_after_up(db.table),
        }
    }
}

/// The seeding migration, run on `db` if pending, cannot succeed: it is not
/// recorded yet and there is no table to insert into.
pub open spec fn seed_blocked(db: DbStateView) -> bool {
    !db.is_applied(seed_regions_data::spec_name()) && db.table is None
}

/// The database after the seeding migration was run if pending: when its name
/// is recorded, or the run fails for want of the table, nothing happens;
/// otherwise the seven rows are appended and the name is recorded.
pub open spec fn after_seed(db: DbStateView) -> DbStateView {
    if db.is_applied(seed_regions_data::spec_name()) {
        db
    } else {
        match db.table {
            None => db,
            Some(t) => DbStateView {
                applied: db.applied.push(seed_regions_data::spec_name()),
                table: Some(seed_regions_data::seeded(t)),
            },
        }
    }
}

impl DbState {
    /// A fresh database: no table, no migration recorded.
    pub fn new() -> (d: Self)
        ensures
            d@.wf(),
            d@.applied == Seq::<Seq<char>>::empty(),
            d@.table is None,
    {
        let d = DbState { applied: Vec::new(), table: None };
        proof {
            assert(d@.applied =~= Seq::<Seq<char>>::empty());
        }
        d
    }

    /// Whether a migration of this name is recorded as applied.
    pub fn is_applied(&self, name: &str) -> (r: bool)
        ensures
            r == self@.is_applied(name@),
    {
        let n = self.applied.len();
        let mut i: usize = 0;
        while i < n
            invariant
                n == self.applied.len(),
                0 <= i <= n,
                forall|k: int| 0 <= k < i ==> self@.applied[k] != name@,
            decreases n - i,
        {
            if str_eq(self.applied[i].as_str(), name) {
                proof {
                    assert(self@.applied[i as int] == name@);
                }
                return true;
            }
            i += 1;
        }
        false
    }

    /// Records one migration name as applied.
    fn record(&mut self, name: String)
        ensures
            final(self)@ == old(self)@.record(name@),
    {
        self.applied.push(name);
        proof {
            assert(self@.applied =~= old(self)@.applied.push(name@));
            assert(self@ =~= old(self)@.record(name@));
        }
    }
}

/// The two migrations of the schema, in the order they run.
#[derive(Clone, Copy, PartialEq, Eq, Structural)]
pub enum MigrationId {
    AddRegionsTable,
    SeedRegionsData,
}

impl MigrationId {
    /// The recorded name of this migration.
    pub open spec fn spec_name(self) -> Seq<char> {
        match self {
            MigrationId::AddRegionsTable => add_regions_table::spec_name(),
            MigrationId::SeedRegionsData => seed_regions_data::spec_name(),
        }
    }

    /// The recorded name of this migration.
    pub fn name(&self) -> (n: String)
        ensures
            n@ == self.spec_name(),
    {
        match self {
            MigrationId::AddRegionsTable => (add_regions_table::Migration).name(),
            MigrationId::SeedRegionsData => (seed_regions_data::Migration).name(),
        }
    }
}

/// The two migration names differ, so recording the one never makes the
/// other look applied.
pub proof fn lemma_migration_names_distinct()
    ensures
        add_regions_table::spec_name() != seed_regions_data::spec_name(),
{
    reveal_strlit("m20250426_024738_add_regions_table");
    reveal_strlit("m20250508_022912_seed_regions_data");
    assert(add_regions_table::spec_name()[6] == '4');
    assert(seed_regions_data::spec_name()[6] == '5');
}

/// Applies the fixed migration sequence to a database, skipping what is
/// recorded and recording what runs.
pub struct Migrator;

impl Migrator {
    /// The fixed, ordered migration list.
    pub fn migrations() -> (v: Vec<MigrationId>)
        ensures
            v@ == seq![MigrationId::AddRegionsTable, MigrationId::SeedRegionsData],
    {
        let mut v: Vec<MigrationId> = Vec::new();
        v.push(MigrationId::AddRegionsTable);
        v.push(MigrationId::SeedRegionsData);
        proof {
            assert(v@ =~= seq![MigrationId::AddRegionsTable, MigrationId::SeedRegionsData]);
        }
        v
    }

    /// Runs one migration forward, without touching the applied record.
    pub fn run_up(id: MigrationId, db: &mut DbState) -> (r: Result<(), RegionError>)
        requires
            old(db)@.wf(),
            id is SeedRegionsData ==> match old(db)@.table {
                Some(t) => t.next_id + 7 <= u64::MAX,
                None => true,
            },
        ensures
            final(db)@.wf(),
            final(db)@.applied == old(db)@.applied,
            id is AddRegionsTable ==> (r is Ok && final(db)@.table == add_regions_table::table_after_up(
                old(db)@.table,
            )),
            id is SeedRegionsData && old(db)@.table is None ==> (r matches Err(e)
                && e matches RegionError::DataAccess(m) && m@ == "no such table: region"@
                && final(db)@ == old(db)@),
            old(db)@.table matches Some(t) ==> (id is SeedRegionsData ==> (r is Ok
                && final(db)@.table == Some(seed_regions_data::seeded(t)))),
    {
        match id {
            MigrationId::AddRegionsTable => (add_regions_table::Migration).up(db),
            MigrationId::SeedRegionsData => (seed_regions_data::Migration).up(db),
        }
    }

    /// Applies every pending migration in order: the table is created if that
    /// is not recorded yet, then the data is seeded if that is not recorded
    /// yet, each recorded right after it runs. Recorded migrations are
    /// skipped, so a second run on the same database is a no-op. The one
    /// failure is seeding without a table; the run stops there, keeping what
    /// ran before it.
    pub fn up(db: &mut DbState) -> (r: Result<(), RegionError>)
        requires
            old(db)@.wf(),
            match old(db)@.table {
                Some(t) => t.next_id + 7 <= u64::MAX,
                None => true,
            },
        ensures
            final(db)@.wf(),
            final(db)@ == after_seed(after_add_table(old(db)@)),
            r is Ok <==> !seed_blocked(after_add_table(old(db)@)),
            r matches Err(e) ==> (e matches RegionError::DataAccess(m) && m@
                == "no such table: region"@),
            r is Ok ==> final(db)@.is_applied(add_regions_table::spec_name()),
            r is Ok ==> final(db)@.is_applied(seed_regions_data::spec_name()),
            old(db)@.applied.len() == 0 && old(db)@.table is None ==> (r is Ok
                && (final(db)@.table matches Some(t) && t.rows == seed_regions_data::seed_rows(1)
                && t.next_id == 8)),
    {
        let add = MigrationId::AddRegionsTable;
        let seed = MigrationId::SeedRegionsData;
        let ghost orig = db@;
        proof {
            lemma_migration_names_distinct();
        }
        if !db.is_applied(add.name().as_str()) {
            match Migrator::run_up(add, db) {
                Ok(_) => {},
                Err(e) => {
                    return Err(e);
                },
            }
            db.record(add.name());
            proof {
                assert(db@.applied[orig.applied.len() as int]
                    == add_regions_table::spec_name());
            }
        }
        let ghost d1 = db@;
        proof {
            if !orig.is_applied(add_regions_table::spec_name()) {
                assert(d1.applied[orig.applied.len() as int] == add_regions_table::spec_name());
            }
            assert(d1.is_applied(add_regions_table::spec_name()));
        }
        if db.is_applied(seed.name().as_str()) {
            return Ok(());
        }
        match Migrator::run_up(seed, db) {
            Err(e) => Err(e),
            Ok(_) => {
                db.record(seed.name());
                proof {
                    assert(db@.applied[d1.applied.len() as int]
                        == seed_regions_data::spec_name());
                    if orig.applied.len() == 0 && orig.table is None {
                        assert(Seq::<RegionView>::empty() + seed_regions_data::seed_rows(1)
                            =~= seed_regions_data::seed_rows(1));
                    }
                    if d1.is_applied(add_regions_table::spec_name()) {
                        let i = choose|i: int|
                            0 <= i < d1.applied.len() && d1.applied[i]
                                == add_regions_table::spec_name();
                        assert(db@.applied[i] == add_regions_table::spec_name());
                    }
                }
                Ok(())
            },
        }
    }
}

/// A database with both migration names recorded is a fixed point of the
/// migrator: running it changes nothing and succeeds.
pub proof fn lemma_up_idempotent(db: DbStateView)
    requires
        db.is_applied(add_regions_table::spec_name()),
        db.is_applied(seed_regions_data::spec_name()),
    ensures
        after_seed(after_add_table(db)) == db,
        !seed_blocked(after_add_table(db)),
{
}

/// Law: the migrator is idempotent at the sequence level. After one run that
/// did not fail, a second run is a no-op: both names are recorded by then,
/// so nothing is run or recorded again.
pub proof fn lemma_up_rerun_noop(db: DbStateView)
    requires
        !seed_blocked(after_add_table(db)),
    ensures
        after_seed(after_add_table(after_seed(after_add_table(db)))) == after_seed(
            after_add_table(db),
        ),
{
    lemma_migration_names_distinct();
    let d1 = after_add_table(db);
    let d2 = after_seed(d1);
    if !db.is_applied(add_regions_table::spec_name()) {
        assert(d1.applied[db.applied.len() as int] == add_regions_table::spec_name());
    }
    assert(d1.is_applied(add_regions_table::spec_name()));
    if !d1.is_applied(seed_regions_data::spec_name()) {
        assert(d2.applied[d1.applied.len() as int] == seed_regions_data::spec_name());
        let i = choose|i: int|
            0 <= i < d1.applied.len() && d1.applied[i] == add_regions_table::spec_name();
        assert(d2.applied[i] == add_regions_table::spec_name());
    }
    assert(d2.is_applied(add_regions_table::spec_name()));
    assert(d2.is_applied(seed_regions_data::spec_name()));
    lemma_up_idempotent(d2);
}

} // verus!
