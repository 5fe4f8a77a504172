//! First schema migration: creates the `region` table with its
//! auto-incrementing primary key and the three string columns.

use vstd::prelude::*;

use crate::migrate::DbState;
use crate::region::{RegionError, RegionView};
use crate::store::{RegionTable, RegionTableView};

verus! {

/// The unique, monotonically sortable name under which this migration is
/// recorded once applied.
pub open spec fn spec_name() -> Seq<char> {
    "m20250426_024738_add_regions_table"@
}

/// A `region` table that was just created: no rows, ids start at 1.
pub open spec fn empty_table() -> RegionTableView {
    RegionTableView { rows: Seq::<RegionView>::empty(), next_id: 1 }
}

/// The database's table after this migration ran forward: an existing table
/// is kept (the creation is guarded by "if not exists"), an absent one
/// appears empty.
pub open spec fn table_after_up(db: Option<RegionTableView>) -> Option<RegionTableView> {
    match db {
        Some(t) => Some(t),
        None => Some(empty_table()),
    }
}

/// The migration that creates the `region` table. Forward: create the table
/// if it does not exist. Reverse: drop it.
pub struct Migration;

impl Migration {
    /// The recorded name of this migration.
    pub fn name(&self) -> (n: String)
        ensures
            n@ == spec_name(),
    {
        "m20250426_024738_add_regions_table".to_owned()
    }

    /// Creates the `region` table unless it already exists; never fails and
    /// never touches the record of applied migrations.
    pub fn up(&self, db: &mut DbState) -> (r: Result<(), RegionError>)
        requires
            old(db)@.wf(),
        ensures
            r is Ok,
            final(db)@.wf(),
            final(db)@.applied == old(db)@.applied,
            final(db)@.table == table_after_up(old(db)@.table),
    {
        if db.table.is_none() {
            db.table = Some(RegionTable::new());
        }
        Ok(())
    }

    /// Drops the `region` table. Dropping an absent table is the one way this
    /// can fail: the backend reports it as a data-access error.
    pub fn down(&self, db: &mut DbState) -> (r: Result<(), RegionError>)
        requires
            old(db)@.wf(),
        ensures
            final(db)@.wf(),
            final(db)@.applied == old(db)@.applied,
            old(db)@.table is Some ==> r is Ok && final(db)@.table is None,
            old(db)@.table is None ==> (r matches Err(e) && e matches RegionError::DataAccess(m)
                && m@ == "no such table: region"@ && final(db)@ == old(db)@),
    {
        match db.table {
            Some(_) => {
                db.table = None;
                Ok(())
            },
            None => Err(RegionError::DataAccess("no such table: region".to_owned())),
        }
    }
}

} // verus!
