//! Second schema migration: seeds the `region` table with its seven fixed
//! rows. Forward: insert the seven regions, ids assigned by the table's
//! counter. Reverse: delete every row of the table, seeded or not.

use vstd::prelude::*;

use crate::migrate::DbState;
use crate::region::{RegionError, RegionView};
use crate::store::RegionTableView;

verus! {

/// The unique, monotonically sortable name under which this migration is
/// recorded once applied.
pub open spec fn spec_name() -> Seq<char> {
    "m20250508_022912_seed_regions_data"@
}

/// The seven seeded regions, in insertion order, with ids assigned
/// consecutively from `start`.
pub open spec fn seed_rows(start: int) -> Seq<RegionView> {
    seq![
        RegionView { id: start, slug: "chicago"@, katakana: "シカゴ"@, english: "Chicago"@ },
        RegionView { id: start + 1, slug: "columbus"@, katakana: "コロンバス"@, english: "Columbus"@ },
        RegionView {
            id: start + 2,
            slug: "san-diego"@,
            katakana: "サンディエゴ"@,
            english: "San Diego"@,
        },
        RegionView {
            id: start + 3,
            slug: "los-angeles"@,
            katakana: "ロサンゼルス"@,
            english: "Los Angeles"@,
        },
        RegionView {
            id: start + 4,
            slug: "new-york"@,
            katakana: "ニューヨーク"@,
            english: "New York"@,
        },
        RegionView { id: start + 5, slug: "boston"@, katakana: "ボストン"@, english: "Boston"@ },
        RegionView {
            id: start + 6,
            slug: "nashville"@,
            katakana: "ナッシュビル"@,
            english: "Nashville"@,
        },
    ]
}

/// A table after seeding: the seven rows appended, the id counter advanced
/// past them.
pub open spec fn seeded(t: RegionTableView) -> RegionTableView {
    RegionTableView { rows: t.rows + seed_rows(t.next_id), next_id: t.next_id + 7 }
}

/// The migration that seeds the region data. It inserts rows the way raw SQL
/// does, without any slug check.
pub struct Migration;

impl Migration {
    /// The recorded name of this migration.
    pub fn name(&self) -> (n: String)
        ensures
            n@ == spec_name(),
    {
        "m20250508_022912_seed_regions_data".to_owned()
    }

    /// Inserts the seven seed rows. Fails, changing nothing, when the table
    /// does not exist; the record of applied migrations is never touched.
    pub fn up(&self, db: &mut DbState) -> (r: Result<(), RegionError>)
        requires
            old(db)@.wf(),
            match old(db)@.table {
                Some(t) => t.next_id + 7 <= u64::MAX,
                None => true,
            },
        ensures
            final(db)@.wf(),
            final(db)@.applied == old(db)@.applied,
            old(db)@.table is None ==> (r matches Err(e) && e matches RegionError::DataAccess(m)
                && m@ == "no such table: region"@ && final(db)@ == old(db)@),
            old(db)@.table matches Some(t) ==> r is Ok && final(db)@.table == Some(seeded(t)),
    {
        match &mut db.table {
            None => Err(RegionError::DataAccess("no such table: region".to_owned())),
            Some(table) => {
                let ghost t0 = table@;
                let _ = table.insert_unchecked(
                    "chicago".to_owned(),
                    "シカゴ".to_owned(),
                    "Chicago".to_owned(),
                );
                let _ = table.insert_unchecked(
                    "columbus".to_owned(),
                    "コロンバス".to_owned(),
                    "Columbus".to_owned(),
                );
                let _ = table.insert_unchecked(
                    "san-diego".to_owned(),
                    "サンディエゴ".to_owned(),
                    "San Diego".to_owned(),
                );
                let _ = table.insert_unchecked(
                    "los-angeles".to_owned(),
                    "ロサンゼルス".to_owned(),
                    "Los Angeles".to_owned(),
                );
                let _ = table.insert_unchecked(
                    "new-york".to_owned(),
                    "ニューヨーク".to_owned(),
                    "New York".to_owned(),
                );
                let _ = table.insert_unchecked(
                    "boston".to_owned(),
                    "ボストン".to_owned(),
                    "Boston".to_owned(),
                );
                let _ = table.insert_unchecked(
                    "nashville".to_owned(),
                    "ナッシュビル".to_owned(),
                    "Nashville".to_owned(),
                );
                proof {
                    assert(table@.rows =~= t0.rows + seed_rows(t0.next_id));
                }
                Ok(())
            },
        }
    }

    /// Deletes every row of the table, not only the seeded ones; the id
    /// counter stays where it is, as the backend never reassigns ids. Fails,
    /// changing nothing, when the table does not exist.
    pub fn down(&self, db: &mut DbState) -> (r: Result<(), RegionError>)
        requires
            old(db)@.wf(),
        ensures
            final(db)@.wf(),
            final(db)@.applied == old(db)@.applied,
            old(db)@.table is None ==> (r matches Err(e) && e matches RegionError::DataAccess(m)
                && m@ == "no such table: region"@ && final(db)@ == old(db)@),
            old(db)@.table matches Some(t) ==> (r is Ok && (final(db)@.table matches Some(t2)
                && t2.rows == Seq::<RegionView>::empty() && t2.next_id == t.next_id)),
    {
        match &mut db.table {
            None => Err(RegionError::DataAccess("no such table: region".to_owned())),
            Some(table) => {
                table.clear_rows();
                Ok(())
            },
        }
    }
}

} // verus!
