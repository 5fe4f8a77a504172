//! The region store: an in-memory model of the `region` table with the five
//! data-access operations of the service. Each operation carries a functional
//! contract; the unverified binary mirrors these semantics against the real
//! database and uses this model to state what every request must do.

use vstd::prelude::*;

use crate::region::{CreateRegion, CreateRegionView, FilterQuery, Region, RegionError, RegionView, UpdateRegion, UpdateRegionView};
use crate::text::{contains_substr, is_substring, str_eq};

verus! {

/// The views of a sequence of regions.
pub open spec fn views_of(rows: Seq<Region>) -> Seq<RegionView> {
    rows.map_values(|r: Region| r@)
}

/// Index of the first row whose slug equals `slug`, if any.
pub open spec fn find_slug(rows: Seq<RegionView>, slug: Seq<char>) -> Option<int>
    decreases rows.len(),
{
    if rows.len() == 0 {
        None
    } else if rows[0].slug == slug {
        Some(0)
    } else {
        match find_slug(rows.skip(1), slug) {
            Some(i) => Some(i + 1),
            None => None,
        }
    }
}

/// What `find_slug` returns: the least index holding the slug, or nothing
/// when no row holds it.
pub proof fn lemma_find_slug(rows: Seq<RegionView>, slug: Seq<char>)
    ensures
        match find_slug(rows, slug) {
            Some(i) => 0 <= i < rows.len() && rows[i].slug == slug && (forall|k: int|
                0 <= k < i ==> rows[k].slug != slug),
            None => forall|k: int| 0 <= k < rows.len() ==> rows[k].slug != slug,
        },
    decreases rows.len(),
{
    if rows.len() != 0 && rows[0].slug != slug {
        let rest = rows.skip(1);
        lemma_find_slug(rest, slug);
        match find_slug(rest, slug) {
            Some(i) => {
                assert(rows[i + 1] == rest[i]);
                assert forall|k: int| 0 <= k < i + 1 implies rows[k].slug != slug by {
                    if k > 0 {
                        assert(rows[k] == rest[k - 1]);
                    }
                }
            },
            None => {
                assert forall|k: int| 0 <= k < rows.len() implies rows[k].slug != slug by {
                    if k > 0 {
                        assert(rows[k] == rest[k - 1]);
                    }
                }
            },
        }
    }
}

/// A linear scan that stops at the first hit computes `find_slug`.
pub proof fn lemma_find_slug_first(rows: Seq<RegionView>, slug: Seq<char>, i: int)
    requires
        0 <= i < rows.len(),
        rows[i].slug == slug,
        forall|k: int| 0 <= k < i ==> rows[k].slug != slug,
    ensures
        find_slug(rows, slug) == Some(i),
    decreases rows.len(),
{
    if i > 0 {
        let rest = rows.skip(1);
        assert(rest[i - 1] == rows[i]);
        assert forall|k: int| 0 <= k < i - 1 implies rest[k].slug != slug by {
            assert(rest[k] == rows[k + 1]);
        }
        lemma_find_slug_first(rest, slug, i - 1);
    }
}

/// A region matches a filter when the filter occurs in its slug, its english
/// name or its katakana name.
pub open spec fn region_matches(r: RegionView, f: Seq<char>) -> bool {
    is_substring(f, r.slug) || is_substring(f, r.english) || is_substring(f, r.katakana)
}

/// `region_matches` as a predicate over rows, for filtering.
pub open spec fn matches_filter(f: Seq<char>) -> spec_fn(RegionView) -> bool {
    |r: RegionView| region_matches(r, f)
}

/// The region `create` makes from its input: the input's fields under the
/// table's next free id.
pub open spec fn created_region(t: RegionTableView, c: CreateRegionView) -> RegionView {
    RegionView { id: t.next_id, slug: c.slug, katakana: c.katakana, english: c.english }
}

/// A partial update applied to one region: a field that the input supplies is
/// replaced, an absent one keeps its value; id and slug never change.
pub open spec fn apply_update(r: RegionView, u: UpdateRegionView) -> RegionView {
    RegionView {
        id: r.id,
        slug: r.slug,
        katakana: match u.katakana {
            Some(k) => k,
            None => r.katakana,
        },
        english: match u.english {
            Some(e) => e,
            None => r.english,
        },
    }
}

/// The rows a listing returns: everything, or the rows matching the filter.
pub open spec fn listed(t: RegionTableView, q: Option<Seq<char>>) -> Seq<RegionView> {
    match q {
        None => t.rows,
        Some(f) => t.rows.filter(matches_filter(f)),
    }
}

/// Keeps the regions a listing returns: all of them when no filter is
/// present, else those the filter occurs in, in their original order. The
/// service's listing handler runs rows it fetched through this.
pub fn filter_regions(rows: &Vec<Region>, query: &FilterQuery) -> (r: Vec<Region>)
    ensures
        query@ is None ==> views_of(r@) == views_of(rows@),
        query@ matches Some(f) ==> views_of(r@) == views_of(rows@).filter(matches_filter(f)),
{
    let mut out: Vec<Region> = Vec::new();
    match query.filter {
        None => {
            let n = rows.len();
            let mut i: usize = 0;
            while i < n
                invariant
                    n == rows.len(),
                    0 <= i <= n,
                    views_of(out@) == views_of(rows@).take(i as int),
                decreases n - i,
            {
                out.push(rows[i].clone());
                proof {
                    assert(views_of(out@) =~= views_of(rows@).take(i as int).push(
                        views_of(rows@)[i as int],
                    ));
                    assert(views_of(rows@).take(i + 1 as int) =~= views_of(rows@).take(
                        i as int,
                    ).push(views_of(rows@)[i as int]));
                }
                i += 1;
            }
            proof {
                assert(views_of(rows@).take(n as int) =~= views_of(rows@));
            }
            out
        },
        Some(ref f) => {
            let ghost pred = matches_filter(f@);
            let n = rows.len();
            let mut i: usize = 0;
            while i < n
                invariant
                    n == rows.len(),
                    0 <= i <= n,
                    views_of(out@) == views_of(rows@).take(i as int).filter(pred),
                    pred == matches_filter(f@),
                decreases n - i,
            {
                let row = &rows[i];
                let keep = contains_substr(row.slug.as_str(), f.as_str()) || contains_substr(
                    row.english.as_str(),
                    f.as_str(),
                ) || contains_substr(row.katakana.as_str(), f.as_str());
                proof {
                    broadcast use Seq::lemma_filter_push;

                    assert(keep == pred(views_of(rows@)[i as int]));
                    assert(views_of(rows@).take(i + 1 as int) =~= views_of(rows@).take(
                        i as int,
                    ).push(views_of(rows@)[i as int]));
                }
                if keep {
                    out.push(rows[i].clone());
                    proof {
                        assert(views_of(out@) =~= views_of(rows@).take(i as int).filter(
                            pred,
                        ).push(views_of(rows@)[i as int]));
                    }
                }
                i += 1;
            }
            proof {
                assert(views_of(rows@).take(n as int) =~= views_of(rows@));
            }
            out
        },
    }
}

/// Replaces the fields an update supplies and keeps the rest: the merge step
/// of a partial update, shared by the store and by the service's update
/// handler.
pub fn merge_update(current: &Region, input: UpdateRegion) -> (r: Region)
    ensures
        r@ == apply_update(current@, input@),
{
    let mut updated = current.clone();
    match input.katakana {
        Some(k) => {
            updated.katakana = k;
        },
        None => {},
    }
    match input.english {
        Some(e) => {
            updated.english = e;
        },
        None => {},
    }
    updated
}

/// Law: creating a region under a slug that is not present and then looking
/// that slug up finds exactly the created region, which carries the input's
/// fields unchanged and the server-assigned id.
pub proof fn lemma_create_then_get(t: RegionTableView, c: CreateRegionView)
    requires
        t.wf(),
        !t.has_slug(c.slug),
    ensures
        ({
            let created = created_region(t, c);
            let rows = t.rows.push(created);
            &&& find_slug(rows, c.slug) == Some(t.rows.len() as int)
            &&& rows[t.rows.len() as int] == created
            &&& created.slug == c.slug
            &&& created.katakana == c.katakana
            &&& created.english == c.english
            &&& created.id == t.next_id
        }),
{
    let created = created_region(t, c);
    let rows = t.rows.push(created);
    lemma_find_slug(t.rows, c.slug);
    assert forall|k: int| 0 <= k < t.rows.len() implies rows[k].slug != c.slug by {
        assert(rows[k] == t.rows[k]);
    }
    lemma_find_slug_first(rows, c.slug, t.rows.len() as int);
}

/// Law: an update that supplies only `katakana` changes only `katakana`: the
/// id, the slug and the english name of the updated region keep their values,
/// and every other row of the table is untouched.
pub proof fn lemma_update_katakana_only(t: RegionTableView, slug: Seq<char>, k: Seq<char>)
    requires
        t.wf(),
    ensures
        find_slug(t.rows, slug) matches Some(i) ==> ({
            let u = UpdateRegionView { katakana: Some(k), english: None };
            let updated = apply_update(t.rows[i], u);
            let rows = t.rows.update(i, updated);
            &&& updated.katakana == k
            &&& updated.english == t.rows[i].english
            &&& updated.slug == t.rows[i].slug
            &&& updated.id == t.rows[i].id
            &&& forall|j: int| 0 <= j < rows.len() && j != i ==> rows[j] == t.rows[j]
        }),
{
    lemma_find_slug(t.rows, slug);
}

/// Law: deleting a present slug removes it, so that a subsequent lookup of
/// that slug finds nothing. Stated for a table in which no two rows share the
/// given slug: with duplicates (which the store does not rule out) the delete
/// removes only the first such row and a lookup still finds the next one.
/// Deleting an absent slug fails with `NotFound` and changes nothing, which
/// is `delete`'s own contract.
pub proof fn lemma_delete_then_get(t: RegionTableView, slug: Seq<char>)
    requires
        t.wf(),
        forall|i: int, j: int|
            0 <= i < j < t.rows.len() ==> !((#[trigger] t.rows[i]).slug == slug && (
            #[trigger] t.rows[j]).slug == slug),
    ensures
        find_slug(t.rows, slug) matches Some(i) ==> find_slug(t.rows.remove(i), slug) is None,
{
    lemma_find_slug(t.rows, slug);
    match find_slug(t.rows, slug) {
        Some(i) => {
            let rest = t.rows.remove(i);
            assert forall|m: int| 0 <= m < rest.len() implies rest[m].slug != slug by {
                if m < i {
                    assert(rest[m] == t.rows[m]);
                } else {
                    assert(rest[m] == t.rows[m + 1]);
                }
            }
            lemma_find_slug(rest, slug);
        },
        None => {},
    }
}

/// The in-memory model of the `region` table: its rows in insertion order and
/// the next id the auto-incrementing primary key will assign.
pub struct RegionTable {
    rows: Vec<Region>,
    next_id: u64,
}

/// The mathematical value of a [`RegionTable`].
pub ghost struct RegionTableView {
    pub rows: Seq<RegionView>,
    pub next_id: int,
}

impl View for RegionTable {
    type V = RegionTableView;

    closed spec fn view(&self) -> RegionTableView {
        RegionTableView { rows: views_of(self.rows@), next_id: self.next_id as int }
    }
}

impl RegionTableView {
    /// Well-formedness: ids are positive, below the id counter, and distinct.
    /// Slug uniqueness is deliberately not an invariant: only `create` checks
    /// it, and nothing stops two rows from sharing a slug.
    pub open spec fn wf(self) -> bool {
        &&& 1 <= self.next_id <= u64::MAX
        &&& forall|i: int| 0 <= i < self.rows.len() ==> 1 <= (#[trigger] self.rows[i]).id < self.next_id
        &&& forall|i: int, j: int|
            0 <= i < j < self.rows.len() ==> (#[trigger] self.rows[i]).id != (
            #[trigger] self.rows[j]).id
    }

    /// Some row of the table holds this slug.
    pub open spec fn has_slug(self, slug: Seq<char>) -> bool {
        find_slug(self.rows, slug) is Some
    }
}

impl RegionTable {
    /// A freshly created, empty `region` table whose primary key starts at 1.
    pub fn new() -> (t: Self)
        ensures
            t@.wf(),
            t@.rows == Seq::<RegionView>::empty(),
            t@.next_id == 1,
    {
        let t = RegionTable { rows: Vec::new(), next_id: 1 };
        proof {
            assert(t@.rows =~= Seq::<RegionView>::empty());
        }
        t
    }

    /// Index of the first row holding `slug`, scanning in insertion order.
    fn find_index(&self, slug: &str) -> (r: Option<usize>)
        ensures
            match r {
                Some(i) => find_slug(self@.rows, slug@) == Some(i as int),
                None => find_slug(self@.rows, slug@) is None,
            },
    {
        let n = self.rows.len();
        let mut i: usize = 0;
        while i < n
            invariant
                n == self.rows.len(),
                0 <= i <= n,
                forall|k: int| 0 <= k < i ==> self@.rows[k].slug != slug@,
            decreases n - i,
        {
            if str_eq(self.rows[i].slug.as_str(), slug) {
                proof {
                    lemma_find_slug_first(self@.rows, slug@, i as int);
                }
                return Some(i);
            }
            i += 1;
        }
        proof {
            lemma_find_slug(self@.rows, slug@);
        }
        None
    }

    /// All regions, or the regions matching the present filter: a region
    /// matches when the filter occurs in its slug, english or katakana name.
    /// Regions come back in insertion order.
    pub fn list(&self, query: &FilterQuery) -> (r: Vec<Region>)
        ensures
            views_of(r@) == listed(self@, query@),
    {
        filter_regions(&self.rows, query)
    }

    /// The region whose slug exactly equals `slug`, or nothing. When rows
    /// share a slug, the first inserted one is returned.
    pub fn get_by_slug(&self, slug: &str) -> (r: Option<Region>)
        ensures
            match find_slug(self@.rows, slug@) {
                Some(i) => r matches Some(reg) && reg@ == self@.rows[i],
                None => r is None,
            },
    {
        proof {
            lemma_find_slug(self@.rows, slug@);
        }
        match self.find_index(slug) {
            Some(i) => Some(self.rows[i].clone()),
            None => None,
        }
    }

    /// Appends a row without checking the slug, the way a raw SQL insert
    /// does; the seeding migration goes through here.
    pub(crate) fn insert_unchecked(&mut self, slug: String, katakana: String, english: String) -> (r:
        Region)
        requires
            old(self)@.wf(),
            old(self)@.next_id < u64::MAX,
        ensures
            final(self)@.wf(),
            r@ == created_region(old(self)@, CreateRegionView { slug: slug@, katakana: katakana@, english: english@ }),
            final(self)@.rows == old(self)@.rows.push(r@),
            final(self)@.next_id == old(self)@.next_id + 1,
    {
        let region = Region { id: self.next_id, slug, katakana, english };
        let out = region.clone();
        self.rows.push(region);
        self.next_id = self.next_id + 1;
        proof {
            assert(self@.rows =~= old(self)@.rows.push(out@));
        }
        out
    }

    /// Removes every row, the way the seeding migration's blunt rollback
    /// does; the id counter is not reset, as the backend never reassigns ids.
    pub(crate) fn clear_rows(&mut self)
        requires
            old(self)@.wf(),
        ensures
            final(self)@.wf(),
            final(self)@.rows == Seq::<RegionView>::empty(),
            final(self)@.next_id == old(self)@.next_id,
    {
        self.rows.clear();
        proof {
            assert(self@.rows =~= Seq::<RegionView>::empty());
        }
    }

    /// Inserts a new region unless its slug is already present. On success
    /// the returned region carries the assigned id and is appended to the
    /// table; on a conflict the table is untouched.
    pub fn create(&mut self, input: CreateRegion) -> (r: Result<Region, RegionError>)
        requires
            old(self)@.wf(),
            old(self)@.next_id < u64::MAX,
        ensures
            final(self)@.wf(),
            old(self)@.has_slug(input.slug@) ==> (r matches Err(e) && e is Conflict
                && final(self)@ == old(self)@),
            !old(self)@.has_slug(input.slug@) ==> (r matches Ok(reg) && reg@ == created_region(
                old(self)@,
                input@,
            ) && final(self)@.rows == old(self)@.rows.push(reg@)
                && final(self)@.next_id == old(self)@.next_id + 1),
    {
        match self.find_index(input.slug.as_str()) {
            Some(_) => Err(RegionError::Conflict),
            None => Ok(self.insert_unchecked(input.slug, input.katakana, input.english)),
        }
    }

    /// Replaces the supplied fields of the first region holding `slug` and
    /// returns the updated region; absent fields, the slug and the id keep
    /// their values. Fails with `NotFound` when no region holds the slug,
    /// leaving the table untouched.
    pub fn update(&mut self, slug: &str, input: UpdateRegion) -> (r: Result<Region, RegionError>)
        requires
            old(self)@.wf(),
        ensures
            final(self)@.wf(),
            match find_slug(old(self)@.rows, slug@) {
                Some(i) => r matches Ok(reg) && reg@ == apply_update(old(self)@.rows[i], input@)
                    && final(self)@.rows == old(self)@.rows.update(i, reg@) && final(self)@.next_id
                    == old(self)@.next_id,
                None => r matches Err(e) && e is NotFound && final(self)@ == old(self)@,
            },
    {
        match self.find_index(slug) {
            None => Err(RegionError::NotFound),
            Some(i) => {
                proof {
                    lemma_find_slug(self@.rows, slug@);
                }
                let updated = merge_update(&self.rows[i], input);
                let out = updated.clone();
                self.rows[i] = updated;
                proof {
                    assert(self@.rows =~= old(self)@.rows.update(i as int, out@));
                }
                Ok(out)
            },
        }
    }

    /// Removes the first region holding `slug`; fails with `NotFound`, and
    /// changes nothing, when no region holds it. The id counter never goes
    /// back, so a deleted id is not reassigned.
    pub fn delete(&mut self, slug: &str) -> (r: Result<(), RegionError>)
        requires
            old(self)@.wf(),
        ensures
            final(self)@.wf(),
            match find_slug(old(self)@.rows, slug@) {
                Some(i) => r is Ok && final(self)@.rows == old(self)@.rows.remove(i)
                    && final(self)@.next_id == old(self)@.next_id,
                None => r matches Err(e) && e is NotFound && final(self)@ == old(self)@,
            },
    {
        match self.find_index(slug) {
            None => Err(RegionError::NotFound),
            Some(i) => {
                proof {
                    lemma_find_slug(self@.rows, slug@);
                }
                self.rows.remove(i);
                proof {
                    assert(self@.rows =~= old(self)@.rows.remove(i as int));
                }
                Ok(())
            },
        }
    }
}

} // verus!
