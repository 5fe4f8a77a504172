//! The region entity and the request shapes of the service: creation input,
//! partial-update input, listing filter, and the error kinds every store
//! operation can surface.

use vstd::prelude::*;

verus! {

/// A named location. `slug` identifies the region in URLs; `katakana` and
/// `english` are its display names. `id` is assigned by the store on
/// creation and never changes afterwards; `slug` is likewise immutable.
pub struct Region {
    pub id: u64,
    pub slug: String,
    pub katakana: String,
    pub english: String,
}

/// The mathematical value of a [`Region`].
pub ghost struct RegionView {
    pub id: int,
    pub slug: Seq<char>,
    pub katakana: Seq<char>,
    pub english: Seq<char>,
}

impl View for Region {
    type V = RegionView;

    open spec fn view(&self) -> RegionView {
        RegionView {
            id: self.id as int,
            slug: self.slug@,
            katakana: self.katakana@,
            english: self.english@,
        }
    }
}

impl Clone for Region {
    fn clone(&self) -> (r: Self)
        ensures
            r@ == self@,
    {
        Region {
            id: self.id,
            slug: self.slug.clone(),
            katakana: self.katakana.clone(),
            english: self.english.clone(),
        }
    }
}

/// Input of `create`: every field of the new region but the server-assigned id.
pub struct CreateRegion {
    pub slug: String,
    pub katakana: String,
    pub english: String,
}

/// The mathematical value of a [`CreateRegion`].
pub ghost struct CreateRegionView {
    pub slug: Seq<char>,
    pub katakana: Seq<char>,
    pub english: Seq<char>,
}

impl View for CreateRegion {
    type V = CreateRegionView;

    open spec fn view(&self) -> CreateRegionView {
        CreateRegionView { slug: self.slug@, katakana: self.katakana@, english: self.english@ }
    }
}

/// Input of `update`: only the fields that are present are changed; an absent
/// field keeps its current value. `slug` and `id` cannot be updated.
pub struct UpdateRegion {
    pub katakana: Option<String>,
    pub english: Option<String>,
}

/// The mathematical value of an [`UpdateRegion`].
pub ghost struct UpdateRegionView {
    pub katakana: Option<Seq<char>>,
    pub english: Option<Seq<char>>,
}

impl View for UpdateRegion {
    type V = UpdateRegionView;

    open spec fn view(&self) -> UpdateRegionView {
        UpdateRegionView {
            katakana: match self.katakana {
                Some(ref k) => Some(k@),
                None => None,
            },
            english: match self.english {
                Some(ref e) => Some(e@),
                None => None,
            },
        }
    }
}

/// Query parameters of a listing request. An absent filter returns every
/// region; a present one keeps only the regions that match it.
pub struct FilterQuery {
    pub filter: Option<String>,
}

impl View for FilterQuery {
    type V = Option<Seq<char>>;

    open spec fn view(&self) -> Option<Seq<char>> {
        match self.filter {
            Some(ref f) => Some(f@),
            None => None,
        }
    }
}

/// The error kinds a store operation or a migration can surface: a missing
/// slug on lookup, update or delete; a duplicate slug on create; or an
/// underlying data-access failure carrying the backend's raw message.
#[derive(Debug)]
pub enum RegionError {
    NotFound,
    Conflict,
    DataAccess(String),
}

} // verus!
