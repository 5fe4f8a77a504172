//! Case-sensitive substring matching over the characters of strings, used by
//! the region store's filtered listing.

use vstd::prelude::*;

verus! {

/// `needle` occurs in `hay` starting at character index `i`.
pub open spec fn matches_at(hay: Seq<char>, needle: Seq<char>, i: int) -> bool {
    0 <= i && i + needle.len() <= hay.len() && (forall|j: int|
        0 <= j < needle.len() ==> hay[i + j] == needle[j])
}

/// `needle` occurs somewhere in `hay` as a contiguous run of characters.
/// The empty sequence is a substring of everything.
pub open spec fn is_substring(needle: Seq<char>, hay: Seq<char>) -> bool {
    exists|i: int| matches_at(hay, needle, i)
}

/// Decides whether two strings hold the same characters.
pub fn str_eq(a: &str, b: &str) -> (r: bool)
    ensures
        r == (a@ == b@),
{
    let a_len = a.unicode_len();
    let b_len = b.unicode_len();
    if a_len != b_len {
        return false;
    }
    let mut i: usize = 0;
    while i < a_len
        invariant
            a_len == a@.len(),
            a@.len() == b@.len(),
            0 <= i <= a_len,
            forall|k: int| 0 <= k < i ==> a@[k] == b@[k],
        decreases a_len - i,
    {
        if a.get_char(i) != b.get_char(i) {
            return false;
        }
        i += 1;
    }
    proof {
        assert(a@ =~= b@);
    }
    true
}

/// Decides whether `needle` is a (case-sensitive) substring of `hay`.
pub fn contains_substr(hay: &str, needle: &str) -> (r: bool)
    ensures
        r == is_substring(needle@, hay@),
{
    let hay_len = hay.unicode_len();
    let needle_len = needle.unicode_len();
    if needle_len > hay_len {
        assert(forall|i: int| !matches_at(hay@, needle@, i));
        return false;
    }
    let mut i: usize = 0;
    loop
        invariant
            hay_len == hay@.len(),
            needle_len == needle@.len(),
            needle_len <= hay_len,
            0 <= i <= hay_len - needle_len + 1,
            forall|k: int| 0 <= k < i ==> !matches_at(hay@, needle@, k),
        decreases hay_len - needle_len + 1 - i,
    {
        if i > hay_len - needle_len {
            assert(!is_substring(needle@, hay@));
            return false;
        }
        let mut j: usize = 0;
        let mut hit = true;
        while j < needle_len
            invariant
                hay_len == hay@.len(),
                needle_len == needle@.len(),
                i + needle_len <= hay_len,
                0 <= j <= needle_len,
                hit ==> forall|l: int| 0 <= l < j ==> hay@[i + l] == needle@[l],
                !hit ==> !matches_at(hay@, needle@, i as int),
            decreases needle_len - j,
        {
            if hay.get_char(i + j) != needle.get_char(j) {
                hit = false;
                j = needle_len;
            } else {
                j += 1;
            }
        }
        if hit {
            proof {
                assert forall|l: int| 0 <= l < needle@.len() implies hay@[i + l] == needle@[l] by {
                    assert(0 <= l < j);
                }
                assert(matches_at(hay@, needle@, i as int));
            }
            return true;
        }
        i += 1;
    }
}

} // verus!
