//! The bounded brute-force search for width and height values that
//! reproduce a stored checksum, and the order in which the searches run.
use vstd::prelude::*;
use crate::ihdr::{checksum_with, IHDR, CANDIDATE_LIMIT};

verus! {

/// Substituting `h` for the height gives the checksum `e`.
pub open spec fn height_matches(p: Seq<u8>, e: u32, h: u32) -> bool {
    checksum_with(p, None, Some(h)) == e
}

/// Substituting `w` for the width gives the checksum `e`.
pub open spec fn width_matches(p: Seq<u8>, e: u32, w: u32) -> bool {
    checksum_with(p, Some(w), None) == e
}

/// Substituting both `h` and `w` gives the checksum `e`.
pub open spec fn both_match(p: Seq<u8>, e: u32, h: u32, w: u32) -> bool {
    checksum_with(p, Some(w), Some(h)) == e
}

/// `h` is the smallest candidate height that gives `e`.
pub open spec fn is_first_height_fix(p: Seq<u8>, e: u32, h: u32) -> bool {
    &&& h < CANDIDATE_LIMIT
    &&& height_matches(p, e, h)
    &&& forall|k: u32| k < h ==> !#[trigger] height_matches(p, e, k)
}

/// `w` is the smallest candidate width that gives `e`.
pub open spec fn is_first_width_fix(p: Seq<u8>, e: u32, w: u32) -> bool {
    &&& w < CANDIDATE_LIMIT
    &&& width_matches(p, e, w)
    &&& forall|k: u32| k < w ==> !#[trigger] width_matches(p, e, k)
}

/// The pair `(i, j)` comes before `(h, w)` in a scan of heights, each with
/// every candidate width.
pub open spec fn scanned_before(i: u32, j: u32, h: u32, w: u32) -> bool {
    (i < h && j < CANDIDATE_LIMIT) || (i == h && j < w)
}

/// `(h, w)` is the first candidate pair that gives `e`, heights varying slowest.
pub open spec fn is_first_both_fix(p: Seq<u8>, e: u32, h: u32, w: u32) -> bool {
    &&& h < CANDIDATE_LIMIT
    &&& w < CANDIDATE_LIMIT
    &&& both_match(p, e, h, w)
    &&& forall|i: u32, j: u32| scanned_before(i, j, h, w) ==> !#[trigger] both_match(p, e, i, j)
}

/// The smallest candidate height that reproduces `e`, if any.
pub open spec fn height_fix(p: Seq<u8>, e: u32) -> Option<u32> {
    if exists|h: u32| is_first_height_fix(p, e, h) {
        Some(choose|h: u32| is_first_height_fix(p, e, h))
    } else {
        None
    }
}

/// The smallest candidate width that reproduces `e`, if any.
pub open spec fn width_fix(p: Seq<u8>, e: u32) -> Option<u32> {
    if exists|w: u32| is_first_width_fix(p, e, w) {
        Some(choose|w: u32| is_first_width_fix(p, e, w))
    } else {
        None
    }
}

/// The first `(height, width)` pair that reproduces `e`, if any.
pub open spec fn both_fix(p: Seq<u8>, e: u32) -> Option<(u32, u32)> {
    if exists|h: u32, w: u32| is_first_both_fix(p, e, h, w) {
        Some(choose|q: (u32, u32)| is_first_both_fix(p, e, q.0, q.1))
    } else {
        None
    }
}

/// What recovery concluded about a chunk.
#[derive(Debug, Clone, Copy, PartialEq, Eq, Structural)]
pub enum Recovery {
    /// The stored checksum already matches: nothing to fix.
    Unchanged,
    /// Replacing the height with this value reproduces the checksum.
    HeightFixed(u32),
    /// Replacing the width with this value reproduces the checksum.
    WidthFixed(u32),
    /// Replacing height and width with these values, in that order,
    /// reproduces the checksum.
    BothFixed(u32, u32),
    /// No candidate in the searched range reproduces the checksum.
    NotFound,
}

/// The outcome of recovery: the chunk is checked as it is, then a height
/// alone, then a width alone, then both are searched, and the first hit wins.
pub open spec fn recovery_of(p: Seq<u8>, e: u32) -> Recovery {
    if checksum_with(p, None, None) == e {
        Recovery::Unchanged
    } else {
        match height_fix(p, e) {
            Some(h) => Recovery::HeightFixed(h),
            None => match width_fix(p, e) {
                Some(w) => Recovery::WidthFixed(w),
                None => match both_fix(p, e) {
                    Some(q) => Recovery::BothFixed(q.0, q.1),
                    None => Recovery::NotFound,
                },
            },
        }
    }
}

proof fn lemma_height_fix_is(p: Seq<u8>, e: u32, h: u32)
    requires
        is_first_height_fix(p, e, h),
    ensures
        height_fix(p, e) == Some(h),
{
    let c = choose|h: u32| is_first_height_fix(p, e, h);
    if c < h {
        assert(!height_matches(p, e, c));
    } else if h < c {
        assert(!height_matches(p, e, h));
    }
}

proof fn lemma_width_fix_is(p: Seq<u8>, e: u32, w: u32)
    requires
        is_first_width_fix(p, e, w),
    ensures
        width_fix(p, e) == Some(w),
{
    let c = choose|w: u32| is_first_width_fix(p, e, w);
    if c < w {
        assert(!width_matches(p, e, c));
    } else if w < c {
        assert(!width_matches(p, e, w));
    }
}

proof fn lemma_both_fix_is(p: Seq<u8>, e: u32, h: u32, w: u32)
    requires
        is_first_both_fix(p, e, h, w),
    ensures
        both_fix(p, e) == Some((h, w)),
{
    assert(is_first_both_fix(p, e, (h, w).0, (h, w).1));
    let c = choose|q: (u32, u32)| is_first_both_fix(p, e, q.0, q.1);
    if scanned_before(c.0, c.1, h, w) {
        assert(!both_match(p, e, c.0, c.1));
    } else if scanned_before(h, w, c.0, c.1) {
        assert(!both_match(p, e, h, w));
    }
}

/// A candidate height that reproduces `e` means a first such height exists,
/// no larger than it.
proof fn lemma_first_height_exists(p: Seq<u8>, e: u32, h: u32)
    requires
        h < CANDIDATE_LIMIT,
        height_matches(p, e, h),
    ensures
        height_fix(p, e) matches Some(f) && f <= h,
    decreases h,
{
    if forall|k: u32| k < h ==> !#[trigger] height_matches(p, e, k) {
        lemma_height_fix_is(p, e, h);
    } else {
        let k = choose|k: u32| k < h && height_matches(p, e, k);
        lemma_first_height_exists(p, e, k);
    }
}

/// Every fix the searches report lies in the candidate range `[0, 65535)`
/// and reproduces the checksum.
pub proof fn law_fixes_in_range(p: Seq<u8>, e: u32)
    ensures
        height_fix(p, e) matches Some(h) ==> h < CANDIDATE_LIMIT && height_matches(p, e, h),
        width_fix(p, e) matches Some(w) ==> w < CANDIDATE_LIMIT && width_matches(p, e, w),
        both_fix(p, e) matches Some(q) ==> q.0 < CANDIDATE_LIMIT && q.1 < CANDIDATE_LIMIT
            && both_match(p, e, q.0, q.1),
{
    if exists|h: u32, w: u32| is_first_both_fix(p, e, h, w) {
        let (h0, w0) = choose|h: u32, w: u32| is_first_both_fix(p, e, h, w);
        assert(is_first_both_fix(p, e, (h0, w0).0, (h0, w0).1));
    }
}

/// When the stored checksum fits the stored width and some height `h_true`
/// in range, but not the stored height, recovery reports a height fix: one
/// that reproduces the checksum and is no larger than `h_true`, and that is
/// `h_true` itself when no smaller height reproduces the checksum. Neither
/// the width search nor the combined search is reached.
pub proof fn law_height_corruption_recovered(p: Seq<u8>, e: u32, h_true: u32)
    requires
        h_true < CANDIDATE_LIMIT,
        height_matches(p, e, h_true),
        checksum_with(p, None, None) != e,
    ensures
        height_fix(p, e) matches Some(h) && h <= h_true && height_matches(p, e, h)
            && recovery_of(p, e) == Recovery::HeightFixed(h),
        (forall|k: u32| k < h_true ==> !#[trigger] height_matches(p, e, k)) ==> recovery_of(p, e)
            == Recovery::HeightFixed(h_true),
{
    lemma_first_height_exists(p, e, h_true);
    law_fixes_in_range(p, e);
    if forall|k: u32| k < h_true ==> !#[trigger] height_matches(p, e, k) {
        lemma_height_fix_is(p, e, h_true);
    }
}

/// Of two candidate heights `h1 < h2` that both reproduce the checksum, the
/// height search never reports `h2`: it reports `h1`, or a smaller height
/// that also reproduces the checksum.
pub proof fn law_first_match_wins(p: Seq<u8>, e: u32, h1: u32, h2: u32)
    requires
        h1 < h2 < CANDIDATE_LIMIT,
        height_matches(p, e, h1),
        height_matches(p, e, h2),
    ensures
        height_fix(p, e) matches Some(h) && h <= h1 && h != h2,
        (forall|k: u32| k < h1 ==> !#[trigger] height_matches(p, e, k)) ==> height_fix(p, e)
            == Some(h1),
{
    lemma_first_height_exists(p, e, h1);
    if forall|k: u32| k < h1 ==> !#[trigger] height_matches(p, e, k) {
        lemma_height_fix_is(p, e, h1);
    }
}

/// The smallest height in `[0, 65535)` that, put in place of the stored
/// height, reproduces `expected_crc32`.
pub fn try_fix_height(ihdr: &IHDR, expected_crc32: u32) -> (r: Option<u32>)
    ensures
        r == height_fix(ihdr@, expected_crc32),
{
    let mut h: u32 = 0;
    while h < CANDIDATE_LIMIT
        invariant
            h <= CANDIDATE_LIMIT,
            forall|k: u32| k < h ==> !#[trigger] height_matches(ihdr@, expected_crc32, k),
        decreases CANDIDATE_LIMIT - h,
    {
        if ihdr.crc32(None, Some(h)) == expected_crc32 {
            proof {
                lemma_height_fix_is(ihdr@, expected_crc32, h);
            }
            return Some(h);
        }
        h = h + 1;
    }
    assert(!exists|k: u32| is_first_height_fix(ihdr@, expected_crc32, k));
    None
}

/// The smallest width in `[0, 65535)` that, put in place of the stored
/// width, reproduces `expected_crc32`.
pub fn try_fix_width(ihdr: &IHDR, expected_crc32: u32) -> (r: Option<u32>)
    ensures
        r == width_fix(ihdr@, expected_crc32),
{
    let mut w: u32 = 0;
    while w < CANDIDATE_LIMIT
        invariant
            w <= CANDIDATE_LIMIT,
            forall|k: u32| k < w ==> !#[trigger] width_matches(ihdr@, expected_crc32, k),
        decreases CANDIDATE_LIMIT - w,
    {
        if ihdr.crc32(Some(w), None) == expected_crc32 {
            proof {
                lemma_width_fix_is(ihdr@, expected_crc32, w);
            }
            return Some(w);
        }
        w = w + 1;
    }
    assert(!exists|k: u32| is_first_width_fix(ihdr@, expected_crc32, k));
    None
}

/// The first `(height, width)` pair, heights in ascending order and for each
/// every width in ascending order, both in `[0, 65535)`, that reproduces
/// `expected_crc32`.
pub fn try_fix_both(ihdr: &IHDR, expected_crc32: u32) -> (r: Option<(u32, u32)>)
    ensures
        r == both_fix(ihdr@, expected_crc32),
{
    let mut h: u32 = 0;
    while h < CANDIDATE_LIMIT
        invariant
            h <= CANDIDATE_LIMIT,
            forall|i: u32, j: u32|
                scanned_before(i, j, h, 0) ==> !#[trigger] both_match(ihdr@, expected_crc32, i, j),
        decreases CANDIDATE_LIMIT - h,
    {
        let mut w: u32 = 0;
        while w < CANDIDATE_LIMIT
            invariant
                h < CANDIDATE_LIMIT,
                w <= CANDIDATE_LIMIT,
                forall|i: u32, j: u32|
                    scanned_before(i, j, h, w) ==> !#[trigger] both_match(
                        ihdr@,
                        expected_crc32,
                        i,
                        j,
                    ),
            decreases CANDIDATE_LIMIT - w,
        {
            if ihdr.crc32(Some(w), Some(h)) == expected_crc32 {
                proof {
                    lemma_both_fix_is(ihdr@, expected_crc32, h, w);
                }
                return Some((h, w));
            }
            w = w + 1;
        }
        h = h + 1;
    }
    assert(!exists|i: u32, j: u32| is_first_both_fix(ihdr@, expected_crc32, i, j)) by {
        assert forall|i: u32, j: u32| !is_first_both_fix(ihdr@, expected_crc32, i, j) by {
            if i < CANDIDATE_LIMIT && j < CANDIDATE_LIMIT {
                assert(scanned_before(i, j, h, 0));
            }
        }
    }
    None
}

/// Checks the chunk against `expected_crc32` and, when they differ, searches
/// for a height, then a width, then both, returning the first fix found.
pub fn recover(ihdr: &IHDR, expected_crc32: u32) -> (r: Recovery)
    ensures
        r == recovery_of(ihdr@, expected_crc32),
{
    if ihdr.crc32(None, None) == expected_crc32 {
        return Recovery::Unchanged;
    }
    if let Some(h) = try_fix_height(ihdr, expected_crc32) {
        return Recovery::HeightFixed(h);
    }
    if let Some(w) = try_fix_width(ihdr, expected_crc32) {
        return Recovery::WidthFixed(w);
    }
    match try_fix_both(ihdr, expected_crc32) {
        Some((h, w)) => Recovery::BothFixed(h, w),
        None => Recovery::NotFound,
    }
}

} // verus!
