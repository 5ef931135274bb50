//! The byte matcher: finds the lowest offset at which a masked pattern fits
//! a haystack.

use vstd::prelude::*;

verus! {

/// Mask byte that marks a position whose haystack byte must equal the
/// pattern byte: the letter `x`. Every other mask byte marks a wildcard.
pub const EXACT: u8 = 0x78;

/// The pattern fits the haystack at offset `i`: the whole pattern lies inside
/// the haystack and every position that the mask marks exact agrees.
/// Wildcard positions are never compared.
pub open spec fn matches_at(memory: Seq<u8>, pattern: Seq<u8>, mask: Seq<u8>, i: int) -> bool {
    &&& 0 <= i
    &&& i + pattern.len() <= memory.len()
    &&& forall|j: int|
        0 <= j < pattern.len() && #[trigger] mask[j] == EXACT ==> memory[i + j] == pattern[j]
}

/// What a search may answer. `Some(i)` is owed exactly when pattern and mask
/// have one length and `i` is the lowest offset at which the pattern fits;
/// `None` when the lengths differ or the pattern fits nowhere.
pub open spec fn scan_outcome(
    memory: Seq<u8>,
    pattern: Seq<u8>,
    mask: Seq<u8>,
    r: Option<usize>,
) -> bool {
    match r {
        Some(i) => {
            &&& pattern.len() == mask.len()
            &&& matches_at(memory, pattern, mask, i as int)
            &&& forall|k: int| 0 <= k < i ==> !matches_at(memory, pattern, mask, k)
        },
        None => {
            ||| pattern.len() != mask.len()
            ||| forall|k: int| !matches_at(memory, pattern, mask, k)
        },
    }
}

/// Decides whether the pattern fits at offset `i`.
fn fits_at(memory: &[u8], pattern: &[u8], mask: &[u8], i: usize) -> (r: bool)
    requires
        pattern.len() == mask.len(),
        i + pattern.len() <= memory.len(),
    ensures
        r == matches_at(memory@, pattern@, mask@, i as int),
{
    let mut j: usize = 0;
    while j < pattern.len()
        invariant
            pattern.len() == mask.len(),
            i + pattern.len() <= memory.len(),
            j <= pattern.len(),
            forall|t: int|
                0 <= t < j && #[trigger] mask@[t] == EXACT ==> memory@[i + t] == pattern@[t],
        decreases pattern.len() - j,
    {
        if mask[j] == EXACT && memory[i + j] != pattern[j] {
            return false;
        }
        j += 1;
    }
    true
}

/// Searches `memory` for the lowest offset at which `pattern` fits under
/// `mask`.
///
/// An empty pattern with an empty mask fits at offset 0 of every haystack,
/// the empty one included. A mask whose length differs from the pattern's
/// finds nothing.
pub fn sig_scan(memory: &[u8], pattern: &[u8], mask: &[u8]) -> (r: Option<usize>)
    ensures
        scan_outcome(memory@, pattern@, mask@, r),
        memory.len() < pattern.len() ==> r is None,
{
    let pattern_len: usize = pattern.len();
    if memory.len() < pattern_len || pattern_len != mask.len() {
        return None;
    }
    let last: usize = memory.len() - pattern_len;
    let mut i: usize = 0;
    while i <= last
        invariant
            pattern_len == pattern.len(),
            pattern.len() == mask.len(),
            last + pattern_len == memory.len(),
            i <= last + 1,
            forall|k: int| 0 <= k < i ==> !matches_at(memory@, pattern@, mask@, k),
        decreases last + 1 - i,
    {
        if fits_at(memory, pattern, mask, i) {
            return Some(i);
        }
        i += 1;
    }
    None
}

/// A search has one answer: two outcomes that are both admitted for the same
/// haystack, pattern and mask are equal.
pub proof fn lemma_outcome_unique(
    memory: Seq<u8>,
    pattern: Seq<u8>,
    mask: Seq<u8>,
    first: Option<usize>,
    second: Option<usize>,
)
    requires
        scan_outcome(memory, pattern, mask, first),
        scan_outcome(memory, pattern, mask, second),
    ensures
        first == second,
{
    if first is Some && second is Some {
        let a = first->Some_0;
        let b = second->Some_0;
        if a < b {
            assert(!matches_at(memory, pattern, mask, a as int));
        } else if b < a {
            assert(!matches_at(memory, pattern, mask, b as int));
        }
    }
}

/// Whenever the pattern fits at some offset `k`, the search answers with the
/// lowest offset at which it fits, which is at most `k`.
pub proof fn lemma_finds_smallest(
    memory: Seq<u8>,
    pattern: Seq<u8>,
    mask: Seq<u8>,
    k: int,
    r: Option<usize>,
)
    requires
        pattern.len() == mask.len(),
        matches_at(memory, pattern, mask, k),
        scan_outcome(memory, pattern, mask, r),
    ensures
        r is Some,
        r->Some_0 <= k,
        matches_at(memory, pattern, mask, r->Some_0 as int),
        forall|x: int| matches_at(memory, pattern, mask, x) ==> r->Some_0 <= x,
{
    if r is Some {
        let i = r->Some_0;
        assert forall|x: int| matches_at(memory, pattern, mask, x) implies i <= x by {
            if x < i {
                assert(!matches_at(memory, pattern, mask, x));
            }
        }
    }
}

/// A haystack shorter than the pattern holds no match.
pub proof fn lemma_short_haystack(
    memory: Seq<u8>,
    pattern: Seq<u8>,
    mask: Seq<u8>,
    r: Option<usize>,
)
    requires
        memory.len() < pattern.len(),
        scan_outcome(memory, pattern, mask, r),
    ensures
        r is None,
{
}

/// Two patterns that agree wherever the mask marks a position exact fit at
/// the same offsets, so a search answers the same for both.
pub proof fn lemma_agree_on_exact(
    memory: Seq<u8>,
    pattern: Seq<u8>,
    other: Seq<u8>,
    mask: Seq<u8>,
    r: Option<usize>,
)
    requires
        pattern.len() == other.len(),
        forall|j: int|
            0 <= j < pattern.len() && #[trigger] mask[j] == EXACT ==> pattern[j] == other[j],
        scan_outcome(memory, pattern, mask, r),
    ensures
        forall|i: int|
            matches_at(memory, pattern, mask, i) == matches_at(memory, other, mask, i),
        scan_outcome(memory, other, mask, r),
{
    assert forall|i: int|
        matches_at(memory, pattern, mask, i) == matches_at(memory, other, mask, i) by {
        if matches_at(memory, pattern, mask, i) {
            assert(matches_at(memory, other, mask, i));
        }
        if matches_at(memory, other, mask, i) {
            assert(matches_at(memory, pattern, mask, i));
        }
    }
}

/// Wildcard bytes are inert: replacing the pattern byte at a position that
/// the mask marks wildcard leaves the answer of a search unchanged.
pub proof fn lemma_wildcard_inert(
    memory: Seq<u8>,
    pattern: Seq<u8>,
    mask: Seq<u8>,
    at: int,
    byte: u8,
    r: Option<usize>,
)
    requires
        0 <= at < pattern.len(),
        pattern.len() == mask.len(),
        mask[at] != EXACT,
        scan_outcome(memory, pattern, mask, r),
    ensures
        scan_outcome(memory, pattern.update(at, byte), mask, r),
{
    lemma_agree_on_exact(memory, pattern, pattern.update(at, byte), mask, r);
}

} // verus!
