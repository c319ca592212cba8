//! Decisions of the BLE client that do not depend on the radio itself.

use vstd::prelude::*;
use vstd::string::*;

verus! {

/// Whether `needle` occurs in `haystack` as a contiguous run.
pub open spec fn occurs_in(haystack: Seq<u8>, needle: Seq<u8>) -> bool {
    exists|i: int|
        0 <= i && i + needle.len() <= haystack.len() && #[trigger] haystack.subrange(
            i,
            i + needle.len(),
        ) == needle
}

fn occurs_at(haystack: &[u8], needle: &[u8], i: usize) -> (found: bool)
    requires
        i + needle@.len() <= haystack@.len(),
    ensures
        found == (haystack@.subrange(i as int, i + needle@.len()) == needle@),
{
    let hlen = haystack.len();
    let mut k: usize = 0;
    while k < needle.len()
        invariant
            k <= needle.len(),
            hlen == haystack@.len(),
            i + needle@.len() <= hlen,
            forall|j: int| 0 <= j < k ==> haystack@[i + j] == needle@[j],
        decreases needle.len() - k,
    {
        assert(i + k < haystack@.len());
        if haystack[i + k] != needle[k] {
            assert(haystack@.subrange(i as int, i + needle@.len())[k as int] != needle@[k as int]);
            return false;
        }
        k = k + 1;
    }
    assert(haystack@.subrange(i as int, i + needle@.len()) =~= needle@);
    true
}

/// Whether the bytes of `needle` occur in the bytes of `haystack`.
pub fn contains_text(haystack: &str, needle: &str) -> (found: bool)
    ensures
        found == occurs_in(haystack.spec_bytes(), needle.spec_bytes()),
{
    let h = haystack.as_bytes();
    let n = needle.as_bytes();
    if n.len() > h.len() {
        return false;
    }
    if n.len() == 0 {
        assert(h@.subrange(0, 0 + n@.len() as int) =~= n@);
        return true;
    }
    let hlen = h.len();
    let last = hlen - n.len();
    let mut i: usize = 0;
    while i <= last
        invariant
            last + n@.len() == hlen,
            hlen == h@.len(),
            n@.len() > 0,
            h@ == haystack.spec_bytes(),
            n@ == needle.spec_bytes(),
            forall|j: int|
                0 <= j < i ==> #[trigger] h@.subrange(j, j + n@.len()) != n@,
        decreases last + 1 - i,
    {
        if occurs_at(h, n, i) {
            return true;
        }
        i = i + 1;
    }
    false
}

/// Whether every byte of `needle` equals the byte of `haystack` that far
/// past position `i` (the needle lying within the haystack).
pub open spec fn bytes_match_at(haystack: Seq<u8>, needle: Seq<u8>, i: int) -> bool {
    0 <= i && i + needle.len() <= haystack.len() && forall|k: int|
        0 <= k < needle.len() ==> #[trigger] haystack[i + k] == needle[k]
}

/// `contains_text` finds a needle exactly when, at some position, every
/// byte of the needle equals the haystack byte that far past it.
pub proof fn lemma_occurs_in_bytewise(haystack: Seq<u8>, needle: Seq<u8>)
    ensures
        occurs_in(haystack, needle) <==> exists|i: int| #[trigger]
            bytes_match_at(haystack, needle, i),
{
    if occurs_in(haystack, needle) {
        let i = choose|i: int|
            0 <= i && i + needle.len() <= haystack.len() && #[trigger] haystack.subrange(
                i,
                i + needle.len(),
            ) == needle;
        assert forall|k: int| 0 <= k < needle.len() implies #[trigger] haystack[i + k]
            == needle[k] by {
            assert(haystack.subrange(i, i + needle.len())[k] == needle[k]);
        }
        assert(bytes_match_at(haystack, needle, i));
    }
    if exists|i: int| #[trigger] bytes_match_at(haystack, needle, i) {
        let i = choose|i: int| #[trigger] bytes_match_at(haystack, needle, i);
        assert forall|k: int| 0 <= k < needle.len() implies haystack.subrange(
            i,
            i + needle.len(),
        )[k] == needle[k] by {
            assert(haystack[i + k] == needle[k]);
        }
        assert(haystack.subrange(i, i + needle.len()) =~= needle);
    }
}

/// Whether a failure to start scanning only means that a scan is already
/// running, so the search can go on: its message mentions
/// `AlreadyInProgress`, `already in progress` or `Operation already in progress`.
pub fn scan_already_in_progress(message: &str) -> (benign: bool)
    ensures
        benign == (occurs_in(message.spec_bytes(), "AlreadyInProgress".spec_bytes())
            || occurs_in(message.spec_bytes(), "already in progress".spec_bytes())
            || occurs_in(message.spec_bytes(), "Operation already in progress".spec_bytes())),
{
    contains_text(message, "AlreadyInProgress") || contains_text(message, "already in progress")
        || contains_text(message, "Operation already in progress")
}

} // verus!
