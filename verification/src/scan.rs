//! Positions of a byte in a byte sequence, and the two scans built on them:
//! the search for the first occurrence of a byte and the measuring of a
//! NUL-terminated string.
use vstd::prelude::*;

verus! {

/// True when `needle` is one of the bytes of `haystack`.
pub open spec fn occurs(needle: u8, haystack: Seq<u8>) -> bool {
    exists|i: int| 0 <= i < haystack.len() && haystack[i] == needle
}

/// True when `needle` stands at position `i` of `haystack` and nowhere before it.
pub open spec fn is_first_occurrence(needle: u8, haystack: Seq<u8>, i: int) -> bool {
    &&& 0 <= i < haystack.len()
    &&& haystack[i] == needle
    &&& forall|j: int| 0 <= j < i ==> haystack[j] != needle
}

/// The position of the first `needle` in `haystack`. Meaningful only where
/// `needle` occurs.
pub open spec fn first_position(needle: u8, haystack: Seq<u8>) -> int {
    choose|i: int| is_first_occurrence(needle, haystack, i)
}

/// True when `mem` holds a NUL byte, so that a string starting at its first
/// byte ends inside it.
pub open spec fn has_nul(mem: Seq<u8>) -> bool {
    occurs(0, mem)
}

/// The number of bytes before the first NUL of `mem`.
pub open spec fn strlen_spec(mem: Seq<u8>) -> int {
    first_position(0, mem)
}

/// The C-string shape: the last byte is NUL and no other byte is.
pub open spec fn is_c_str(bytes: Seq<u8>) -> bool {
    bytes.len() > 0 && is_first_occurrence(0, bytes, bytes.len() - 1)
}

/// The string that starts at the first byte of `mem`: its bytes up to and
/// including the first NUL.
pub open spec fn c_str_at(mem: Seq<u8>) -> Seq<u8> {
    mem.take(strlen_spec(mem) + 1)
}

/// A byte occurs first at one position only.
pub proof fn lemma_first_occurrence_unique(needle: u8, haystack: Seq<u8>, i: int)
    requires
        is_first_occurrence(needle, haystack, i),
    ensures
        first_position(needle, haystack) == i,
{
    let k = first_position(needle, haystack);
    assert(is_first_occurrence(needle, haystack, k));
    if k < i {
        assert(haystack[k] != needle);
    } else if i < k {
        assert(haystack[i] != needle);
    }
}

/// A byte that occurs at `at` occurs first somewhere at or before `at`.
pub proof fn lemma_first_occurrence_exists(needle: u8, haystack: Seq<u8>, at: int)
    requires
        0 <= at < haystack.len(),
        haystack[at] == needle,
    ensures
        is_first_occurrence(needle, haystack, first_position(needle, haystack)),
        first_position(needle, haystack) <= at,
    decreases at,
{
    if exists|j: int| 0 <= j < at && haystack[j] == needle {
        let j = choose|j: int| 0 <= j < at && haystack[j] == needle;
        lemma_first_occurrence_exists(needle, haystack, j);
    } else {
        assert(is_first_occurrence(needle, haystack, at));
        lemma_first_occurrence_unique(needle, haystack, at);
    }
}

/// Where a byte occurs, its first position is a position of that byte with
/// none before it.
pub proof fn lemma_occurs_first_position(needle: u8, haystack: Seq<u8>)
    requires
        occurs(needle, haystack),
    ensures
        is_first_occurrence(needle, haystack, first_position(needle, haystack)),
{
    let at = choose|i: int| 0 <= i < haystack.len() && haystack[i] == needle;
    lemma_first_occurrence_exists(needle, haystack, at);
}

/// A C string measures to itself: its first NUL is its last byte, so the
/// string that starts at its first byte is the whole of it.
pub proof fn lemma_c_str_at_c_str(bytes: Seq<u8>)
    requires
        is_c_str(bytes),
    ensures
        has_nul(bytes),
        strlen_spec(bytes) == bytes.len() - 1,
        c_str_at(bytes) == bytes,
{
    lemma_first_occurrence_unique(0, bytes, bytes.len() - 1);
    assert(bytes.take(bytes.len() as int) =~= bytes);
}

/// The string that starts in memory holding a NUL has the C-string shape and
/// ends inside that memory.
pub proof fn lemma_c_str_at_shape(mem: Seq<u8>)
    requires
        has_nul(mem),
    ensures
        0 <= strlen_spec(mem) < mem.len(),
        is_c_str(c_str_at(mem)),
        c_str_at(mem).len() == strlen_spec(mem) + 1,
        c_str_at(mem).drop_last() == mem.take(strlen_spec(mem)),
{
    lemma_occurs_first_position(0, mem);
    assert(c_str_at(mem).drop_last() =~= mem.take(strlen_spec(mem)));
}

/// Finds the first occurrence of `needle` in `haystack`.
pub fn memchr(needle: u8, haystack: &[u8]) -> (found: Option<usize>)
    ensures
        match found {
            Some(i) => is_first_occurrence(needle, haystack@, i as int),
            None => !occurs(needle, haystack@),
        },
{
    let mut i: usize = 0;
    while i < haystack.len()
        invariant
            i <= haystack.len(),
            forall|j: int| 0 <= j < i ==> haystack@[j] != needle,
        decreases haystack.len() - i,
    {
        if haystack[i] == needle {
            return Some(i);
        }
        i += 1;
    }
    None
}

/// Measures the string that starts at the first byte of `mem`: the number of
/// bytes before its terminator.
pub fn strlen(mem: &[u8]) -> (len: usize)
    requires
        has_nul(mem@),
    ensures
        len == strlen_spec(mem@),
        is_first_occurrence(0, mem@, len as int),
{
    let mut len: usize = 0;
    while mem[len] != 0
        invariant
            has_nul(mem@),
            len < mem.len(),
            forall|j: int| 0 <= j < len ==> mem@[j] != 0,
        decreases mem.len() - len,
    {
        len += 1;
    }
    proof {
        lemma_first_occurrence_unique(0, mem@, len as int);
    }
    len
}

} // verus!
