//! The lexicographic order of byte sequences, by unsigned byte value.
use core::cmp::Ordering;
use vstd::prelude::*;

verus! {

/// True when `a` and `b` agree on their first `k` bytes and `a` is the
/// smaller one right after them: `a` ends there and `b` goes on, or the next
/// byte of `a` is below that of `b`.
pub open spec fn precedes_at(a: Seq<u8>, b: Seq<u8>, k: int) -> bool {
    &&& 0 <= k <= a.len()
    &&& k < b.len()
    &&& a.take(k) == b.take(k)
    &&& (k == a.len() || a[k] < b[k])
}

/// True when `a` comes strictly before `b`.
pub open spec fn lex_less(a: Seq<u8>, b: Seq<u8>) -> bool {
    exists|k: int| precedes_at(a, b, k)
}

/// How `a` stands to `b` in the lexicographic order.
pub open spec fn lex_order(a: Seq<u8>, b: Seq<u8>) -> Ordering {
    if a == b {
        Ordering::Equal
    } else if lex_less(a, b) {
        Ordering::Less
    } else {
        Ordering::Greater
    }
}

/// True when `k` is the length of the longest common prefix of `a` and `b`.
pub open spec fn is_common_prefix_len(a: Seq<u8>, b: Seq<u8>, k: int) -> bool {
    &&& 0 <= k <= a.len()
    &&& k <= b.len()
    &&& a.take(k) == b.take(k)
    &&& (k < a.len() && k < b.len() ==> a[k] != b[k])
}

/// The end of the longest common prefix decides both equality and order.
pub proof fn lemma_common_prefix_decides(a: Seq<u8>, b: Seq<u8>, k: int)
    requires
        is_common_prefix_len(a, b, k),
    ensures
        a == b <==> k == a.len() && k == b.len(),
        lex_less(a, b) <==> k < b.len() && (k == a.len() || a[k] < b[k]),
        lex_less(b, a) <==> k < a.len() && (k == b.len() || b[k] < a[k]),
{
    if k == a.len() && k == b.len() {
        assert(a.take(k) =~= a);
        assert(b.take(k) =~= b);
    }
    lemma_less_at_common_prefix(a, b, k);
    assert(b.take(k) == a.take(k));
    lemma_less_at_common_prefix(b, a, k);
}

proof fn lemma_less_at_common_prefix(a: Seq<u8>, b: Seq<u8>, k: int)
    requires
        is_common_prefix_len(a, b, k),
    ensures
        lex_less(a, b) <==> k < b.len() && (k == a.len() || a[k] < b[k]),
{
    if k < b.len() && (k == a.len() || a[k] < b[k]) {
        assert(precedes_at(a, b, k));
    }
    if lex_less(a, b) {
        let w = choose|w: int| precedes_at(a, b, w);
        if w < k {
            assert(a.take(k)[w] == b.take(k)[w]);
        } else if k < w {
            assert(a.take(w)[k] == b.take(w)[k]);
        }
    }
}

proof fn lemma_common_prefix_from(a: Seq<u8>, b: Seq<u8>, i: int) -> (k: int)
    requires
        0 <= i <= a.len(),
        i <= b.len(),
        a.take(i) == b.take(i),
    ensures
        is_common_prefix_len(a, b, k),
    decreases a.len() - i,
{
    if i < a.len() && i < b.len() && a[i] == b[i] {
        assert(a.take(i + 1) =~= a.take(i).push(a[i]));
        assert(b.take(i + 1) =~= b.take(i).push(b[i]));
        lemma_common_prefix_from(a, b, i + 1)
    } else {
        i
    }
}

/// Any two sequences have a longest common prefix.
pub proof fn lemma_common_prefix_exists(a: Seq<u8>, b: Seq<u8>)
    ensures
        exists|k: int| is_common_prefix_len(a, b, k),
{
    assert(a.take(0) =~= b.take(0));
    let k = lemma_common_prefix_from(a, b, 0);
    assert(is_common_prefix_len(a, b, k));
}

/// Of two sequences exactly one holds: they are equal, the first comes
/// before the second, or the second before the first.
pub proof fn lemma_lex_less_total(a: Seq<u8>, b: Seq<u8>)
    ensures
        a == b || lex_less(a, b) || lex_less(b, a),
        !(a == b && lex_less(a, b)),
        !(a == b && lex_less(b, a)),
        !(lex_less(a, b) && lex_less(b, a)),
{
    lemma_common_prefix_exists(a, b);
    let k = choose|k: int| is_common_prefix_len(a, b, k);
    lemma_common_prefix_decides(a, b, k);
}

/// What comes before something that comes before a third comes before the
/// third.
pub proof fn lemma_lex_less_transitive(a: Seq<u8>, b: Seq<u8>, c: Seq<u8>)
    requires
        lex_less(a, b),
        lex_less(b, c),
    ensures
        lex_less(a, c),
{
    let i = choose|i: int| precedes_at(a, b, i);
    let j = choose|j: int| precedes_at(b, c, j);
    if i <= j {
        assert(a.take(i) =~= c.take(i)) by {
            assert forall|n: int| 0 <= n < i implies a[n] == c[n] by {
                assert(a.take(i)[n] == b.take(i)[n]);
                assert(b.take(j)[n] == c.take(j)[n]);
            }
        }
        if i < j {
            assert(b.take(j)[i] == c.take(j)[i]);
        }
        assert(precedes_at(a, c, i));
    } else {
        assert(a.take(j) =~= c.take(j)) by {
            assert forall|n: int| 0 <= n < j implies a[n] == c[n] by {
                assert(a.take(i)[n] == b.take(i)[n]);
                assert(b.take(j)[n] == c.take(j)[n]);
            }
        }
        assert(a.take(i)[j] == b.take(i)[j]);
        assert(precedes_at(a, c, j));
    }
}

/// Turning the two sequences round turns the order round.
pub proof fn lemma_lex_order_reversed(a: Seq<u8>, b: Seq<u8>)
    ensures
        lex_order(a, b) == Ordering::Less <==> lex_order(b, a) == Ordering::Greater,
        lex_order(a, b) == Ordering::Equal <==> lex_order(b, a) == Ordering::Equal,
        lex_order(a, b) == Ordering::Greater <==> lex_order(b, a) == Ordering::Less,
{
    lemma_lex_less_total(a, b);
}

/// Measures the longest common prefix of `a` and `b`, which decides how the
/// two stand to each other.
pub fn common_prefix_len(a: &[u8], b: &[u8]) -> (k: usize)
    ensures
        is_common_prefix_len(a@, b@, k as int),
        a@ == b@ <==> k == a.len() && k == b.len(),
        lex_less(a@, b@) <==> k < b.len() && (k == a.len() || a@[k as int] < b@[k as int]),
{
    let mut k: usize = 0;
    while k < a.len() && k < b.len() && a[k] == b[k]
        invariant
            k <= a.len(),
            k <= b.len(),
            forall|j: int| 0 <= j < k ==> a@[j] == b@[j],
        decreases a.len() - k,
    {
        k += 1;
    }
    proof {
        assert(a@.take(k as int) =~= b@.take(k as int));
        lemma_common_prefix_decides(a@, b@, k as int);
    }
    k
}

/// Tells whether `a` and `b` hold the same bytes.
pub fn bytes_eq(a: &[u8], b: &[u8]) -> (same: bool)
    ensures
        same == (a@ == b@),
{
    let k = common_prefix_len(a, b);
    k == a.len() && k == b.len()
}

/// Compares `a` with `b` lexicographically.
pub fn compare(a: &[u8], b: &[u8]) -> (order: Ordering)
    ensures
        order == lex_order(a@, b@),
{
    let k = common_prefix_len(a, b);
    if k == a.len() && k == b.len() {
        Ordering::Equal
    } else if k < b.len() && (k == a.len() || a[k] < b[k]) {
        Ordering::Less
    } else {
        Ordering::Greater
    }
}

} // verus!
