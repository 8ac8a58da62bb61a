//! The lexicographic order of byte strings, by which user keys are sorted.

use vstd::prelude::*;

verus! {

/// Whether `a` and `b` agree before position `i`.
pub open spec fn agree_before(a: Seq<u8>, b: Seq<u8>, i: int) -> bool {
    &&& 0 <= i <= a.len()
    &&& i <= b.len()
    &&& forall|k: int| 0 <= k < i ==> a[k] == b[k]
}

/// Whether position `i` decides that `a` sorts before `b`: they agree before
/// it, and there `a` ends first or has the smaller byte.
pub open spec fn decides_less(a: Seq<u8>, b: Seq<u8>, i: int) -> bool {
    &&& agree_before(a, b, i)
    &&& i < b.len()
    &&& i == a.len() || a[i] < b[i]
}

/// Whether `a` sorts strictly before `b`.
pub open spec fn key_lt(a: Seq<u8>, b: Seq<u8>) -> bool {
    exists|i: int| decides_less(a, b, i)
}

/// Whether `a` sorts before `b` or equals it.
pub open spec fn key_le(a: Seq<u8>, b: Seq<u8>) -> bool {
    a == b || key_lt(a, b)
}

/// The order is irreflexive and asymmetric.
pub proof fn lemma_key_lt_asymmetric(a: Seq<u8>, b: Seq<u8>)
    ensures
        !(key_lt(a, b) && key_lt(b, a)),
        !key_lt(a, a),
{
    if key_lt(a, b) && key_lt(b, a) {
        let i = choose|i: int| decides_less(a, b, i);
        let j = choose|j: int| decides_less(b, a, j);
        if i < j {
            assert(a[i] == b[i]);
        } else if j < i {
            assert(a[j] == b[j]);
        }
        assert(false);
    }
    if key_lt(a, a) {
        let i = choose|i: int| decides_less(a, a, i);
        assert(false);
    }
}

/// The order is transitive.
pub proof fn lemma_key_lt_transitive(a: Seq<u8>, b: Seq<u8>, c: Seq<u8>)
    requires
        key_lt(a, b),
        key_lt(b, c),
    ensures
        key_lt(a, c),
{
    let i = choose|i: int| decides_less(a, b, i);
    let j = choose|j: int| decides_less(b, c, j);
    let k = if i < j { i } else { j };
    assert forall|m: int| 0 <= m < k implies a[m] == c[m] by {
        assert(a[m] == b[m]);
        assert(b[m] == c[m]);
    }
    if i < j {
        assert(b[i] == c[i]);
    } else if j < i {
        assert(a[j] == b[j]);
    }
    assert(decides_less(a, c, k));
}

/// `key_le` is transitive.
pub proof fn lemma_key_le_transitive(a: Seq<u8>, b: Seq<u8>, c: Seq<u8>)
    requires
        key_le(a, b),
        key_le(b, c),
    ensures
        key_le(a, c),
        a != b || b != c ==> key_lt(a, c),
{
    if key_lt(a, b) && key_lt(b, c) {
        lemma_key_lt_transitive(a, b, c);
    }
}

/// Of two byte strings one sorts before the other, or they are equal.
pub proof fn lemma_key_order_total(a: Seq<u8>, b: Seq<u8>)
    ensures
        key_le(a, b) || key_lt(b, a),
        key_le(a, b) ==> !key_lt(b, a),
{
    lemma_key_lt_asymmetric(a, b);
    lemma_first_difference(a, b, 0);
}

/// Searching on from a position before which both agree finds what decides.
proof fn lemma_first_difference(a: Seq<u8>, b: Seq<u8>, i: int)
    requires
        agree_before(a, b, i),
    ensures
        a == b || key_lt(a, b) || key_lt(b, a),
    decreases a.len() - i,
{
    if i == a.len() && i == b.len() {
        assert(a =~= b);
    } else if i == a.len() {
        assert(decides_less(a, b, i));
    } else if i == b.len() {
        assert(decides_less(b, a, i));
    } else if a[i] < b[i] {
        assert(decides_less(a, b, i));
    } else if b[i] < a[i] {
        assert(decides_less(b, a, i));
    } else {
        lemma_first_difference(a, b, i + 1);
    }
}

/// Whether `a` sorts strictly before `b`.
pub fn is_less(a: &[u8], b: &[u8]) -> (r: bool)
    ensures
        r == key_lt(a@, b@),
{
    let mut i: usize = 0;
    while i < a.len() && i < b.len()
        invariant
            i <= a@.len(),
            i <= b@.len(),
            agree_before(a@, b@, i as int),
        decreases a@.len() - i,
    {
        if a[i] != b[i] {
            proof {
                lemma_key_lt_asymmetric(a@, b@);
                if a@[i as int] < b@[i as int] {
                    assert(decides_less(a@, b@, i as int));
                } else {
                    assert(decides_less(b@, a@, i as int));
                }
            }
            return a[i] < b[i];
        }
        i = i + 1;
    }
    proof {
        lemma_key_lt_asymmetric(a@, b@);
        if i == a@.len() && i == b@.len() {
            assert(a@ =~= b@);
        } else if i == a@.len() {
            assert(decides_less(a@, b@, i as int));
        } else {
            assert(decides_less(b@, a@, i as int));
        }
    }
    i < b.len()
}

/// Whether `a` sorts before `b` or equals it.
pub fn is_less_or_equal(a: &[u8], b: &[u8]) -> (r: bool)
    ensures
        r == key_le(a@, b@),
{
    proof {
        lemma_key_order_total(a@, b@);
    }
    !is_less(b, a)
}

/// The first byte in which two strings differ decides their order; a string
/// sorts before every longer one that begins with it; and no other pair is in
/// order.
pub proof fn law_first_difference_decides(a: Seq<u8>, b: Seq<u8>, i: int)
    requires
        0 <= i <= a.len(),
        i <= b.len(),
        a.take(i) == b.take(i),
    ensures
        i < a.len() && i < b.len() && a[i] < b[i] ==> key_lt(a, b) && !key_lt(b, a) && key_le(a, b)
            && !key_le(b, a),
        i == a.len() && i < b.len() ==> key_lt(a, b) && !key_lt(b, a) && key_le(a, b) && !key_le(
            b,
            a,
        ),
        i == a.len() && i == b.len() ==> !key_lt(a, b) && key_le(a, b),
{
    assert forall|k: int| 0 <= k < i implies a[k] == b[k] by {
        assert(a.take(i)[k] == a[k]);
        assert(b.take(i)[k] == b[k]);
    }
    if i == a.len() && i == b.len() {
        assert(a =~= b);
    } else if i == a.len() || (i < b.len() && a[i] < b[i]) {
        assert(decides_less(a, b, i));
    }
    lemma_key_lt_asymmetric(a, b);
}

} // verus!
