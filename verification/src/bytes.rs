//! Byte strings: equality, concatenation and the lexicographic order in which a
//! trie walks its keys.
use vstd::prelude::*;

verus! {

/// `a` and `b` agree before position `i`, and at `i` the order of the two is
/// decided in favour of `a`: either `a` ends there and `b` goes on, or `a` has
/// the smaller byte.
pub open spec fn decided_at(a: Seq<u8>, b: Seq<u8>, i: int) -> bool {
    &&& 0 <= i <= a.len()
    &&& i < b.len()
    &&& forall|j: int| 0 <= j < i ==> a[j] == b[j]
    &&& i == a.len() || a[i] < b[i]
}

/// `a` comes strictly before `b` in lexicographic order.
pub open spec fn precedes(a: Seq<u8>, b: Seq<u8>) -> bool {
    exists|i: int| decided_at(a, b, i)
}

/// No byte string comes before itself.
pub proof fn precedes_irreflexive(a: Seq<u8>)
    ensures
        !precedes(a, a),
{
}

/// The order is transitive.
pub proof fn precedes_transitive(a: Seq<u8>, b: Seq<u8>, c: Seq<u8>)
    requires
        precedes(a, b),
        precedes(b, c),
    ensures
        precedes(a, c),
{
    let i = choose|i: int| decided_at(a, b, i);
    let k = choose|k: int| decided_at(b, c, k);
    let m = if i < k {
        i
    } else {
        k
    };
    assert(decided_at(a, c, m));
}

/// Two different byte strings are ordered one way or the other.
pub proof fn precedes_total(a: Seq<u8>, b: Seq<u8>)
    ensures
        a == b || precedes(a, b) || precedes(b, a),
{
    let n = if a.len() < b.len() {
        a.len() as int
    } else {
        b.len() as int
    };
    if forall|j: int| 0 <= j < n ==> a[j] == b[j] {
        if a.len() < b.len() {
            assert(decided_at(a, b, n));
        } else if b.len() < a.len() {
            assert(decided_at(b, a, n));
        } else {
            assert(a =~= b);
        }
    } else {
        first_difference(a, b, n);
        let i = choose|i: int| 0 <= i < n && a[i] != b[i] && (forall|j: int| 0 <= j < i ==> a[j] == b[j]);
        if a[i] < b[i] {
            assert(decided_at(a, b, i));
        } else {
            assert(decided_at(b, a, i));
        }
    }
}

/// Where two strings differ before `n`, there is a first such position.
proof fn first_difference(a: Seq<u8>, b: Seq<u8>, n: int)
    requires
        n <= a.len(),
        n <= b.len(),
        exists|j: int| 0 <= j < n && a[j] != b[j],
    ensures
        exists|i: int|
            0 <= i < n && a[i] != b[i] && (forall|j: int| 0 <= j < i ==> a[j] == b[j]),
    decreases n,
{
    let k = choose|j: int| 0 <= j < n && a[j] != b[j];
    if exists|j: int| 0 <= j < k && a[j] != b[j] {
        first_difference(a, b, k);
    }
}

/// Whether `a` comes strictly before `b`.
pub fn bytes_precede(a: &[u8], b: &[u8]) -> (r: bool)
    ensures
        r == precedes(a@, b@),
{
    let mut i: usize = 0;
    while i < a.len() && i < b.len()
        invariant
            i <= a@.len(),
            i <= b@.len(),
            forall|j: int| 0 <= j < i ==> a@[j] == b@[j],
        decreases a@.len() - i,
    {
        if a[i] < b[i] {
            assert(decided_at(a@, b@, i as int));
            return true;
        }
        if b[i] < a[i] {
            assert(decided_at(b@, a@, i as int));
            proof {
                if precedes(a@, b@) {
                    precedes_transitive(a@, b@, a@);
                    precedes_irreflexive(a@);
                }
            }
            return false;
        }
        i += 1;
    }
    if i < b.len() {
        assert(decided_at(a@, b@, i as int));
        true
    } else {
        proof {
            if precedes(a@, b@) {
                let k = choose|k: int| decided_at(a@, b@, k);
                assert(a@[k] == b@[k]);
            }
        }
        false
    }
}

/// Whether two byte strings are the same.
pub fn bytes_equal(a: &[u8], b: &[u8]) -> (r: bool)
    ensures
        r == (a@ == b@),
{
    if a.len() != b.len() {
        return false;
    }
    let mut i: usize = 0;
    while i < a.len()
        invariant
            i <= a@.len(),
            a@.len() == b@.len(),
            forall|j: int| 0 <= j < i ==> a@[j] == b@[j],
        decreases a@.len() - i,
    {
        if a[i] != b[i] {
            return false;
        }
        i += 1;
    }
    assert(a@ =~= b@);
    true
}

/// A copy of a byte string.
pub fn bytes_copy(a: &[u8]) -> (r: Vec<u8>)
    ensures
        r@ == a@,
{
    let mut r: Vec<u8> = Vec::new();
    let mut i: usize = 0;
    while i < a.len()
        invariant
            i <= a@.len(),
            r@ == a@.take(i as int),
        decreases a@.len() - i,
    {
        r.push(a[i]);
        assert(r@ =~= a@.take(i + 1));
        i += 1;
    }
    assert(a@.take(a@.len() as int) =~= a@);
    r
}

/// Two byte strings one behind the other.
pub fn bytes_concat(a: &[u8], b: &[u8]) -> (r: Vec<u8>)
    ensures
        r@ == a@ + b@,
{
    let mut r: Vec<u8> = bytes_copy(a);
    let mut i: usize = 0;
    while i < b.len()
        invariant
            i <= b@.len(),
            r@ == a@ + b@.take(i as int),
        decreases b@.len() - i,
    {
        r.push(b[i]);
        assert(r@ =~= a@ + b@.take(i + 1));
        i += 1;
    }
    assert(b@.take(b@.len() as int) =~= b@);
    r
}

} // verus!
