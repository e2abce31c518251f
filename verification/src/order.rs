//! Dictionary order on texts and on ledger keys.
//!
//! Texts are ordered character by character, a proper prefix before its
//! extensions. Keys are ordered by date first and by identity second.

use vstd::prelude::*;

verus! {

/// A ledger key: the day, then the identity.
pub type Key = (Seq<char>, Seq<char>);

/// Where one text stands relative to another.
#[derive(Debug, Clone, Copy, PartialEq, Eq)]
pub enum Side {
    Before,
    Same,
    After,
}

/// Whether `a` and `b` agree on their first `k` characters and `a` is the
/// smaller from there on: it ends there, or it holds the smaller character.
pub open spec fn parts_below(a: Seq<char>, b: Seq<char>, k: int) -> bool {
    &&& 0 <= k <= a.len()
    &&& k < b.len()
    &&& a.take(k) == b.take(k)
    &&& k < a.len() ==> a[k] < b[k]
}

/// Whether `a` comes before `b` in dictionary order.
pub open spec fn precedes(a: Seq<char>, b: Seq<char>) -> bool {
    exists|k: int| parts_below(a, b, k)
}

/// Whether key `a` comes before key `b`: by date, then by identity.
pub open spec fn key_precedes(a: Key, b: Key) -> bool {
    precedes(a.0, b.0) || (a.0 == b.0 && precedes(a.1, b.1))
}

/// No text comes before itself.
pub proof fn lemma_precedes_irreflexive(a: Seq<char>)
    ensures
        !precedes(a, a),
{
}

/// Dictionary order is transitive.
pub proof fn lemma_precedes_transitive(a: Seq<char>, b: Seq<char>, c: Seq<char>)
    requires
        precedes(a, b),
        precedes(b, c),
    ensures
        precedes(a, c),
{
    let i = choose|k: int| parts_below(a, b, k);
    let j = choose|k: int| parts_below(b, c, k);
    let k = if i <= j { i } else { j };
    assert(a.take(k) =~= c.take(k)) by {
        assert forall|n: int| 0 <= n < k implies a[n] == c[n] by {
            assert(a.take(i)[n] == b.take(i)[n]);
            assert(b.take(j)[n] == c.take(j)[n]);
        }
    }
    if i < j {
        assert(b.take(j)[i] == c.take(j)[i]);
    } else if j < i {
        assert(a.take(i)[j] == b.take(i)[j]);
    }
    assert(parts_below(a, c, k));
}

/// Of two texts at most one comes before the other, and then they differ.
pub proof fn lemma_precedes_asymmetric(a: Seq<char>, b: Seq<char>)
    requires
        precedes(a, b),
    ensures
        !precedes(b, a),
        a != b,
{
    lemma_precedes_irreflexive(a);
    if precedes(b, a) {
        lemma_precedes_transitive(a, b, a);
    }
}

/// No key comes before itself.
pub proof fn lemma_key_precedes_irreflexive(a: Key)
    ensures
        !key_precedes(a, a),
{
    lemma_precedes_irreflexive(a.0);
    lemma_precedes_irreflexive(a.1);
}

/// The order of keys is transitive.
pub proof fn lemma_key_precedes_transitive(a: Key, b: Key, c: Key)
    requires
        key_precedes(a, b),
        key_precedes(b, c),
    ensures
        key_precedes(a, c),
{
    if precedes(a.0, b.0) && precedes(b.0, c.0) {
        lemma_precedes_transitive(a.0, b.0, c.0);
    } else if a.0 == b.0 && b.0 == c.0 {
        lemma_precedes_transitive(a.1, b.1, c.1);
    }
}

/// Of two keys at most one comes before the other, and then they differ.
pub proof fn lemma_key_precedes_asymmetric(a: Key, b: Key)
    requires
        key_precedes(a, b),
    ensures
        !key_precedes(b, a),
        a != b,
{
    lemma_key_precedes_irreflexive(a);
    if key_precedes(b, a) {
        lemma_key_precedes_transitive(a, b, a);
    }
}

/// Where `a` stands relative to `b` in dictionary order.
pub fn compare_chars(a: &Vec<char>, b: &Vec<char>) -> (side: Side)
    ensures
        side is Before <==> precedes(a@, b@),
        side is Same <==> a@ == b@,
        side is After <==> precedes(b@, a@),
{
    let mut i: usize = 0;
    while i < a.len() && i < b.len()
        invariant
            i <= a.len(),
            i <= b.len(),
            a@.take(i as int) == b@.take(i as int),
        decreases a.len() - i,
    {
        if a[i] < b[i] {
            proof {
                assert(parts_below(a@, b@, i as int));
                lemma_precedes_asymmetric(a@, b@);
            }
            return Side::Before;
        }
        if b[i] < a[i] {
            proof {
                assert(parts_below(b@, a@, i as int));
                lemma_precedes_asymmetric(b@, a@);
            }
            return Side::After;
        }
        assert(a@.take(i + 1) == a@.take(i as int).push(a@[i as int]));
        assert(b@.take(i + 1) == b@.take(i as int).push(b@[i as int]));
        i += 1;
    }
    if i < b.len() {
        proof {
            assert(parts_below(a@, b@, i as int));
            lemma_precedes_asymmetric(a@, b@);
        }
        Side::Before
    } else if i < a.len() {
        proof {
            assert(parts_below(b@, a@, i as int));
            lemma_precedes_asymmetric(b@, a@);
        }
        Side::After
    } else {
        proof {
            assert(a@.take(a@.len() as int) == a@);
            assert(b@.take(b@.len() as int) == b@);
            lemma_precedes_irreflexive(a@);
        }
        Side::Same
    }
}

/// Where the key of `date` and `identity` stands relative to the key of
/// `other_date` and `other_identity`.
pub fn compare_keys(
    date: &Vec<char>,
    identity: &Vec<char>,
    other_date: &Vec<char>,
    other_identity: &Vec<char>,
) -> (side: Side)
    ensures
        side is Before <==> key_precedes((date@, identity@), (other_date@, other_identity@)),
        side is Same <==> (date@, identity@) == (other_date@, other_identity@),
        side is After <==> key_precedes((other_date@, other_identity@), (date@, identity@)),
{
    proof {
        lemma_precedes_irreflexive(date@);
        if precedes(date@, other_date@) {
            lemma_precedes_asymmetric(date@, other_date@);
        }
        if precedes(other_date@, date@) {
            lemma_precedes_asymmetric(other_date@, date@);
        }
    }
    match compare_chars(date, other_date) {
        Side::Before => Side::Before,
        Side::After => Side::After,
        Side::Same => compare_chars(identity, other_identity),
    }
}

} // verus!
