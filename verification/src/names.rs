//! The order in which names are kept: byte by byte over their UTF-8
//! encoding, a shorter name before any name it is a prefix of.

use vstd::prelude::*;
use vstd::utf8::*;

verus! {

/// `a` and `b` agree on their first `k` bytes, and at byte `k` either `a`
/// has ended while `b` goes on, or `a` holds the smaller byte.
pub open spec fn precedes_at(a: Seq<u8>, b: Seq<u8>, k: int) -> bool {
    &&& 0 <= k <= a.len()
    &&& k < b.len()
    &&& forall|i: int| 0 <= i < k ==> a[i] == b[i]
    &&& k < a.len() ==> a[k] < b[k]
}

/// Lexicographic order on byte strings.
pub open spec fn bytes_less(a: Seq<u8>, b: Seq<u8>) -> bool {
    exists|k: int| #[trigger] precedes_at(a, b, k)
}

/// The order on names: that of their UTF-8 encodings.
pub open spec fn name_less(a: Seq<char>, b: Seq<char>) -> bool {
    bytes_less(encode_utf8(a), encode_utf8(b))
}

/// Every name of `keys` comes strictly before each name after it.
pub open spec fn strictly_sorted(keys: Seq<Seq<char>>) -> bool {
    forall|i: int, j: int| 0 <= i < j < keys.len() ==> name_less(#[trigger] keys[i], #[trigger] keys[j])
}

/// No byte string comes before itself.
pub proof fn lemma_bytes_less_irreflexive(a: Seq<u8>)
    ensures
        !bytes_less(a, a),
{
    if bytes_less(a, a) {
        let k = choose|k: int| #[trigger] precedes_at(a, a, k);
        assert(precedes_at(a, a, k));
    }
}

/// The byte order is transitive.
pub proof fn lemma_bytes_less_transitive(a: Seq<u8>, b: Seq<u8>, c: Seq<u8>)
    requires
        bytes_less(a, b),
        bytes_less(b, c),
    ensures
        bytes_less(a, c),
{
    let k1 = choose|k: int| #[trigger] precedes_at(a, b, k);
    let k2 = choose|k: int| #[trigger] precedes_at(b, c, k);
    let k = if k1 <= k2 { k1 } else { k2 };
    assert(precedes_at(a, b, k1));
    assert(precedes_at(b, c, k2));
    assert(precedes_at(a, c, k));
}

/// No name comes before itself.
pub proof fn lemma_name_less_irreflexive(a: Seq<char>)
    ensures
        !name_less(a, a),
{
    lemma_bytes_less_irreflexive(encode_utf8(a));
}

/// The name order is transitive.
pub proof fn lemma_name_less_transitive(a: Seq<char>, b: Seq<char>, c: Seq<char>)
    requires
        name_less(a, b),
        name_less(b, c),
    ensures
        name_less(a, c),
{
    lemma_bytes_less_transitive(encode_utf8(a), encode_utf8(b), encode_utf8(c));
}

/// Of two names at most one comes before the other.
pub proof fn lemma_name_less_asymmetric(a: Seq<char>, b: Seq<char>)
    requires
        name_less(a, b),
    ensures
        !name_less(b, a),
        a != b,
{
    if name_less(b, a) {
        lemma_name_less_transitive(a, b, a);
    }
    lemma_name_less_irreflexive(a);
}

/// A strictly sorted sequence of names holds no name twice.
pub proof fn lemma_sorted_no_duplicates(keys: Seq<Seq<char>>)
    requires
        strictly_sorted(keys),
    ensures
        keys.no_duplicates(),
{
    assert forall|i: int, j: int|
        0 <= i < keys.len() && 0 <= j < keys.len() && i != j implies keys[i] != keys[j] by {
        if i < j {
            lemma_name_less_asymmetric(keys[i], keys[j]);
        } else {
            lemma_name_less_asymmetric(keys[j], keys[i]);
        }
    }
}

/// How one name stands to another in the name order.
#[derive(Clone, Copy, Debug, PartialEq, Eq)]
pub enum NameOrder {
    Before,
    Same,
    After,
}

/// What [`compare_names`] returns for two names.
pub open spec fn name_order(a: Seq<char>, b: Seq<char>) -> NameOrder {
    if a == b {
        NameOrder::Same
    } else if name_less(a, b) {
        NameOrder::Before
    } else {
        NameOrder::After
    }
}

/// Compares two names in the name order.
pub fn compare_names(a: &str, b: &str) -> (order: NameOrder)
    ensures
        order == name_order(a@, b@),
        order == NameOrder::After ==> name_less(b@, a@),
{
    let x = a.as_bytes();
    let y = b.as_bytes();
    let mut i: usize = 0;
    while i < x.len() && i < y.len()
        invariant
            i <= x@.len(),
            i <= y@.len(),
            x@ == encode_utf8(a@),
            y@ == encode_utf8(b@),
            forall|j: int| 0 <= j < i ==> x@[j] == y@[j],
        decreases x@.len() - i,
    {
        if x[i] < y[i] {
            proof {
                assert(precedes_at(x@, y@, i as int));
                lemma_name_less_asymmetric(a@, b@);
            }
            return NameOrder::Before;
        }
        if x[i] > y[i] {
            proof {
                assert(precedes_at(y@, x@, i as int));
                lemma_name_less_asymmetric(b@, a@);
            }
            return NameOrder::After;
        }
        i += 1;
    }
    if x.len() < y.len() {
        proof {
            assert(precedes_at(x@, y@, i as int));
            lemma_name_less_asymmetric(a@, b@);
        }
        NameOrder::Before
    } else if x.len() > y.len() {
        proof {
            assert(precedes_at(y@, x@, i as int));
            lemma_name_less_asymmetric(b@, a@);
        }
        NameOrder::After
    } else {
        proof {
            assert(x@ =~= y@);
            encode_utf8_decode_utf8(a@);
            encode_utf8_decode_utf8(b@);
        }
        NameOrder::Same
    }
}

} // verus!
