//! Strings compared on their UTF-8 bytes: whether two say the same, and the
//! order in which names are arranged.

use vstd::prelude::*;

verus! {

/// `a` and `b` agree on their first `k` bytes.
pub open spec fn common_prefix(a: Seq<u8>, b: Seq<u8>, k: int) -> bool {
    &&& 0 <= k <= a.len()
    &&& k <= b.len()
    &&& forall|i: int| 0 <= i < k ==> a[i] == b[i]
}

/// `a` does not come after `b`: after `k` common bytes either `a` has ended,
/// or its next byte is the smaller one.
pub open spec fn precedes_at(a: Seq<u8>, b: Seq<u8>, k: int) -> bool {
    &&& common_prefix(a, b, k)
    &&& (k == a.len() || (k < b.len() && a[k] < b[k]))
}

/// Byte strings in dictionary order: `a` is a prefix of `b`, or holds the
/// smaller byte where the two first differ.
pub open spec fn bytes_le(a: Seq<u8>, b: Seq<u8>) -> bool {
    exists|k: int| precedes_at(a, b, k)
}

/// Names in their native order, which is the dictionary order of their UTF-8
/// encodings.
pub open spec fn name_le(a: Seq<char>, b: Seq<char>) -> bool {
    bytes_le(vstd::utf8::encode_utf8(a), vstd::utf8::encode_utf8(b))
}

/// Decides [`bytes_le`] by walking both slices up to the first difference.
pub fn bytes_precede(a: &[u8], b: &[u8]) -> (r: bool)
    ensures
        r == bytes_le(a@, b@),
{
    let mut i: usize = 0;
    while i < a.len() && i < b.len()
        invariant
            common_prefix(a@, b@, i as int),
        decreases a.len() - i,
    {
        if a[i] != b[i] {
            let r = a[i] < b[i];
            proof {
                if r {
                    assert(precedes_at(a@, b@, i as int));
                }
            }
            return r;
        }
        i += 1;
    }
    let r = i == a.len();
    proof {
        if r {
            assert(precedes_at(a@, b@, i as int));
        }
    }
    r
}

/// Whether two strings say the same, decided on their UTF-8 bytes.
pub fn same_text(a: &str, b: &str) -> (r: bool)
    ensures
        r == (a@ == b@),
{
    let x = a.as_bytes();
    let y = b.as_bytes();
    proof {
        vstd::utf8::encode_utf8_decode_utf8(a@);
        vstd::utf8::encode_utf8_decode_utf8(b@);
    }
    if x.len() != y.len() {
        return false;
    }
    let mut i: usize = 0;
    while i < x.len()
        invariant
            x@ == vstd::utf8::encode_utf8(a@),
            y@ == vstd::utf8::encode_utf8(b@),
            x@.len() == y@.len(),
            common_prefix(x@, y@, i as int),
        decreases x.len() - i,
    {
        if x[i] != y[i] {
            return false;
        }
        i += 1;
    }
    assert(x@ =~= y@);
    true
}

/// Decides [`name_le`] for two strings.
pub fn name_precedes(a: &str, b: &str) -> (r: bool)
    ensures
        r == name_le(a@, b@),
{
    bytes_precede(a.as_bytes(), b.as_bytes())
}

/// Every byte string stands in order with itself.
pub proof fn lemma_bytes_le_reflexive(a: Seq<u8>)
    ensures
        bytes_le(a, a),
{
    assert(precedes_at(a, a, a.len() as int));
}

/// Of two byte strings one does not come after the other.
pub proof fn lemma_bytes_le_total(a: Seq<u8>, b: Seq<u8>)
    ensures
        bytes_le(a, b) || bytes_le(b, a),
{
    lemma_first_difference(a, b, 0);
}

/// From any common prefix onwards, the two strings either run out or differ
/// somewhere, and that place settles their order.
proof fn lemma_first_difference(a: Seq<u8>, b: Seq<u8>, k: int)
    requires
        common_prefix(a, b, k),
    ensures
        bytes_le(a, b) || bytes_le(b, a),
    decreases a.len() - k,
{
    if k == a.len() || (k < b.len() && a[k] < b[k]) {
        assert(precedes_at(a, b, k));
    } else if k == b.len() || b[k] < a[k] {
        assert(precedes_at(b, a, k));
    } else {
        lemma_first_difference(a, b, k + 1);
    }
}

/// Dictionary order passes along a chain.
pub proof fn lemma_bytes_le_transitive(a: Seq<u8>, b: Seq<u8>, c: Seq<u8>)
    requires
        bytes_le(a, b),
        bytes_le(b, c),
    ensures
        bytes_le(a, c),
{
    let k1 = choose|k: int| precedes_at(a, b, k);
    let k2 = choose|k: int| precedes_at(b, c, k);
    let k = if k1 <= k2 { k1 } else { k2 };
    assert(precedes_at(a, c, k));
}

/// Two byte strings that precede each other are the same string.
pub proof fn lemma_bytes_le_antisymmetric(a: Seq<u8>, b: Seq<u8>)
    requires
        bytes_le(a, b),
        bytes_le(b, a),
    ensures
        a == b,
{
    let k1 = choose|k: int| precedes_at(a, b, k);
    let k2 = choose|k: int| precedes_at(b, a, k);
    assert(k1 == a.len() && k2 == b.len());
    assert(a =~= b);
}

/// Every name stands in order with itself.
pub proof fn lemma_name_le_reflexive(a: Seq<char>)
    ensures
        name_le(a, a),
{
    lemma_bytes_le_reflexive(vstd::utf8::encode_utf8(a));
}

/// Of two names one does not come after the other.
pub proof fn lemma_name_le_total(a: Seq<char>, b: Seq<char>)
    ensures
        name_le(a, b) || name_le(b, a),
{
    lemma_bytes_le_total(vstd::utf8::encode_utf8(a), vstd::utf8::encode_utf8(b));
}

/// The order of names passes along a chain.
pub proof fn lemma_name_le_transitive(a: Seq<char>, b: Seq<char>, c: Seq<char>)
    requires
        name_le(a, b),
        name_le(b, c),
    ensures
        name_le(a, c),
{
    lemma_bytes_le_transitive(
        vstd::utf8::encode_utf8(a),
        vstd::utf8::encode_utf8(b),
        vstd::utf8::encode_utf8(c),
    );
}

/// Two names that precede each other are the same name.
pub proof fn lemma_name_le_antisymmetric(a: Seq<char>, b: Seq<char>)
    requires
        name_le(a, b),
        name_le(b, a),
    ensures
        a == b,
{
    lemma_bytes_le_antisymmetric(vstd::utf8::encode_utf8(a), vstd::utf8::encode_utf8(b));
    vstd::utf8::encode_utf8_decode_utf8(a);
    vstd::utf8::encode_utf8_decode_utf8(b);
}

} // verus!
