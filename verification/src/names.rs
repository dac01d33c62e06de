//! The order of names: that of their UTF-8 encodings, byte by byte.

use vstd::prelude::*;
use vstd::string::StringSliceAdditionalSpecFns;
use vstd::utf8::{encode_utf8, encode_utf8_decode_utf8};

verus! {

/// How one name stands to another.
#[derive(Clone, Copy, Debug, PartialEq, Eq, Structural)]
pub enum NameOrder {
    /// The first name comes before the second.
    Before,
    /// The names are the same.
    Same,
    /// The first name comes after the second.
    After,
}

/// `a` and `b` agree on their first `k` bytes, and there `a` ends while `b`
/// goes on, or `a` has the smaller byte.
pub open spec fn parts_at(a: Seq<u8>, b: Seq<u8>, k: int) -> bool {
    &&& 0 <= k <= a.len()
    &&& k <= b.len()
    &&& forall|i: int| 0 <= i < k ==> a[i] == b[i]
    &&& k < b.len()
    &&& k < a.len() ==> a[k] < b[k]
}

/// `a` comes before `b` in the lexicographic order of byte sequences.
pub open spec fn bytes_lt(a: Seq<u8>, b: Seq<u8>) -> bool {
    exists|k: int| parts_at(a, b, k)
}

/// The name `a` comes before the name `b`: the order of `str`, which
/// compares the UTF-8 encodings byte by byte.
pub open spec fn name_lt(a: Seq<char>, b: Seq<char>) -> bool {
    bytes_lt(encode_utf8(a), encode_utf8(b))
}

/// `a` and `b` agree on their first `k` bytes, and there one of them ends
/// or they differ.
spec fn part_ways_at(a: Seq<u8>, b: Seq<u8>, k: int) -> bool {
    &&& 0 <= k <= a.len()
    &&& k <= b.len()
    &&& forall|i: int| 0 <= i < k ==> a[i] == b[i]
    &&& (k == a.len() || k == b.len() || a[k] != b[k])
}

/// Two byte sequences that agree on their first `from` bytes agree up to a
/// place where one of them ends or they differ.
proof fn lemma_first_difference(a: Seq<u8>, b: Seq<u8>, from: int) -> (k: int)
    requires
        0 <= from <= a.len(),
        from <= b.len(),
        forall|i: int| 0 <= i < from ==> a[i] == b[i],
    ensures
        part_ways_at(a, b, k),
    decreases a.len() - from,
{
    if from == a.len() || from == b.len() || a[from] != b[from] {
        from
    } else {
        lemma_first_difference(a, b, from + 1)
    }
}

/// Of two byte sequences exactly one comes first, unless they are equal.
pub proof fn lemma_bytes_trichotomy(a: Seq<u8>, b: Seq<u8>)
    ensures
        bytes_lt(a, b) || a == b || bytes_lt(b, a),
        !(bytes_lt(a, b) && bytes_lt(b, a)),
        !(bytes_lt(a, b) && a == b),
{
    if bytes_lt(a, b) {
        let k = choose|k: int| parts_at(a, b, k);
        if bytes_lt(b, a) {
            let j = choose|j: int| parts_at(b, a, j);
            if j < k {
                assert(a[j] == b[j]);
            } else if k < j {
                assert(b[k] == a[k]);
            }
        }
    } else if a != b {
        let k = lemma_first_difference(a, b, 0);
        if k == a.len() {
            if k == b.len() {
                assert(a =~= b);
            } else {
                assert(parts_at(a, b, k));
            }
        } else if k == b.len() {
            assert(parts_at(b, a, k));
        } else if a[k] < b[k] {
            assert(parts_at(a, b, k));
        } else {
            assert(parts_at(b, a, k));
        }
    }
}

/// The order of byte sequences is transitive.
pub proof fn lemma_bytes_lt_transitive(a: Seq<u8>, b: Seq<u8>, c: Seq<u8>)
    requires
        bytes_lt(a, b),
        bytes_lt(b, c),
    ensures
        bytes_lt(a, c),
{
    let k = choose|k: int| parts_at(a, b, k);
    let j = choose|j: int| parts_at(b, c, j);
    if k <= j {
        assert(parts_at(a, c, k)) by {
            if k < j {
                assert(b[k] == c[k]);
            }
        }
    } else {
        assert(a[j] == b[j]);
        assert(parts_at(a, c, j));
    }
}

/// Names with the same encoding are the same name.
pub proof fn lemma_encoding_injective(a: Seq<char>, b: Seq<char>)
    requires
        encode_utf8(a) == encode_utf8(b),
    ensures
        a == b,
{
    encode_utf8_decode_utf8(a);
    encode_utf8_decode_utf8(b);
}

/// Of two names exactly one comes first, unless they are the same.
pub proof fn lemma_name_trichotomy(a: Seq<char>, b: Seq<char>)
    ensures
        name_lt(a, b) || a == b || name_lt(b, a),
        !(name_lt(a, b) && name_lt(b, a)),
        !(name_lt(a, b) && a == b),
{
    lemma_bytes_trichotomy(encode_utf8(a), encode_utf8(b));
    if encode_utf8(a) == encode_utf8(b) {
        lemma_encoding_injective(a, b);
    }
}

/// The order of names is transitive.
pub proof fn lemma_name_lt_transitive(a: Seq<char>, b: Seq<char>, c: Seq<char>)
    requires
        name_lt(a, b),
        name_lt(b, c),
    ensures
        name_lt(a, c),
{
    lemma_bytes_lt_transitive(encode_utf8(a), encode_utf8(b), encode_utf8(c));
}

/// Compares two byte strings lexicographically.
fn compare_bytes(x: &[u8], y: &[u8]) -> (res: NameOrder)
    ensures
        res == NameOrder::Before <==> bytes_lt(x@, y@),
        res == NameOrder::Same <==> x@ == y@,
        res == NameOrder::After <==> bytes_lt(y@, x@),
{
    proof {
        lemma_bytes_trichotomy(x@, y@);
    }
    let mut i: usize = 0;
    while i < x.len() && i < y.len() && x[i] == y[i]
        invariant
            i <= x.len(),
            i <= y.len(),
            forall|j: int| 0 <= j < i ==> x@[j] == y@[j],
        decreases x.len() - i,
    {
        i = i + 1;
    }
    if i < x.len() && i < y.len() {
        if x[i] < y[i] {
            assert(parts_at(x@, y@, i as int));
            NameOrder::Before
        } else {
            assert(parts_at(y@, x@, i as int));
            NameOrder::After
        }
    } else if i < y.len() {
        assert(parts_at(x@, y@, i as int));
        NameOrder::Before
    } else if i < x.len() {
        assert(parts_at(y@, x@, i as int));
        NameOrder::After
    } else {
        assert(x@ =~= y@);
        NameOrder::Same
    }
}

/// Compares two names as `str` does.
pub fn compare_names(a: &str, b: &str) -> (res: NameOrder)
    ensures
        res == NameOrder::Before <==> name_lt(a@, b@),
        res == NameOrder::Same <==> a@ == b@,
        res == NameOrder::After <==> name_lt(b@, a@),
{
    proof {
        lemma_name_trichotomy(a@, b@);
        if a.spec_bytes() == b.spec_bytes() {
            lemma_encoding_injective(a@, b@);
        }
    }
    compare_bytes(a.as_bytes(), b.as_bytes())
}

} // verus!
