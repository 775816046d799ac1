//! The order in which attribute names are sorted: the byte-wise lexicographic
//! order of their UTF-8 encodings.

use vstd::prelude::*;
use vstd::utf8::{encode_utf8, encode_utf8_decode_utf8};

verus! {

/// How one name stands to another in the name order.
#[derive(Clone, Copy, Debug, PartialEq, Eq, Structural)]
pub enum NameOrder {
    /// The first name sorts before the second.
    Before,
    /// The two names are the same.
    Same,
    /// The first name sorts after the second.
    After,
}

/// `a` and `b` agree on their first `k` bytes.
pub open spec fn common_prefix(a: Seq<u8>, b: Seq<u8>, k: int) -> bool {
    &&& 0 <= k <= a.len()
    &&& k <= b.len()
    &&& forall|j: int| 0 <= j < k ==> a[j] == b[j]
}

/// `a` comes strictly before `b` in byte-wise lexicographic order: after some
/// common prefix either `a` ends and `b` goes on, or `a` has the smaller byte.
pub open spec fn bytes_before(a: Seq<u8>, b: Seq<u8>) -> bool {
    exists|k: int|
        #[trigger] common_prefix(a, b, k) && k < b.len() && (k < a.len() ==> a[k] < b[k])
}

/// The name `a` sorts strictly before the name `b`.
pub open spec fn name_before(a: Seq<char>, b: Seq<char>) -> bool {
    bytes_before(encode_utf8(a), encode_utf8(b))
}

/// Every two neighbours-or-not of `names` are in strictly increasing name order.
pub open spec fn strictly_sorted(names: Seq<Seq<char>>) -> bool {
    forall|i: int, j: int| 0 <= i < j < names.len() ==> name_before(names[i], names[j])
}

/// No byte string comes before itself.
pub proof fn lemma_bytes_before_irreflexive(a: Seq<u8>)
    ensures
        !bytes_before(a, a),
{
}

/// The byte order is transitive.
pub proof fn lemma_bytes_before_transitive(a: Seq<u8>, b: Seq<u8>, c: Seq<u8>)
    requires
        bytes_before(a, b),
        bytes_before(b, c),
    ensures
        bytes_before(a, c),
{
    let k1 = choose|k: int|
        #[trigger] common_prefix(a, b, k) && k < b.len() && (k < a.len() ==> a[k] < b[k]);
    let k2 = choose|k: int|
        #[trigger] common_prefix(b, c, k) && k < c.len() && (k < b.len() ==> b[k] < c[k]);
    let k = if k1 <= k2 { k1 } else { k2 };
    assert(common_prefix(a, c, k));
}

/// No name sorts before itself.
pub proof fn lemma_name_before_irreflexive(a: Seq<char>)
    ensures
        !name_before(a, a),
{
    lemma_bytes_before_irreflexive(encode_utf8(a));
}

/// The name order is transitive.
pub proof fn lemma_name_before_transitive(a: Seq<char>, b: Seq<char>, c: Seq<char>)
    requires
        name_before(a, b),
        name_before(b, c),
    ensures
        name_before(a, c),
{
    lemma_bytes_before_transitive(encode_utf8(a), encode_utf8(b), encode_utf8(c));
}

/// Two strictly sorted lists of the same names are the same list: the order of
/// the names leaves no choice.
pub proof fn lemma_sorted_lists_agree(x: Seq<Seq<char>>, y: Seq<Seq<char>>)
    requires
        strictly_sorted(x),
        strictly_sorted(y),
        forall|name: Seq<char>| x.contains(name) <==> y.contains(name),
    ensures
        x == y,
    decreases x.len(),
{
    if x.len() == 0 {
        if y.len() > 0 {
            assert(y.contains(y[0]));
        }
        assert(x =~= y);
    } else {
        assert(x.contains(x[0]));
        let a = x.last();
        let b = y.last();
        assert(x.contains(a));
        assert(y.contains(b));
        let j = choose|j: int| 0 <= j < y.len() && y[j] == a;
        let i = choose|i: int| 0 <= i < x.len() && x[i] == b;
        lemma_name_before_irreflexive(a);
        if j < y.len() - 1 {
            assert(name_before(y[j], y[y.len() - 1]));
            if i < x.len() - 1 {
                assert(name_before(x[i], x[x.len() - 1]));
                lemma_name_before_transitive(a, b, a);
            }
        }
        assert(a == b);
        let shorter = x.drop_last();
        let other = y.drop_last();
        assert forall|name: Seq<char>| shorter.contains(name) <==> other.contains(name) by {
            lemma_name_before_irreflexive(name);
            if shorter.contains(name) {
                let p = choose|p: int| 0 <= p < shorter.len() && shorter[p] == name;
                assert(name_before(x[p], x[x.len() - 1]));
                assert(x.contains(name));
                let q = choose|q: int| 0 <= q < y.len() && y[q] == name;
                assert(other[q] == name);
            }
            if other.contains(name) {
                let q = choose|q: int| 0 <= q < other.len() && other[q] == name;
                assert(name_before(y[q], y[y.len() - 1]));
                assert(y.contains(name));
                let p = choose|p: int| 0 <= p < x.len() && x[p] == name;
                assert(shorter[p] == name);
            }
        }
        lemma_sorted_lists_agree(shorter, other);
        assert(x =~= shorter.push(a));
        assert(y =~= other.push(b));
    }
}

/// Two names with the same UTF-8 encoding are the same name.
pub proof fn lemma_encoding_injective(a: Seq<char>, b: Seq<char>)
    requires
        encode_utf8(a) == encode_utf8(b),
    ensures
        a == b,
{
    encode_utf8_decode_utf8(a);
    encode_utf8_decode_utf8(b);
}

/// What `compare_names` returns for two names.
pub open spec fn name_order(a: Seq<char>, b: Seq<char>) -> NameOrder {
    if a == b {
        NameOrder::Same
    } else if name_before(a, b) {
        NameOrder::Before
    } else {
        NameOrder::After
    }
}

/// Compares two names in the name order.
pub fn compare_names(a: &str, b: &str) -> (order: NameOrder)
    ensures
        order == name_order(a@, b@),
        order == NameOrder::After ==> name_before(b@, a@),
{
    let x = a.as_bytes();
    let y = b.as_bytes();
    let n: usize = x.len();
    let m: usize = y.len();
    let mut i: usize = 0;
    while i < n && i < m
        invariant
            n == x@.len(),
            m == y@.len(),
            x@ == encode_utf8(a@),
            y@ == encode_utf8(b@),
            common_prefix(x@, y@, i as int),
        decreases n - i,
    {
        if x[i] < y[i] {
            proof {
                if a@ == b@ {
                    assert(x@[i as int] == y@[i as int]);
                }
            }
            return NameOrder::Before;
        }
        if x[i] > y[i] {
            proof {
                assert(common_prefix(y@, x@, i as int));
                if name_before(a@, b@) {
                    lemma_bytes_before_transitive(x@, y@, x@);
                }
            }
            return NameOrder::After;
        }
        i += 1;
    }
    if i < m {
        proof {
            assert(a@ != b@);
        }
        NameOrder::Before
    } else if i < n {
        proof {
            assert(common_prefix(y@, x@, i as int));
            assert(a@ != b@);
            if name_before(a@, b@) {
                lemma_bytes_before_transitive(x@, y@, x@);
            }
        }
        NameOrder::After
    } else {
        proof {
            assert(x@ =~= y@);
            lemma_encoding_injective(a@, b@);
        }
        NameOrder::Same
    }
}

} // verus!
