//! Identities of tokens, in their canonical order.
//!
//! A pool is set up for an ordered pair of tokens. Identities are compared as
//! byte strings, so that of two different tokens exactly one comes first and
//! a pair of tokens names at most one pool.

use vstd::prelude::*;

verus! {

/// The identity of a token: its canonical encoding as bytes.
#[derive(Clone, Debug, PartialEq, Eq)]
pub struct Address {
    bytes: Vec<u8>,
}

/// Whether `a` and `b` hold the same bytes at every position below `i`.
pub open spec fn agree_before(a: Seq<u8>, b: Seq<u8>, i: int) -> bool {
    &&& 0 <= i <= a.len()
    &&& i <= b.len()
    &&& forall|j: int| 0 <= j < i ==> a[j] == b[j]
}

/// Whether `a` comes strictly before `b` in dictionary order: at the first
/// position where they part, `a` has ended or holds the smaller byte.
pub open spec fn precedes(a: Seq<u8>, b: Seq<u8>) -> bool {
    exists|i: int| #[trigger] agree_before(a, b, i) && i < b.len() && (i == a.len() || a[i] < b[i])
}

impl View for Address {
    type V = Seq<u8>;

    closed spec fn view(&self) -> Seq<u8> {
        self.bytes@
    }
}

impl Address {
    /// The identity with the given encoding.
    pub fn new(bytes: Vec<u8>) -> (r: Address)
        ensures
            r@ == bytes@,
    {
        Address { bytes }
    }

    /// The encoding of the identity.
    pub fn as_bytes(&self) -> (r: &Vec<u8>)
        ensures
            r@ == self@,
    {
        &self.bytes
    }

    /// Whether this identity comes strictly before `other`.
    pub fn comes_before(&self, other: &Address) -> (r: bool)
        ensures
            r == precedes(self@, other@),
    {
        let a = &self.bytes;
        let b = &other.bytes;
        let mut i: usize = 0;
        while i < a.len() && i < b.len()
            invariant
                a@ == self@,
                b@ == other@,
                agree_before(a@, b@, i as int),
            decreases a.len() - i,
        {
            if a[i] != b[i] {
                proof {
                    lemma_decided_at(a@, b@, i as int);
                }
                return a[i] < b[i];
            }
            i += 1;
        }
        proof {
            lemma_decided_at(a@, b@, i as int);
        }
        a.len() < b.len()
    }
}

/// The first position where two strings part decides their order.
pub proof fn lemma_decided_at(a: Seq<u8>, b: Seq<u8>, i: int)
    requires
        agree_before(a, b, i),
        i == a.len() || i == b.len() || a[i] != b[i],
    ensures
        precedes(a, b) <==> i < b.len() && (i == a.len() || a[i] < b[i]),
        precedes(b, a) <==> i < a.len() && (i == b.len() || b[i] < a[i]),
        a == b <==> i == a.len() && i == b.len(),
{
    assert(agree_before(b, a, i));
    if precedes(a, b) {
        let k = choose|k: int| #[trigger]
            agree_before(a, b, k) && k < b.len() && (k == a.len() || a[k] < b[k]);
        if k < i {
            assert(a[k] == b[k]);
        } else if k > i {
            assert(a[i] == b[i]);
        }
    }
    if precedes(b, a) {
        let k = choose|k: int| #[trigger]
            agree_before(b, a, k) && k < a.len() && (k == b.len() || b[k] < a[k]);
        if k < i {
            assert(a[k] == b[k]);
        } else if k > i {
            assert(b[i] == a[i]);
        }
    }
    if i == a.len() && i == b.len() {
        assert(a =~= b);
    }
}

/// Two strings that agree below `i` are equal, or one of them comes first.
proof fn lemma_parting(a: Seq<u8>, b: Seq<u8>, i: int)
    requires
        agree_before(a, b, i),
    ensures
        a == b || precedes(a, b) || precedes(b, a),
    decreases a.len() - i,
{
    if i == a.len() || i == b.len() || a[i] != b[i] {
        lemma_decided_at(a, b, i);
    } else {
        lemma_parting(a, b, i + 1);
    }
}

/// The order of identities is strict and total: nothing comes before itself,
/// and of two different identities exactly one comes before the other.
pub proof fn lemma_order_is_total(a: Seq<u8>, b: Seq<u8>)
    ensures
        !precedes(a, a),
        !(precedes(a, b) && precedes(b, a)),
        a != b ==> precedes(a, b) || precedes(b, a),
{
    lemma_decided_at(a, a, a.len() as int);
    lemma_parting(a, b, 0);
    if precedes(a, b) && precedes(b, a) {
        let k = choose|k: int| #[trigger]
            agree_before(a, b, k) && k < b.len() && (k == a.len() || a[k] < b[k]);
        lemma_decided_at(a, b, k);
    }
}

} // verus!
