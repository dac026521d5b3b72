use crate::key::{CelKey, KeyModel};
use std::cmp::Ordering;
use vstd::prelude::*;
use vstd::std_specs::cmp::{PartialEqSpecImpl, PartialOrdSpecImpl};
use vstd::utf8::{encode_utf8, encode_utf8_decode_utf8};

verus! {

/// The place of a key's category among the four: signed integers come
/// first, then unsigned integers, booleans and text.
pub open spec fn key_rank(k: KeyModel) -> int {
    match k {
        KeyModel::Int(_) => 0,
        KeyModel::UInt(_) => 1,
        KeyModel::Bool(_) => 2,
        KeyModel::Text(_) => 3,
    }
}

/// `a` and `b` agree on their first `p` bytes, and there `a` ends while `b`
/// goes on, or `a` has the smaller byte.
pub open spec fn precedes_at(a: Seq<u8>, b: Seq<u8>, p: int) -> bool {
    &&& 0 <= p <= a.len()
    &&& p < b.len()
    &&& forall|i: int| 0 <= i < p ==> a[i] == b[i]
    &&& p < a.len() ==> a[p] < b[p]
}

/// Byte sequences in dictionary order: `a` is a proper prefix of `b`, or
/// has the smaller byte where the two first differ.
pub open spec fn bytes_lt(a: Seq<u8>, b: Seq<u8>) -> bool {
    exists|p: int| precedes_at(a, b, p)
}

/// The strict order of keys: by category first, and within a category by
/// number, `false` before `true`, and text by the bytes of its UTF-8 form.
pub open spec fn key_lt(a: KeyModel, b: KeyModel) -> bool {
    match (a, b) {
        (KeyModel::Int(x), KeyModel::Int(y)) => x < y,
        (KeyModel::UInt(x), KeyModel::UInt(y)) => x < y,
        (KeyModel::Bool(x), KeyModel::Bool(y)) => !x && y,
        (KeyModel::Text(s), KeyModel::Text(t)) => bytes_lt(encode_utf8(s), encode_utf8(t)),
        _ => key_rank(a) < key_rank(b),
    }
}

/// How one key stands to another.
#[derive(Debug, Clone, Copy, PartialEq, Eq, Structural)]
pub enum KeyOrder {
    Less,
    Equal,
    Greater,
}

/// How `a` stands to `b` in the order of keys.
pub open spec fn key_order(a: KeyModel, b: KeyModel) -> KeyOrder {
    if a == b {
        KeyOrder::Equal
    } else if key_lt(a, b) {
        KeyOrder::Less
    } else {
        KeyOrder::Greater
    }
}

/// How `a` stands to `b` in dictionary order.
pub open spec fn bytes_order(a: Seq<u8>, b: Seq<u8>) -> KeyOrder {
    if a == b {
        KeyOrder::Equal
    } else if bytes_lt(a, b) {
        KeyOrder::Less
    } else {
        KeyOrder::Greater
    }
}

/// No byte sequence comes before itself.
pub proof fn lemma_bytes_lt_irreflexive(a: Seq<u8>)
    ensures
        !bytes_lt(a, a),
{
}

/// Of two byte sequences at most one comes before the other.
pub proof fn lemma_bytes_lt_asymmetric(a: Seq<u8>, b: Seq<u8>)
    requires
        bytes_lt(a, b),
    ensures
        !bytes_lt(b, a),
{
    let p = choose|p: int| precedes_at(a, b, p);
    if bytes_lt(b, a) {
        let q = choose|q: int| precedes_at(b, a, q);
        if p < q {
            assert(b[p] == a[p]);
        } else if q < p {
            assert(a[q] == b[q]);
        }
    }
}

/// Dictionary order is transitive.
pub proof fn lemma_bytes_lt_transitive(a: Seq<u8>, b: Seq<u8>, c: Seq<u8>)
    requires
        bytes_lt(a, b),
        bytes_lt(b, c),
    ensures
        bytes_lt(a, c),
{
    let p = choose|p: int| precedes_at(a, b, p);
    let q = choose|q: int| precedes_at(b, c, q);
    let r = if p <= q {
        p
    } else {
        q
    };
    assert forall|i: int| 0 <= i < r implies a[i] == c[i] by {
        assert(a[i] == b[i]);
        assert(b[i] == c[i]);
    }
    if p < q {
        assert(b[p] == c[p]);
    } else if q < p {
        assert(a[q] == b[q]);
    }
    assert(precedes_at(a, c, r));
}

/// Two byte sequences that agree on their first `i` bytes are equal, or
/// one comes before the other.
proof fn lemma_bytes_total_from(a: Seq<u8>, b: Seq<u8>, i: int)
    requires
        0 <= i <= a.len(),
        i <= b.len(),
        forall|j: int| 0 <= j < i ==> a[j] == b[j],
    ensures
        a == b || bytes_lt(a, b) || bytes_lt(b, a),
    decreases a.len() - i,
{
    if i == a.len() {
        if i == b.len() {
            assert(a =~= b);
        } else {
            assert(precedes_at(a, b, i));
        }
    } else if i == b.len() {
        assert(precedes_at(b, a, i));
    } else if a[i] < b[i] {
        assert(precedes_at(a, b, i));
    } else if b[i] < a[i] {
        assert(precedes_at(b, a, i));
    } else {
        lemma_bytes_total_from(a, b, i + 1);
    }
}

/// Dictionary order is total: two byte sequences are equal, or one comes
/// before the other.
pub proof fn lemma_bytes_lt_total(a: Seq<u8>, b: Seq<u8>)
    ensures
        a == b || bytes_lt(a, b) || bytes_lt(b, a),
{
    lemma_bytes_total_from(a, b, 0);
}

/// No key comes before itself.
pub proof fn lemma_key_lt_irreflexive(a: KeyModel)
    ensures
        !key_lt(a, a),
{
    if let KeyModel::Text(s) = a {
        lemma_bytes_lt_irreflexive(encode_utf8(s));
    }
}

/// Of two keys at most one comes before the other.
pub proof fn lemma_key_lt_asymmetric(a: KeyModel, b: KeyModel)
    requires
        key_lt(a, b),
    ensures
        !key_lt(b, a),
{
    if let (KeyModel::Text(s), KeyModel::Text(t)) = (a, b) {
        lemma_bytes_lt_asymmetric(encode_utf8(s), encode_utf8(t));
    }
}

/// The order of keys is transitive.
pub proof fn lemma_key_lt_transitive(a: KeyModel, b: KeyModel, c: KeyModel)
    requires
        key_lt(a, b),
        key_lt(b, c),
    ensures
        key_lt(a, c),
{
    if let (KeyModel::Text(s), KeyModel::Text(t), KeyModel::Text(u)) = (a, b, c) {
        lemma_bytes_lt_transitive(encode_utf8(s), encode_utf8(t), encode_utf8(u));
    }
}

/// The order of keys is total, and agrees with equality: two keys are
/// equal, or one comes before the other.
pub proof fn lemma_key_lt_total(a: KeyModel, b: KeyModel)
    ensures
        a == b || key_lt(a, b) || key_lt(b, a),
{
    if let (KeyModel::Text(s), KeyModel::Text(t)) = (a, b) {
        lemma_bytes_lt_total(encode_utf8(s), encode_utf8(t));
        if encode_utf8(s) == encode_utf8(t) {
            encode_utf8_decode_utf8(s);
            encode_utf8_decode_utf8(t);
        }
    }
}

/// Compares two byte strings in dictionary order.
pub fn compare_bytes(a: &[u8], b: &[u8]) -> (r: KeyOrder)
    ensures
        r == bytes_order(a@, b@),
{
    let n: usize = a.len();
    let m: usize = b.len();
    let mut i: usize = 0;
    while i < n && i < m
        invariant
            n == a@.len(),
            m == b@.len(),
            i <= n,
            i <= m,
            forall|j: int| 0 <= j < i ==> a@[j] == b@[j],
        decreases n - i,
    {
        if a[i] < b[i] {
            proof {
                assert(precedes_at(a@, b@, i as int));
                assert(a@ != b@);
            }
            return KeyOrder::Less;
        }
        if b[i] < a[i] {
            proof {
                assert(precedes_at(b@, a@, i as int));
                lemma_bytes_lt_asymmetric(b@, a@);
                assert(a@ != b@);
            }
            return KeyOrder::Greater;
        }
        i = i + 1;
    }
    if n < m {
        proof {
            assert(precedes_at(a@, b@, i as int));
        }
        KeyOrder::Less
    } else if m < n {
        proof {
            assert(precedes_at(b@, a@, i as int));
            lemma_bytes_lt_asymmetric(b@, a@);
        }
        KeyOrder::Greater
    } else {
        proof {
            assert(a@ =~= b@);
        }
        KeyOrder::Equal
    }
}

impl CelKey {
    /// Says how this key stands to another in the order of keys.
    pub fn compare(&self, other: &CelKey) -> (r: KeyOrder)
        ensures
            r == key_order(self@, other@),
    {
        match (self, other) {
            (CelKey::Int(x), CelKey::Int(y)) => {
                if *x < *y {
                    KeyOrder::Less
                } else if *x == *y {
                    KeyOrder::Equal
                } else {
                    KeyOrder::Greater
                }
            },
            (CelKey::UInt(x), CelKey::UInt(y)) => {
                if *x < *y {
                    KeyOrder::Less
                } else if *x == *y {
                    KeyOrder::Equal
                } else {
                    KeyOrder::Greater
                }
            },
            (CelKey::Bool(x), CelKey::Bool(y)) => {
                if *x == *y {
                    KeyOrder::Equal
                } else if *y {
                    KeyOrder::Less
                } else {
                    KeyOrder::Greater
                }
            },
            (CelKey::String(s), CelKey::String(t)) => {
                let r = compare_bytes(s.as_str().as_bytes(), t.as_str().as_bytes());
                proof {
                    encode_utf8_decode_utf8(s@);
                    encode_utf8_decode_utf8(t@);
                }
                r
            },
            (CelKey::Int(_), _) => KeyOrder::Less,
            (_, CelKey::Int(_)) => KeyOrder::Greater,
            (CelKey::UInt(_), _) => KeyOrder::Less,
            (_, CelKey::UInt(_)) => KeyOrder::Greater,
            (CelKey::Bool(_), _) => KeyOrder::Less,
            (_, CelKey::Bool(_)) => KeyOrder::Greater,
        }
    }
}

impl PartialEq for CelKey {
    /// Two keys are equal when they have the same category and the same
    /// payload.
    fn eq(&self, other: &CelKey) -> (r: bool) {
        match (self, other) {
            (CelKey::Int(x), CelKey::Int(y)) => *x == *y,
            (CelKey::UInt(x), CelKey::UInt(y)) => *x == *y,
            (CelKey::Bool(x), CelKey::Bool(y)) => *x == *y,
            (CelKey::String(s), CelKey::String(t)) => **s == **t,
            _ => false,
        }
    }
}

impl PartialEqSpecImpl for CelKey {
    open spec fn obeys_eq_spec() -> bool {
        true
    }

    open spec fn eq_spec(&self, other: &CelKey) -> bool {
        self@ == other@
    }
}

/// The standard name of a place in the order of keys.
pub open spec fn ordering_of(o: KeyOrder) -> Ordering {
    match o {
        KeyOrder::Less => Ordering::Less,
        KeyOrder::Equal => Ordering::Equal,
        KeyOrder::Greater => Ordering::Greater,
    }
}

impl PartialOrd for CelKey {
    /// Every two keys are comparable, in the order of keys.
    fn partial_cmp(&self, other: &CelKey) -> (r: Option<Ordering>) {
        match self.compare(other) {
            KeyOrder::Less => Some(Ordering::Less),
            KeyOrder::Equal => Some(Ordering::Equal),
            KeyOrder::Greater => Some(Ordering::Greater),
        }
    }
}

impl PartialOrdSpecImpl for CelKey {
    open spec fn obeys_partial_cmp_spec() -> bool {
        true
    }

    open spec fn partial_cmp_spec(&self, other: &CelKey) -> Option<Ordering> {
        Some(ordering_of(key_order(self@, other@)))
    }
}

} // verus!
