//! The order in which participants are listed: byte-wise lexicographic order
//! of their identity strings.

use vstd::prelude::*;
use vstd::utf8::encode_utf8;
use vstd::utf8::decode_utf8;
use vstd::utf8::encode_utf8_decode_utf8;

verus! {

/// `a` and `b` hold the same bytes at every position below `k`.
pub open spec fn agree_below(a: Seq<u8>, b: Seq<u8>, k: int) -> bool {
    &&& 0 <= k <= a.len()
    &&& k <= b.len()
    &&& forall|j: int| 0 <= j < k ==> a[j] == b[j]
}

/// `k` is a position at which `a` is decided to come before `b`: the two agree
/// below `k`, and there `a` either ends while `b` goes on or holds the smaller byte.
pub open spec fn decides_before(a: Seq<u8>, b: Seq<u8>, k: int) -> bool {
    &&& agree_below(a, b, k)
    &&& k < b.len()
    &&& (k == a.len() || a[k] < b[k])
}

/// Strict lexicographic order on byte strings.
pub open spec fn bytes_lt(a: Seq<u8>, b: Seq<u8>) -> bool {
    exists|k: int| decides_before(a, b, k)
}

/// Strict order on identities: the lexicographic order of their UTF-8 bytes.
pub open spec fn key_lt(a: Seq<char>, b: Seq<char>) -> bool {
    bytes_lt(encode_utf8(a), encode_utf8(b))
}

/// The order is transitive.
pub proof fn lemma_bytes_lt_transitive(a: Seq<u8>, b: Seq<u8>, c: Seq<u8>)
    requires
        bytes_lt(a, b),
        bytes_lt(b, c),
    ensures
        bytes_lt(a, c),
{
    let k1 = choose|k: int| decides_before(a, b, k);
    let k2 = choose|k: int| decides_before(b, c, k);
    let k = if k1 <= k2 { k1 } else { k2 };
    assert(decides_before(a, c, k));
}

/// Two byte strings that agree below `k` are equal or ordered one way or the other.
proof fn lemma_decided_from(a: Seq<u8>, b: Seq<u8>, k: int)
    requires
        agree_below(a, b, k),
    ensures
        a == b || bytes_lt(a, b) || bytes_lt(b, a),
    decreases a.len() - k,
{
    if k == a.len() {
        if k == b.len() {
            assert(a =~= b);
        } else {
            assert(decides_before(a, b, k));
        }
    } else if k == b.len() {
        assert(agree_below(b, a, k));
        assert(decides_before(b, a, k));
    } else if a[k] < b[k] {
        assert(decides_before(a, b, k));
    } else if b[k] < a[k] {
        assert(agree_below(b, a, k));
        assert(decides_before(b, a, k));
    } else {
        lemma_decided_from(a, b, k + 1);
    }
}

/// The order is total: two different byte strings are ordered one way or the other.
pub proof fn lemma_bytes_lt_total(a: Seq<u8>, b: Seq<u8>)
    ensures
        a == b || bytes_lt(a, b) || bytes_lt(b, a),
{
    lemma_decided_from(a, b, 0);
}

/// No identity comes before itself, and none comes both before and after another.
pub proof fn lemma_key_lt_asymmetric(a: Seq<char>, b: Seq<char>)
    requires
        key_lt(a, b),
    ensures
        !key_lt(b, a),
        a != b,
{
    if key_lt(b, a) {
        lemma_bytes_lt_transitive(encode_utf8(a), encode_utf8(b), encode_utf8(a));
    }
}

/// The order on identities is transitive.
pub proof fn lemma_key_lt_transitive(a: Seq<char>, b: Seq<char>, c: Seq<char>)
    requires
        key_lt(a, b),
        key_lt(b, c),
    ensures
        key_lt(a, c),
{
    lemma_bytes_lt_transitive(encode_utf8(a), encode_utf8(b), encode_utf8(c));
}

/// The order on identities is total.
pub proof fn lemma_key_lt_total(a: Seq<char>, b: Seq<char>)
    ensures
        a == b || key_lt(a, b) || key_lt(b, a),
{
    lemma_bytes_lt_total(encode_utf8(a), encode_utf8(b));
    if encode_utf8(a) == encode_utf8(b) {
        encode_utf8_decode_utf8(a);
        encode_utf8_decode_utf8(b);
        assert(decode_utf8(encode_utf8(a)) == a);
        assert(decode_utf8(encode_utf8(b)) == b);
    }
}

/// Whether identity `a` is listed strictly before identity `b`.
pub fn comes_before(a: &str, b: &str) -> (r: bool)
    ensures
        r == key_lt(a@, b@),
{
    let x = a.as_bytes();
    let y = b.as_bytes();
    let mut i: usize = 0;
    while i < x.len() && i < y.len() && x[i] == y[i]
        invariant
            agree_below(x@, y@, i as int),
        decreases x.len() - i,
    {
        i = i + 1;
    }
    let r = i < y.len() && (i == x.len() || x[i] < y[i]);
    proof {
        if r {
            assert(decides_before(x@, y@, i as int));
        }
        if bytes_lt(x@, y@) {
            let k = choose|k: int| decides_before(x@, y@, k);
            assert(k == i);
        }
    }
    r
}

} // verus!
