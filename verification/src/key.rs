//! The order of body keys.
//!
//! Keys are compared as Rust compares strings: byte by byte over their UTF-8
//! encoding, a proper prefix coming before every string it begins.

use vstd::prelude::*;
use vstd::utf8::*;

verus! {

/// How one key stands to another.
#[derive(Clone, Copy, Debug, PartialEq, Eq, Structural)]
pub enum KeyOrder {
    /// The first key comes first.
    Before,
    /// The two keys are the same text.
    Same,
    /// The second key comes first.
    After,
}

/// The two byte strings hold the same bytes in their first `n` places.
pub open spec fn agree_up_to(a: Seq<u8>, b: Seq<u8>, n: int) -> bool {
    &&& 0 <= n <= a.len()
    &&& n <= b.len()
    &&& forall|j: int| 0 <= j < n ==> a[j] == b[j]
}

/// After `n` equal bytes, `a` either ends while `b` goes on, or holds the
/// smaller byte.
pub open spec fn falls_first_at(a: Seq<u8>, b: Seq<u8>, n: int) -> bool {
    &&& agree_up_to(a, b, n)
    &&& n < b.len()
    &&& n < a.len() ==> a[n] < b[n]
}

/// Lexicographic order on byte strings.
pub open spec fn bytes_precede(a: Seq<u8>, b: Seq<u8>) -> bool {
    exists|n: int| #[trigger] falls_first_at(a, b, n)
}

/// `a` comes strictly before `b` in key order.
pub open spec fn precedes(a: Seq<char>, b: Seq<char>) -> bool {
    bytes_precede(encode_utf8(a), encode_utf8(b))
}

/// No byte string comes before itself.
pub proof fn lemma_bytes_irreflexive(a: Seq<u8>)
    ensures
        !bytes_precede(a, a),
{
}

/// Lexicographic order on byte strings is transitive.
pub proof fn lemma_bytes_transitive(a: Seq<u8>, b: Seq<u8>, c: Seq<u8>)
    requires
        bytes_precede(a, b),
        bytes_precede(b, c),
    ensures
        bytes_precede(a, c),
{
    let i = choose|n: int| #[trigger] falls_first_at(a, b, n);
    let j = choose|n: int| #[trigger] falls_first_at(b, c, n);
    let k = if i <= j { i } else { j };
    assert(falls_first_at(a, c, k));
}

/// Two byte strings that agree in their first `n` places are equal or
/// ordered one way or the other.
proof fn lemma_bytes_total_from(a: Seq<u8>, b: Seq<u8>, n: int)
    requires
        agree_up_to(a, b, n),
    ensures
        a == b || bytes_precede(a, b) || bytes_precede(b, a),
    decreases a.len() - n,
{
    if n == a.len() {
        if n == b.len() {
            assert(a =~= b);
        } else {
            assert(falls_first_at(a, b, n));
        }
    } else if n == b.len() {
        assert(falls_first_at(b, a, n));
    } else if a[n] < b[n] {
        assert(falls_first_at(a, b, n));
    } else if b[n] < a[n] {
        assert(falls_first_at(b, a, n));
    } else {
        lemma_bytes_total_from(a, b, n + 1);
    }
}

/// Text is determined by its UTF-8 encoding.
pub proof fn lemma_encoding_injective(a: Seq<char>, b: Seq<char>)
    requires
        encode_utf8(a) == encode_utf8(b),
    ensures
        a == b,
{
    encode_utf8_decode_utf8(a);
    encode_utf8_decode_utf8(b);
}

/// No key comes before itself.
pub proof fn lemma_precedes_irreflexive(a: Seq<char>)
    ensures
        !precedes(a, a),
{
    lemma_bytes_irreflexive(encode_utf8(a));
}

/// Key order is transitive.
pub proof fn lemma_precedes_transitive(a: Seq<char>, b: Seq<char>, c: Seq<char>)
    requires
        precedes(a, b),
        precedes(b, c),
    ensures
        precedes(a, c),
{
    lemma_bytes_transitive(encode_utf8(a), encode_utf8(b), encode_utf8(c));
}

/// Of two keys, at most one comes before the other.
pub proof fn lemma_precedes_asymmetric(a: Seq<char>, b: Seq<char>)
    requires
        precedes(a, b),
    ensures
        !precedes(b, a),
        a != b,
{
    if precedes(b, a) {
        lemma_precedes_transitive(a, b, a);
    }
    lemma_precedes_irreflexive(a);
}

/// Two different keys are ordered one way or the other.
pub proof fn lemma_precedes_total(a: Seq<char>, b: Seq<char>)
    ensures
        a == b || precedes(a, b) || precedes(b, a),
{
    lemma_bytes_total_from(encode_utf8(a), encode_utf8(b), 0);
    if encode_utf8(a) == encode_utf8(b) {
        lemma_encoding_injective(a, b);
    }
}

/// Compares two keys in key order.
pub fn compare_keys(a: &str, b: &str) -> (order: KeyOrder)
    ensures
        order == KeyOrder::Before <==> precedes(a@, b@),
        order == KeyOrder::Same <==> a@ == b@,
        order == KeyOrder::After <==> precedes(b@, a@),
{
    let x = a.as_bytes();
    let y = b.as_bytes();
    let mut i: usize = 0;
    while i < x.len() && i < y.len()
        invariant
            agree_up_to(x@, y@, i as int),
            x@ == encode_utf8(a@),
            y@ == encode_utf8(b@),
        decreases x.len() - i,
    {
        if x[i] < y[i] {
            proof {
                assert(falls_first_at(x@, y@, i as int));
                lemma_precedes_asymmetric(a@, b@);
            }
            return KeyOrder::Before;
        }
        if y[i] < x[i] {
            proof {
                assert(falls_first_at(y@, x@, i as int));
                lemma_precedes_asymmetric(b@, a@);
            }
            return KeyOrder::After;
        }
        i += 1;
    }
    if i < y.len() {
        proof {
            assert(falls_first_at(x@, y@, i as int));
            lemma_precedes_asymmetric(a@, b@);
        }
        KeyOrder::Before
    } else if i < x.len() {
        proof {
            assert(falls_first_at(y@, x@, i as int));
            lemma_precedes_asymmetric(b@, a@);
        }
        KeyOrder::After
    } else {
        proof {
            assert(x@ =~= y@);
            lemma_encoding_injective(a@, b@);
            lemma_precedes_irreflexive(a@);
        }
        KeyOrder::Same
    }
}

} // verus!
