//! The order in which paths are compared: lexicographic on the bytes of their
//! UTF-8 encoding, which is the order of `str` itself.

use vstd::prelude::*;
use vstd::utf8::encode_utf8;
use vstd::utf8::encode_utf8_decode_utf8;
use vstd::string::StringSliceAdditionalSpecFns;

verus! {

/// `a` and `b` agree on every position below `n`.
pub open spec fn agree_below(a: Seq<u8>, b: Seq<u8>, n: int) -> bool {
    forall|k: int| 0 <= k < n ==> a[k] == b[k]
}

/// Lexicographic "less than or equal" on byte sequences: `a` is a prefix of
/// `b`, or at the first position where they differ `a` holds the smaller byte.
pub open spec fn bytes_le(a: Seq<u8>, b: Seq<u8>) -> bool {
    ||| (a.len() <= b.len() && agree_below(a, b, a.len() as int))
    ||| exists|i: int| 0 <= i < a.len() && i < b.len() && agree_below(a, b, i) && a[i] < b[i]
}

/// "Less than or equal" on texts, by the bytes of their UTF-8 encoding.
pub open spec fn text_le(a: Seq<char>, b: Seq<char>) -> bool {
    bytes_le(encode_utf8(a), encode_utf8(b))
}

/// Two byte sequences either agree wherever both are defined, or there is a
/// first position at which they differ.
proof fn lemma_first_difference(a: Seq<u8>, b: Seq<u8>, n: int) -> (i: int)
    requires
        0 <= n <= a.len(),
        n <= b.len(),
    ensures
        0 <= i <= n,
        agree_below(a, b, i),
        i < n ==> a[i] != b[i],
    decreases n,
{
    if n == 0 {
        0
    } else {
        let i = lemma_first_difference(a, b, n - 1);
        if i < n - 1 {
            i
        } else if a[n - 1] != b[n - 1] {
            n - 1
        } else {
            n
        }
    }
}

/// Every byte sequence is below itself.
pub proof fn lemma_bytes_le_reflexive(a: Seq<u8>)
    ensures
        bytes_le(a, a),
{
}

/// Of two byte sequences one is below the other.
pub proof fn lemma_bytes_le_connected(a: Seq<u8>, b: Seq<u8>)
    ensures
        bytes_le(a, b) || bytes_le(b, a),
{
    let n = if a.len() <= b.len() { a.len() as int } else { b.len() as int };
    let i = lemma_first_difference(a, b, n);
    if i < n {
        if a[i] < b[i] {
            assert(bytes_le(a, b));
        } else {
            assert(agree_below(b, a, i));
            assert(b[i] < a[i]);
            assert(bytes_le(b, a));
        }
    } else if a.len() <= b.len() {
        assert(bytes_le(a, b));
    } else {
        assert(agree_below(b, a, b.len() as int));
        assert(bytes_le(b, a));
    }
}

/// Two byte sequences that are below each other are equal.
pub proof fn lemma_bytes_le_antisymmetric(a: Seq<u8>, b: Seq<u8>)
    requires
        bytes_le(a, b),
        bytes_le(b, a),
    ensures
        a == b,
{
    if a.len() <= b.len() && agree_below(a, b, a.len() as int) {
        if b.len() <= a.len() && agree_below(b, a, b.len() as int) {
            assert(a =~= b);
        } else {
            let j = choose|j: int|
                0 <= j < b.len() && j < a.len() && agree_below(b, a, j) && b[j] < a[j];
            assert(a[j] == b[j]);
        }
    } else {
        let i = choose|i: int|
            0 <= i < a.len() && i < b.len() && agree_below(a, b, i) && a[i] < b[i];
        if b.len() <= a.len() && agree_below(b, a, b.len() as int) {
            assert(b[i] == a[i]);
        } else {
            let j = choose|j: int|
                0 <= j < b.len() && j < a.len() && agree_below(b, a, j) && b[j] < a[j];
            if i < j {
                assert(b[i] == a[i]);
            } else if j < i {
                assert(a[j] == b[j]);
            }
        }
    }
}

/// The order on byte sequences is transitive.
pub proof fn lemma_bytes_le_transitive(a: Seq<u8>, b: Seq<u8>, c: Seq<u8>)
    requires
        bytes_le(a, b),
        bytes_le(b, c),
    ensures
        bytes_le(a, c),
{
    if a.len() <= b.len() && agree_below(a, b, a.len() as int) {
        if b.len() <= c.len() && agree_below(b, c, b.len() as int) {
            assert(agree_below(a, c, a.len() as int));
        } else {
            let j = choose|j: int|
                0 <= j < b.len() && j < c.len() && agree_below(b, c, j) && b[j] < c[j];
            if j < a.len() {
                assert(agree_below(a, c, j));
                assert(a[j] < c[j]);
            } else {
                assert(agree_below(a, c, a.len() as int));
            }
        }
    } else {
        let i = choose|i: int|
            0 <= i < a.len() && i < b.len() && agree_below(a, b, i) && a[i] < b[i];
        if b.len() <= c.len() && agree_below(b, c, b.len() as int) {
            assert(agree_below(a, c, i));
            assert(a[i] < c[i]);
        } else {
            let j = choose|j: int|
                0 <= j < b.len() && j < c.len() && agree_below(b, c, j) && b[j] < c[j];
            if i <= j {
                assert(agree_below(a, c, i));
                assert(a[i] < c[i]);
            } else {
                assert(agree_below(a, c, j));
                assert(a[j] < c[j]);
            }
        }
    }
}

/// Two texts that are below each other are the same text: the encoding loses
/// nothing.
pub proof fn lemma_text_le_antisymmetric(a: Seq<char>, b: Seq<char>)
    requires
        text_le(a, b),
        text_le(b, a),
    ensures
        a == b,
{
    lemma_bytes_le_antisymmetric(encode_utf8(a), encode_utf8(b));
    encode_utf8_decode_utf8(a);
    encode_utf8_decode_utf8(b);
}

/// Whether `a` comes before `b`, or is equal to it, in the order of `str`.
pub fn str_le(a: &str, b: &str) -> (le: bool)
    ensures
        le == text_le(a@, b@),
{
    let x = a.as_bytes();
    let y = b.as_bytes();
    let mut i: usize = 0;
    while i < x.len() && i < y.len()
        invariant
            i <= x@.len(),
            i <= y@.len(),
            x@ == encode_utf8(a@),
            y@ == encode_utf8(b@),
            agree_below(x@, y@, i as int),
        decreases x@.len() - i,
    {
        if x[i] != y[i] {
            let below = x[i] < y[i];
            proof {
                if below {
                    assert(bytes_le(x@, y@));
                } else {
                    lemma_differ_not_le(x@, y@, i as int);
                }
            }
            return below;
        }
        i += 1;
    }
    proof {
        if i >= x@.len() {
            assert(bytes_le(x@, y@));
        } else {
            lemma_longer_not_le(x@, y@);
        }
    }
    i >= x.len()
}

/// Whether `a` and `b` are the same text.
pub fn str_eq(a: &str, b: &str) -> (eq: bool)
    ensures
        eq == (a@ == b@),
{
    let eq = str_le(a, b) && str_le(b, a);
    proof {
        if eq {
            lemma_text_le_antisymmetric(a@, b@);
        } else {
            lemma_bytes_le_reflexive(encode_utf8(a@));
        }
    }
    eq
}

/// A sequence whose byte at the first difference is the greater one is not
/// below the other.
proof fn lemma_differ_not_le(a: Seq<u8>, b: Seq<u8>, i: int)
    requires
        0 <= i < a.len(),
        i < b.len(),
        agree_below(a, b, i),
        a[i] > b[i],
    ensures
        !bytes_le(a, b),
{
    if bytes_le(a, b) {
        if a.len() <= b.len() && agree_below(a, b, a.len() as int) {
            assert(a[i] == b[i]);
        } else {
            let j = choose|j: int|
                0 <= j < a.len() && j < b.len() && agree_below(a, b, j) && a[j] < b[j];
            if j < i {
                assert(a[j] == b[j]);
            } else if i < j {
                assert(a[i] == b[i]);
            }
        }
    }
}

/// A sequence that properly extends another is not below it.
proof fn lemma_longer_not_le(a: Seq<u8>, b: Seq<u8>)
    requires
        b.len() < a.len(),
        agree_below(a, b, b.len() as int),
    ensures
        !bytes_le(a, b),
{
    if bytes_le(a, b) {
        let j = choose|j: int|
            0 <= j < a.len() && j < b.len() && agree_below(a, b, j) && a[j] < b[j];
        assert(a[j] == b[j]);
    }
}

} // verus!
