//! Byte-level text comparison, as Rust orders `str` values.

use vstd::prelude::*;
use vstd::utf8::encode_utf8;
use vstd::utf8::encode_utf8_decode_utf8;

verus! {

/// The UTF-8 bytes of a character sequence.
pub open spec fn text_bytes(s: Seq<char>) -> Seq<u8> {
    encode_utf8(s)
}

/// Lexicographic order of byte strings, as a sign: -1, 0 or 1.
/// A proper prefix comes first.
pub open spec fn bytes_compare(a: Seq<u8>, b: Seq<u8>) -> int
    decreases a.len(),
{
    if a.len() == 0 {
        if b.len() == 0 {
            0
        } else {
            -1
        }
    } else if b.len() == 0 {
        1
    } else if a[0] < b[0] {
        -1
    } else if a[0] > b[0] {
        1
    } else {
        bytes_compare(a.drop_first(), b.drop_first())
    }
}

/// Text order: the byte order of the UTF-8 encodings.
pub open spec fn text_compare(a: Seq<char>, b: Seq<char>) -> int {
    bytes_compare(text_bytes(a), text_bytes(b))
}

/// `bytes_compare` is a sign, swapping the arguments negates it, and it is
/// zero exactly on equal strings.
pub proof fn lemma_bytes_compare_sign(a: Seq<u8>, b: Seq<u8>)
    ensures
        -1 <= bytes_compare(a, b) <= 1,
        bytes_compare(a, b) == -bytes_compare(b, a),
        bytes_compare(a, b) == 0 <==> a == b,
    decreases a.len(),
{
    if a.len() > 0 && b.len() > 0 && a[0] == b[0] {
        lemma_bytes_compare_sign(a.drop_first(), b.drop_first());
        if a.drop_first() == b.drop_first() {
            assert(a =~= seq![a[0]] + a.drop_first());
            assert(b =~= seq![b[0]] + b.drop_first());
        }
        if a == b {
            assert(a.drop_first() =~= b.drop_first());
        }
    } else if a.len() == 0 && b.len() == 0 {
        assert(a =~= b);
    }
}

/// `bytes_compare` orders transitively.
pub proof fn lemma_bytes_compare_transitive(a: Seq<u8>, b: Seq<u8>, c: Seq<u8>)
    requires
        bytes_compare(a, b) < 0,
        bytes_compare(b, c) < 0,
    ensures
        bytes_compare(a, c) < 0,
    decreases a.len(),
{
    if a.len() > 0 && b.len() > 0 && c.len() > 0 && a[0] == b[0] && b[0] == c[0] {
        lemma_bytes_compare_transitive(a.drop_first(), b.drop_first(), c.drop_first());
    }
}

/// Compares two byte slices lexicographically.
pub fn compare_bytes(a: &[u8], b: &[u8]) -> (r: i8)
    ensures
        r == bytes_compare(a@, b@),
{
    let mut i: usize = 0;
    assert(a@.skip(0) =~= a@);
    assert(b@.skip(0) =~= b@);
    while i < a.len() && i < b.len()
        invariant
            i <= a@.len(),
            i <= b@.len(),
            bytes_compare(a@, b@) == bytes_compare(a@.skip(i as int), b@.skip(i as int)),
        decreases a@.len() - i,
    {
        if a[i] < b[i] {
            return -1;
        }
        if a[i] > b[i] {
            return 1;
        }
        assert(a@.skip(i as int).drop_first() =~= a@.skip(i + 1));
        assert(b@.skip(i as int).drop_first() =~= b@.skip(i + 1));
        i = i + 1;
    }
    if i < a.len() {
        1
    } else if i < b.len() {
        -1
    } else {
        0
    }
}

/// Whether two strings hold the same characters.
pub fn str_equal(a: &str, b: &str) -> (r: bool)
    ensures
        r == (a@ == b@),
{
    let ab = a.as_bytes();
    let bb = b.as_bytes();
    let c = compare_bytes(ab, bb);
    proof {
        lemma_bytes_compare_sign(ab@, bb@);
        encode_utf8_decode_utf8(a@);
        encode_utf8_decode_utf8(b@);
    }
    c == 0
}

/// Compares two strings by the byte order of their UTF-8 encodings.
pub fn compare_text(a: &str, b: &str) -> (r: i8)
    ensures
        r == text_compare(a@, b@),
{
    compare_bytes(a.as_bytes(), b.as_bytes())
}

} // verus!
