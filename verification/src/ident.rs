//! Participant identifiers and their order.
//!
//! An identifier is an opaque string. Identifiers are ordered as Rust orders
//! strings: lexicographically by the bytes of their UTF-8 form.

use vstd::prelude::*;
use vstd::utf8::encode_utf8;
use vstd::utf8::encode_utf8_decode_utf8;

verus! {

/// Lexicographic order on byte sequences: a proper prefix comes first, and
/// otherwise the first byte that differs decides.
pub open spec fn bytes_lt(a: Seq<u8>, b: Seq<u8>) -> bool
    decreases a.len(),
{
    if b.len() == 0 {
        false
    } else if a.len() == 0 {
        true
    } else if a[0] != b[0] {
        a[0] < b[0]
    } else {
        bytes_lt(a.drop_first(), b.drop_first())
    }
}

/// The order of identifiers.
pub open spec fn id_lt(a: Seq<char>, b: Seq<char>) -> bool {
    bytes_lt(encode_utf8(a), encode_utf8(b))
}

/// No byte sequence comes before itself.
pub proof fn lemma_bytes_lt_irreflexive(a: Seq<u8>)
    ensures
        !bytes_lt(a, a),
    decreases a.len(),
{
    if a.len() > 0 {
        lemma_bytes_lt_irreflexive(a.drop_first());
    }
}

/// The order on byte sequences is transitive.
pub proof fn lemma_bytes_lt_transitive(a: Seq<u8>, b: Seq<u8>, c: Seq<u8>)
    requires
        bytes_lt(a, b),
        bytes_lt(b, c),
    ensures
        bytes_lt(a, c),
    decreases a.len(),
{
    if a.len() > 0 && a[0] == b[0] && b[0] == c[0] {
        lemma_bytes_lt_transitive(a.drop_first(), b.drop_first(), c.drop_first());
    }
}

/// Of two different byte sequences exactly one comes first.
pub proof fn lemma_bytes_lt_total(a: Seq<u8>, b: Seq<u8>)
    ensures
        a != b ==> (bytes_lt(a, b) || bytes_lt(b, a)),
        !(bytes_lt(a, b) && bytes_lt(b, a)),
    decreases a.len(),
{
    if a.len() > 0 && b.len() > 0 && a[0] == b[0] {
        lemma_bytes_lt_total(a.drop_first(), b.drop_first());
        if a.drop_first() == b.drop_first() {
            assert(a =~= seq![a[0]] + a.drop_first());
            assert(b =~= seq![b[0]] + b.drop_first());
        }
    } else if a.len() == 0 && b.len() == 0 {
        assert(a =~= b);
    }
}

/// No identifier comes before itself.
pub proof fn lemma_id_lt_irreflexive(a: Seq<char>)
    ensures
        !id_lt(a, a),
{
    lemma_bytes_lt_irreflexive(encode_utf8(a));
}

/// The order of identifiers is transitive.
pub proof fn lemma_id_lt_transitive(a: Seq<char>, b: Seq<char>, c: Seq<char>)
    requires
        id_lt(a, b),
        id_lt(b, c),
    ensures
        id_lt(a, c),
{
    lemma_bytes_lt_transitive(encode_utf8(a), encode_utf8(b), encode_utf8(c));
}

/// Of two different identifiers exactly one comes first.
pub proof fn lemma_id_lt_total(a: Seq<char>, b: Seq<char>)
    ensures
        a != b ==> (id_lt(a, b) || id_lt(b, a)),
        !(id_lt(a, b) && id_lt(b, a)),
{
    lemma_bytes_lt_total(encode_utf8(a), encode_utf8(b));
    encode_utf8_decode_utf8(a);
    encode_utf8_decode_utf8(b);
}

/// `<` on `str`, which std documents as the lexicographic order of the
/// strings' bytes.
#[verifier::external_body]
pub(crate) fn str_lt(a: &str, b: &str) -> (r: bool)
    ensures
        r == id_lt(a@, b@),
{
    a < b
}

/// Whether identifier `a` comes before identifier `b`.
pub fn id_before(a: &String, b: &String) -> (r: bool)
    ensures
        r == id_lt(a@, b@),
{
    str_lt(a.as_str(), b.as_str())
}

/// Whether two identifiers are the same.
pub fn id_same(a: &String, b: &String) -> (r: bool)
    ensures
        r == (a@ == b@),
{
    a.eq(b)
}

} // verus!
