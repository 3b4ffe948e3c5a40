//! UTF-8 facts the text buffers rely on, and the one conversion from bytes to
//! `&str` that the buffers make.
use vstd::prelude::*;
use vstd::utf8::*;
use vstd::string::StringSliceAdditionalSpecFns;

verus! {

/// Bytes below `0x80` are ASCII.
pub open spec fn is_ascii_bytes(b: Seq<u8>) -> bool {
    forall|i: int| 0 <= i < b.len() ==> #[trigger] b[i] < 0x80
}

/// Valid UTF-8 followed by valid UTF-8 is valid UTF-8.
pub proof fn lemma_valid_utf8_concat(a: Seq<u8>, b: Seq<u8>)
    requires
        valid_utf8(a),
        valid_utf8(b),
    ensures
        valid_utf8(a + b),
    decreases a.len(),
{
    if a.len() == 0 {
        assert(a + b =~= b);
    } else {
        let ab = a + b;
        assert(ab[0] == a[0]);
        let w = length_of_first_scalar(a);
        assert(w <= a.len());
        if a.len() >= 2 {
            assert(ab[1] == a[1]);
        }
        if a.len() >= 3 {
            assert(ab[2] == a[2]);
        }
        if a.len() >= 4 {
            assert(ab[3] == a[3]);
        }
        assert(valid_first_scalar(ab));
        assert(length_of_first_scalar(ab) == w);
        assert(pop_first_scalar(ab) =~= pop_first_scalar(a) + b);
        lemma_valid_utf8_concat(pop_first_scalar(a), b);
    }
}

/// ASCII bytes are valid UTF-8.
pub proof fn lemma_ascii_valid_utf8(a: Seq<u8>)
    requires
        is_ascii_bytes(a),
    ensures
        valid_utf8(a),
    decreases a.len(),
{
    if a.len() > 0 {
        assert(pop_first_scalar(a) =~= a.subrange(1, a.len() as int));
        lemma_ascii_valid_utf8(a.subrange(1, a.len() as int));
    }
}

/// The bytes of a `&str` are valid UTF-8.
pub proof fn lemma_str_valid_utf8(s: &str)
    ensures
        valid_utf8(s.spec_bytes()),
{
    encode_utf8_valid_utf8(s@);
}

/// `core::str::from_utf8`: the bytes as a `&str` exactly when they are valid
/// UTF-8 (its documentation: it returns an error otherwise), and then with
/// the same bytes.
#[verifier::external_body]
pub(crate) fn str_from_utf8(v: &[u8]) -> (r: Option<&str>)
    ensures
        r is Some <==> valid_utf8(v@),
        r matches Some(s) ==> s.spec_bytes() == v@,
{
    core::str::from_utf8(v).ok()
}

} // verus!
