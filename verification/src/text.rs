//! Comparisons on string slices, stated over their sequences of characters.

use vstd::prelude::*;
use vstd::string::StrSliceExecFns;
use vstd::string::StringSliceAdditionalSpecFns;

verus! {

/// The prefix that marks a protocol method as optional to implement.
pub open spec fn optional_prefix() -> Seq<char> {
    seq!['$', '/']
}

/// Whether a method name begins with the optional-method prefix `$/`.
pub open spec fn is_optional_method(method: Seq<char>) -> bool {
    optional_prefix().is_prefix_of(method)
}

/// Two string slices hold the same characters exactly when their encodings
/// agree byte for byte.
pub proof fn lemma_same_bytes_same_chars(a: &str, b: &str)
    ensures
        (a.spec_bytes() == b.spec_bytes()) <==> (a@ == b@),
{
    vstd::utf8::encode_utf8_decode_utf8(a@);
    vstd::utf8::encode_utf8_decode_utf8(b@);
}

/// Whether two string slices hold the same characters.
pub fn str_eq(a: &str, b: &str) -> (same: bool)
    ensures
        same == (a@ == b@),
{
    let x = a.as_bytes();
    let y = b.as_bytes();
    proof {
        lemma_same_bytes_same_chars(a, b);
    }
    if x.len() != y.len() {
        return false;
    }
    let mut i: usize = 0;
    while i < x.len()
        invariant
            x@ == a.spec_bytes(),
            y@ == b.spec_bytes(),
            (a.spec_bytes() == b.spec_bytes()) <==> (a@ == b@),
            x@.len() == y@.len(),
            i <= x@.len(),
            forall|k: int| 0 <= k < i ==> x@[k] == y@[k],
        decreases x@.len() - i,
    {
        if x[i] != y[i] {
            return false;
        }
        i += 1;
    }
    assert(x@ =~= y@);
    true
}

/// Whether a method name begins with `$/`.
pub fn has_optional_prefix(method: &str) -> (yes: bool)
    ensures
        yes == is_optional_method(method@),
{
    let n = method.unicode_len();
    n >= 2 && method.get_char(0) == '$' && method.get_char(1) == '/'
}

} // verus!
