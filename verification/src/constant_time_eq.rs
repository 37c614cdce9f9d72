//! Equality checks whose running time does not depend on where inputs differ.
use vstd::prelude::*;
use vstd::string::StringSliceAdditionalSpecFns;

verus! {

broadcast use vstd::utf8::encode_utf8_decode_utf8;

/// Compares two byte slices by folding the XOR of every position.
pub fn constant_time_eq_bytes(left: &[u8], right: &[u8]) -> (r: bool)
    ensures
        r == (left@ == right@),
{
    if left.len() != right.len() {
        return false;
    }
    let mut diff: u8 = 0;
    let mut i: usize = 0;
    while i < left.len()
        invariant
            left@.len() == right@.len(),
            i <= left@.len(),
            diff == 0 <==> forall|k: int| 0 <= k < i ==> left@[k] == right@[k],
        decreases left@.len() - i,
    {
        let l = left[i];
        let r = right[i];
        let ghost d = diff;
        diff = diff | (l ^ r);
        assert((d | (l ^ r)) == 0 <==> (d == 0 && l == r)) by (bit_vector);
        proof {
            if diff == 0 {
                assert forall|k: int| 0 <= k < i + 1 implies left@[k] == right@[k] by {
                    if k < i {
                    }
                }
            }
        }
        i = i + 1;
    }
    if diff == 0 {
        assert(left@ =~= right@);
        true
    } else {
        false
    }
}

/// Compares two strings through their UTF-8 bytes.
pub fn constant_time_eq_str(left: &str, right: &str) -> (r: bool)
    ensures
        r == (left@ == right@),
{
    let result = constant_time_eq_bytes(left.as_bytes(), right.as_bytes());
    proof {
        if left.spec_bytes() == right.spec_bytes() {
            assert(vstd::utf8::decode_utf8(vstd::utf8::encode_utf8(left@)) == left@);
            assert(vstd::utf8::decode_utf8(vstd::utf8::encode_utf8(right@)) == right@);
        }
    }
    result
}

} // verus!
