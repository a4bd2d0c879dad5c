//! Tag-token validator: a single scalar pass that accepts a buffer iff
//! every byte is a lowercase letter, a digit, or one of `:` `.` `/` `-` `_`,
//! and no two consecutive bytes are both underscores.

use vstd::prelude::*;

verus! {

/// `b` is a byte a tag token may contain: a lowercase ASCII letter, an
/// ASCII digit, or one of the punctuation bytes `:` `.` `/` `-` `_`.
pub open spec fn tag_byte_allowed(b: u8) -> bool {
    (97 <= b <= 122) || (48 <= b <= 57) || b == 58 || b == 46 || b == 47 || b == 45
        || b == 95
}

/// `s` is a valid tag token: every byte is allowed and no underscore
/// immediately follows another underscore.  The empty token is valid.
pub open spec fn valid_tag(s: Seq<u8>) -> bool {
    (forall|i: int| 0 <= i < s.len() ==> tag_byte_allowed(#[trigger] s[i])) && (forall|i: int|
        1 <= i < s.len() ==> !(#[trigger] s[i] == 95 && s[i - 1] == 95))
}

/// Single-pass state machine over the buffer: the one bit of state is
/// whether the previous byte was an underscore.  The scan stops at the
/// first disallowed byte or repeated underscore.
pub fn validate_tag_inner(data: &[u8]) -> (r: bool)
    ensures
        r == valid_tag(data@),
{
    let n = data.len();
    let mut prev_underscore = false;
    let mut i: usize = 0;
    while i < n
        invariant
            n == data@.len(),
            i <= n,
            forall|k: int| 0 <= k < i ==> tag_byte_allowed(#[trigger] data@[k]),
            forall|k: int| 1 <= k < i ==> !(#[trigger] data@[k] == 95 && data@[k - 1] == 95),
            prev_underscore == (i > 0 && data@[i - 1] == 95),
        decreases n - i,
    {
        let b = data[i];
        let allowed = (97 <= b && b <= 122) || (48 <= b && b <= 57) || b == 58
            || b == 46 || b == 47 || b == 45 || b == 95;
        if !allowed {
            return false;
        }
        if b == 95 {
            if prev_underscore {
                return false;
            }
            prev_underscore = true;
        } else {
            prev_underscore = false;
        }
        i = i + 1;
    }
    true
}

} // verus!
