//! Validation of the names that reach the cookie-extraction scripts:
//! only word characters may pass, so that no name can smuggle script
//! text into an embedded page.

use vstd::prelude::*;
use vstd::string::StringSliceAdditionalSpecFns;

verus! {

/// A byte allowed in a field or service name: an ASCII letter or
/// digit, an underscore or a hyphen.
pub open spec fn is_word_byte(b: u8) -> bool {
    (0x30 <= b <= 0x39) || (0x41 <= b <= 0x5a) || (0x61 <= b <= 0x7a) || b == 0x5f || b == 0x2d
}

/// A safe name: non-empty, within the length bound, and made of word
/// bytes only.
pub open spec fn spec_safe_name(s: Seq<u8>, max: int) -> bool {
    0 < s.len() <= max && forall|k: int| 0 <= k < s.len() ==> is_word_byte(#[trigger] s[k])
}

fn all_word_bytes(s: &[u8]) -> (r: bool)
    ensures
        r == forall|k: int| 0 <= k < s@.len() ==> is_word_byte(#[trigger] s@[k]),
{
    let n = s.len();
    let mut i: usize = 0;
    while i < n
        invariant
            i <= n,
            n == s@.len(),
            forall|k: int| 0 <= k < i ==> is_word_byte(#[trigger] s@[k]),
        decreases n - i,
    {
        let b = s[i];
        let ok = (0x30 <= b && b <= 0x39) || (0x41 <= b && b <= 0x5a) || (0x61 <= b && b <= 0x7a)
            || b == 0x5f || b == 0x2d;
        if !ok {
            return false;
        }
        i = i + 1;
    }
    true
}

/// Whether a cookie field name is safe to interpolate: at most 64
/// word bytes.
pub fn is_safe_field_name(field: &str) -> (r: bool)
    ensures
        r == spec_safe_name(field.spec_bytes(), 64),
{
    let b = field.as_bytes();
    b.len() > 0 && b.len() <= 64 && all_word_bytes(b)
}

/// Whether a service id is safe to interpolate: at most 32 word
/// bytes.
pub fn is_safe_service_id(service: &str) -> (r: bool)
    ensures
        r == spec_safe_name(service.spec_bytes(), 32),
{
    let b = service.as_bytes();
    b.len() > 0 && b.len() <= 32 && all_word_bytes(b)
}

} // verus!
