//! The header grammar: which names and values may stand on the wire.
use vstd::prelude::*;

verus! {

/// A token character of a header name (letters, digits and ``!#$%&'*+-.^_`|~``).
pub open spec fn is_token_byte(b: u8) -> bool {
    (48 <= b <= 57) || (65 <= b <= 90) || (97 <= b <= 122) || b == 33 || b == 35 || b == 36
        || b == 37 || b == 38 || b == 39 || b == 42 || b == 43 || b == 45 || b == 46 || b == 94
        || b == 95 || b == 96 || b == 124 || b == 126
}

/// A valid header name: 1 to 65535 token characters.
pub open spec fn header_name_ok(s: Seq<u8>) -> bool {
    1 <= s.len() <= 65535 && forall|i: int| 0 <= i < s.len() ==> is_token_byte(#[trigger] s[i])
}

/// A valid header value: no control byte other than horizontal tab.
pub open spec fn header_value_ok(s: Seq<u8>) -> bool {
    forall|i: int| 0 <= i < s.len() ==> ((#[trigger] s[i] >= 32 && s[i] != 127) || s[i] == 9)
}

/// A header value that is also printable text: visible ASCII, space or tab.
pub open spec fn header_text_ok(s: Seq<u8>) -> bool {
    forall|i: int| 0 <= i < s.len() ==> ((32 <= #[trigger] s[i] && s[i] < 127) || s[i] == 9)
}

/// ASCII lower case of one byte.
pub open spec fn ascii_lower(b: u8) -> u8 {
    if 65 <= b <= 90 {
        (b + 32) as u8
    } else {
        b
    }
}

/// Two header names that are equal up to ASCII case.
pub open spec fn same_name(a: Seq<u8>, b: Seq<u8>) -> bool {
    a.len() == b.len() && forall|i: int| 0 <= i < a.len() ==> ascii_lower(#[trigger] a[i]) == ascii_lower(b[i])
}

/// Relies on http::HeaderName::from_bytes, which accepts exactly the names
/// of 1 to 65535 bytes that its character table maps to a non-zero byte.
#[verifier::external_body]
pub(crate) fn is_valid_header_name(name: &[u8]) -> (r: bool)
    ensures
        r == header_name_ok(name@),
{
    http::HeaderName::from_bytes(name).is_ok()
}

/// Relies on http::HeaderValue::from_bytes, which refuses exactly the values
/// holding a byte below 32 other than tab, or the byte 127.
#[verifier::external_body]
pub(crate) fn is_valid_header_value(value: &[u8]) -> (r: bool)
    ensures
        r == header_value_ok(value@),
{
    http::HeaderValue::from_bytes(value).is_ok()
}

/// Whether `value` is printable header text.
pub fn is_header_text(value: &[u8]) -> (r: bool)
    ensures
        r == header_text_ok(value@),
{
    let mut i: usize = 0;
    while i < value.len()
        invariant
            i <= value@.len(),
            forall|j: int| 0 <= j < i ==> ((32 <= #[trigger] value@[j] && value@[j] < 127) || value@[j] == 9),
        decreases value@.len() - i,
    {
        let b = value[i];
        if !((32 <= b && b < 127) || b == 9) {
            return false;
        }
        i = i + 1;
    }
    true
}

/// Whether two header names are equal up to ASCII case.
pub fn names_match(a: &[u8], b: &[u8]) -> (r: bool)
    ensures
        r == same_name(a@, b@),
{
    if a.len() != b.len() {
        return false;
    }
    let mut i: usize = 0;
    while i < a.len()
        invariant
            a@.len() == b@.len(),
            i <= a@.len(),
            forall|j: int| 0 <= j < i ==> ascii_lower(#[trigger] a@[j]) == ascii_lower(b@[j]),
        decreases a@.len() - i,
    {
        let x = if 65 <= a[i] && a[i] <= 90 { a[i] + 32 } else { a[i] };
        let y = if 65 <= b[i] && b[i] <= 90 { b[i] + 32 } else { b[i] };
        if x != y {
            return false;
        }
        i = i + 1;
    }
    true
}

} // verus!
