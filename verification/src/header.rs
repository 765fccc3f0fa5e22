//! Reading HTTP header values as text.
use vstd::prelude::*;

use crate::text::push_char;

verus! {

/// A byte that a header value may show as text: visible ASCII or a tab.
pub open spec fn is_visible_ascii(b: u8) -> bool {
    (32 <= b && b < 127) || b == 9
}

/// The text of a header value's bytes, read one character per byte.
pub open spec fn ascii_text(bytes: Seq<u8>) -> Seq<char> {
    bytes.map_values(|b: u8| b as char)
}

/// The text of a header value when all its bytes are visible ASCII or tabs, and
/// nothing otherwise (what `HeaderValue::to_str` accepts).
pub open spec fn header_text_spec(bytes: Seq<u8>) -> Option<Seq<char>> {
    if forall|i: int| 0 <= i < bytes.len() ==> is_visible_ascii(#[trigger] bytes[i]) {
        Some(ascii_text(bytes))
    } else {
        None
    }
}

/// The text of a header value, when it has one (`HeaderValue::to_str`).
pub fn header_text(bytes: &[u8]) -> (r: Option<String>)
    ensures
        r is None <==> header_text_spec(bytes@) is None,
        r matches Some(t) ==> header_text_spec(bytes@) == Some(t@),
{
    let mut r = String::new();
    let n = bytes.len();
    for i in 0..n
        invariant
            n == bytes@.len(),
            r@ == ascii_text(bytes@.take(i as int)),
            forall|j: int| 0 <= j < i ==> is_visible_ascii(#[trigger] bytes@[j]),
    {
        let b = bytes[i];
        if !((32 <= b && b < 127) || b == 9) {
            assert(!is_visible_ascii(bytes@[i as int]));
            return None;
        }
        push_char(&mut r, b as char);
        assert(ascii_text(bytes@.take(i + 1)) =~= ascii_text(bytes@.take(i as int)).push(
            b as char,
        ));
    }
    assert(bytes@.take(n as int) =~= bytes@);
    Some(r)
}

} // verus!
