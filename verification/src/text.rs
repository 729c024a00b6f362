//! Rendering raw header values as text.
//!
//! HTTP header values are byte strings. A value can be rendered as text only
//! when every byte is visible ASCII (or a horizontal tab); otherwise the
//! middleware binds a fixed sentinel string in its place.

use vstd::prelude::*;

verus! {

/// A byte that may appear in a header value rendered as text: visible ASCII,
/// space, or horizontal tab.
pub open spec fn byte_is_text(b: u8) -> bool {
    (32 <= b && b < 127) || b == 9
}

/// A raw header value is text when all of its bytes are.
pub open spec fn value_is_text(v: Seq<u8>) -> bool {
    forall|i: int| 0 <= i < v.len() ==> byte_is_text(v[i])
}

/// The sentinel bound in place of a header value that is not valid text.
pub open spec fn invalid_text_sentinel() -> Seq<char> {
    "[INVALID UTF-8]"@
}

/// The text bound for a raw header value: its bytes read as characters when
/// the value is text, and the fixed sentinel otherwise.
pub open spec fn text_of_value(v: Seq<u8>) -> Seq<char> {
    if value_is_text(v) {
        v.map_values(|b: u8| b as char)
    } else {
        invalid_text_sentinel()
    }
}

/// Relies on `String::push`: appends one character at the end of the string.
#[verifier::external_body]
fn push_char(s: &mut String, c: char)
    ensures
        final(s)@ == old(s)@.push(c),
{
    s.push(c);
}

/// Whether every byte of `v` may appear in a header value rendered as text.
pub fn value_is_text_exec(v: &Vec<u8>) -> (r: bool)
    ensures
        r == value_is_text(v@),
{
    let mut i: usize = 0;
    while i < v.len()
        invariant
            i <= v@.len(),
            forall|j: int| 0 <= j < i ==> byte_is_text(v@[j]),
        decreases v@.len() - i,
    {
        let b = v[i];
        if !((32 <= b && b < 127) || b == 9) {
            return false;
        }
        i = i + 1;
    }
    true
}

/// The text bound for a raw header value: the value's own bytes when they are
/// all text, and the sentinel otherwise.
pub fn value_text(v: &Vec<u8>) -> (r: String)
    ensures
        r@ == text_of_value(v@),
{
    if !value_is_text_exec(v) {
        let s = "[INVALID UTF-8]".to_owned();
        return s;
    }
    let ghost target: Seq<char> = v@.map_values(|b: u8| b as char);
    let mut s = String::new();
    let mut i: usize = 0;
    while i < v.len()
        invariant
            i <= v@.len(),
            target == v@.map_values(|b: u8| b as char),
            s@ == target.take(i as int),
        decreases v@.len() - i,
    {
        let c = v[i] as char;
        push_char(&mut s, c);
        proof {
            assert(s@ =~= target.take(i + 1));
        }
        i = i + 1;
    }
    proof {
        assert(s@ =~= target);
    }
    s
}

} // verus!
