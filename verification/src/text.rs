//! Character-level utilities: conversions between strings and character
//! vectors, and the character classes the pipeline decides by.

use vstd::prelude::*;
use vstd::string::StrSliceExecFns;

verus! {

/// Collect the characters of a string slice into a vector.
pub fn str_chars(s: &str) -> (v: Vec<char>)
    ensures
        v@ == s@,
{
    let n = s.unicode_len();
    let mut v: Vec<char> = Vec::new();
    let mut i: usize = 0;
    while i < n
        invariant
            i <= n,
            n == s@.len(),
            v@ == s@.take(i as int),
        decreases n - i,
    {
        v.push(s.get_char(i));
        i = i + 1;
        assert(v@ =~= s@.take(i as int));
    }
    assert(v@ =~= s@);
    v
}

/// Relies on String::push: appends one character to the string.
#[verifier::external_body]
pub(crate) fn push_char(s: &mut String, c: char)
    ensures
        final(s)@ == old(s)@.push(c),
{
    s.push(c);
}

/// Build a string from a vector of characters.
pub fn chars_string(v: &Vec<char>) -> (s: String)
    ensures
        s@ == v@,
{
    let mut s = String::new();
    let mut i: usize = 0;
    while i < v.len()
        invariant
            i <= v@.len(),
            s@ == v@.take(i as int),
        decreases v@.len() - i,
    {
        push_char(&mut s, v[i]);
        i = i + 1;
        assert(s@ =~= v@.take(i as int));
    }
    assert(s@ =~= v@);
    s
}

/// The Unicode whitespace characters, as `char::is_whitespace` and the
/// string trimming methods of std define them.
pub open spec fn is_ws_char(c: char) -> bool {
    (0x09 <= c as u32 && c as u32 <= 0x0D) || c as u32 == 0x20 || c as u32 == 0x85
        || c as u32 == 0xA0 || c as u32 == 0x1680 || (0x2000 <= c as u32 && c as u32 <= 0x200A)
        || c as u32 == 0x2028 || c as u32 == 0x2029 || c as u32 == 0x202F || c as u32 == 0x205F
        || c as u32 == 0x3000
}

/// Decide whitespace by code point.
pub fn is_ws(c: char) -> (r: bool)
    ensures
        r == is_ws_char(c),
{
    let u = c as u32;
    (0x09 <= u && u <= 0x0D) || u == 0x20 || u == 0x85 || u == 0xA0 || u == 0x1680 || (0x2000
        <= u && u <= 0x200A) || u == 0x2028 || u == 0x2029 || u == 0x202F || u == 0x205F || u
        == 0x3000
}

/// The control characters, as `char::is_control` defines them: the C0 and
/// C1 ranges together with delete.
pub open spec fn is_control_char(c: char) -> bool {
    c as u32 <= 0x1F || (0x7F <= c as u32 && c as u32 <= 0x9F)
}

/// Decide control characters by code point.
pub fn is_control(c: char) -> (r: bool)
    ensures
        r == is_control_char(c),
{
    let u = c as u32;
    u <= 0x1F || (0x7F <= u && u <= 0x9F)
}

/// A character below 0x80 narrows to the byte with its code point and
/// widens back to itself.
pub proof fn lemma_ascii_char_byte(c: char)
    requires
        (c as u32) < 0x80,
    ensures
        (c as u8) < 0x80,
        (c as u8) as u32 == c as u32,
        ((c as u8) as char) == c,
{
    assert(c as int >= 0);
    assert((c as u8) as int == (c as int) % 256);
    assert(((c as u8) as char) as int == c as int);
}

/// Every character of the sequence is whitespace.
pub open spec fn all_ws(s: Seq<char>) -> bool {
    forall|i: int| 0 <= i < s.len() ==> is_ws_char(s[i])
}

/// Decide whether a string is entirely whitespace, as trimming it and
/// asking for emptiness would.
pub fn str_all_ws(s: &str) -> (r: bool)
    ensures
        r == all_ws(s@),
{
    let n = s.unicode_len();
    let mut i: usize = 0;
    while i < n
        invariant
            i <= n,
            n == s@.len(),
            forall|j: int| 0 <= j < i ==> is_ws_char(s@[j]),
        decreases n - i,
    {
        if !is_ws(s.get_char(i)) {
            return false;
        }
        i = i + 1;
    }
    true
}

} // verus!
