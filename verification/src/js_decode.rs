//! Decoding of JavaScript string literals: `\xNN` hex escapes, `\uNNNN`
//! unicode escapes, doubly escaped `\\uNNNN`, the standard single-character
//! escapes, and lenient handling of unknown escapes. Also a repair step for
//! text that was encoded as UTF-8 but read back one byte per character.

use vstd::prelude::*;
use crate::text::{str_chars, chars_string};

verus! {

/// Why decoding a JavaScript string literal failed.
#[derive(Debug, Clone, Copy, PartialEq, Eq, Structural)]
pub enum JsDecodeError {
    /// `\x` followed by two characters that are not a hex number.
    InvalidHexEscape,
    /// `\x` with fewer than two characters left.
    IncompleteHexEscape,
    /// `\u` followed by four characters that are not a hex number.
    InvalidUnicodeEscape,
    /// `\u` with fewer than four characters left.
    IncompleteUnicodeEscape,
    /// `\u` naming a surrogate code point.
    InvalidCodePoint,
}

/// A hexadecimal digit.
pub open spec fn is_hex_digit(c: char) -> bool {
    (0x30 <= c as u32 && c as u32 <= 0x39) || (0x61 <= c as u32 && c as u32 <= 0x66) || (0x41
        <= c as u32 && c as u32 <= 0x46)
}

/// The value of a hexadecimal digit.
pub open spec fn hex_val(c: char) -> nat {
    if 0x30 <= c as u32 && c as u32 <= 0x39 {
        (c as nat - 0x30) as nat
    } else if 0x61 <= c as u32 && c as u32 <= 0x66 {
        (c as nat - 0x61 + 10) as nat
    } else {
        (c as nat - 0x41 + 10) as nat
    }
}

/// The value of a two-character hex number as the integer parser of std
/// reads it: two hex digits, or a leading plus sign and one digit.
pub open spec fn hex2_val(a: char, b: char) -> Option<nat> {
    if is_hex_digit(a) && is_hex_digit(b) {
        Some((16 * hex_val(a) + hex_val(b)) as nat)
    } else if a == '+' && is_hex_digit(b) {
        Some(hex_val(b))
    } else {
        None
    }
}

/// The value of a four-character hex number as the integer parser of std
/// reads it: four hex digits, or a leading plus sign and three digits.
pub open spec fn hex4_val(a: char, b: char, c: char, d: char) -> Option<nat> {
    if is_hex_digit(a) && is_hex_digit(b) && is_hex_digit(c) && is_hex_digit(d) {
        Some((4096 * hex_val(a) + 256 * hex_val(b) + 16 * hex_val(c) + hex_val(d)) as nat)
    } else if a == '+' && is_hex_digit(b) && is_hex_digit(c) && is_hex_digit(d) {
        Some((256 * hex_val(b) + 16 * hex_val(c) + hex_val(d)) as nat)
    } else {
        None
    }
}

/// A scalar value: a code point that is a `char`.
pub open spec fn valid_code_point(n: nat) -> bool {
    n < 0xD800 || (0xE000 <= n && n <= 0x10FFFF)
}

/// The code point of a character.
pub open spec fn code_of(c: char) -> nat {
    c as nat
}

/// The character with the given code point.
pub open spec fn char_of(n: nat) -> char {
    choose|c: char| code_of(c) == n
}

/// The character a single-character escape stands for; unknown escapes
/// stand for themselves.
pub open spec fn escape_char(c: char) -> char {
    if c == 'n' {
        '\n'
    } else if c == 'r' {
        '\r'
    } else if c == 't' {
        '\t'
    } else if c == 'b' {
        '\u{0008}'
    } else if c == 'f' {
        '\u{000C}'
    } else if c == 'v' {
        '\u{000B}'
    } else if c == '0' {
        '\0'
    } else {
        c
    }
}

/// Put one decoded character in front of the rest of a decoding.
pub open spec fn prepend_decoded(c: char, r: Result<Seq<char>, JsDecodeError>) -> Result<
    Seq<char>,
    JsDecodeError,
> {
    match r {
        Ok(t) => Ok(seq![c] + t),
        Err(e) => Err(e),
    }
}

/// What decoding a JavaScript string literal yields: each escape sequence
/// is replaced by the character it names, a trailing backslash stands for
/// itself, and a malformed hex or unicode escape is an error.
pub open spec fn decode_spec(s: Seq<char>) -> Result<Seq<char>, JsDecodeError>
    decreases s.len(),
{
    if s.len() == 0 {
        Ok(Seq::empty())
    } else if s[0] != '\\' {
        prepend_decoded(s[0], decode_spec(s.skip(1)))
    } else if s.len() == 1 {
        Ok(seq!['\\'])
    } else if s[1] == 'x' {
        if s.len() < 4 {
            Err(JsDecodeError::IncompleteHexEscape)
        } else {
            match hex2_val(s[2], s[3]) {
                Some(b) => prepend_decoded(char_of(b), decode_spec(s.skip(4))),
                None => Err(JsDecodeError::InvalidHexEscape),
            }
        }
    } else if s[1] == 'u' {
        if s.len() < 6 {
            Err(JsDecodeError::IncompleteUnicodeEscape)
        } else {
            match hex4_val(s[2], s[3], s[4], s[5]) {
                Some(cp) => if valid_code_point(cp) {
                    prepend_decoded(char_of(cp), decode_spec(s.skip(6)))
                } else {
                    Err(JsDecodeError::InvalidCodePoint)
                },
                None => Err(JsDecodeError::InvalidUnicodeEscape),
            }
        }
    } else if s[1] == '\\' {
        if s.len() >= 3 && s[2] == 'u' {
            if s.len() < 7 {
                Err(JsDecodeError::IncompleteUnicodeEscape)
            } else {
                match hex4_val(s[3], s[4], s[5], s[6]) {
                    Some(cp) => if valid_code_point(cp) {
                        prepend_decoded(char_of(cp), decode_spec(s.skip(7)))
                    } else {
                        Err(JsDecodeError::InvalidCodePoint)
                    },
                    None => Err(JsDecodeError::InvalidUnicodeEscape),
                }
            }
        } else {
            prepend_decoded('\\', decode_spec(s.skip(2)))
        }
    } else {
        prepend_decoded(escape_char(s[1]), decode_spec(s.skip(2)))
    }
}

/// The sequence a decoding result holds.
pub open spec fn decode_view(r: Result<Vec<char>, JsDecodeError>) -> Result<
    Seq<char>,
    JsDecodeError,
> {
    match r {
        Ok(v) => Ok(v@),
        Err(e) => Err(e),
    }
}

/// Relies on char::from_u32: yields a character exactly when the code
/// point is no surrogate and at most the maximum; the character has that
/// code point.
#[verifier::external_body]
fn char_from_code(code: u32) -> (r: Option<char>)
    ensures
        (r is Some) == valid_code_point(code as nat),
        r is Some ==> r->Some_0 as nat == code as nat,
{
    char::from_u32(code)
}

/// A hexadecimal digit is worth at most fifteen.
proof fn lemma_hex_val_bound(c: char)
    requires
        is_hex_digit(c),
    ensures
        hex_val(c) <= 15,
{
}

/// A two-digit hex number is worth at most 255, a code point below the
/// surrogate range.
proof fn lemma_hex2_bound(a: char, b: char)
    requires
        hex2_val(a, b) is Some,
    ensures
        hex2_val(a, b)->Some_0 <= 255,
{
    lemma_hex_val_bound(b);
    if is_hex_digit(a) {
        lemma_hex_val_bound(a);
    }
}

/// Two characters with the same code point are the same character, so the
/// chosen character of a code point is the one returned for it.
proof fn lemma_char_of(c: char, n: nat)
    requires
        c as nat == n,
    ensures
        char_of(n) == c,
{
    assert(code_of(c) == n);
    assert(exists|x: char| code_of(x) == n);
    let x = char_of(n);
    assert(code_of(x) == n);
}

/// The value of a hexadecimal digit character, if it is one.
fn hex_digit(c: char) -> (r: Option<u32>)
    ensures
        (r is Some) == is_hex_digit(c),
        r is Some ==> r->Some_0 as nat == hex_val(c),
{
    let u = c as u32;
    if 0x30 <= u && u <= 0x39 {
        Some(u - 0x30)
    } else if 0x61 <= u && u <= 0x66 {
        Some(u - 0x61 + 10)
    } else if 0x41 <= u && u <= 0x46 {
        Some(u - 0x41 + 10)
    } else {
        None
    }
}

/// Read a two-character hex number as std's integer parser would.
fn hex2(a: char, b: char) -> (r: Option<u32>)
    ensures
        (r is Some) == (hex2_val(a, b) is Some),
        r is Some ==> r->Some_0 as nat == hex2_val(a, b)->Some_0,
{
    match (hex_digit(a), hex_digit(b)) {
        (Some(x), Some(y)) => Some(16 * x + y),
        (None, Some(y)) => if a == '+' {
            Some(y)
        } else {
            None
        },
        _ => None,
    }
}

/// Read a four-character hex number as std's integer parser would.
fn hex4(a: char, b: char, c: char, d: char) -> (r: Option<u32>)
    ensures
        (r is Some) == (hex4_val(a, b, c, d) is Some),
        r is Some ==> r->Some_0 as nat == hex4_val(a, b, c, d)->Some_0,
{
    match (hex_digit(a), hex_digit(b), hex_digit(c), hex_digit(d)) {
        (Some(x), Some(y), Some(z), Some(w)) => Some(4096 * x + 256 * y + 16 * z + w),
        (None, Some(y), Some(z), Some(w)) => if a == '+' {
            Some(256 * y + 16 * z + w)
        } else {
            None
        },
        _ => None,
    }
}

/// Decode the input from position `i` on, mirroring `decode_spec`.
fn decode_from(v: &Vec<char>, i: usize) -> (r: Result<Vec<char>, JsDecodeError>)
    requires
        i <= v@.len(),
    ensures
        decode_view(r) == decode_spec(v@.skip(i as int)),
    decreases v@.len() - i,
{
    let ghost s = v@.skip(i as int);
    let ghost mut tail: Seq<char> = Seq::empty();
    if i == v.len() {
        assert(s =~= Seq::<char>::empty());
        Ok(Vec::new())
    } else {
        assert(s[0] == v@[i as int]);
        let c0 = v[i];
        if c0 != '\\' {
            assert(s.skip(1) =~= v@.skip(i as int + 1));
            match decode_from(v, i + 1) {
                Ok(mut out) => {
                    proof {
                        tail = out@;
                    }
                    out.insert(0, c0);
                    assert(out@ =~= seq![c0] + tail);
                    Ok(out)
                },
                Err(e) => Err(e),
            }
        } else if i + 1 == v.len() {
            let mut out: Vec<char> = Vec::new();
            out.push('\\');
            assert(out@ =~= seq!['\\']);
            Ok(out)
        } else {
            assert(s[1] == v@[i as int + 1]);
            let c1 = v[i + 1];
            if c1 == 'x' {
                if v.len() - i < 4 {
                    Err(JsDecodeError::IncompleteHexEscape)
                } else {
                    assert(s[2] == v@[i as int + 2] && s[3] == v@[i as int + 3]);
                    match hex2(v[i + 2], v[i + 3]) {
                        Some(b) => {
                            proof {
                                lemma_hex2_bound(s[2], s[3]);
                            }
                            let c = char_from_code(b).unwrap();
                            proof {
                                lemma_char_of(c, b as nat);
                            }
                            assert(s.skip(4) =~= v@.skip(i as int + 4));
                            match decode_from(v, i + 4) {
                                Ok(mut out) => {
                                    proof {
                                        tail = out@;
                                    }
                                    out.insert(0, c);
                                    assert(out@ =~= seq![c] + tail);
                                    Ok(out)
                                },
                                Err(e) => Err(e),
                            }
                        },
                        None => Err(JsDecodeError::InvalidHexEscape),
                    }
                }
            } else if c1 == 'u' {
                if v.len() - i < 6 {
                    Err(JsDecodeError::IncompleteUnicodeEscape)
                } else {
                    assert(s[2] == v@[i as int + 2] && s[3] == v@[i as int + 3]);
                    assert(s[4] == v@[i as int + 4] && s[5] == v@[i as int + 5]);
                    match hex4(v[i + 2], v[i + 3], v[i + 4], v[i + 5]) {
                        Some(cp) => {
                            match char_from_code(cp) {
                                Some(c) => {
                                    proof {
                                        lemma_char_of(c, cp as nat);
                                    }
                                    assert(s.skip(6) =~= v@.skip(i as int + 6));
                                    match decode_from(v, i + 6) {
                                        Ok(mut out) => {
                                            proof {
                                                tail = out@;
                                            }
                                            out.insert(0, c);
                                            assert(out@ =~= seq![c] + tail);
                                            Ok(out)
                                        },
                                        Err(e) => Err(e),
                                    }
                                },
                                None => Err(JsDecodeError::InvalidCodePoint),
                            }
                        },
                        None => Err(JsDecodeError::InvalidUnicodeEscape),
                    }
                }
            } else if c1 == '\\' {
                if v.len() - i >= 3 && v[i + 2] == 'u' {
                    assert(s[2] == v@[i as int + 2]);
                    if v.len() - i < 7 {
                        Err(JsDecodeError::IncompleteUnicodeEscape)
                    } else {
                        assert(s[3] == v@[i as int + 3] && s[4] == v@[i as int + 4]);
                        assert(s[5] == v@[i as int + 5] && s[6] == v@[i as int + 6]);
                        match hex4(v[i + 3], v[i + 4], v[i + 5], v[i + 6]) {
                            Some(cp) => {
                                match char_from_code(cp) {
                                    Some(c) => {
                                        proof {
                                            lemma_char_of(c, cp as nat);
                                        }
                                        assert(s.skip(7) =~= v@.skip(i as int + 7));
                                        match decode_from(v, i + 7) {
                                            Ok(mut out) => {
                                                proof {
                                                    tail = out@;
                                                }
                                                out.insert(0, c);
                                                assert(out@ =~= seq![c] + tail);
                                                Ok(out)
                                            },
                                            Err(e) => Err(e),
                                        }
                                    },
                                    None => Err(JsDecodeError::InvalidCodePoint),
                                }
                            },
                            None => Err(JsDecodeError::InvalidUnicodeEscape),
                        }
                    }
                } else {
                    assert(v.len() - i >= 3 ==> s[2] == v@[i as int + 2]);
                    assert(s.skip(2) =~= v@.skip(i as int + 2));
                    match decode_from(v, i + 2) {
                        Ok(mut out) => {
                            proof {
                                tail = out@;
                            }
                            out.insert(0, '\\');
                            assert(out@ =~= seq!['\\'] + tail);
                            Ok(out)
                        },
                        Err(e) => Err(e),
                    }
                }
            } else {
                let c = if c1 == 'n' {
                    '\n'
                } else if c1 == 'r' {
                    '\r'
                } else if c1 == 't' {
                    '\t'
                } else if c1 == 'b' {
                    '\u{0008}'
                } else if c1 == 'f' {
                    '\u{000C}'
                } else if c1 == 'v' {
                    '\u{000B}'
                } else if c1 == '0' {
                    '\0'
                } else {
                    c1
                };
                assert(c == escape_char(s[1]));
                assert(s.skip(2) =~= v@.skip(i as int + 2));
                match decode_from(v, i + 2) {
                    Ok(mut out) => {
                        proof {
                            tail = out@;
                        }
                        out.insert(0, c);
                        assert(out@ =~= seq![c] + tail);
                        Ok(out)
                    },
                    Err(e) => Err(e),
                }
            }
        }
    }
}

/// Decode a JavaScript string literal to plain text. Handles `\xNN` hex
/// escapes, `\uNNNN` unicode escapes, doubly escaped `\\uNNNN`, the
/// standard single-character escapes, and escapes such as `\-` that
/// JavaScript allows but JSON does not.
pub fn decode_js_string(input: &str) -> (r: Result<String, JsDecodeError>)
    ensures
        (r is Ok) == (decode_spec(input@) is Ok),
        r is Ok ==> r->Ok_0@ == decode_spec(input@)->Ok_0,
        r is Err ==> r->Err_0 == decode_spec(input@)->Err_0,
{
    let chars = str_chars(input);
    assert(chars@.skip(0) =~= input@);
    match decode_from(&chars, 0) {
        Ok(out) => Ok(chars_string(&out)),
        Err(e) => Err(e),
    }
}

/// The bytes of a text reduced to one byte per character: characters
/// above 255 are dropped, the rest keep their code point.
pub open spec fn latin1_bytes(s: Seq<char>) -> Seq<u8>
    decreases s.len(),
{
    if s.len() == 0 {
        Seq::empty()
    } else {
        (if s[0] as u32 <= 255 {
            seq![s[0] as u8]
        } else {
            Seq::<u8>::empty()
        }) + latin1_bytes(s.skip(1))
    }
}

/// What the bytes say when read as UTF-8, if they are valid UTF-8.
pub uninterp spec fn utf8_chars(b: Seq<u8>) -> Option<Seq<char>>;

/// Relies on String::from_utf8: yields the decoded text exactly when the
/// bytes are valid UTF-8; bytes below 0x80 are valid UTF-8 and each
/// decodes to the character with its value.
#[verifier::external_body]
fn utf8_to_string(bytes: Vec<u8>) -> (r: Option<String>)
    ensures
        (r is Some) == (utf8_chars(bytes@) is Some),
        r is Some ==> r->Some_0@ == utf8_chars(bytes@)->Some_0,
        (forall|i: int| 0 <= i < bytes@.len() ==> bytes@[i] < 0x80) ==> (r is Some
            && r->Some_0@ == bytes@.map_values(|b: u8| b as char)),
{
    String::from_utf8(bytes).ok()
}

/// On text whose characters are all below 0x80, the single-byte reduction
/// keeps every character as the byte with its code point.
proof fn lemma_latin1_ascii(s: Seq<char>)
    requires
        forall|i: int| 0 <= i < s.len() ==> (s[i] as u32) < 0x80,
    ensures
        latin1_bytes(s).len() == s.len(),
        forall|i: int| 0 <= i < s.len() ==> latin1_bytes(s)[i] == s[i] as u8,
    decreases s.len(),
{
    if s.len() > 0 {
        assert(forall|i: int| 0 <= i < s.skip(1).len() ==> (s.skip(1)[i] as u32) < 0x80);
        lemma_latin1_ascii(s.skip(1));
        assert(latin1_bytes(s) =~= seq![s[0] as u8] + latin1_bytes(s.skip(1)));
        assert(forall|i: int|
            1 <= i < s.len() ==> latin1_bytes(s)[i] == latin1_bytes(s.skip(1))[i - 1]);
    } else {
        assert(s =~= Seq::<char>::empty());
    }
}

/// Collect the single-byte reduction of the input.
fn collect_latin1(v: &Vec<char>) -> (b: Vec<u8>)
    ensures
        b@ == latin1_bytes(v@),
{
    let mut b: Vec<u8> = Vec::new();
    let mut i: usize = 0;
    assert(v@.skip(0) =~= v@);
    assert(b@ + latin1_bytes(v@) =~= latin1_bytes(v@));
    while i < v.len()
        invariant
            i <= v@.len(),
            b@ + latin1_bytes(v@.skip(i as int)) == latin1_bytes(v@),
        decreases v@.len() - i,
    {
        let ghost pre = b@;
        let c = v[i];
        if c as u32 <= 255 {
            b.push(#[verifier::truncate] (c as u8));
        }
        proof {
            assert(v@.skip(i as int)[0] == v@[i as int]);
            assert(v@.skip(i as int).skip(1) =~= v@.skip(i as int + 1));
            if c as u32 <= 255 {
                assert(b@ =~= pre + seq![v@[i as int] as u8]);
                assert(pre + latin1_bytes(v@.skip(i as int)) == pre + (seq![v@[i as int] as u8]
                    + latin1_bytes(v@.skip(i as int + 1))));
                assert(pre + (seq![v@[i as int] as u8] + latin1_bytes(v@.skip(i as int + 1))) =~= b@
                    + latin1_bytes(v@.skip(i as int + 1)));
            } else {
                assert(latin1_bytes(v@.skip(i as int)) =~= Seq::<u8>::empty() + latin1_bytes(
                    v@.skip(i as int + 1),
                ));
                assert(Seq::<u8>::empty() + latin1_bytes(v@.skip(i as int + 1)) =~= latin1_bytes(
                    v@.skip(i as int + 1),
                ));
            }
        }
        i = i + 1;
    }
    assert(v@.skip(i as int) =~= Seq::<char>::empty());
    assert(b@ =~= b@ + latin1_bytes(v@.skip(i as int)));
    b
}

/// Attempt to repair text that was UTF-8 but was read one byte per
/// character: drop characters above 255, read the remaining bytes as
/// UTF-8, and keep the input when they are not valid UTF-8. Text whose
/// characters are all below 0x80 passes through unchanged.
pub fn fix_mojibake(input: &str) -> (r: String)
    ensures
        r@ == match utf8_chars(latin1_bytes(input@)) {
            Some(cs) => cs,
            None => input@,
        },
        (forall|i: int| 0 <= i < input@.len() ==> #[trigger] (input@[i] as u32) < 0x80) ==> r@
            == input@,
{
    let chars = str_chars(input);
    let bytes = collect_latin1(&chars);
    proof {
        if forall|i: int| 0 <= i < input@.len() ==> #[trigger] (input@[i] as u32) < 0x80 {
            lemma_latin1_ascii(input@);
            assert(bytes@ == latin1_bytes(input@));
            assert forall|i: int| 0 <= i < bytes@.len() implies bytes@[i] < 0x80 by {
                assert((input@[i] as u32) < 0x80);
                assert(bytes@[i] == input@[i] as u8);
                crate::text::lemma_ascii_char_byte(input@[i]);
            }
            assert forall|i: int|
                0 <= i < input@.len() implies bytes@.map_values(|b: u8| b as char)[i]
                == input@[i] by {
                assert(bytes@[i] == input@[i] as u8);
                assert((input@[i] as u32) < 0x80);
                crate::text::lemma_ascii_char_byte(input@[i]);
            }
            assert(bytes@.map_values(|b: u8| b as char) =~= input@);
        }
    }
    match utf8_to_string(bytes) {
        Some(fixed) => fixed,
        None => String::from_str(input),
    }
}

} // verus!

