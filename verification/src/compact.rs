//! Output compaction: the serialized output is re-emitted minimally as
//! structured data when it parses as JSON (directly, or after a tolerant
//! repair pass that escapes raw control characters inside quoted strings),
//! and otherwise tightened as markup by stripping the whitespace that
//! follows each tag end.

use vstd::prelude::*;
use crate::text::{is_ws_char, is_ws, is_control_char, is_control, all_ws, str_chars, chars_string};

verus! {

/// The input without its leading whitespace.
pub open spec fn trim_start_spec(s: Seq<char>) -> Seq<char>
    decreases s.len(),
{
    if s.len() > 0 && is_ws_char(s[0]) {
        trim_start_spec(s.skip(1))
    } else {
        s
    }
}

/// The input without its trailing whitespace.
pub open spec fn trim_end_spec(s: Seq<char>) -> Seq<char>
    decreases s.len(),
{
    if s.len() > 0 && is_ws_char(s[s.len() - 1]) {
        trim_end_spec(s.take(s.len() - 1))
    } else {
        s
    }
}

/// The input without surrounding whitespace, as str::trim yields it.
pub open spec fn trim_spec(s: Seq<char>) -> Seq<char> {
    trim_end_spec(trim_start_spec(s))
}

/// The repair pass over the input: tracking quoted-string state and a
/// pending escape, raw newline, carriage-return and tab characters inside
/// a string become their two-character escapes, other raw control
/// characters inside a string are dropped, and everything else passes
/// through unchanged.
pub open spec fn repair_spec(s: Seq<char>, in_string: bool, escape_next: bool) -> Seq<char>
    decreases s.len(),
{
    if s.len() == 0 {
        Seq::empty()
    } else {
        let c = s[0];
        let rest = s.skip(1);
        if escape_next {
            seq![c] + repair_spec(rest, in_string, false)
        } else if c == '\\' {
            seq![c] + repair_spec(rest, in_string, true)
        } else if c == '"' {
            seq![c] + repair_spec(rest, !in_string, false)
        } else if in_string && is_control_char(c) {
            (if c == '\n' {
                seq!['\\', 'n']
            } else if c == '\r' {
                seq!['\\', 'r']
            } else if c == '\t' {
                seq!['\\', 't']
            } else {
                Seq::<char>::empty()
            }) + repair_spec(rest, in_string, false)
        } else {
            seq![c] + repair_spec(rest, in_string, false)
        }
    }
}

/// The markup tightening of the input: the text is split at every tag
/// end, each piece loses its leading whitespace, and the pieces are
/// rejoined. `lead` says whether the next character starts a piece.
pub open spec fn markup_split_spec(s: Seq<char>, lead: bool) -> Seq<char>
    decreases s.len(),
{
    if s.len() == 0 {
        Seq::empty()
    } else {
        let c = s[0];
        if c == '>' {
            seq!['>'] + markup_split_spec(s.skip(1), true)
        } else if lead && is_ws_char(c) {
            markup_split_spec(s.skip(1), true)
        } else {
            seq![c] + markup_split_spec(s.skip(1), false)
        }
    }
}

/// Whether the text parses as a single JSON value.
pub uninterp spec fn json_ok(s: Seq<char>) -> bool;

/// The minimal serialization of the JSON value the text parses as.
pub uninterp spec fn json_compact_of(s: Seq<char>) -> Seq<char>;

/// Relies on serde_json::from_str and serde_json::to_string: parsing
/// succeeds exactly when the text is one JSON value, both are functions
/// of the text alone, the compact serialization parses back to the same
/// value and so re-serializes to itself, it carries no surrounding
/// whitespace, an empty text does not parse, and a text that opens with a
/// tag character is no JSON value.
#[verifier::external_body]
fn json_reserialize(s: &str) -> (r: Option<String>)
    ensures
        (r is Some) == json_ok(s@),
        r is Some ==> r->Some_0@ == json_compact_of(s@),
        r is Some ==> json_ok(json_compact_of(s@)),
        r is Some ==> json_compact_of(json_compact_of(s@)) == json_compact_of(s@),
        r is Some ==> trim_spec(json_compact_of(s@)) == json_compact_of(s@),
        s@.len() == 0 ==> r is None,
        s@.len() > 0 && s@[0] == '<' ==> r is None,
{
    match serde_json::from_str::<serde_json::Value>(s) {
        Ok(v) => serde_json::to_string(&v).ok(),
        Err(_) => None,
    }
}

/// What compaction yields: the trimmed text re-serialized minimally if it
/// is structured data, else the repaired text re-serialized minimally if
/// that is, else the original text tightened as markup.
pub open spec fn compact_spec(s: Seq<char>) -> Seq<char> {
    let t = trim_spec(s);
    if json_ok(t) {
        json_compact_of(t)
    } else {
        let f = repair_spec(t, false, false);
        if json_ok(f) {
            json_compact_of(f)
        } else {
            markup_split_spec(s, true)
        }
    }
}

/// Trim surrounding whitespace from a character vector.
fn trim_chars(v: &Vec<char>) -> (out: Vec<char>)
    ensures
        out@ == trim_spec(v@),
{
    let mut a: usize = 0;
    assert(v@.skip(0) =~= v@);
    while a < v.len() && is_ws(v[a])
        invariant
            a <= v@.len(),
            trim_start_spec(v@.skip(a as int)) == trim_start_spec(v@),
        decreases v@.len() - a,
    {
        proof {
            assert(v@.skip(a as int)[0] == v@[a as int]);
            assert(v@.skip(a as int).skip(1) =~= v@.skip(a as int + 1));
        }
        a = a + 1;
    }
    proof {
        if a < v.len() {
            assert(v@.skip(a as int)[0] == v@[a as int]);
            assert(trim_start_spec(v@.skip(a as int)) == v@.skip(a as int));
        } else {
            assert(v@.skip(a as int) =~= Seq::<char>::empty());
        }
    }
    let mut b: usize = v.len();
    proof {
        assert(v@.subrange(a as int, b as int) =~= v@.skip(a as int));
    }
    while b > a && is_ws(v[b - 1])
        invariant
            a <= b <= v@.len(),
            trim_end_spec(v@.subrange(a as int, b as int)) == trim_end_spec(v@.skip(a as int)),
        decreases b,
    {
        proof {
            let t = v@.subrange(a as int, b as int);
            assert(t[t.len() - 1] == v@[b as int - 1]);
            assert(t.take(t.len() - 1) =~= v@.subrange(a as int, b as int - 1));
        }
        b = b - 1;
    }
    proof {
        let t = v@.subrange(a as int, b as int);
        if b > a {
            assert(t[t.len() - 1] == v@[b as int - 1]);
            assert(trim_end_spec(t) == t);
        } else {
            assert(t =~= Seq::<char>::empty());
        }
    }
    let mut out: Vec<char> = Vec::new();
    let mut i: usize = a;
    while i < b
        invariant
            a <= i <= b <= v@.len(),
            out@ == v@.subrange(a as int, i as int),
        decreases b - i,
    {
        out.push(v[i]);
        i = i + 1;
        assert(out@ =~= v@.subrange(a as int, i as int));
    }
    assert(out@ == v@.subrange(a as int, b as int));
    out
}

/// Run the repair pass over a character vector.
fn repair_chars(v: &Vec<char>) -> (out: Vec<char>)
    ensures
        out@ == repair_spec(v@, false, false),
{
    let mut out: Vec<char> = Vec::new();
    let mut in_string = false;
    let mut escape_next = false;
    let mut i: usize = 0;
    assert(v@.skip(0) =~= v@);
    while i < v.len()
        invariant
            i <= v@.len(),
            out@ + repair_spec(v@.skip(i as int), in_string, escape_next) == repair_spec(
                v@,
                false,
                false,
            ),
        decreases v@.len() - i,
    {
        let ghost t = v@.skip(i as int);
        let ghost pre = out@;
        let ghost ins0 = in_string;
        let ghost esc0 = escape_next;
        proof {
            assert(t[0] == v@[i as int]);
            assert(t.skip(1) =~= v@.skip(i as int + 1));
        }
        let c = v[i];
        if escape_next {
            out.push(c);
            escape_next = false;
        } else if c == '\\' {
            out.push(c);
            escape_next = true;
        } else if c == '"' {
            out.push(c);
            in_string = !in_string;
        } else if in_string && is_control(c) {
            if c == '\n' {
                out.push('\\');
                out.push('n');
            } else if c == '\r' {
                out.push('\\');
                out.push('r');
            } else if c == '\t' {
                out.push('\\');
                out.push('t');
            }
        } else {
            out.push(c);
        }
        proof {
            let pushed = out@.skip(pre.len() as int);
            assert(out@ =~= pre + pushed);
            assert(repair_spec(t, ins0, esc0) =~= pushed + repair_spec(
                t.skip(1),
                in_string,
                escape_next,
            ));
            assert(pre + (pushed + repair_spec(v@.skip(i as int + 1), in_string, escape_next)) =~= (
            pre + pushed) + repair_spec(v@.skip(i as int + 1), in_string, escape_next));
        }
        i = i + 1;
    }
    assert(v@.skip(i as int) =~= Seq::<char>::empty());
    assert(out@ =~= out@ + repair_spec(v@.skip(i as int), in_string, escape_next));
    out
}

/// Tighten markup: strip the whitespace that follows each tag end.
fn markup_tighten(v: &Vec<char>) -> (out: Vec<char>)
    ensures
        out@ == markup_split_spec(v@, true),
{
    let mut out: Vec<char> = Vec::new();
    let mut lead = true;
    let mut i: usize = 0;
    assert(v@.skip(0) =~= v@);
    while i < v.len()
        invariant
            i <= v@.len(),
            out@ + markup_split_spec(v@.skip(i as int), lead) == markup_split_spec(v@, true),
        decreases v@.len() - i,
    {
        let ghost t = v@.skip(i as int);
        let ghost pre = out@;
        let ghost lead0 = lead;
        proof {
            assert(t[0] == v@[i as int]);
            assert(t.skip(1) =~= v@.skip(i as int + 1));
        }
        let c = v[i];
        if c == '>' {
            out.push(c);
            lead = true;
        } else if lead && is_ws(c) {
        } else {
            out.push(c);
            lead = false;
        }
        proof {
            let pushed = out@.skip(pre.len() as int);
            assert(out@ =~= pre + pushed);
            assert(markup_split_spec(t, lead0) =~= pushed + markup_split_spec(t.skip(1), lead));
            assert(pre + (pushed + markup_split_spec(v@.skip(i as int + 1), lead)) =~= (pre + pushed)
                + markup_split_spec(v@.skip(i as int + 1), lead));
        }
        i = i + 1;
    }
    assert(v@.skip(i as int) =~= Seq::<char>::empty());
    assert(out@ =~= out@ + markup_split_spec(v@.skip(i as int), lead));
    out
}

/// Whitespace-only text trims to nothing.
proof fn lemma_all_ws_trim_start(s: Seq<char>)
    requires
        all_ws(s),
    ensures
        trim_start_spec(s) == Seq::<char>::empty(),
    decreases s.len(),
{
    if s.len() > 0 {
        assert(all_ws(s.skip(1)));
        lemma_all_ws_trim_start(s.skip(1));
    } else {
        assert(s =~= Seq::<char>::empty());
    }
}

/// Whitespace-only text trims to nothing on both sides.
proof fn lemma_all_ws_trim(s: Seq<char>)
    requires
        all_ws(s),
    ensures
        trim_spec(s) == Seq::<char>::empty(),
{
    lemma_all_ws_trim_start(s);
}

/// Whitespace-only text tightens to nothing: every character is leading
/// whitespace of the first piece.
proof fn lemma_all_ws_markup(s: Seq<char>)
    requires
        all_ws(s),
    ensures
        markup_split_spec(s, true) == Seq::<char>::empty(),
    decreases s.len(),
{
    if s.len() > 0 {
        assert(is_ws_char(s[0]));
        assert(s[0] != '>');
        assert(all_ws(s.skip(1)));
        lemma_all_ws_markup(s.skip(1));
    } else {
        assert(s =~= Seq::<char>::empty());
    }
}

/// Compact serialized output: emit it as minimal structured data when it
/// parses as JSON, directly or after the repair pass, and otherwise
/// tighten it as markup. Compacting an output that took one of the two
/// structured-data paths yields that output again; whitespace-only input
/// compacts to nothing; input that opens with a tag after trimming always
/// takes the markup path.
pub fn compact_output(s: &str) -> (r: String)
    ensures
        r@ == compact_spec(s@),
        json_ok(trim_spec(s@)) || json_ok(repair_spec(trim_spec(s@), false, false))
            ==> compact_spec(r@) == r@,
        all_ws(s@) ==> r@.len() == 0,
        trim_spec(s@).len() > 0 && trim_spec(s@)[0] == '<' ==> r@ == markup_split_spec(s@, true),
{
    proof {
        if all_ws(s@) {
            lemma_all_ws_trim(s@);
            lemma_all_ws_markup(s@);
        }
        let t = trim_spec(s@);
        if t.len() > 0 && t[0] == '<' {
            assert(repair_spec(t, false, false) == seq!['<'] + repair_spec(t.skip(1), false, false));
            assert(repair_spec(t, false, false)[0] == '<');
            assert(repair_spec(t, false, false).len() > 0);
        }
        if t.len() == 0 {
            assert(repair_spec(t, false, false) == Seq::<char>::empty());
        }
    }
    let chars = str_chars(s);
    let trimmed = trim_chars(&chars);
    let tstr = chars_string(&trimmed);
    match json_reserialize(tstr.as_str()) {
        Some(j) => j,
        None => {
            let repaired = repair_chars(&trimmed);
            let rstr = chars_string(&repaired);
            match json_reserialize(rstr.as_str()) {
                Some(j) => j,
                None => {
                    let tightened = markup_tighten(&chars);
                    chars_string(&tightened)
                },
            }
        },
    }
}

/// Tightening markup is idempotent: tightening already-tightened text
/// changes nothing.
pub proof fn markup_split_idempotent(s: Seq<char>, lead: bool)
    ensures
        markup_split_spec(markup_split_spec(s, lead), lead) == markup_split_spec(s, lead),
    decreases s.len(),
{
    if s.len() == 0 {
    } else {
        let c = s[0];
        let rest = s.skip(1);
        if c == '>' {
            markup_split_idempotent(rest, true);
            let inner = markup_split_spec(rest, true);
            assert((seq!['>'] + inner).skip(1) =~= inner);
            assert(markup_split_spec(seq!['>'] + inner, lead) =~= seq!['>'] + markup_split_spec(
                inner,
                true,
            ));
        } else if lead && is_ws_char(c) {
            markup_split_idempotent(rest, true);
        } else {
            markup_split_idempotent(rest, false);
            let inner = markup_split_spec(rest, false);
            assert((seq![c] + inner).skip(1) =~= inner);
            assert(markup_split_spec(seq![c] + inner, lead) =~= seq![c] + markup_split_spec(
                inner,
                false,
            ));
        }
    }
}

/// Compacting already tag-tight markup that is not structured data, even
/// after repair, yields the same text.
pub proof fn compact_markup_fixed_point(s: Seq<char>)
    requires
        markup_split_spec(s, true) == s,
        !json_ok(trim_spec(s)),
        !json_ok(repair_spec(trim_spec(s), false, false)),
    ensures
        compact_spec(s) == s,
{
}

} // verus!
