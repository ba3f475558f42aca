//! Text-mode and attribute-mode serialization: joining the text chunks of
//! a subtree under the whitespace-ignoring rule, and emitting requested
//! attribute values one per line.

use vstd::prelude::*;
use vstd::string::StringExecFns;
use crate::text::{all_ws, str_all_ws};
use crate::dom::{get_attribute, text_chunks};

verus! {

/// What text-mode serialization yields from the text chunks of a subtree,
/// in order: without whitespace-ignoring the chunks are concatenated with
/// no separators; with it, chunks that are entirely whitespace are
/// dropped and every retained chunk is followed by a newline.
pub open spec fn text_join_spec(chunks: Seq<Seq<char>>, ignore_ws: bool) -> Seq<char>
    decreases chunks.len(),
{
    if chunks.len() == 0 {
        Seq::empty()
    } else {
        (if ignore_ws {
            if all_ws(chunks[0]) {
                Seq::<char>::empty()
            } else {
                chunks[0] + seq!['\n']
            }
        } else {
            chunks[0]
        }) + text_join_spec(chunks.skip(1), ignore_ws)
    }
}

/// Join text chunks under the whitespace-ignoring rule.
pub fn join_text(chunks: &Vec<String>, ignore_ws: bool) -> (r: String)
    ensures
        r@ == text_join_spec(chunks.deep_view(), ignore_ws),
{
    let ghost dv = chunks.deep_view();
    let mut out = String::new();
    let mut i: usize = 0;
    assert(dv.skip(0) =~= dv);
    while i < chunks.len()
        invariant
            i <= chunks@.len(),
            dv == chunks.deep_view(),
            dv.len() == chunks@.len(),
            out@ + text_join_spec(dv.skip(i as int), ignore_ws) == text_join_spec(dv, ignore_ws),
        decreases chunks@.len() - i,
    {
        let ghost pre = out@;
        proof {
            assert(dv[i as int] == chunks@[i as int]@);
            assert(dv.skip(i as int)[0] == dv[i as int]);
            assert(dv.skip(i as int).skip(1) =~= dv.skip(i as int + 1));
        }
        let chunk = &chunks[i];
        if ignore_ws {
            if !str_all_ws(chunk.as_str()) {
                out.append(chunk.as_str());
                out.append("\n");
                proof {
                    reveal_strlit("\n");
                }
            }
        } else {
            out.append(chunk.as_str());
        }
        proof {
            let pushed = out@.skip(pre.len() as int);
            assert(out@ =~= pre + pushed);
            assert(text_join_spec(dv.skip(i as int), ignore_ws) =~= pushed + text_join_spec(
                dv.skip(i as int + 1),
                ignore_ws,
            ));
            assert(pre + (pushed + text_join_spec(dv.skip(i as int + 1), ignore_ws)) =~= (pre
                + pushed) + text_join_spec(dv.skip(i as int + 1), ignore_ws));
        }
        i = i + 1;
    }
    assert(dv.skip(i as int) =~= Seq::<Seq<char>>::empty());
    assert(out@ =~= out@ + text_join_spec(dv.skip(i as int), ignore_ws));
    out
}

/// Serialize the text content of a subtree: its text chunks in tree
/// order, joined under the whitespace-ignoring rule.
pub fn serialize_text(node: &kuchikiki::NodeRef, ignore_ws: bool) -> (r: String)
    ensures
        exists|chunks: Seq<Seq<char>>| r@ == text_join_spec(chunks, ignore_ws),
{
    let chunks = text_chunks(node);
    let r = join_text(&chunks, ignore_ws);
    proof {
        assert(r@ == text_join_spec(chunks.deep_view(), ignore_ws));
    }
    r
}

/// What attribute-mode serialization emits for one node, given the looked
/// up value of each requested attribute in order: each present value
/// followed by a newline; missing attributes leave no trace.
pub open spec fn attr_lines_spec(vals: Seq<Option<Seq<char>>>) -> Seq<char>
    decreases vals.len(),
{
    if vals.len() == 0 {
        Seq::empty()
    } else {
        (match vals[0] {
            Some(v) => v + seq!['\n'],
            None => Seq::<char>::empty(),
        }) + attr_lines_spec(vals.skip(1))
    }
}

/// Appending one more looked-up value extends the emitted lines by that
/// value's contribution.
proof fn lemma_attr_lines_push(vals: Seq<Option<Seq<char>>>, x: Option<Seq<char>>)
    ensures
        attr_lines_spec(vals.push(x)) == attr_lines_spec(vals) + (match x {
            Some(v) => v + seq!['\n'],
            None => Seq::<char>::empty(),
        }),
    decreases vals.len(),
{
    let piece = match x {
        Some(v) => v + seq!['\n'],
        None => Seq::<char>::empty(),
    };
    if vals.len() == 0 {
        assert(vals.push(x)[0] == x);
        assert(vals.push(x).skip(1) =~= Seq::<Option<Seq<char>>>::empty());
        assert(attr_lines_spec(Seq::<Option<Seq<char>>>::empty()) == Seq::<char>::empty());
        assert(attr_lines_spec(vals.push(x)) =~= piece + Seq::<char>::empty());
        assert(piece + Seq::<char>::empty() =~= piece);
        assert(attr_lines_spec(vals) + piece =~= piece);
    } else {
        assert(vals.push(x)[0] == vals[0]);
        assert(vals.push(x).skip(1) =~= vals.skip(1).push(x));
        lemma_attr_lines_push(vals.skip(1), x);
        let head = match vals[0] {
            Some(v) => v + seq!['\n'],
            None => Seq::<char>::empty(),
        };
        assert(head + (attr_lines_spec(vals.skip(1)) + piece) =~= (head + attr_lines_spec(
            vals.skip(1),
        )) + piece);
    }
}

/// Emit the requested attribute values of one node, one line per value
/// the node carries, in the order the attributes were asked for.
pub fn append_attr_values(node: &kuchikiki::NodeRef, attrs: &Vec<String>, out: &mut String)
    ensures
        exists|vals: Seq<Option<Seq<char>>>|
            vals.len() == attrs@.len() && final(out)@ == old(out)@ + attr_lines_spec(vals),
{
    let ghost mut vals: Seq<Option<Seq<char>>> = Seq::empty();
    let mut i: usize = 0;
    proof {
        assert(old(out)@ + attr_lines_spec(vals) =~= old(out)@);
    }
    while i < attrs.len()
        invariant
            i <= attrs@.len(),
            vals.len() == i,
            out@ == old(out)@ + attr_lines_spec(vals),
        decreases attrs@.len() - i,
    {
        let ghost pre_vals = vals;
        match get_attribute(node, attrs[i].as_str()) {
            Some(v) => {
                proof {
                    vals = vals.push(Some(v@));
                    lemma_attr_lines_push(pre_vals, Some(v@));
                }
                out.append(v.as_str());
                out.append("\n");
                proof {
                    reveal_strlit("\n");
                    assert(out@ =~= old(out)@ + attr_lines_spec(vals));
                }
            },
            None => {
                proof {
                    vals = vals.push(None);
                    lemma_attr_lines_push(pre_vals, None);
                    assert(out@ =~= old(out)@ + attr_lines_spec(vals));
                }
            },
        }
        i = i + 1;
    }
}

} // verus!
