//! Pretty-printing: a subtree is flattened to a sequence of events and
//! re-rendered one event per line, indented by tree depth, preserving tag
//! names, attributes and text content.

use vstd::prelude::*;
use vstd::string::StringExecFns;
use crate::text::{str_chars, push_char};
use crate::dom::{traverse_edges, element_name, element_attrs, text_of, comment_of};

verus! {

/// One step of a subtree walk, as plain values.
pub enum PrettyEvent {
    /// Entering an element with the given tag name and attributes.
    Open { name: String, attrs: Vec<(String, String)> },
    /// Leaving an element with the given tag name.
    Close { name: String },
    /// A text node.
    Text { text: String },
    /// A comment node.
    Comment { text: String },
}

/// An indentation of two spaces per depth level.
pub open spec fn indent_spec(depth: nat) -> Seq<char> {
    Seq::new(2 * depth, |i: int| ' ')
}

/// A depth one step shallower, staying at the surface.
pub open spec fn dec_depth(depth: nat) -> nat {
    if depth == 0 {
        0
    } else {
        (depth - 1) as nat
    }
}

/// The markup escape of one text character.
pub open spec fn text_escape_char(c: char) -> Seq<char> {
    if c == '&' {
        seq!['&', 'a', 'm', 'p', ';']
    } else if c == '<' {
        seq!['&', 'l', 't', ';']
    } else if c == '>' {
        seq!['&', 'g', 't', ';']
    } else {
        seq![c]
    }
}

/// Text content with markup characters escaped.
pub open spec fn text_escape_spec(s: Seq<char>) -> Seq<char>
    decreases s.len(),
{
    if s.len() == 0 {
        Seq::empty()
    } else {
        text_escape_char(s[0]) + text_escape_spec(s.skip(1))
    }
}

/// The attribute-value escape of one character.
pub open spec fn attr_escape_char(c: char) -> Seq<char> {
    if c == '&' {
        seq!['&', 'a', 'm', 'p', ';']
    } else if c == '"' {
        seq!['&', 'q', 'u', 'o', 't', ';']
    } else {
        seq![c]
    }
}

/// An attribute value with the quote and ampersand escaped.
pub open spec fn attr_escape_spec(s: Seq<char>) -> Seq<char>
    decreases s.len(),
{
    if s.len() == 0 {
        Seq::empty()
    } else {
        attr_escape_char(s[0]) + attr_escape_spec(s.skip(1))
    }
}

/// The rendering of an attribute list inside an open tag: one leading
/// space, the name, an equals sign and the quoted escaped value each.
pub open spec fn attrs_markup_spec(attrs: Seq<(String, String)>) -> Seq<char>
    decreases attrs.len(),
{
    if attrs.len() == 0 {
        Seq::empty()
    } else {
        seq![' '] + attrs[0].0@ + seq!['=', '"'] + attr_escape_spec(attrs[0].1@) + seq!['"']
            + attrs_markup_spec(attrs.skip(1))
    }
}

/// The rendering of an event sequence: every event is one line, ended by
/// a newline and indented two spaces per depth; an open tag deepens the
/// following lines, a close tag stands at the depth of its open tag.
pub open spec fn events_render_spec(evs: Seq<PrettyEvent>, depth: nat) -> Seq<char>
    decreases evs.len(),
{
    if evs.len() == 0 {
        Seq::empty()
    } else {
        match evs[0] {
            PrettyEvent::Open { name, attrs } => indent_spec(depth) + seq!['<'] + name@
                + attrs_markup_spec(attrs@) + seq!['>', '\n'] + events_render_spec(
                evs.skip(1),
                depth + 1,
            ),
            PrettyEvent::Close { name } => indent_spec(dec_depth(depth)) + seq!['<', '/'] + name@
                + seq!['>', '\n'] + events_render_spec(evs.skip(1), dec_depth(depth)),
            PrettyEvent::Text { text } => indent_spec(depth) + text_escape_spec(text@)
                + seq!['\n'] + events_render_spec(evs.skip(1), depth),
            PrettyEvent::Comment { text } => indent_spec(depth) + seq!['<', '!', '-', '-'] + text@
                + seq!['-', '-', '>', '\n'] + events_render_spec(evs.skip(1), depth),
        }
    }
}

/// Append two spaces per depth level.
fn append_indent(out: &mut String, depth: usize)
    ensures
        final(out)@ == old(out)@ + indent_spec(depth as nat),
{
    let mut j: usize = 0;
    proof {
        assert(out@ =~= old(out)@ + Seq::new(0, |i: int| ' '));
    }
    while j < depth
        invariant
            j <= depth,
            out@ == old(out)@ + Seq::new(2 * j as nat, |i: int| ' '),
        decreases depth - j,
    {
        push_char(out, ' ');
        push_char(out, ' ');
        j = j + 1;
        proof {
            assert(out@ =~= old(out)@ + Seq::new(2 * j as nat, |i: int| ' '));
        }
    }
}

/// Append text content with markup characters escaped.
fn append_text_escaped(out: &mut String, s: &str)
    ensures
        final(out)@ == old(out)@ + text_escape_spec(s@),
{
    let chars = str_chars(s);
    let mut i: usize = 0;
    proof {
        assert(chars@.skip(0) =~= chars@);
        assert(out@ =~= old(out)@ + Seq::<char>::empty());
    }
    while i < chars.len()
        invariant
            i <= chars@.len(),
            chars@ == s@,
            out@ + text_escape_spec(chars@.skip(i as int)) == old(out)@ + text_escape_spec(chars@),
        decreases chars@.len() - i,
    {
        let ghost pre = out@;
        proof {
            assert(chars@.skip(i as int)[0] == chars@[i as int]);
            assert(chars@.skip(i as int).skip(1) =~= chars@.skip(i as int + 1));
        }
        let c = chars[i];
        if c == '&' {
            out.append("&amp;");
            proof {
                reveal_strlit("&amp;");
            }
        } else if c == '<' {
            out.append("&lt;");
            proof {
                reveal_strlit("&lt;");
            }
        } else if c == '>' {
            out.append("&gt;");
            proof {
                reveal_strlit("&gt;");
            }
        } else {
            push_char(out, c);
        }
        proof {
            let pushed = out@.skip(pre.len() as int);
            assert(out@ =~= pre + pushed);
            assert(pushed =~= text_escape_char(chars@[i as int]));
            assert(text_escape_spec(chars@.skip(i as int)) =~= pushed + text_escape_spec(
                chars@.skip(i as int + 1),
            ));
            assert(pre + (pushed + text_escape_spec(chars@.skip(i as int + 1))) =~= (pre + pushed)
                + text_escape_spec(chars@.skip(i as int + 1)));
        }
        i = i + 1;
    }
    assert(chars@.skip(i as int) =~= Seq::<char>::empty());
    assert(out@ =~= out@ + text_escape_spec(chars@.skip(i as int)));
}

/// Append an attribute value with the quote and ampersand escaped.
fn append_attr_escaped(out: &mut String, s: &str)
    ensures
        final(out)@ == old(out)@ + attr_escape_spec(s@),
{
    let chars = str_chars(s);
    let mut i: usize = 0;
    proof {
        assert(chars@.skip(0) =~= chars@);
        assert(out@ =~= old(out)@ + Seq::<char>::empty());
    }
    while i < chars.len()
        invariant
            i <= chars@.len(),
            chars@ == s@,
            out@ + attr_escape_spec(chars@.skip(i as int)) == old(out)@ + attr_escape_spec(chars@),
        decreases chars@.len() - i,
    {
        let ghost pre = out@;
        proof {
            assert(chars@.skip(i as int)[0] == chars@[i as int]);
            assert(chars@.skip(i as int).skip(1) =~= chars@.skip(i as int + 1));
        }
        let c = chars[i];
        if c == '&' {
            out.append("&amp;");
            proof {
                reveal_strlit("&amp;");
            }
        } else if c == '"' {
            out.append("&quot;");
            proof {
                reveal_strlit("&quot;");
            }
        } else {
            push_char(out, c);
        }
        proof {
            let pushed = out@.skip(pre.len() as int);
            assert(out@ =~= pre + pushed);
            assert(pushed =~= attr_escape_char(chars@[i as int]));
            assert(attr_escape_spec(chars@.skip(i as int)) =~= pushed + attr_escape_spec(
                chars@.skip(i as int + 1),
            ));
            assert(pre + (pushed + attr_escape_spec(chars@.skip(i as int + 1))) =~= (pre + pushed)
                + attr_escape_spec(chars@.skip(i as int + 1)));
        }
        i = i + 1;
    }
    assert(chars@.skip(i as int) =~= Seq::<char>::empty());
    assert(out@ =~= out@ + attr_escape_spec(chars@.skip(i as int)));
}

/// Append the rendering of an attribute list.
fn append_attrs(out: &mut String, attrs: &Vec<(String, String)>)
    ensures
        final(out)@ == old(out)@ + attrs_markup_spec(attrs@),
{
    let mut i: usize = 0;
    proof {
        assert(attrs@.skip(0) =~= attrs@);
        assert(out@ =~= old(out)@ + Seq::<char>::empty());
    }
    while i < attrs.len()
        invariant
            i <= attrs@.len(),
            out@ + attrs_markup_spec(attrs@.skip(i as int)) == old(out)@ + attrs_markup_spec(
                attrs@,
            ),
        decreases attrs@.len() - i,
    {
        let ghost pre = out@;
        proof {
            assert(attrs@.skip(i as int)[0] == attrs@[i as int]);
            assert(attrs@.skip(i as int).skip(1) =~= attrs@.skip(i as int + 1));
        }
        push_char(out, ' ');
        out.append(attrs[i].0.as_str());
        push_char(out, '=');
        push_char(out, '"');
        append_attr_escaped(out, attrs[i].1.as_str());
        push_char(out, '"');
        proof {
            let pushed = out@.skip(pre.len() as int);
            assert(out@ =~= pre + pushed);
            assert(pushed =~= seq![' '] + attrs@[i as int].0@ + seq!['=', '"'] + attr_escape_spec(
                attrs@[i as int].1@,
            ) + seq!['"']);
            assert(attrs_markup_spec(attrs@.skip(i as int)) =~= pushed + attrs_markup_spec(
                attrs@.skip(i as int + 1),
            ));
            assert(pre + (pushed + attrs_markup_spec(attrs@.skip(i as int + 1))) =~= (pre + pushed)
                + attrs_markup_spec(attrs@.skip(i as int + 1)));
        }
        i = i + 1;
    }
    assert(attrs@.skip(i as int) =~= Seq::<(String, String)>::empty());
    assert(out@ =~= out@ + attrs_markup_spec(attrs@.skip(i as int)));
}

/// Render an event sequence, one indented line per event.
pub fn render_events(events: &Vec<PrettyEvent>) -> (r: String)
    ensures
        r@ == events_render_spec(events@, 0),
{
    let mut out = String::new();
    let mut depth: usize = 0;
    let mut i: usize = 0;
    proof {
        assert(events@.skip(0) =~= events@);
        assert(out@ =~= Seq::<char>::empty() + Seq::<char>::empty());
        assert(Seq::<char>::empty() + events_render_spec(events@, 0) =~= events_render_spec(
            events@,
            0,
        ));
    }
    while i < events.len()
        invariant
            i <= events@.len(),
            depth <= i,
            out@ + events_render_spec(events@.skip(i as int), depth as nat) == events_render_spec(
                events@,
                0,
            ),
        decreases events@.len() - i,
    {
        let ghost pre = out@;
        let ghost depth0 = depth as nat;
        proof {
            assert(events@.skip(i as int)[0] == events@[i as int]);
            assert(events@.skip(i as int).skip(1) =~= events@.skip(i as int + 1));
        }
        match &events[i] {
            PrettyEvent::Open { name, attrs } => {
                append_indent(&mut out, depth);
                push_char(&mut out, '<');
                out.append(name.as_str());
                append_attrs(&mut out, attrs);
                push_char(&mut out, '>');
                push_char(&mut out, '\n');
                depth = depth + 1;
            },
            PrettyEvent::Close { name } => {
                if depth > 0 {
                    depth = depth - 1;
                }
                append_indent(&mut out, depth);
                push_char(&mut out, '<');
                push_char(&mut out, '/');
                out.append(name.as_str());
                push_char(&mut out, '>');
                push_char(&mut out, '\n');
            },
            PrettyEvent::Text { text } => {
                append_indent(&mut out, depth);
                append_text_escaped(&mut out, text.as_str());
                push_char(&mut out, '\n');
            },
            PrettyEvent::Comment { text } => {
                append_indent(&mut out, depth);
                out.append("<!--");
                out.append(text.as_str());
                out.append("-->");
                push_char(&mut out, '\n');
                proof {
                    reveal_strlit("<!--");
                    reveal_strlit("-->");
                }
            },
        }
        proof {
            let pushed = out@.skip(pre.len() as int);
            assert(out@ =~= pre + pushed);
            match events@[i as int] {
                PrettyEvent::Open { name, attrs } => {
                    assert(pushed =~= indent_spec(depth0) + seq!['<'] + name@ + attrs_markup_spec(
                        attrs@,
                    ) + seq!['>', '\n']);
                },
                PrettyEvent::Close { name } => {
                    assert(pushed =~= indent_spec(dec_depth(depth0)) + seq!['<', '/'] + name@
                        + seq!['>', '\n']);
                },
                PrettyEvent::Text { text } => {
                    assert(pushed =~= indent_spec(depth0) + text_escape_spec(text@) + seq!['\n']);
                },
                PrettyEvent::Comment { text } => {
                    assert(pushed =~= indent_spec(depth0) + seq!['<', '!', '-', '-'] + text@
                        + seq!['-', '-', '>', '\n']);
                },
            }
            assert(events_render_spec(events@.skip(i as int), depth0) =~= pushed
                + events_render_spec(events@.skip(i as int + 1), depth as nat));
            assert(pre + (pushed + events_render_spec(events@.skip(i as int + 1), depth as nat))
                =~= (pre + pushed) + events_render_spec(events@.skip(i as int + 1), depth as nat));
        }
        i = i + 1;
    }
    assert(events@.skip(i as int) =~= Seq::<PrettyEvent>::empty());
    assert(out@ =~= out@ + events_render_spec(events@.skip(i as int), depth as nat));
    out
}

/// Flatten a subtree to events: an open and a close for each element, a
/// text event per text node, a comment event per comment node.
fn subtree_events(node: &kuchikiki::NodeRef) -> Vec<PrettyEvent> {
    let edges = traverse_edges(node);
    let mut events: Vec<PrettyEvent> = Vec::new();
    let mut i: usize = 0;
    while i < edges.len()
        decreases edges@.len() - i,
    {
        let entering = edges[i].0;
        let n = &edges[i].1;
        if entering {
            match element_name(n) {
                Some(name) => {
                    let attrs = element_attrs(n);
                    events.push(PrettyEvent::Open { name, attrs });
                },
                None => {
                    match text_of(n) {
                        Some(text) => events.push(PrettyEvent::Text { text }),
                        None => {
                            match comment_of(n) {
                                Some(text) => events.push(PrettyEvent::Comment { text }),
                                None => (),
                            }
                        },
                    }
                },
            }
        } else {
            match element_name(n) {
                Some(name) => events.push(PrettyEvent::Close { name }),
                None => (),
            }
        }
        i = i + 1;
    }
    events
}

/// Re-render a subtree with indentation reflecting tree depth: one line
/// per walk event, deterministic and faithful to tag names, attributes
/// and text.
pub fn pretty_print(node: &kuchikiki::NodeRef) -> (r: String)
    ensures
        exists|evs: Seq<PrettyEvent>| r@ == events_render_spec(evs, 0),
{
    let events = subtree_events(node);
    let r = render_events(&events);
    proof {
        assert(r@ == events_render_spec(events@, 0));
    }
    r
}

} // verus!
