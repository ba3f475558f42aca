//! HTML query and extraction library.
//!
//! Given an HTML document and a CSS selector, extracts the matching subtrees
//! and re-emits them as raw markup, pretty-printed markup, text content, or
//! attribute values, optionally pruning unwanted descendants, rewriting
//! relative links against a base URL, and compacting the final output.

pub mod compact;
pub mod dom;
pub mod ingest;
pub mod links;
pub mod pretty;
pub mod serialize;
pub mod js_decode;
pub mod text;

use vstd::prelude::*;

verus! {

/// Configuration for one processing run.
#[derive(Debug, Clone)]
pub struct HqConfig {
    /// CSS selector choosing the nodes to emit.
    pub selector: String,
    /// Base URL for resolving relative links, if any.
    pub base: Option<String>,
    /// Whether to look for a base declaration inside the document.
    pub detect_base: bool,
    /// Emit only the text content of the matched nodes.
    pub text_only: bool,
    /// In text mode, drop text chunks that are entirely whitespace.
    pub ignore_whitespace: bool,
    /// Re-render matched markup with indentation.
    pub pretty_print: bool,
    /// Selectors whose matches are detached before serialization.
    pub remove_nodes: Vec<String>,
    /// Attribute names whose values are emitted instead of markup.
    pub attributes: Vec<String>,
    /// Compact the final output.
    pub compact: bool,
}

impl Default for HqConfig {
    /// The default run: select the whole document, emit raw markup.
    fn default() -> (c: Self)
        ensures
            c.selector@ == ":root"@,
            c.base is None,
            !c.detect_base,
            !c.text_only,
            !c.ignore_whitespace,
            !c.pretty_print,
            c.remove_nodes@.len() == 0,
            c.attributes@.len() == 0,
            !c.compact,
    {
        HqConfig {
            selector: String::from_str(":root"),
            base: None,
            detect_base: false,
            text_only: false,
            ignore_whitespace: false,
            pretty_print: false,
            remove_nodes: Vec::new(),
            attributes: Vec::new(),
            compact: false,
        }
    }
}

/// The serialization mode of a run. Exactly one is active, chosen by fixed
/// precedence: attribute extraction, then text, then pretty, then raw.
#[derive(Debug, Clone, Copy, PartialEq, Eq, Structural)]
pub enum OutputMode {
    /// Emit the values of the configured attributes, one per line.
    Attributes,
    /// Emit concatenated text content.
    TextOnly,
    /// Emit indented markup.
    Pretty,
    /// Emit markup exactly as the tree holds it.
    Raw,
}

/// The mode a configuration selects: a non-empty attribute list wins over
/// the text flag, which wins over the pretty flag; raw is the default.
pub open spec fn mode_spec(c: &HqConfig) -> OutputMode {
    if c.attributes@.len() > 0 {
        OutputMode::Attributes
    } else if c.text_only {
        OutputMode::TextOnly
    } else if c.pretty_print {
        OutputMode::Pretty
    } else {
        OutputMode::Raw
    }
}

/// Resolve the output mode of a configuration once, by precedence.
pub fn resolve_mode(c: &HqConfig) -> (m: OutputMode)
    ensures
        m == mode_spec(c),
{
    if c.attributes.len() > 0 {
        OutputMode::Attributes
    } else if c.text_only {
        OutputMode::TextOnly
    } else if c.pretty_print {
        OutputMode::Pretty
    } else {
        OutputMode::Raw
    }
}

/// A non-empty attribute list selects attribute extraction whatever the
/// text and pretty flags say.
pub proof fn attribute_mode_takes_precedence(c: &HqConfig)
    requires
        c.attributes@.len() > 0,
    ensures
        mode_spec(c) == OutputMode::Attributes,
{
}

/// Why a run failed. Soft failures — an unparseable base URL, a remove
/// selector that does not compile, a missing requested attribute — are
/// silently skipped and never reported.
#[derive(Debug, Clone, Copy, PartialEq, Eq, Structural)]
pub enum HqError {
    /// The configured selector does not compile.
    SelectorParse,
}

impl HqError {
    /// The message describing this error.
    pub fn describe(&self) -> (m: String)
        ensures
            m@ == "Failed to parse CSS selector"@,
    {
        String::from_str("Failed to parse CSS selector")
    }
}

/// A selector list joined on commas, as one alternation group.
pub open spec fn join_rest_spec(vs: Seq<Seq<char>>) -> Seq<char>
    decreases vs.len(),
{
    if vs.len() == 0 {
        Seq::empty()
    } else {
        seq![','] + vs[0] + join_rest_spec(vs.skip(1))
    }
}

/// The comma join of a selector list: its members in order, a comma
/// between each two.
pub open spec fn join_comma_spec(vs: Seq<Seq<char>>) -> Seq<char> {
    if vs.len() == 0 {
        Seq::empty()
    } else {
        vs[0] + join_rest_spec(vs.skip(1))
    }
}

/// Join a selector list on commas.
fn join_selectors(sels: &Vec<String>) -> (r: String)
    ensures
        r@ == join_comma_spec(sels.deep_view()),
{
    let ghost dv = sels.deep_view();
    let mut out = String::new();
    if sels.len() == 0 {
        assert(out@ =~= join_comma_spec(dv));
        return out;
    }
    proof {
        assert(dv[0] == sels@[0]@);
    }
    out.append(sels[0].as_str());
    let mut i: usize = 1;
    while i < sels.len()
        invariant
            1 <= i <= sels@.len(),
            dv == sels.deep_view(),
            dv.len() == sels@.len(),
            dv.len() > 0,
            out@ + join_rest_spec(dv.skip(i as int)) == join_comma_spec(dv),
        decreases sels@.len() - i,
    {
        let ghost pre = out@;
        proof {
            assert(dv[i as int] == sels@[i as int]@);
            assert(dv.skip(i as int)[0] == dv[i as int]);
            assert(dv.skip(i as int).skip(1) =~= dv.skip(i as int + 1));
        }
        out.append(",");
        proof {
            reveal_strlit(",");
        }
        out.append(sels[i].as_str());
        proof {
            let pushed = out@.skip(pre.len() as int);
            assert(out@ =~= pre + pushed);
            assert(pushed =~= seq![','] + dv[i as int]);
            assert(join_rest_spec(dv.skip(i as int)) =~= pushed + join_rest_spec(
                dv.skip(i as int + 1),
            ));
            assert(pre + (pushed + join_rest_spec(dv.skip(i as int + 1))) =~= (pre + pushed)
                + join_rest_spec(dv.skip(i as int + 1)));
        }
        i = i + 1;
    }
    assert(dv.skip(i as int) =~= Seq::<Seq<char>>::empty());
    assert(join_rest_spec(dv.skip(i as int)) == Seq::<char>::empty());
    assert(out@ =~= out@ + Seq::<char>::empty());
    out
}

/// What one match contributes to the output in the active mode: in
/// attribute mode the lines of one looked-up value per configured
/// attribute; in text mode a text join followed by the match terminator;
/// in pretty mode an event rendering followed by the terminator; in raw
/// mode some serialized markup followed by the terminator.
pub open spec fn piece_ok(p: Seq<char>, c: &HqConfig) -> bool {
    match mode_spec(c) {
        OutputMode::Attributes => exists|vals: Seq<Option<Seq<char>>>|
            vals.len() == c.attributes@.len() && p == serialize::attr_lines_spec(vals),
        OutputMode::TextOnly => exists|chunks: Seq<Seq<char>>|
            p == serialize::text_join_spec(chunks, c.ignore_whitespace) + seq!['\n'],
        OutputMode::Pretty => exists|evs: Seq<pretty::PrettyEvent>|
            p == pretty::events_render_spec(evs, 0) + seq!['\n'],
        OutputMode::Raw => p.len() > 0 && p[p.len() - 1] == '\n',
    }
}

/// The concatenation of per-match pieces, in match order.
pub open spec fn concat_pieces(pieces: Seq<Seq<char>>) -> Seq<char>
    decreases pieces.len(),
{
    if pieces.len() == 0 {
        Seq::empty()
    } else {
        pieces[0] + concat_pieces(pieces.skip(1))
    }
}

/// Appending one more piece extends the concatenation by that piece.
proof fn lemma_concat_push(pieces: Seq<Seq<char>>, p: Seq<char>)
    ensures
        concat_pieces(pieces.push(p)) == concat_pieces(pieces) + p,
    decreases pieces.len(),
{
    if pieces.len() == 0 {
        assert(pieces.push(p)[0] == p);
        assert(pieces.push(p).skip(1) =~= Seq::<Seq<char>>::empty());
        assert(concat_pieces(Seq::<Seq<char>>::empty()) == Seq::<char>::empty());
        assert(concat_pieces(pieces.push(p)) =~= p + Seq::<char>::empty());
        assert(p + Seq::<char>::empty() =~= p);
        assert(concat_pieces(pieces) + p =~= p);
    } else {
        assert(pieces.push(p)[0] == pieces[0]);
        assert(pieces.push(p).skip(1) =~= pieces.skip(1).push(p));
        lemma_concat_push(pieces.skip(1), p);
        assert(pieces[0] + (concat_pieces(pieces.skip(1)) + p) =~= (pieces[0] + concat_pieces(
            pieces.skip(1),
        )) + p);
    }
}

/// The output is a rendering of `n` matches under the configuration: one
/// piece per match, each shaped by the active mode and followed by its
/// terminator, concatenated in match order.
pub open spec fn rendering_ok(out: Seq<char>, n: nat, c: &HqConfig) -> bool {
    exists|pieces: Seq<Seq<char>>|
        pieces.len() == n && out == concat_pieces(pieces) && (forall|k: int|
            0 <= k < pieces.len() ==> piece_ok(#[trigger] pieces[k], c))
}

/// Process one matched node: prune the subtrees its remove selectors
/// match, rewrite relative links against the base, then serialize in the
/// configured mode, appending one piece of the active mode's shape to the
/// output.
fn render_one_match(
    node: &kuchikiki::NodeRef,
    config: &HqConfig,
    removal: &String,
    base: &Option<String>,
    mode: OutputMode,
    out: &mut String,
)
    requires
        mode == mode_spec(config),
    ensures
        exists|p: Seq<char>| piece_ok(p, config) && final(out)@ == old(out)@ + p,
{
    match dom::select_nodes(node, removal.as_str()) {
        Some(targets) => {
            let mut j: usize = 0;
            while j < targets.len()
                decreases targets@.len() - j,
            {
                dom::detach_node(&targets[j]);
                j = j + 1;
            }
        },
        None => (),
    }
    match base {
        Some(b) => links::rewrite_links(node, b.as_str()),
        None => (),
    }
    let ghost pre = out@;
    match mode {
        OutputMode::Attributes => {
            serialize::append_attr_values(node, &config.attributes, out);
            proof {
                let vals = choose|vals: Seq<Option<Seq<char>>>|
                    vals.len() == config.attributes@.len() && out@ == pre
                        + serialize::attr_lines_spec(vals);
                assert(piece_ok(serialize::attr_lines_spec(vals), config));
            }
        },
        OutputMode::TextOnly => {
            let t = serialize::serialize_text(node, config.ignore_whitespace);
            out.append(t.as_str());
            push_newline(out);
            proof {
                let chunks = choose|chunks: Seq<Seq<char>>|
                    t@ == serialize::text_join_spec(chunks, config.ignore_whitespace);
                assert(piece_ok(
                    serialize::text_join_spec(chunks, config.ignore_whitespace) + seq!['\n'],
                    config,
                ));
                assert(out@ =~= pre + (t@ + seq!['\n']));
            }
        },
        OutputMode::Pretty => {
            let p = pretty::pretty_print(node);
            out.append(p.as_str());
            push_newline(out);
            proof {
                let evs = choose|evs: Seq<pretty::PrettyEvent>|
                    p@ == pretty::events_render_spec(evs, 0);
                assert(piece_ok(pretty::events_render_spec(evs, 0) + seq!['\n'], config));
                assert(out@ =~= pre + (p@ + seq!['\n']));
            }
        },
        OutputMode::Raw => {
            let m = dom::node_markup(node);
            out.append(m.as_str());
            push_newline(out);
            proof {
                let piece = m@ + seq!['\n'];
                assert(piece[piece.len() - 1] == '\n');
                assert(piece_ok(piece, config));
                assert(out@ =~= pre + piece);
            }
        },
    }
}

/// Append the line terminator that follows each serialized match.
fn push_newline(out: &mut String)
    ensures
        final(out)@ == old(out)@ + seq!['\n'],
{
    out.append("\n");
    proof {
        reveal_strlit("\n");
        assert(out@ =~= old(out)@ + seq!['\n']);
    }
}

/// Render every matched node in match order: prune, rewrite links, then
/// serialize each, concatenating the results, one piece per match and a
/// terminator after each. A selector that matches zero nodes yields empty
/// output.
pub fn render_matches(
    matches: &Vec<kuchikiki::NodeRef>,
    config: &HqConfig,
    base: &Option<String>,
) -> (out: String)
    ensures
        matches@.len() == 0 ==> out@ == Seq::<char>::empty(),
        rendering_ok(out@, matches@.len(), config),
{
    let mode = resolve_mode(config);
    let removal = join_selectors(&config.remove_nodes);
    let mut out = String::new();
    let ghost mut pieces: Seq<Seq<char>> = Seq::empty();
    let mut i: usize = 0;
    proof {
        assert(concat_pieces(pieces) == Seq::<char>::empty());
    }
    while i < matches.len()
        invariant
            i <= matches@.len(),
            mode == mode_spec(config),
            pieces.len() == i,
            out@ == concat_pieces(pieces),
            forall|k: int| 0 <= k < pieces.len() ==> piece_ok(#[trigger] pieces[k], config),
            matches@.len() == 0 ==> out@ == Seq::<char>::empty(),
        decreases matches@.len() - i,
    {
        let ghost pre_pieces = pieces;
        render_one_match(&matches[i], config, &removal, base, mode, &mut out);
        proof {
            let p = choose|p: Seq<char>|
                piece_ok(p, config) && out@ == concat_pieces(pre_pieces) + p;
            pieces = pre_pieces.push(p);
            lemma_concat_push(pre_pieces, p);
            assert(forall|k: int| 0 <= k < pre_pieces.len() ==> pieces[k] == pre_pieces[k]);
            assert(pieces[pieces.len() - 1] == p);
        }
        i = i + 1;
    }
    proof {
        assert(pieces.len() == matches@.len() && out@ == concat_pieces(pieces));
    }
    out
}

/// Run the whole pipeline on one document: parse the markup, resolve the
/// base URL, then for each node the selector matches prune, rewrite links
/// and serialize, and finally compact the concatenated output when asked
/// to. Fails exactly when the selector does not compile; every other
/// irregularity is a soft failure that is silently skipped.
pub fn process_html(html: &str, config: &HqConfig) -> (r: Result<String, HqError>)
    ensures
        (r is Ok) == dom::selector_ok(config.selector@),
        r is Err ==> r->Err_0 == HqError::SelectorParse,
        r is Ok && !config.compact ==> exists|rendered: Seq<char>, n: nat|
            rendering_ok(rendered, n, config) && r->Ok_0@ == rendered,
        r is Ok && config.compact ==> exists|rendered: Seq<char>, n: nat|
            rendering_ok(rendered, n, config) && r->Ok_0@ == compact::compact_spec(rendered) && (
            rendered.len() == 0 ==> r->Ok_0@.len() == 0),
{
    let document = dom::parse_document(html);
    let base = links::resolve_base(&document, &config.base, config.detect_base);
    match dom::select_nodes(&document, config.selector.as_str()) {
        Some(matches) => {
            let rendered = render_matches(&matches, config, &base);
            if config.compact {
                let compacted = compact::compact_output(rendered.as_str());
                proof {
                    assert(rendered@.len() == 0 ==> crate::text::all_ws(rendered@));
                    assert(rendering_ok(rendered@, matches@.len(), config));
                }
                Ok(compacted)
            } else {
                proof {
                    assert(rendering_ok(rendered@, matches@.len(), config));
                }
                Ok(rendered)
            }
        },
        None => Err(HqError::SelectorParse),
    }
}

} // verus!
