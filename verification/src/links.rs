//! Link rewriting: reference attributes whose value is relative are
//! rewritten in place to the absolute URL obtained by resolving them
//! against the run's base URL; absolute, empty and unresolvable values
//! are left untouched.

use vstd::prelude::*;
use crate::dom::{select_nodes, get_attribute, set_attribute, descendant_nodes};

verus! {

/// Whether a string parses as an absolute URL; parsing is a function of
/// the string alone.
pub uninterp spec fn url_parse_ok(s: Seq<char>) -> bool;

/// The serialization of the reference resolved against the base, when the
/// base parses and the resolution succeeds; a function of the two strings
/// alone.
pub uninterp spec fn resolve_of(base: Seq<char>, rel: Seq<char>) -> Option<Seq<char>>;

/// Relies on url::Url::parse: an absolute URL string parses; a relative
/// reference does not.
#[verifier::external_body]
fn is_absolute_url(s: &str) -> (r: bool)
    ensures
        r == url_parse_ok(s@),
{
    url::Url::parse(s).is_ok()
}

/// Relies on url::Url::parse, url::Url::join and the URL serialization:
/// the resolution of a reference against a base URL, both given as
/// strings.
#[verifier::external_body]
fn resolve_url(base: &str, rel: &str) -> (r: Option<String>)
    ensures
        (r is Some) == (resolve_of(base@, rel@) is Some),
        r is Some ==> r->Some_0@ == resolve_of(base@, rel@)->Some_0,
{
    match url::Url::parse(base) {
        Ok(b) => match b.join(rel) {
            Ok(u) => Some(String::from(u)),
            Err(_) => None,
        },
        Err(_) => None,
    }
}

/// What rewriting does to one attribute value: an empty value and a value
/// that is already an absolute URL stay untouched, any other value is
/// replaced by its resolution against the base when that succeeds.
pub open spec fn rewrite_spec(base: Seq<char>, v: Seq<char>) -> Option<Seq<char>> {
    if v.len() == 0 {
        None
    } else if url_parse_ok(v) {
        None
    } else {
        resolve_of(base, v)
    }
}

/// The replacement for one attribute value, if it is to change.
pub fn rewritten_value(base: &str, value: &str) -> (r: Option<String>)
    ensures
        (r is Some) == (rewrite_spec(base@, value@) is Some),
        r is Some ==> r->Some_0@ == rewrite_spec(base@, value@)->Some_0,
{
    if value.is_empty() {
        None
    } else if is_absolute_url(value) {
        None
    } else {
        resolve_url(base, value)
    }
}

/// Rewriting never touches a value that is already an absolute URL.
pub proof fn absolute_value_not_rewritten(base: Seq<char>, v: Seq<char>)
    requires
        url_parse_ok(v),
    ensures
        rewrite_spec(base, v) is None,
{
}

/// Rewriting never touches an empty value.
pub proof fn empty_value_not_rewritten(base: Seq<char>, v: Seq<char>)
    requires
        v.len() == 0,
    ensures
        rewrite_spec(base, v) is None,
{
}

/// Rewrite one reference attribute of one node in place, if it changes.
fn rewrite_attr(node: &kuchikiki::NodeRef, base: &str, name: &str) {
    match get_attribute(node, name) {
        Some(v) => {
            match rewritten_value(base, v.as_str()) {
                Some(new_value) => set_attribute(node, name, new_value.as_str()),
                None => (),
            }
        },
        None => (),
    }
}

/// Rewrite the reference attributes of the subtree in place: every
/// relative link or source reference on the root and its descendants is
/// resolved against the base.
pub fn rewrite_links(node: &kuchikiki::NodeRef, base: &str) {
    let nodes = descendant_nodes(node);
    let mut i: usize = 0;
    while i < nodes.len()
        decreases nodes@.len() - i,
    {
        rewrite_attr(&nodes[i], base, "href");
        rewrite_attr(&nodes[i], base, "src");
        i = i + 1;
    }
}

/// Find a base declaration inside the document: the reference attribute
/// of the first base element, when it parses as an absolute URL.
pub fn detect_base(doc: &kuchikiki::NodeRef) -> (r: Option<String>)
    ensures
        r is Some ==> url_parse_ok(r->Some_0@),
{
    match select_nodes(doc, "base") {
        Some(nodes) => {
            if nodes.len() > 0 {
                match get_attribute(&nodes[0], "href") {
                    Some(href) => {
                        if is_absolute_url(href.as_str()) {
                            Some(href)
                        } else {
                            None
                        }
                    },
                    None => None,
                }
            } else {
                None
            }
        },
        None => None,
    }
}

/// The base URL of a run: a base detected in the document wins; otherwise
/// the explicit base string is used when it parses as an absolute URL;
/// otherwise there is none and link rewriting is skipped.
fn choose_base(detected: Option<String>, explicit: &Option<String>) -> (r: Option<String>)
    requires
        detected matches Some(d) ==> url_parse_ok(d@),
    ensures
        r matches Some(b) ==> url_parse_ok(b@),
        detected matches Some(d) ==> (r matches Some(b) && b@ == d@),
        detected is None && (explicit matches Some(e) && url_parse_ok(e@)) ==> (r matches Some(b)
            && b@ == explicit->Some_0@),
        detected is None && !(explicit matches Some(e) && url_parse_ok(e@)) ==> r is None,
{
    match detected {
        Some(d) => Some(d),
        None => match explicit {
            Some(e) => {
                if is_absolute_url(e.as_str()) {
                    Some(e.clone())
                } else {
                    None
                }
            },
            None => None,
        },
    }
}

/// Resolve the base URL for a run from the configuration and the parsed
/// document: detection is attempted only when asked for; a detected base
/// wins over the explicit one; an unparseable explicit base silently
/// yields none. Any base handed out parses as an absolute URL.
pub fn resolve_base(doc: &kuchikiki::NodeRef, explicit: &Option<String>, detect: bool) -> (r:
    Option<String>)
    ensures
        r matches Some(b) ==> url_parse_ok(b@),
        !detect && !(explicit matches Some(e) && url_parse_ok(e@)) ==> r is None,
        !detect && (explicit matches Some(e) && url_parse_ok(e@)) ==> (r matches Some(b) && b@
            == explicit->Some_0@),
{
    let detected = if detect {
        detect_base(doc)
    } else {
        None
    };
    choose_base(detected, explicit)
}

} // verus!
