//! Trusted boundary to the HTML tree engine. The document tree is an
//! opaque, interior-mutable structure owned by the engine; each wrapper
//! here performs one engine operation and hands plain values back.

use vstd::prelude::*;
use kuchikiki::traits::TendrilSink;
use kuchikiki::traits::NodeIterator;

verus! {

#[verifier::external_type_specification]
#[verifier::external_body]
pub struct ExNodeRef(kuchikiki::NodeRef);

/// Whether a string compiles as a CSS selector group; compilation is a
/// function of the string alone.
pub uninterp spec fn selector_ok(s: Seq<char>) -> bool;

/// Relies on kuchikiki::parse_html: parses arbitrary markup into a
/// document tree, per the HTML5 parsing algorithm; it does not fail.
#[verifier::external_body]
pub(crate) fn parse_document(html: &str) -> kuchikiki::NodeRef {
    kuchikiki::parse_html().one(html)
}

/// Relies on NodeRef::select: compiles the selector group and yields the
/// matching elements of the subtree in tree order; it fails exactly when
/// the selector group does not compile.
#[verifier::external_body]
pub(crate) fn select_nodes(node: &kuchikiki::NodeRef, selectors: &str) -> (r: Option<
    Vec<kuchikiki::NodeRef>,
>)
    ensures
        (r is Some) == selector_ok(selectors@),
{
    match node.select(selectors) {
        Ok(it) => Some(it.map(|e| e.as_node().clone()).collect()),
        Err(()) => None,
    }
}

/// Relies on NodeRef::detach: removes the node and its subtree from the
/// tree it sits in.
#[verifier::external_body]
pub(crate) fn detach_node(node: &kuchikiki::NodeRef) {
    node.detach();
}

/// Relies on NodeRef::as_element and Attributes::get: the value of the
/// named attribute of an element node, if the node is an element and
/// carries it.
#[verifier::external_body]
pub(crate) fn get_attribute(node: &kuchikiki::NodeRef, name: &str) -> (r: Option<String>) {
    node.as_element().and_then(|el| el.attributes.borrow().get(name).map(|v| v.to_string()))
}

/// Relies on NodeRef::as_element and Attributes::insert: sets the named
/// attribute of an element node to the given value.
#[verifier::external_body]
pub(crate) fn set_attribute(node: &kuchikiki::NodeRef, name: &str, value: &str) {
    if let Some(el) = node.as_element() {
        el.attributes.borrow_mut().insert(name, value.to_string());
    }
}

/// Relies on NodeRef::inclusive_descendants: the node and its descendants
/// in tree order.
#[verifier::external_body]
pub(crate) fn descendant_nodes(node: &kuchikiki::NodeRef) -> Vec<kuchikiki::NodeRef> {
    node.inclusive_descendants().collect()
}

/// Relies on NodeRef::inclusive_descendants and text_nodes: the contents
/// of the text nodes of the subtree, in tree order.
#[verifier::external_body]
pub(crate) fn text_chunks(node: &kuchikiki::NodeRef) -> Vec<String> {
    node.inclusive_descendants().text_nodes().map(|t| t.borrow().clone()).collect()
}

/// Relies on NodeRef's ToString through the HTML serializer: the subtree
/// re-emitted as markup exactly as the tree holds it.
#[verifier::external_body]
pub(crate) fn node_markup(node: &kuchikiki::NodeRef) -> String {
    node.to_string()
}

/// Relies on NodeRef::traverse_inclusive: the subtree as a sequence of
/// edges, each node appearing once on entry (true) and once on exit.
#[verifier::external_body]
pub(crate) fn traverse_edges(node: &kuchikiki::NodeRef) -> Vec<(bool, kuchikiki::NodeRef)> {
    node.traverse_inclusive().map(|e| match e {
        kuchikiki::iter::NodeEdge::Start(n) => (true, n),
        kuchikiki::iter::NodeEdge::End(n) => (false, n),
    }).collect()
}

/// Relies on NodeRef::as_element: the local tag name, if the node is an
/// element.
#[verifier::external_body]
pub(crate) fn element_name(node: &kuchikiki::NodeRef) -> Option<String> {
    node.as_element().map(|el| el.name.local.to_string())
}

/// Relies on NodeRef::as_element and the attribute map: the attributes of
/// an element node as name and value pairs, in the map's stored order.
#[verifier::external_body]
pub(crate) fn element_attrs(node: &kuchikiki::NodeRef) -> Vec<(String, String)> {
    match node.as_element() {
        Some(el) => el.attributes.borrow().map.iter().map(
            |(k, a)| (k.local.to_string(), a.value.clone()),
        ).collect(),
        None => Vec::new(),
    }
}

/// Relies on NodeRef::as_text: the contents of a text node.
#[verifier::external_body]
pub(crate) fn text_of(node: &kuchikiki::NodeRef) -> Option<String> {
    node.as_text().map(|t| t.borrow().clone())
}

/// Relies on NodeRef::as_comment: the contents of a comment node.
#[verifier::external_body]
pub(crate) fn comment_of(node: &kuchikiki::NodeRef) -> Option<String> {
    node.as_comment().map(|t| t.borrow().clone())
}

} // verus!
