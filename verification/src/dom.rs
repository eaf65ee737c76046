//! Trusted boundary around the HTML parsing crate. A parsed document is
//! opaque to the verifier; the queries the adapters make are named by the
//! spec functions below, and every adapter contract speaks of those names.
//! Each query is a function of the document value and its arguments alone,
//! and nodes are handed around by their index in the document.

use select::document::Document;
use select::predicate::And;
use select::predicate::Attr;
use select::predicate::Class;
use select::predicate::Name;
use select::predicate::Not;
use select::predicate::Predicate;
use vstd::prelude::*;

verus! {

/// An HTML document as select's parser produced it.
#[verifier::external_type_specification]
#[verifier::external_body]
pub struct ExDocument(Document);

/// The node indexes of the elements bearing the given class, in document
/// order.
pub uninterp spec fn class_nodes(d: Document, class: Seq<char>) -> Seq<usize>;

/// The first element named `name` among the descendants of `node`.
pub uninterp spec fn first_name_in(d: Document, node: usize, name: Seq<char>) -> Option<usize>;

/// The first element named `inner` inside an element named `outer`, among
/// the descendants of `node`.
pub uninterp spec fn first_name_name_in(
    d: Document,
    node: usize,
    outer: Seq<char>,
    inner: Seq<char>,
) -> Option<usize>;

/// The first element named `name` inside an element bearing `class`, among
/// the descendants of `node`.
pub uninterp spec fn first_class_name_in(
    d: Document,
    node: usize,
    class: Seq<char>,
    name: Seq<char>,
) -> Option<usize>;

/// The first element named `name` inside an element whose attribute `attr`
/// equals `value`, among the descendants of `node`.
pub uninterp spec fn first_attr_name_in(
    d: Document,
    node: usize,
    attr: Seq<char>,
    value: Seq<char>,
    name: Seq<char>,
) -> Option<usize>;

/// The first element whose attribute `attr` equals `value`, among the
/// descendants of `node`.
pub uninterp spec fn first_attr_in(d: Document, node: usize, attr: Seq<char>, value: Seq<char>) -> Option<
    usize,
>;

/// The first element named `name` that also bears `class`, among the
/// descendants of `node`.
pub uninterp spec fn first_name_class_in(
    d: Document,
    node: usize,
    name: Seq<char>,
    class: Seq<char>,
) -> Option<usize>;

/// The first element named `name` not bearing `class`, among the
/// descendants of `node`.
pub uninterp spec fn first_name_not_class_in(
    d: Document,
    node: usize,
    name: Seq<char>,
    class: Seq<char>,
) -> Option<usize>;

/// The combined text content of the node at the given index, or nothing
/// when the document has no such index.
pub uninterp spec fn node_text(d: Document, node: usize) -> Option<Seq<char>>;

/// The value of the attribute on the node at the given index.
pub uninterp spec fn node_attr(d: Document, node: usize, attr: Seq<char>) -> Option<Seq<char>>;

/// Relies on select's Document::from: parses an HTML page. The result is
/// opaque; the adapters read it only through the queries below.
#[verifier::external_body]
pub fn parse_document(html: &str) -> Document {
    Document::from(html)
}

/// Relies on select's Document::find with a Class predicate: yields the
/// elements bearing the class, in document order, as node indexes.
#[verifier::external_body]
pub fn find_by_class(d: &Document, class: &str) -> (r: Vec<usize>)
    ensures
        r@ == class_nodes(*d, class@),
{
    d.find(Class(class)).map(|n| n.index()).collect()
}

/// Relies on select's Node::find with a Name predicate: the first matching
/// descendant, by node index.
#[verifier::external_body]
pub fn find_first_name(d: &Document, node: usize, name: &str) -> (r: Option<usize>)
    ensures
        r == first_name_in(*d, node, name@),
{
    match d.nth(node) {
        Some(n) => n.find(Name(name)).next().map(|m| m.index()),
        None => None,
    }
}

/// Relies on select's Node::find with Name(outer).descendant(Name(inner)).
#[verifier::external_body]
pub fn find_first_name_name(d: &Document, node: usize, outer: &str, inner: &str) -> (r: Option<
    usize,
>)
    ensures
        r == first_name_name_in(*d, node, outer@, inner@),
{
    match d.nth(node) {
        Some(n) => n.find(Name(outer).descendant(Name(inner))).next().map(|m| m.index()),
        None => None,
    }
}

/// Relies on select's Node::find with Class(class).descendant(Name(name)).
#[verifier::external_body]
pub fn find_first_class_name(d: &Document, node: usize, class: &str, name: &str) -> (r: Option<
    usize,
>)
    ensures
        r == first_class_name_in(*d, node, class@, name@),
{
    match d.nth(node) {
        Some(n) => n.find(Class(class).descendant(Name(name))).next().map(|m| m.index()),
        None => None,
    }
}

/// Relies on select's Node::find with Attr(attr, value).descendant(Name(name)).
#[verifier::external_body]
pub fn find_first_attr_name(
    d: &Document,
    node: usize,
    attr: &str,
    value: &str,
    name: &str,
) -> (r: Option<usize>)
    ensures
        r == first_attr_name_in(*d, node, attr@, value@, name@),
{
    match d.nth(node) {
        Some(n) => n.find(Attr(attr, value).descendant(Name(name))).next().map(|m| m.index()),
        None => None,
    }
}

/// Relies on select's Node::find with an Attr predicate.
#[verifier::external_body]
pub fn find_first_attr(d: &Document, node: usize, attr: &str, value: &str) -> (r: Option<usize>)
    ensures
        r == first_attr_in(*d, node, attr@, value@),
{
    match d.nth(node) {
        Some(n) => n.find(Attr(attr, value)).next().map(|m| m.index()),
        None => None,
    }
}

/// Relies on select's Node::find with And(Name(name), Class(class)).
#[verifier::external_body]
pub fn find_first_name_class(d: &Document, node: usize, name: &str, class: &str) -> (r: Option<
    usize,
>)
    ensures
        r == first_name_class_in(*d, node, name@, class@),
{
    match d.nth(node) {
        Some(n) => n.find(And(Name(name), Class(class))).next().map(|m| m.index()),
        None => None,
    }
}

/// Relies on select's Node::find with And(Name(name), Not(Class(class))).
#[verifier::external_body]
pub fn find_first_name_not_class(d: &Document, node: usize, name: &str, class: &str) -> (r: Option<
    usize,
>)
    ensures
        r == first_name_not_class_in(*d, node, name@, class@),
{
    match d.nth(node) {
        Some(n) => n.find(And(Name(name), Not(Class(class)))).next().map(|m| m.index()),
        None => None,
    }
}

/// Relies on select's Node::text: the combined text of the node and its
/// children.
#[verifier::external_body]
pub fn text_of(d: &Document, node: usize) -> (r: Option<String>)
    ensures
        r.deep_view() == node_text(*d, node),
{
    d.nth(node).map(|n| n.text())
}

/// Relies on select's Node::attr: the node's value for the attribute.
#[verifier::external_body]
pub fn attr_of(d: &Document, node: usize, attr: &str) -> (r: Option<String>)
    ensures
        r.deep_view() == node_attr(*d, node, attr@),
{
    match d.nth(node) {
        Some(n) => n.attr(attr).map(|v| v.to_owned()),
        None => None,
    }
}

} // verus!
