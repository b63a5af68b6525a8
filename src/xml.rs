//! The parsed-document types of sxd_document and sxd_xpath, and the calls
//! into them that the extraction functions make. Nothing in this library
//! modifies a document, and the names below hold only while nobody does.
//! Evaluating a path is then a function of the document and the path, with
//! one exception: sxd_xpath orders namespace nodes by hash, not by position,
//! so what a path on the namespace axis gives may differ from one call to
//! the next. The evaluation wrappers state their results only for paths
//! that do not name that axis.

use sxd_document::dom::Document;
use sxd_document::Package;
use sxd_xpath::nodeset::Node;
use vstd::prelude::*;

verus! {

#[verifier::external_type_specification]
#[verifier::external_body]
pub struct ExPackage(Package);

#[verifier::external_type_specification]
#[verifier::external_body]
pub struct ExDocument<'d>(Document<'d>);

#[verifier::external_type_specification]
#[verifier::external_body]
pub struct ExNode<'d>(Node<'d>);

#[verifier::external_type_specification]
#[verifier::external_body]
pub struct ExXPathError(sxd_xpath::Error);

/// The path text holds the word `namespace` at `i`.
pub open spec fn namespace_at(path: Seq<char>, i: int) -> bool {
    &&& 0 <= i
    &&& i + 9 <= path.len()
    &&& path[i] == 'n'
    &&& path[i + 1] == 'a'
    &&& path[i + 2] == 'm'
    &&& path[i + 3] == 'e'
    &&& path[i + 4] == 's'
    &&& path[i + 5] == 'p'
    &&& path[i + 6] == 'a'
    &&& path[i + 7] == 'c'
    &&& path[i + 8] == 'e'
}

/// The path text nowhere holds the word `namespace`, so it cannot select
/// namespace nodes (the namespace axis is the only way to reach them).
pub open spec fn selects_no_namespace(path: Seq<char>) -> bool {
    forall|i: int| !#[trigger] namespace_at(path, i)
}

/// A path text without the letter `n` cannot name the namespace axis.
pub proof fn lemma_no_n_no_namespace(path: Seq<char>)
    requires
        forall|i: int| 0 <= i < path.len() ==> path[i] != 'n',
    ensures
        selects_no_namespace(path),
{
    assert forall|i: int| !#[trigger] namespace_at(path, i) by {
        if 0 <= i < path.len() {
            assert(path[i] != 'n');
        }
    }
}

/// The read-only handle on a package's tree.
pub uninterp spec fn document_of(package: &Package) -> Document;

/// The XPath string value of what `path` selects in `document`; `None`
/// where the path does not parse or cannot be run. Meant for paths off the
/// namespace axis.
pub uninterp spec fn string_at(document: Document, path: Seq<char>) -> Option<Seq<char>>;

/// What `path` selects in `document`: `None` where the path does not parse
/// or cannot be run; `Some(None)` where it gives a scalar; `Some(Some(v))`
/// where it gives a node-set, `v` in document order. Meant for paths off
/// the namespace axis.
pub uninterp spec fn nodes_at(document: Document, path: Seq<char>) -> Option<Option<Seq<Node>>>;

/// The tag name (absent for nodes without one) and text of each direct
/// child of `node`, in document order.
pub uninterp spec fn children_of(node: Node) -> Seq<(Option<Seq<char>>, Seq<char>)>;

/// A name and a text as character sequences.
pub open spec fn entries_view(entries: Seq<(Option<String>, String)>) -> Seq<(Option<Seq<char>>, Seq<char>)> {
    entries.map_values(
        |e: (Option<String>, String)|
            (
                match e.0 {
                    Some(name) => Some(name@),
                    None => None,
                },
                e.1@,
            ),
    )
}

/// Relies on sxd_document's `Package::as_document`: a handle on the
/// package's storage, the same for the same package.
pub assume_specification[ Package::as_document ](package: &Package) -> (r: Document<'_>)
    ensures
        r == document_of(package),
;

/// Relies on `sxd_xpath::evaluate_xpath` and `Value::into_string`: the
/// string value of what `path` selects, or the evaluator's error. The
/// string value of an empty node-set is the empty string. Stated only for
/// paths off the namespace axis.
#[verifier::external_body]
pub(crate) fn evaluate_string<'d>(document: &'d Document<'d>, path: &str) -> (r: Result<String, sxd_xpath::Error>)
    ensures
        selects_no_namespace(path@) ==> (r is Ok <==> string_at(*document, path@) is Some),
        selects_no_namespace(path@) && r is Ok ==> r->Ok_0@ == string_at(*document, path@)->0,
        selects_no_namespace(path@) && nodes_at(*document, path@) == Some(Some(Seq::<Node>::empty()))
            ==> r is Ok && r->Ok_0@.len() == 0,
{
    let value = sxd_xpath::evaluate_xpath(document, path);
    value.map(|v| v.into_string())
}

/// Relies on `sxd_xpath::evaluate_xpath` and `Nodeset::document_order`: the
/// selected nodes in document order where the path gives a node-set, `None`
/// where it gives a boolean, a number or a string. Stated only for paths
/// off the namespace axis.
#[verifier::external_body]
pub(crate) fn evaluate_nodes<'d>(document: &'d Document<'d>, path: &str) -> (r: Result<Option<Vec<Node<'d>>>, sxd_xpath::Error>)
    ensures
        selects_no_namespace(path@) ==> (r is Ok <==> nodes_at(*document, path@) is Some),
        selects_no_namespace(path@) && r is Ok ==> (r->Ok_0 is Some <==> nodes_at(*document, path@)->0 is Some),
        selects_no_namespace(path@) ==> (r matches Ok(Some(v)) ==> v@ == nodes_at(*document, path@)->0->0),
{
    match sxd_xpath::evaluate_xpath(document, path)? {
        sxd_xpath::Value::Nodeset(set) => Ok(Some(set.document_order())),
        sxd_xpath::Value::Boolean(_) => Ok(None),
        sxd_xpath::Value::Number(_) => Ok(None),
        sxd_xpath::Value::String(_) => Ok(None),
    }
}

/// Relies on sxd_xpath's `Node::children`, `Node::expanded_name`,
/// `Node::string_value` and sxd_document's `QName::local_part`: the tag
/// name and text of each direct child, in document order.
#[verifier::external_body]
pub(crate) fn child_entries(node: &Node) -> (r: Vec<(Option<String>, String)>)
    ensures
        entries_view(r@) == children_of(*node),
{
    node.children()
        .into_iter()
        .map(|c| (c.expanded_name().map(|q| q.local_part().to_string()), c.string_value()))
        .collect()
}

} // verus!
