//! Typed projections of what a path expression selects in a parsed
//! document: a string, the first node, all nodes, the key/value pairs of a
//! node's children, and a page count.

use crate::decimal::{parse_u32_or, parse_u32_spec, u32_or};
use crate::pairs::{all_named, first_keys, kv_map, name_entries, named_pairs, KeyValues};
use crate::xml::{selects_no_namespace, child_entries, children_of, document_of, evaluate_nodes, evaluate_string, nodes_at, string_at};
use sxd_document::Package;
use sxd_xpath::nodeset::Node;
use vstd::prelude::*;

verus! {

/// Why an extraction failed.
#[derive(Debug)]
pub enum LogicError {
    /// The path expression does not parse or cannot be evaluated.
    XPath(sxd_xpath::Error),
    /// A child node has no tag name to serve as a key.
    MissingName,
    /// The rows-per-page count is zero, so there is no page count.
    ZeroRowsPerPage,
}

pub type LogicResult<T> = Result<T, LogicError>;

/// The string value of what `path` selects in the package's document;
/// `None` where the path is invalid.
pub open spec fn string_in(package: Package, path: Seq<char>) -> Option<Seq<char>> {
    string_at(document_of(&package), path)
}

/// What `path` selects in the package's document (see `nodes_at`).
pub open spec fn nodes_in<'d>(package: Package, path: Seq<char>) -> Option<Option<Seq<Node<'d>>>> {
    nodes_at(document_of(&package), path)
}

/// The text at `path`, or the empty string where the path is invalid.
pub open spec fn text_or_empty(text: Option<Seq<char>>) -> Seq<char> {
    match text {
        Some(t) => t,
        None => Seq::empty(),
    }
}

/// The string value of what `xpath` selects: for a node-set, the text of
/// its first node in document order, or the empty string when it is empty.
/// Fails only where the path expression is invalid.
pub fn extract_string(package: &Package, xpath: &str) -> (r: LogicResult<String>)
    ensures
        selects_no_namespace(xpath@) ==> (r is Ok <==> string_in(*package, xpath@) is Some),
        selects_no_namespace(xpath@) && r is Ok ==> r->Ok_0@ == string_in(*package, xpath@)->0,
        selects_no_namespace(xpath@) && nodes_in(*package, xpath@) == Some(Some(Seq::<Node>::empty()))
            ==> r is Ok && r->Ok_0@.len() == 0,
        r is Err ==> r->Err_0 is XPath,
{
    let document = package.as_document();
    match evaluate_string(&document, xpath) {
        Ok(text) => Ok(text),
        Err(e) => Err(LogicError::XPath(e)),
    }
}

/// The projection of the first node, where a non-empty node-set was
/// selected; `None` where nothing or a scalar was selected.
pub fn project_first<N, T, F: Fn(N) -> T>(nodes: Option<Vec<N>>, f: F) -> (r: Option<T>)
    requires
        forall|n: N| f.requires((n,)),
    ensures
        r is Some <==> (nodes is Some && nodes->0@.len() > 0),
        r is Some ==> f.ensures((nodes->0@[0],), r->0),
{
    match nodes {
        Some(v) => {
            let mut v = v;
            if v.len() > 0 {
                let first = v.remove(0);
                Some(f(first))
            } else {
                None
            }
        },
        None => None,
    }
}

/// The projection of a selected node-set; the empty sequence where the
/// path selected a scalar rather than nodes.
pub fn project_all<N, T, F: Fn(Vec<N>) -> Vec<T>>(nodes: Option<Vec<N>>, f: F) -> (r: Vec<T>)
    requires
        forall|v: Vec<N>| f.requires((v,)),
    ensures
        nodes is None ==> r@.len() == 0,
        nodes is Some ==> f.ensures((nodes->0,), r),
{
    match nodes {
        Some(v) => f(v),
        None => Vec::new(),
    }
}

/// Applies `f` to the first node, in document order, that `xpath` selects.
pub fn extract_node<T, F>(package: &Package, xpath: &str, f: F) -> (r: LogicResult<Option<T>>) where
    F: Fn(Node) -> T,

    requires
        forall|n: Node| f.requires((n,)),
    ensures
        r is Err ==> r->Err_0 is XPath,
        selects_no_namespace(xpath@) ==> (r is Ok <==> nodes_in(*package, xpath@) is Some),
        selects_no_namespace(xpath@) && r is Ok ==> (r->Ok_0 is Some <==> (nodes_in(*package, xpath@)->0 is Some
            && nodes_in(*package, xpath@)->0->0.len() > 0)),
        selects_no_namespace(xpath@) ==> (r matches Ok(Some(t)) ==> f.ensures(
            (nodes_in(*package, xpath@)->0->0[0],),
            t,
        )),
{
    let document = package.as_document();
    match evaluate_nodes(&document, xpath) {
        Ok(nodes) => Ok(project_first(nodes, f)),
        Err(e) => Err(LogicError::XPath(e)),
    }
}

/// Applies `f` to all nodes that `xpath` selects, in document order; a
/// path that selects a scalar gives the empty sequence.
pub fn extract_nodes<T, F>(package: &Package, xpath: &str, f: F) -> (r: LogicResult<Vec<T>>) where
    F: Fn(Vec<Node>) -> Vec<T>,

    requires
        forall|v: Vec<Node>| f.requires((v,)),
    ensures
        r is Err ==> r->Err_0 is XPath,
        selects_no_namespace(xpath@) ==> (r is Ok <==> nodes_in(*package, xpath@) is Some),
        selects_no_namespace(xpath@) && r is Ok && nodes_in(*package, xpath@)->0 is None
            ==> r->Ok_0@.len() == 0,
        selects_no_namespace(xpath@) && r is Ok && nodes_in(*package, xpath@)->0 is Some
            ==> exists|v: Vec<Node>|
            v@ == nodes_in(*package, xpath@)->0->0 && #[trigger] f.ensures((v,), r->Ok_0),
{
    let document = package.as_document();
    match evaluate_nodes(&document, xpath) {
        Ok(nodes) => {
            let ghost selected = nodes;
            let projected = project_all(nodes, f);
            let r: LogicResult<Vec<T>> = Ok(projected);
            proof {
                if selected is Some {
                    assert(f.ensures((selected->0,), r->Ok_0));
                }
            }
            r
        },
        Err(e) => Err(LogicError::XPath(e)),
    }
}

/// The tag name and text of each direct child of `node`, in document
/// order, duplicates kept; `MissingName` where a child has no tag name.
pub fn extract_kv_pairs(node: Node) -> (r: LogicResult<Vec<(String, String)>>)
    ensures
        r is Ok <==> all_named(children_of(node)),
        r is Err ==> r->Err_0 is MissingName,
        r is Ok ==> crate::pairs::pairs_view(r->Ok_0@) == named_pairs(children_of(node)),
{
    let entries = child_entries(&node);
    name_entries(&entries)
}

/// The direct children of `node` as a mapping from tag name to text, a
/// later child overwriting an earlier one of the same name; `MissingName`
/// where a child has no tag name.
pub fn extract_kv(node: Node) -> (r: LogicResult<KeyValues>)
    ensures
        r is Ok <==> all_named(children_of(node)),
        r is Err ==> r->Err_0 is MissingName,
        r is Ok ==> r->Ok_0.wf(),
        r is Ok ==> r->Ok_0.view() == kv_map(named_pairs(children_of(node))),
        r is Ok ==> r->Ok_0.keys() == first_keys(named_pairs(children_of(node))),
{
    match extract_kv_pairs(node) {
        Ok(pairs) => Ok(KeyValues::from_pairs(&pairs)),
        Err(e) => Err(e),
    }
}

/// The number of pages that `rows` rows fill at `per_page` rows a page.
pub open spec fn ceil_div(rows: int, per_page: int) -> int {
    rows / per_page + if rows % per_page != 0 {
        1int
    } else {
        0int
    }
}

/// The page count for the texts read from a document: the row count
/// defaults to 1 and the rows per page to `default_per_page` where their
/// text is not a `u32`; `None` where the rows per page come to zero.
pub open spec fn page_total(rows_text: Seq<char>, per_page_text: Seq<char>, default_per_page: u32) -> Option<int> {
    let per_page = u32_or(per_page_text, default_per_page);
    if per_page == 0 {
        None
    } else {
        Some(ceil_div(u32_or(rows_text, 1) as int, per_page as int))
    }
}

/// The least number of pages of `per_page` rows that hold `rows` rows.
pub proof fn lemma_ceil_div_least(rows: nat, per_page: nat)
    requires
        per_page > 0,
    ensures
        ceil_div(rows as int, per_page as int) * per_page >= rows,
        (ceil_div(rows as int, per_page as int) - 1) * per_page < rows || rows == 0,
        0 <= ceil_div(rows as int, per_page as int) <= rows,
{
    let q = rows as int / per_page as int;
    let m = rows as int % per_page as int;
    assert(rows == per_page * q + m && 0 <= m < per_page) by {
        vstd::arithmetic::div_mod::lemma_fundamental_div_mod(rows as int, per_page as int);
    }
    assert(q >= 0) by (nonlinear_arith)
        requires rows == per_page * q + m, 0 <= m < per_page, rows >= 0;
    if m != 0 {
        assert((q + 1) * per_page >= rows && q * per_page < rows && q + 1 <= rows) by (nonlinear_arith)
            requires rows == per_page * q + m, 0 < m < per_page, q >= 0;
    } else {
        assert(q * per_page >= rows && ((q - 1) * per_page < rows || rows == 0) && q <= rows) by (nonlinear_arith)
            requires rows == per_page * q + m, m == 0, per_page > 0, q >= 0;
    }
}

/// Where the rows-per-page text is no `u32`, the pages are counted at the
/// default rows per page.
pub proof fn lemma_pages_default_per_page(rows_text: Seq<char>, per_page_text: Seq<char>, default_per_page: u32)
    requires
        parse_u32_spec(per_page_text) is None,
    ensures
        page_total(rows_text, per_page_text, default_per_page) == (if default_per_page == 0 {
            None
        } else {
            Some(ceil_div(u32_or(rows_text, 1) as int, default_per_page as int))
        }),
{
}

/// Where the row-count text is no `u32`, one row is counted.
pub proof fn lemma_pages_default_rows(rows_text: Seq<char>, per_page_text: Seq<char>, default_per_page: u32)
    requires
        parse_u32_spec(rows_text) is None,
        u32_or(per_page_text, default_per_page) > 0,
    ensures
        page_total(rows_text, per_page_text, default_per_page) == Some(1int),
{
    let per_page = u32_or(per_page_text, default_per_page) as int;
    if per_page > 1 {
        vstd::arithmetic::div_mod::lemma_small_mod(1, per_page as nat);
        vstd::arithmetic::div_mod::lemma_basic_div(1, per_page);
    } else {
        assert(1int / 1int == 1 && 1int % 1int == 0);
    }
}

/// No rows fill no pages, whatever the rows per page.
pub proof fn lemma_no_rows_no_pages(rows_text: Seq<char>, per_page_text: Seq<char>, default_per_page: u32)
    requires
        parse_u32_spec(rows_text) == Some(0u32),
        u32_or(per_page_text, default_per_page) > 0,
    ensures
        page_total(rows_text, per_page_text, default_per_page) == Some(0int),
{
    let per_page = u32_or(per_page_text, default_per_page) as int;
    vstd::arithmetic::div_mod::lemma_small_mod(0, per_page as nat);
    vstd::arithmetic::div_mod::lemma_basic_div(0, per_page);
}

/// `rows` rows at `rows_per_page` a page: the ceiling of their quotient,
/// the least count of pages that holds them all.
pub fn page_count(rows: u32, rows_per_page: u32) -> (r: LogicResult<u32>)
    ensures
        r is Err <==> rows_per_page == 0,
        r is Err ==> r->Err_0 is ZeroRowsPerPage,
        r is Ok ==> r->Ok_0 == ceil_div(rows as int, rows_per_page as int),
        r is Ok ==> r->Ok_0 * rows_per_page >= rows,
        r is Ok && rows > 0 ==> (r->Ok_0 - 1) * rows_per_page < rows,
{
    if rows_per_page == 0 {
        return Err(LogicError::ZeroRowsPerPage);
    }
    proof {
        lemma_ceil_div_least(rows as nat, rows_per_page as nat);
    }
    let extra: u32 = if rows % rows_per_page != 0 { 1 } else { 0 };
    Ok(rows / rows_per_page + extra)
}

/// The page count for the texts read from a document, the row count first
/// and the rows per page second, each defaulting where it does not parse.
pub fn pages_from_text(rows_text: &str, rows_per_page_text: &str, default_per_page: u32) -> (r: LogicResult<u32>)
    ensures
        r is Ok <==> page_total(rows_text@, rows_per_page_text@, default_per_page) is Some,
        r is Err ==> r->Err_0 is ZeroRowsPerPage,
        r is Ok ==> r->Ok_0 == page_total(rows_text@, rows_per_page_text@, default_per_page)->0,
{
    let rows = parse_u32_or(rows_text, 1);
    let rows_per_page = parse_u32_or(rows_per_page_text, default_per_page);
    page_count(rows, rows_per_page)
}

/// The number of pages that a document's row count fills, read from
/// `rows_xpath` and `rows_per_page_xpath` in that order.
pub fn extract_pages(
    package: &Package,
    rows_xpath: &str,
    rows_per_page_xpath: &str,
    default_per_page: u32,
) -> (r: LogicResult<u32>)
    ensures
        selects_no_namespace(rows_xpath@) && selects_no_namespace(rows_per_page_xpath@) ==> ((r is Err
            && r->Err_0 is XPath) <==> (string_in(*package, rows_xpath@) is None || string_in(
            *package,
            rows_per_page_xpath@,
        ) is None)),
        selects_no_namespace(rows_xpath@) && selects_no_namespace(rows_per_page_xpath@)
            && string_in(*package, rows_xpath@) is Some && string_in(*package, rows_per_page_xpath@) is Some
            ==> ({
            let total = page_total(
                string_in(*package, rows_xpath@)->0,
                string_in(*package, rows_per_page_xpath@)->0,
                default_per_page,
            );
            &&& (r is Ok <==> total is Some)
            &&& (r is Ok ==> r->Ok_0 == total->0)
            &&& (r is Err ==> r->Err_0 is ZeroRowsPerPage)
        }),
{
    let rows_text = extract_string(package, rows_xpath)?;
    let rows_per_page_text = extract_string(package, rows_per_page_xpath)?;
    pages_from_text(rows_text.as_str(), rows_per_page_text.as_str(), default_per_page)
}

/// Extraction is repeatable: two extractions with one path off the
/// namespace axis from one unchanged document agree, for strings and for
/// selected nodes alike.
pub proof fn lemma_extraction_repeatable<'d>(
    package: Package,
    path: Seq<char>,
    first_text: Option<Seq<char>>,
    second_text: Option<Seq<char>>,
    first_nodes: Option<Option<Seq<Node<'d>>>>,
    second_nodes: Option<Option<Seq<Node<'d>>>>,
)
    requires
        selects_no_namespace(path),
        first_text == string_in(package, path),
        second_text == string_in(package, path),
        first_nodes == nodes_in::<'d>(package, path),
        second_nodes == nodes_in::<'d>(package, path),
    ensures
        first_text == second_text,
        first_nodes == second_nodes,
{
}

} // verus!
