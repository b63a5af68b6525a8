use logic::extract::{
    extract_kv, extract_kv_pairs, extract_node, extract_nodes, extract_pages, extract_string,
    page_count, pages_from_text, project_all, project_first, LogicError,
};
use logic::pairs::{name_entries, KeyValues};
use sxd_document::parser::parse;
use sxd_document::Package;
use sxd_xpath::nodeset::Node;

fn doc(xml: &str) -> Package {
    parse(xml).expect("test document parses")
}

fn texts(nodes: Vec<Node>) -> Vec<String> {
    nodes.into_iter().map(|n| n.string_value()).collect()
}

fn pairs(items: &[(&str, &str)]) -> Vec<(String, String)> {
    items.iter().map(|(k, v)| (k.to_string(), v.to_string())).collect()
}

#[test]
fn extract_string_reads_text_or_empty() {
    let package = doc("<root><a>hello</a><a>second</a></root>");
    assert_eq!(extract_string(&package, "/root/a").unwrap(), "hello");
    assert_eq!(extract_string(&package, "/root/a[2]").unwrap(), "second");
    assert_eq!(extract_string(&package, "/root/missing").unwrap(), "");
}

#[test]
fn extract_string_fails_on_invalid_path() {
    let package = doc("<root/>");
    assert!(matches!(extract_string(&package, "/root["), Err(LogicError::XPath(_))));
    assert!(matches!(extract_string(&package, ""), Err(LogicError::XPath(_))));
}

#[test]
fn extract_node_projects_first_in_document_order() {
    let package = doc("<root><item>1</item><item>2</item></root>");
    let first = extract_node(&package, "/root/item", |n| n.string_value()).unwrap();
    assert_eq!(first, Some("1".to_string()));
    let none = extract_node(&package, "/root/other", |n| n.string_value()).unwrap();
    assert_eq!(none, None);
    let scalar = extract_node(&package, "count(/root/item)", |n| n.string_value()).unwrap();
    assert_eq!(scalar, None);
}

#[test]
fn extract_nodes_projects_all_in_order() {
    let package = doc("<root><item>1</item><item>2</item><item>3</item></root>");
    let all = extract_nodes(&package, "/root/item", |ns| {
        ns.into_iter().map(|n| n.string_value()).collect::<Vec<_>>()
    })
    .unwrap();
    assert_eq!(all, vec!["1", "2", "3"]);
}

#[test]
fn extract_nodes_on_scalar_is_empty() {
    let package = doc("<root><item>1</item></root>");
    let got = extract_nodes(&package, "count(/root/item)", |ns| {
        ns.into_iter().map(|n| n.string_value()).collect::<Vec<_>>()
    })
    .unwrap();
    assert!(got.is_empty());
    let got = extract_nodes(&package, "string(/root/item)", |ns| {
        ns.into_iter().map(|n| n.string_value()).collect::<Vec<_>>()
    })
    .unwrap();
    assert!(got.is_empty());
}

#[test]
fn extraction_is_repeatable() {
    let package = doc("<root><item>x</item><item>y</item></root>");
    let a = extract_string(&package, "/root/item[2]").unwrap();
    let b = extract_string(&package, "/root/item[2]").unwrap();
    assert_eq!(a, b);
    let first = extract_nodes(&package, "/root/item", texts).unwrap();
    let second = extract_nodes(&package, "/root/item", texts).unwrap();
    assert_eq!(first, second);
    let n1 = extract_node(&package, "/root/item", |n| n.string_value()).unwrap();
    let n2 = extract_node(&package, "/root/item", |n| n.string_value()).unwrap();
    assert_eq!(n1, n2);
}

#[test]
fn project_first_and_all_on_plain_values() {
    assert_eq!(project_first(Some(vec![3, 4]), |n: i32| n * 2), Some(6));
    assert_eq!(project_first(Some(Vec::<i32>::new()), |n: i32| n * 2), None);
    assert_eq!(project_first(None, |n: i32| n * 2), None);
    assert_eq!(project_all(Some(vec![1, 2]), |v: Vec<i32>| v.into_iter().rev().collect()), vec![2, 1]);
    assert!(project_all(None, |v: Vec<i32>| v).is_empty());
}

#[test]
fn extract_kv_maps_children() {
    let package = doc("<root><a>1</a><b>2</b></root>");
    let kv = extract_node(&package, "/root", extract_kv).unwrap().unwrap().unwrap();
    assert_eq!(kv.len(), 2);
    assert_eq!(kv.get("a"), Some("1".to_string()));
    assert_eq!(kv.get("b"), Some("2".to_string()));
    assert_eq!(kv.get("c"), None);
}

#[test]
fn extract_kv_later_duplicate_wins() {
    let package = doc("<root><a>1</a><a>2</a></root>");
    let kv = extract_node(&package, "/root", extract_kv).unwrap().unwrap().unwrap();
    assert_eq!(kv.len(), 1);
    assert_eq!(kv.get("a"), Some("2".to_string()));
}

#[test]
fn extract_kv_pairs_keeps_duplicates() {
    let package = doc("<root><a>1</a><a>2</a></root>");
    let got = extract_node(&package, "/root", extract_kv_pairs).unwrap().unwrap().unwrap();
    assert_eq!(got, pairs(&[("a", "1"), ("a", "2")]));
}

#[test]
fn extract_kv_refuses_unnamed_child() {
    let package = doc("<root>loose text<a>1</a></root>");
    let got = extract_node(&package, "/root", extract_kv).unwrap().unwrap();
    assert!(matches!(got, Err(LogicError::MissingName)));
    let got = extract_node(&package, "/root", extract_kv_pairs).unwrap().unwrap();
    assert!(matches!(got, Err(LogicError::MissingName)));
}

#[test]
fn name_entries_needs_every_name() {
    let named = vec![(Some("a".to_string()), "1".to_string()), (Some("b".to_string()), "2".to_string())];
    assert_eq!(name_entries(&named).unwrap(), pairs(&[("a", "1"), ("b", "2")]));
    let unnamed = vec![(Some("a".to_string()), "1".to_string()), (None, "x".to_string())];
    assert!(matches!(name_entries(&unnamed), Err(LogicError::MissingName)));
}

#[test]
fn key_values_from_pairs() {
    let kv = KeyValues::from_pairs(&pairs(&[("a", "1"), ("b", "2"), ("a", "3")]));
    assert_eq!(kv.len(), 2);
    assert_eq!(kv.get("a"), Some("3".to_string()));
    assert_eq!(kv.get("b"), Some("2".to_string()));
    let empty = KeyValues::from_pairs(&Vec::new());
    assert_eq!(empty.len(), 0);
    assert_eq!(empty.get("a"), None);
}

#[test]
fn page_count_is_ceiling_division() {
    assert_eq!(page_count(0, 5).unwrap(), 0);
    assert_eq!(page_count(10, 5).unwrap(), 2);
    assert_eq!(page_count(11, 5).unwrap(), 3);
    assert_eq!(page_count(1, 20).unwrap(), 1);
    assert_eq!(page_count(u32::MAX, 1).unwrap(), u32::MAX);
    assert_eq!(page_count(u32::MAX, 2).unwrap(), 2147483648);
    assert!(matches!(page_count(3, 0), Err(LogicError::ZeroRowsPerPage)));
}

#[test]
fn pages_from_text_defaults() {
    assert_eq!(pages_from_text("10", "5", 20).unwrap(), 2);
    assert_eq!(pages_from_text("11", "", 5).unwrap(), 3);
    assert_eq!(pages_from_text("11", "many", 5).unwrap(), 3);
    assert_eq!(pages_from_text("", "", 20).unwrap(), 1);
    assert_eq!(pages_from_text("0", "5", 20).unwrap(), 0);
    assert!(matches!(pages_from_text("3", "", 0), Err(LogicError::ZeroRowsPerPage)));
    assert!(matches!(pages_from_text("3", "0", 7), Err(LogicError::ZeroRowsPerPage)));
}

#[test]
fn extract_pages_reads_document() {
    let package = doc("<root><rows>11</rows><per>5</per></root>");
    assert_eq!(extract_pages(&package, "/root/rows", "/root/per", 20).unwrap(), 3);
    assert_eq!(extract_pages(&package, "/root/rows", "/root/none", 20).unwrap(), 1);
    assert_eq!(extract_pages(&package, "/root/rows", "/root/none", 4).unwrap(), 3);
    let empty = doc("<root><rows>0</rows><per>5</per></root>");
    assert_eq!(extract_pages(&empty, "/root/rows", "/root/per", 20).unwrap(), 0);
    let ten = doc("<root><rows>10</rows><per>5</per></root>");
    assert_eq!(extract_pages(&ten, "/root/rows", "/root/per", 20).unwrap(), 2);
    assert!(matches!(
        extract_pages(&package, "/root/rows[", "/root/per", 20),
        Err(LogicError::XPath(_))
    ));
    assert!(matches!(
        extract_pages(&package, "/root/rows", "/root/per", 0),
        Ok(3)
    ));
}

#[test]
fn key_values_keep_first_key_order() {
    let kv = KeyValues::from_pairs(&pairs(&[("b", "1"), ("a", "2"), ("b", "3")]));
    assert_eq!(kv.pairs(), &pairs(&[("b", "3"), ("a", "2")]));
}

#[test]
fn namespace_axis_selects_in_scope_namespaces() {
    let package = doc("<root xmlns:a=\"urn:a\"/>");
    let mut got = extract_nodes(&package, "/root/namespace::*", texts).unwrap();
    got.sort();
    assert_eq!(got, vec!["http://www.w3.org/XML/1998/namespace", "urn:a"]);
}
