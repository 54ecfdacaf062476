use graphql_recover::build_id::get_current_build_id;
use graphql_recover::errors::{Error, Mismatch};
use graphql_recover::operations::{extract_operations, get_graphql_queries, join_documents,
    normalize_document};
use graphql_recover::tree::{SynKind, SynNode, TokKind};

fn node(kind: SynKind, text: &str, children: Vec<SynNode>) -> SynNode {
    SynNode { kind, first_token: TokKind::Other, text: text.to_string(), children }
}

fn other(children: Vec<SynNode>) -> SynNode {
    node(SynKind::Other, "", children)
}

fn sentinel() -> SynNode {
    SynNode {
        kind: SynKind::Other,
        first_token: TokKind::Bang,
        text: "!".to_string(),
        children: vec![],
    }
}

/// One operations-list element whose document literal holds `raw`,
/// laid out along the extractor's fixed relative path.
fn op_elem(raw: &str) -> SynNode {
    let lit = node(SynKind::Literal, raw, vec![]);
    let f = other(vec![lit]);
    let e = other(vec![f]);
    let d = other(vec![other(vec![]), e]);
    let c = other(vec![other(vec![]), d]);
    let b = other(vec![c]);
    let a = other(vec![b]);
    other(vec![other(vec![]), other(vec![]), a])
}

fn ops_list(elems: Vec<SynNode>) -> SynNode {
    let mut children = vec![other(vec![]), other(vec![])];
    children.extend(elems);
    other(children)
}

#[test]
fn normalization_of_one_document() {
    assert_eq!(normalize_document("\"query {\\n  me\\n}\""), "query {\n\tme\n}");
}

#[test]
fn normalization_trims_and_tabs() {
    assert_eq!(normalize_document("  a  b\\nc  "), "a\tb\nc");
    assert_eq!(normalize_document("\"\""), "");
}

#[test]
fn extraction_stops_at_sentinel() {
    let e1 = op_elem("\"query {\\n  a\\n}\"");
    let e2 = op_elem("\"mutation {\\n  b\\n}\"");
    let e3 = other(vec![]);
    let mo = ops_list(vec![e1, e2, sentinel(), e3]);
    let docs = extract_operations(&mo).unwrap();
    assert_eq!(docs, vec!["query {\n\ta\n}".to_string(), "mutation {\n\tb\n}".to_string()]);
}

#[test]
fn extraction_never_reads_past_sentinel() {
    let e1 = op_elem("\"query {\\n  a\\n}\"");
    // The element after the sentinel has no document literal at all: if the
    // extractor looked at it, extraction would fail.
    let broken = other(vec![]);
    let mo = ops_list(vec![e1, sentinel(), broken]);
    let docs = extract_operations(&mo).unwrap();
    assert_eq!(docs, vec!["query {\n\ta\n}".to_string()]);
}

#[test]
fn extraction_without_sentinel_is_a_mismatch() {
    let mo = ops_list(vec![op_elem("\"q\"")]);
    assert_eq!(
        extract_operations(&mo),
        Err(Error::StructuralMismatch(Mismatch::MissingSentinel))
    );
}

#[test]
fn extraction_of_malformed_element_is_a_mismatch() {
    let mo = ops_list(vec![other(vec![]), sentinel()]);
    assert_eq!(
        extract_operations(&mo),
        Err(Error::StructuralMismatch(Mismatch::OperationShape))
    );
}

#[test]
fn queries_descend_from_the_module_root() {
    let e1 = op_elem("\"query {\\n  a\\n}\"");
    let mo = ops_list(vec![e1, sentinel()]);
    // The fixed descent: last, first, nth 1, first, nth 1, first, nth 1, last.
    let a7 = other(vec![mo]);
    let a6 = other(vec![other(vec![]), a7]);
    let a5 = other(vec![a6]);
    let a4 = other(vec![other(vec![]), a5]);
    let a3 = other(vec![a4]);
    let a2 = other(vec![other(vec![]), a3]);
    let a1 = other(vec![a2]);
    let root = other(vec![a1]);
    let docs = get_graphql_queries(&root).unwrap();
    assert_eq!(docs, vec!["query {\n\ta\n}".to_string()]);
}

#[test]
fn queries_name_the_failing_step() {
    let root = other(vec![]);
    assert_eq!(
        get_graphql_queries(&root),
        Err(Error::StructuralMismatch(Mismatch::Step(0)))
    );
}

#[test]
fn documents_join_with_a_blank_line() {
    let docs = vec!["a".to_string(), "b".to_string(), "c".to_string()];
    assert_eq!(join_documents(&docs), "a\n\nb\n\nc");
    assert_eq!(join_documents(&vec![]), "");
}

#[test]
fn build_id_is_the_quoted_token_after_the_marker() {
    let t = "{\"page\":1,\"buildId\":\"abc-123\",\"x\":2}";
    assert_eq!(get_current_build_id(t), Ok("abc-123".to_string()));
}

#[test]
fn build_id_may_be_empty() {
    let t = "{\"buildId\":\"\",\"x\":2}";
    assert_eq!(get_current_build_id(t), Ok("".to_string()));
}

#[test]
fn build_id_missing_marker_is_not_found() {
    assert_eq!(get_current_build_id("<html></html>"), Err(Error::NotFound));
}

#[test]
fn build_id_scan_past_end_is_a_parse_error() {
    assert_eq!(get_current_build_id("xx buildId yy"), Err(Error::ParseError));
    assert_eq!(get_current_build_id("xx buildId:"), Err(Error::ParseError));
    assert_eq!(get_current_build_id("xx buildId:\"abc"), Err(Error::ParseError));
}
