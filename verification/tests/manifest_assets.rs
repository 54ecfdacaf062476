use graphql_recover::assets::{asset_id, build_asset_index, lookup_asset};
use graphql_recover::errors::{Error, Mismatch};
use graphql_recover::manifest::get_build_manifest;
use graphql_recover::tree::{SynKind, SynNode, TokKind};

fn node(kind: SynKind, text: &str, children: Vec<SynNode>) -> SynNode {
    SynNode { kind, first_token: TokKind::Other, text: text.to_string(), children }
}

fn other(children: Vec<SynNode>) -> SynNode {
    node(SynKind::Other, "", children)
}

fn param(name: &str) -> SynNode {
    node(SynKind::SinglePattern, name, vec![node(SynKind::Name, name, vec![])])
}

fn str_lit(quoted: &str) -> SynNode {
    node(SynKind::Literal, quoted, vec![])
}

/// A manifest module: `function(<params>) { return { ... } }(<args>)`,
/// wrapped so that the fixed descent (first, first, first, last) lands on
/// the call.
fn manifest_root(params: Vec<SynNode>, args: Vec<SynNode>, props: Vec<SynNode>) -> SynNode {
    let plist = node(SynKind::ParameterList, "", params);
    let obj = node(SynKind::ObjectExpr, "", props);
    let ret = node(SynKind::ReturnStmt, "", vec![obj]);
    let body = other(vec![ret]);
    let callee = node(SynKind::FnExpr, "", vec![plist, body]);
    let arglist = node(SynKind::ArgList, "", args);
    let call = node(SynKind::CallExpr, "", vec![callee, arglist]);
    other(vec![other(vec![other(vec![other(vec![call])])])])
}

fn entry(quoted_key: &str, elems: Vec<SynNode>) -> SynNode {
    node(
        SynKind::LiteralProp,
        "",
        vec![str_lit(quoted_key), node(SynKind::ArrayExpr, "", elems)],
    )
}

#[test]
fn manifest_pairs_parameters_with_arguments() {
    let root = manifest_root(
        vec![param("b"), param("c")],
        vec![str_lit("\"path1.js\""), str_lit("\"path2.js\"")],
        vec![entry("\"/foo\"", vec![node(SynKind::NameRef, "b", vec![]), str_lit(
            "\"literal.js\"",
        )])],
    );
    let m = get_build_manifest(&root).unwrap();
    assert_eq!(
        m,
        vec![("/foo".to_string(), vec!["path1.js".to_string(), "literal.js".to_string()])]
    );
}

#[test]
fn manifest_duplicate_parameter_keeps_the_last_binding() {
    let root = manifest_root(
        vec![param("b"), param("b")],
        vec![str_lit("\"path1.js\""), str_lit("\"path2.js\"")],
        vec![entry("\"/foo\"", vec![node(SynKind::NameRef, "b", vec![])])],
    );
    let m = get_build_manifest(&root).unwrap();
    assert_eq!(m, vec![("/foo".to_string(), vec!["path2.js".to_string()])]);
}

#[test]
fn manifest_unbound_identifier_is_unexpected() {
    let root = manifest_root(
        vec![param("b")],
        vec![str_lit("\"path1.js\"")],
        vec![entry("\"/foo\"", vec![node(SynKind::NameRef, "z", vec![])])],
    );
    assert_eq!(get_build_manifest(&root), Err(Error::UnexpectedShape));
}

#[test]
fn manifest_more_arguments_than_parameters_is_a_mismatch() {
    let root = manifest_root(
        vec![param("b")],
        vec![str_lit("\"p1.js\""), str_lit("\"p2.js\"")],
        vec![],
    );
    assert_eq!(
        get_build_manifest(&root),
        Err(Error::StructuralMismatch(Mismatch::ArgumentShape))
    );
}

#[test]
fn manifest_without_call_is_a_mismatch() {
    let root = other(vec![]);
    assert_eq!(
        get_build_manifest(&root),
        Err(Error::StructuralMismatch(Mismatch::MissingCall))
    );
}

#[test]
fn manifest_non_function_callee_is_a_mismatch() {
    let arglist = node(SynKind::ArgList, "", vec![]);
    let call = node(SynKind::CallExpr, "", vec![other(vec![]), arglist]);
    let root = other(vec![other(vec![other(vec![other(vec![call])])])]);
    assert_eq!(
        get_build_manifest(&root),
        Err(Error::StructuralMismatch(Mismatch::NonFunctionCallee))
    );
}

#[test]
fn manifest_without_return_is_a_mismatch() {
    let plist = node(SynKind::ParameterList, "", vec![]);
    let body = other(vec![other(vec![])]);
    let callee = node(SynKind::FnExpr, "", vec![plist, body]);
    let arglist = node(SynKind::ArgList, "", vec![]);
    let call = node(SynKind::CallExpr, "", vec![callee, arglist]);
    let root = other(vec![other(vec![other(vec![other(vec![call])])])]);
    assert_eq!(
        get_build_manifest(&root),
        Err(Error::StructuralMismatch(Mismatch::MissingReturn))
    );
}

#[test]
fn manifest_skips_identifier_keyed_properties() {
    let skipped = node(
        SynKind::LiteralProp,
        "",
        vec![node(SynKind::Name, "k", vec![]), node(SynKind::ArrayExpr, "", vec![])],
    );
    let root = manifest_root(
        vec![],
        vec![],
        vec![skipped, entry("\"/bar\"", vec![str_lit("\"x/y-1.js\"")])],
    );
    let m = get_build_manifest(&root).unwrap();
    assert_eq!(m, vec![("/bar".to_string(), vec!["x/y-1.js".to_string()])]);
}

#[test]
fn asset_id_comes_from_the_final_segment() {
    assert_eq!(asset_id("static/chunks/5308-deadbeef.js"), Some("5308".to_string()));
    assert_eq!(asset_id("a/b/x-1-2.js"), Some("x-1".to_string()));
}

#[test]
fn asset_id_of_malformed_path_is_absent() {
    assert_eq!(asset_id("no-slash.js"), None);
    assert_eq!(asset_id("a/nodash.js"), None);
}

#[test]
fn index_keys_paths_by_id() {
    let manifest = vec![
        ("/a".to_string(), vec!["c/5308-x.js".to_string(), "c/77-y.js".to_string()]),
        ("/b".to_string(), vec!["c/5308-x.js".to_string()]),
    ];
    let ix = build_asset_index(&manifest).unwrap();
    assert_eq!(
        ix,
        vec![
            ("5308".to_string(), "c/5308-x.js".to_string()),
            ("77".to_string(), "c/77-y.js".to_string()),
        ]
    );
    assert_eq!(lookup_asset(&ix, "5308"), Ok(&"c/5308-x.js".to_string()));
    assert_eq!(lookup_asset(&ix, "9999"), Err(Error::NotFound));
}

#[test]
fn index_collision_takes_the_later_path() {
    // Two distinct paths derive the same id: the documented tie-break is
    // that the last-processed path wins.
    let manifest = vec![
        ("/a".to_string(), vec!["one/5308-aaa.js".to_string()]),
        ("/b".to_string(), vec!["two/5308-bbb.js".to_string()]),
    ];
    let ix = build_asset_index(&manifest).unwrap();
    assert_eq!(ix, vec![("5308".to_string(), "two/5308-bbb.js".to_string())]);
}

#[test]
fn index_of_malformed_path_is_unexpected() {
    let manifest = vec![("/a".to_string(), vec!["nodash".to_string()])];
    assert_eq!(build_asset_index(&manifest), Err(Error::UnexpectedShape));
}
