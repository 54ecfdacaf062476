use graphql_recover::errors::{Error, Mismatch};
use graphql_recover::tree::{SynKind, SynNode, TokKind};
use graphql_recover::types::{parse_of_type, parse_type, parse_types, render_schema,
    UnionOrObjectType};

fn node(kind: SynKind, text: &str, children: Vec<SynNode>) -> SynNode {
    SynNode { kind, first_token: TokKind::Other, text: text.to_string(), children }
}

/// An identifier-keyed object property.
fn prop(key: &str, value: SynNode) -> SynNode {
    node(SynKind::LiteralProp, "", vec![node(SynKind::Name, key, vec![]), value])
}

fn str_lit(quoted: &str) -> SynNode {
    node(SynKind::Literal, quoted, vec![])
}

fn obj(props: Vec<SynNode>) -> SynNode {
    node(SynKind::ObjectExpr, "", props)
}

fn arr(elems: Vec<SynNode>) -> SynNode {
    node(SynKind::ArrayExpr, "", elems)
}

/// The introspection element of one object type with one non-null scalar
/// field named `id`.
fn user_element() -> SynNode {
    let scalar = obj(vec![prop("kind", str_lit("\"SCALAR\""))]);
    let non_null = obj(vec![prop("kind", str_lit("\"NON_NULL\"")), prop("ofType", scalar)]);
    let field = obj(vec![prop("name", str_lit("\"id\"")), prop("type", non_null)]);
    obj(vec![
        prop("kind", str_lit("\"OBJECT\"")),
        prop("name", str_lit("\"User\"")),
        prop("fields", arr(vec![field])),
    ])
}

#[test]
fn object_element_prints_as_declared() {
    let types_prop = prop("x", arr(vec![user_element()]));
    let decls = parse_types(&types_prop).unwrap();
    assert_eq!(decls.len(), 1);
    for d in &decls {
        assert!(d.is_wf());
    }
    assert_eq!(render_schema(&decls), "type User {\n\tid: SCALAR!\n}\n");
}

#[test]
fn union_element_collects_member_names() {
    let member_a = obj(vec![prop("name", str_lit("\"Cat\""))]);
    let member_b = obj(vec![prop("name", str_lit("\"Dog\""))]);
    let union = obj(vec![
        prop("kind", str_lit("\"UNION\"")),
        prop("name", str_lit("\"Pet\"")),
        prop("possibleTypes", arr(vec![member_a, member_b])),
    ]);
    let types_prop = prop("x", arr(vec![union]));
    let decls = parse_types(&types_prop).unwrap();
    assert_eq!(render_schema(&decls), "union Pet = Cat | Dog\n");
}

#[test]
fn missing_of_type_is_malformed() {
    let wrapper = obj(vec![prop("kind", str_lit("\"LIST\""))]);
    assert!(matches!(parse_of_type(&wrapper), Err(Error::MalformedType)));
}

#[test]
fn non_object_of_type_is_malformed() {
    let wrapper = obj(vec![
        prop("kind", str_lit("\"NON_NULL\"")),
        prop("ofType", str_lit("\"x\"")),
    ]);
    assert!(matches!(parse_of_type(&wrapper), Err(Error::MalformedType)));
}

#[test]
fn nesting_past_the_depth_cap_is_malformed() {
    let mut t = obj(vec![prop("kind", str_lit("\"SCALAR\""))]);
    for _ in 0..40 {
        t = obj(vec![prop("kind", str_lit("\"NON_NULL\"")), prop("ofType", t)]);
    }
    assert!(matches!(parse_of_type(&t), Err(Error::MalformedType)));
}

#[test]
fn missing_kind_is_unexpected() {
    let bare = obj(vec![prop("name", str_lit("\"User\""))]);
    assert!(matches!(parse_of_type(&bare), Err(Error::UnexpectedShape)));
    assert!(matches!(parse_type(&bare), Err(Error::UnexpectedShape)));
}

#[test]
fn leaf_reads_its_quoted_name() {
    let leaf = obj(vec![
        prop("kind", str_lit("\"OBJECT\"")),
        prop("name", str_lit("\"Foo\"")),
    ]);
    let t = parse_of_type(&leaf).unwrap();
    assert!(t.is_wf());
    assert_eq!(t.to_string(), "Foo");
}

#[test]
fn first_kind_property_wins() {
    let element = obj(vec![
        prop("kind", str_lit("\"SCALAR\"")),
        prop("kind", str_lit("\"OBJECT\"")),
    ]);
    let t = parse_of_type(&element).unwrap();
    assert_eq!(t.to_string(), "SCALAR");
}

#[test]
fn other_kinds_are_dropped() {
    let enum_element = obj(vec![
        prop("kind", str_lit("\"ENUM\"")),
        prop("name", str_lit("\"Color\"")),
    ]);
    assert!(matches!(parse_type(&enum_element), Ok(None)));
    let types_prop = prop("x", arr(vec![enum_element, user_element()]));
    let decls = parse_types(&types_prop).unwrap();
    assert_eq!(decls.len(), 1);
    assert_eq!(render_schema(&decls), "type User {\n\tid: SCALAR!\n}\n");
}

#[test]
fn non_object_elements_are_passed_over() {
    let types_prop = prop("x", arr(vec![str_lit("\"noise\""), user_element()]));
    let decls = parse_types(&types_prop).unwrap();
    assert_eq!(decls.len(), 1);
}

#[test]
fn non_array_types_value_is_a_mismatch() {
    let types_prop = prop("x", str_lit("\"not-an-array\""));
    assert!(matches!(
        parse_types(&types_prop),
        Err(Error::StructuralMismatch(Mismatch::MissingTypesArray))
    ));
}

#[test]
fn object_leaf_without_name_is_unexpected() {
    let leaf = obj(vec![prop("kind", str_lit("\"OBJECT\""))]);
    assert!(matches!(parse_of_type(&leaf), Err(Error::UnexpectedShape)));
    let union_leaf = obj(vec![prop("kind", str_lit("\"UNION\""))]);
    assert!(matches!(parse_of_type(&union_leaf), Err(Error::UnexpectedShape)));
}

#[test]
fn first_literal_kind_value_wins() {
    // A `kind` property whose value is not a literal is passed over in
    // favour of the first literal-valued one.
    let element = obj(vec![
        prop("kind", obj(vec![])),
        prop("kind", str_lit("\"SCALAR\"")),
    ]);
    let t = parse_of_type(&element).unwrap();
    assert_eq!(t.to_string(), "SCALAR");
}

#[test]
fn union_without_possible_types_is_unexpected() {
    let union = obj(vec![
        prop("kind", str_lit("\"UNION\"")),
        prop("name", str_lit("\"Pet\"")),
    ]);
    assert!(matches!(parse_type(&union), Err(Error::UnexpectedShape)));
}

fn other(children: Vec<SynNode>) -> SynNode {
    node(SynKind::Other, "", children)
}

#[test]
fn types_descend_from_the_module_root() {
    let types_prop = prop("x", arr(vec![user_element()]));
    let schema = other(vec![other(vec![]), other(vec![]), other(vec![]), types_prop]);
    let t4 = other(vec![schema]);
    let t3 = other(vec![t4]);
    let t2 = other(vec![t3]);
    let t1 = other(vec![t2]);
    let mo = other(vec![t1]);
    let a7 = other(vec![mo]);
    let a6 = other(vec![other(vec![]), a7]);
    let a5 = other(vec![a6]);
    let a4 = other(vec![other(vec![]), a5]);
    let a3 = other(vec![a4]);
    let a2 = other(vec![other(vec![]), a3]);
    let a1 = other(vec![a2]);
    let root = other(vec![a1]);
    let decls = graphql_recover::types::get_graphql_types(&root).unwrap();
    assert_eq!(render_schema(&decls), "type User {\n\tid: SCALAR!\n}\n");
}

#[test]
fn parsed_declarations_render_like_handwritten_ones() {
    let types_prop = prop("x", arr(vec![user_element()]));
    let parsed = parse_types(&types_prop).unwrap();
    let by_hand = vec![UnionOrObjectType::Object(graphql_recover::types::Object {
        name: "User".to_string(),
        fields: vec![graphql_recover::types::OType {
            name: "id".to_string(),
            obj_type: graphql_recover::types::TypeModif {
                kind: "NON_NULL".to_string(),
                name: None,
                of_type: Some(Box::new(graphql_recover::types::TypeModif {
                    kind: "SCALAR".to_string(),
                    name: None,
                    of_type: None,
                })),
            },
        }],
    })];
    assert_eq!(render_schema(&parsed), render_schema(&by_hand));
}
