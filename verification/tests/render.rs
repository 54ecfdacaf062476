use graphql_recover::types::{Object, OType, TypeModif, Union, UnionOrObjectType};
use graphql_recover::types::render_schema;

fn leaf(kind: &str, name: Option<&str>) -> TypeModif {
    TypeModif { kind: kind.to_string(), name: name.map(|s| s.to_string()), of_type: None }
}

fn wrap(kind: &str, inner: TypeModif) -> TypeModif {
    TypeModif { kind: kind.to_string(), name: None, of_type: Some(Box::new(inner)) }
}

#[test]
fn render_non_null_list_object() {
    let t = wrap("NON_NULL", wrap("LIST", leaf("OBJECT", Some("Foo"))));
    assert!(t.is_wf());
    assert_eq!(t.to_string(), "[Foo]!");
}

#[test]
fn render_scalar_placeholder() {
    let t = leaf("SCALAR", None);
    assert!(t.is_wf());
    assert_eq!(t.to_string(), "SCALAR");
}

#[test]
fn render_union_declaration() {
    let u = UnionOrObjectType::Union(Union {
        name: "Pet".to_string(),
        possible_types: vec!["Cat".to_string(), "Dog".to_string(), "Bird".to_string()],
    });
    assert!(u.is_wf());
    assert_eq!(u.to_string(), "union Pet = Cat | Dog | Bird\n");
}

#[test]
fn render_object_declaration() {
    let o = UnionOrObjectType::Object(Object {
        name: "User".to_string(),
        fields: vec![
            OType { name: "id".to_string(), obj_type: wrap("NON_NULL", leaf("SCALAR", None)) },
            OType { name: "pet".to_string(), obj_type: leaf("OBJECT", Some("Pet")) },
        ],
    });
    assert!(o.is_wf());
    assert_eq!(o.to_string(), "type User {\n\tid: SCALAR!\n\tpet: Pet\n}\n");
}

#[test]
fn render_object_without_fields() {
    let o = UnionOrObjectType::Object(Object { name: "Empty".to_string(), fields: vec![] });
    assert_eq!(o.to_string(), "type Empty {\n\t\n}\n");
}

#[test]
fn render_schema_concatenates_in_order() {
    let decls = vec![
        UnionOrObjectType::Object(Object { name: "A".to_string(), fields: vec![] }),
        UnionOrObjectType::Union(Union {
            name: "B".to_string(),
            possible_types: vec!["A".to_string()],
        }),
    ];
    assert_eq!(render_schema(&decls), "type A {\n\t\n}\nunion B = A\n");
}

#[test]
fn render_is_deterministic() {
    let decls = vec![
        UnionOrObjectType::Object(Object {
            name: "User".to_string(),
            fields: vec![
                OType { name: "id".to_string(), obj_type: wrap("NON_NULL", leaf("SCALAR", None)) },
            ],
        }),
        UnionOrObjectType::Union(Union {
            name: "Pet".to_string(),
            possible_types: vec!["Cat".to_string(), "Dog".to_string()],
        }),
    ];
    let first = render_schema(&decls);
    let second = render_schema(&decls);
    assert_eq!(first.as_bytes(), second.as_bytes());
}

#[test]
fn unknown_kind_is_not_well_formed() {
    let t = leaf("ENUM", Some("Color"));
    assert!(!t.is_wf());
    let wrapper_without_inner =
        TypeModif { kind: "LIST".to_string(), name: None, of_type: None };
    assert!(!wrapper_without_inner.is_wf());
    let object_without_name = leaf("OBJECT", None);
    assert!(!object_without_name.is_wf());
}
