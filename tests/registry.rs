use openapi_assembly::component::Component;
use openapi_assembly::registry::Registry;
use openapi_assembly::schema::{schema_ref, Property, RefOr, Schema, SchemaKind, Target};

fn object(props: Vec<(&str, Target)>) -> Schema {
    Schema {
        kind: SchemaKind::Object,
        properties: props.into_iter().map(|(n, t)| Property { name: n.to_string(), target: t }).collect(),
    }
}

fn reference_path(r: &RefOr) -> String {
    match r {
        RefOr::Reference(p) => p.clone(),
        RefOr::Inline(_) => panic!("expected a reference"),
    }
}

#[test]
fn same_shape_twice_is_one_entry() {
    let mut registry = Registry::new();
    let name = "Test".to_string();
    let shape = object(vec![("test", Target::Primitive(SchemaKind::String))]);
    let first = registry.register(&name, &shape).unwrap();
    let second = registry.register(&name, &shape).unwrap();
    assert_eq!(registry.len(), 1);
    assert_eq!(reference_path(&first), reference_path(&second));
    assert_eq!(reference_path(&first), "#/components/schemas/Test");
}

#[test]
fn different_shape_under_one_name_conflicts() {
    let mut registry = Registry::new();
    let name = "Test".to_string();
    let first = object(vec![("test", Target::Primitive(SchemaKind::String))]);
    let second = object(vec![("test", Target::Primitive(SchemaKind::Integer))]);
    registry.register(&name, &first).unwrap();
    let err = registry.register(&name, &second).unwrap_err();
    assert_eq!(err.name, "Test");
    assert_eq!(err.existing.properties[0].name, "test");
    assert!(matches!(err.existing.properties[0].target, Target::Primitive(SchemaKind::String)));
    assert!(matches!(err.offered.properties[0].target, Target::Primitive(SchemaKind::Integer)));
    assert_eq!(registry.len(), 1);
    let held = registry.get(&name).unwrap();
    assert!(matches!(held.properties[0].target, Target::Primitive(SchemaKind::String)));
}

#[test]
fn self_referential_type_resolves() {
    let mut registry = Registry::new();
    let name = "Node".to_string();
    let shape = object(vec![
        ("value", Target::Primitive(SchemaKind::Integer)),
        ("next", Target::Component("Node".to_string())),
    ]);
    let children = vec![(name.clone(), RefOr::Reference(schema_ref(&name)))];
    let r = registry.contribute(&name, &shape, &children).unwrap();
    assert_eq!(reference_path(&r), "#/components/schemas/Node");
    assert_eq!(registry.len(), 1);
    assert!(registry.get(&name).is_some());
}

#[test]
fn contribution_registers_children_in_order() {
    let mut registry = Registry::new();
    let pet = object(vec![("owner", Target::Component("Owner".to_string())), ("tag", Target::Component("Tag".to_string()))]);
    let owner = object(vec![("name", Target::Primitive(SchemaKind::String))]);
    let tag = object(vec![("label", Target::Primitive(SchemaKind::String))]);
    let children = vec![("Owner".to_string(), RefOr::Inline(owner)), ("Tag".to_string(), RefOr::Inline(tag))];
    registry.contribute(&"Pet".to_string(), &pet, &children).unwrap();
    assert_eq!(registry.len(), 3);
    assert!(registry.get(&"Owner".to_string()).is_some());
    assert!(registry.get(&"Tag".to_string()).is_some());
}

#[test]
fn conflicting_contribution_changes_nothing() {
    let mut registry = Registry::new();
    let tag = object(vec![("label", Target::Primitive(SchemaKind::String))]);
    registry.register(&"Tag".to_string(), &tag).unwrap();
    let pet = object(vec![("tag", Target::Component("Tag".to_string()))]);
    let other_tag = object(vec![("label", Target::Primitive(SchemaKind::Boolean))]);
    let owner = object(vec![]);
    let children = vec![("Owner".to_string(), RefOr::Inline(owner)), ("Tag".to_string(), RefOr::Inline(other_tag))];
    let err = registry.contribute(&"Pet".to_string(), &pet, &children).unwrap_err();
    assert_eq!(err.name, "Tag");
    assert!(matches!(err.existing.properties[0].target, Target::Primitive(SchemaKind::String)));
    assert!(matches!(err.offered.properties[0].target, Target::Primitive(SchemaKind::Boolean)));
    assert_eq!(registry.len(), 1);
    assert!(registry.get(&"Pet".to_string()).is_none());
    assert!(registry.get(&"Owner".to_string()).is_none());
}

#[test]
fn empty_registry_has_nothing() {
    let registry = Registry::new();
    assert_eq!(registry.len(), 0);
    assert!(registry.get(&"Test".to_string()).is_none());
}

#[test]
fn reference_text() {
    assert_eq!(schema_ref(&"Pet".to_string()), "#/components/schemas/Pet");
    assert_eq!(schema_ref(&String::new()), "#/components/schemas/");
}

#[test]
fn missing_component_is_reported() {
    let mut registry = Registry::new();
    let pet = object(vec![("owner", Target::Component("Owner".to_string()))]);
    registry.register(&"Pet".to_string(), &pet).unwrap();
    assert_eq!(registry.unresolved_reference(), Some("Owner".to_string()));
    registry.register(&"Owner".to_string(), &object(vec![])).unwrap();
    assert_eq!(registry.unresolved_reference(), None);
}

#[test]
fn composite_lists_field_schemas_then_nested() {
    let tag = object(vec![("label", Target::Primitive(SchemaKind::String))]);
    let owner = object(vec![("tag", Target::Component("Tag".to_string()))]);
    let owner_c = Component {
        schema: Some(("Owner".to_string(), RefOr::Inline(owner.clone()))),
        children: vec![("Tag".to_string(), RefOr::Inline(tag.clone()))],
    };
    let name_c = Component { schema: None, children: vec![] };
    let shared = Component { schema: Some(("Shared".to_string(), RefOr::Reference(schema_ref(&"Shared".to_string())))), children: vec![] };
    let pet = object(vec![("owner", Target::Component("Owner".to_string()))]);
    let c = Component::composite("Pet".to_string(), pet, &vec![owner_c, name_c, shared]);
    let names: Vec<&str> = c.children.iter().map(|(n, _)| n.as_str()).collect();
    assert_eq!(names, vec!["Owner", "Shared", "Tag"]);
    assert!(matches!(&c.children[1].1, RefOr::Reference(p) if p == "#/components/schemas/Shared"));
    assert!(matches!(&c.schema, Some((n, RefOr::Inline(_))) if n == "Pet"));

    let mut registry = Registry::new();
    let (n, s) = match c.schema().unwrap() {
        (n, RefOr::Inline(s)) => (n, s),
        _ => panic!("expected an inline schema"),
    };
    registry.contribute(&n, &s, &c.child_schemas()).unwrap();
    assert_eq!(registry.len(), 3);
    assert_eq!(registry.unresolved_reference(), None);
}

#[test]
fn self_field_by_reference_terminates() {
    let node = object(vec![
        ("value", Target::Primitive(SchemaKind::Integer)),
        ("next", Target::Component("Node".to_string())),
    ]);
    let next = Component { schema: Some(("Node".to_string(), RefOr::Reference(schema_ref(&"Node".to_string())))), children: vec![] };
    let value = Component::primitive();
    let c = Component::composite("Node".to_string(), node.clone(), &vec![value, next]);
    assert_eq!(c.children.len(), 1);
    assert!(matches!(&c.children[0], (n, RefOr::Reference(p)) if n == "Node" && p == "#/components/schemas/Node"));
    let mut registry = Registry::new();
    let r = registry.contribute(&"Node".to_string(), &node, &c.child_schemas()).unwrap();
    assert_eq!(reference_path(&r), "#/components/schemas/Node");
    assert_eq!(registry.len(), 1);
    assert_eq!(registry.unresolved_reference(), None);
}
