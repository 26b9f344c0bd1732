use openapi_assembly::component::{AcceptedJson, Component, CreatedJson, NoContent};
use openapi_assembly::responses::{response_from_schema, status_key, ResponseOr};
use openapi_assembly::schema::{Property, RefOr, Schema, SchemaKind, Target};

fn test_component() -> Component {
    let schema = Schema {
        kind: SchemaKind::Object,
        properties: vec![Property { name: "test".to_string(), target: Target::Primitive(SchemaKind::String) }],
    };
    Component { schema: Some(("Test".to_string(), RefOr::Inline(schema))), children: vec![] }
}

#[test]
fn no_content_generate_valid_response() {
    let responses = NoContent::responses(None);
    assert!(responses.is_some());

    let responses = responses.expect("missing responses");
    let no_content_response = responses.get(&"204".to_string());
    assert!(no_content_response.is_some());

    let no_content_response = no_content_response.expect("missing responses");
    assert!(matches!(no_content_response, ResponseOr::Object(obj) if obj.description.is_empty() && obj.content.is_empty()));
}

#[test]
fn accepted_json_generate_valid_response() {
    let reply = AcceptedJson { body: test_component() };
    let responses = reply.responses(None);
    assert!(responses.is_some());

    let responses = responses.expect("missing responses");
    let accepted_json_response = responses.get(&"202".to_string());
    assert!(accepted_json_response.is_some());
}

#[test]
fn created_json_generate_valid_response() {
    let reply = CreatedJson { body: test_component() };
    let responses = reply.responses(None);
    assert!(responses.is_some());

    let responses = responses.expect("missing responses");
    let accepted_json_response = responses.get(&"201".to_string());
    assert!(accepted_json_response.is_some());
}

#[test]
fn no_content_has_exactly_one_entry() {
    let responses = NoContent::responses(Some("application/json".to_string())).unwrap();
    assert_eq!(responses.len(), 1);
    assert_eq!(responses.responses[0].0, "204");
    assert!(NoContent::schema().is_none());
    assert!(NoContent::child_schemas().is_empty());
}

#[test]
fn created_json_refers_to_component() {
    let reply = CreatedJson { body: test_component() };
    let responses = reply.responses(None).unwrap();
    assert_eq!(responses.len(), 1);
    match responses.get(&"201".to_string()).unwrap() {
        ResponseOr::Object(r) => {
            assert_eq!(r.content.len(), 1);
            assert_eq!(r.content[0].0, "application/json");
            match &r.content[0].1.schema {
                Some(RefOr::Reference(p)) => assert_eq!(p, "#/components/schemas/Test"),
                _ => panic!("expected a reference"),
            }
        }
        ResponseOr::Reference(_) => panic!("expected an inline response"),
    }
}

#[test]
fn body_held_by_reference_is_answered_by_reference() {
    let schema = Some(("Pet".to_string(), RefOr::Reference("#/components/schemas/Pet".to_string())));
    let responses = response_from_schema(202, schema).unwrap();
    match responses.get(&"202".to_string()).unwrap() {
        ResponseOr::Reference(p) => assert_eq!(p, "#/components/schemas/Pet"),
        ResponseOr::Object(_) => panic!("expected a reference"),
    }
}

#[test]
fn reply_without_schema_has_no_responses() {
    let reply = AcceptedJson { body: Component { schema: None, children: vec![] } };
    assert!(reply.responses(None).is_none());
    assert!(response_from_schema(201, None).is_none());
}

#[test]
fn status_keys_are_three_digits() {
    assert_eq!(status_key(204), "204");
    assert_eq!(status_key(404), "404");
    assert_eq!(status_key(100), "100");
    assert_eq!(status_key(999), "999");
}

#[test]
fn wrappers_pass_on_the_body_schemas() {
    let reply = CreatedJson { body: test_component() };
    let (name, _) = reply.schema().unwrap();
    assert_eq!(name, "Test");
    assert!(reply.child_schemas().is_empty());
}

#[test]
fn wrappers_give_raw_schema_and_no_request_body() {
    let accepted = AcceptedJson { body: test_component() };
    assert!(matches!(accepted.raw_schema(), Some(RefOr::Inline(s)) if s.properties[0].name == "test"));
    assert!(accepted.request_body().is_none());
    let created = CreatedJson { body: Component { schema: None, children: vec![] } };
    assert!(created.raw_schema().is_none());
}

#[test]
fn primitive_and_pass_through_contributions() {
    let p = Component::primitive();
    assert!(p.schema.is_none());
    assert!(p.children.is_empty());
    let inner = test_component();
    let w = Component::pass_through(&inner);
    assert!(matches!(&w.schema, Some((n, RefOr::Inline(_))) if n == "Test"));
    assert!(w.children.is_empty());
}
