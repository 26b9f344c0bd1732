use openapi_assembly::component::{Component, CreatedJson, NoContent};
use openapi_assembly::document::{DocumentBuilder, SecurityScheme};
use openapi_assembly::json::{write_ref, write_schema};
use openapi_assembly::operation::{Operation, Parameter, ParameterLocation};
use openapi_assembly::responses::{Response, ResponseOr};
use openapi_assembly::schema::{Property, RefOr, Schema, SchemaKind, Target};

fn test_schema() -> Schema {
    Schema {
        kind: SchemaKind::Object,
        properties: vec![Property { name: "test".to_string(), target: Target::Primitive(SchemaKind::String) }],
    }
}

#[test]
fn no_content_json_is_empty_object_under_204() {
    assert_eq!(NoContent::responses(None).unwrap().to_json(), r#"{"204":{}}"#);
}

#[test]
fn created_json_refers_to_its_component() {
    let reply = CreatedJson {
        body: Component { schema: Some(("Test".to_string(), RefOr::Inline(test_schema()))), children: vec![] },
    };
    assert_eq!(
        reply.responses(None).unwrap().to_json(),
        r##"{"201":{"content":{"application/json":{"schema":{"$ref":"#/components/schemas/Test"}}}}}"##
    );
}

#[test]
fn schema_json_lists_properties() {
    assert_eq!(write_schema(&test_schema()), r#"{"type":"object","properties":{"test":{"type":"string"}}}"#);
    let node = Schema {
        kind: SchemaKind::Object,
        properties: vec![Property { name: "next".to_string(), target: Target::Component("Node".to_string()) }],
    };
    assert_eq!(write_schema(&node), r##"{"type":"object","properties":{"next":{"$ref":"#/components/schemas/Node"}}}"##);
    assert_eq!(write_schema(&Schema { kind: SchemaKind::Boolean, properties: vec![] }), r#"{"type":"boolean"}"#);
}

#[test]
fn names_are_escaped() {
    assert_eq!(write_ref(&"a\"b\\c".to_string()), r#"{"$ref":"a\"b\\c"}"#);
}

#[test]
fn response_with_description_is_written() {
    let mut op = Operation::new(vec![], None, None);
    op.add_response(404, ResponseOr::Object(Response { description: "not found".to_string(), content: vec![] })).unwrap();
    assert_eq!(op.responses.to_json(), r#"{"404":{"description":"not found"}}"#);
}

fn build() -> String {
    let mut b = DocumentBuilder::new("Pets".to_string(), "1.0".to_string());
    let name = "Test".to_string();
    let body = b.contribute_schema(&name, &test_schema(), &vec![]).unwrap();
    let reply = CreatedJson {
        body: Component { schema: Some((name.clone(), RefOr::Inline(test_schema()))), children: vec![] },
    };
    b.contribute_schema(&name, &test_schema(), &reply.child_schemas()).unwrap();
    let mut op = Operation::new(vec!["test".to_string()], Some("Add".to_string()), None);
    op.request_body = Some(body);
    op.security = vec!["api_key".to_string()];
    op.add_responses(reply.responses(None).unwrap()).unwrap();
    b.register_operation("/test".to_string(), "post".to_string(), op).unwrap();
    b.register_operation("/other".to_string(), "get".to_string(), Operation::new(vec![], None, None)).unwrap();
    b.register_operation("/test".to_string(), "get".to_string(), Operation::new(vec![], None, None)).unwrap();
    b.contribute_security_scheme(
        "api_key".to_string(),
        SecurityScheme { scheme_type: "apiKey".to_string(), parameter: "X-Key".to_string() },
    )
    .unwrap();
    b.contribute_security_scheme(
        "bearer".to_string(),
        SecurityScheme { scheme_type: "http".to_string(), parameter: "bearer".to_string() },
    )
    .unwrap();
    b.require_security("api_key".to_string());
    b.add_server("https://pets.example".to_string());
    b.finalize().unwrap().to_json()
}

#[test]
fn document_json_has_every_part() {
    let expected = [
        r#"{"openapi":"3.0.3","info":{"title":"Pets","version":"1.0"},"paths":{"/test":{"post":{"tags":["test"],"summary":"Add","#,
        r##""requestBody":{"content":{"application/json":{"schema":{"$ref":"#/components/schemas/Test"}}}},"##,
        r##""responses":{"201":{"content":{"application/json":{"schema":{"$ref":"#/components/schemas/Test"}}}}},"##,
        r#""security":[{"api_key":[]}]},"get":{"responses":{}}},"/other":{"get":{"responses":{}}}},"#,
        r#""components":{"schemas":{"Test":{"type":"object","properties":{"test":{"type":"string"}}}},"#,
        r#""securitySchemes":{"api_key":{"type":"apiKey","in":"header","name":"X-Key"},"#,
        r#""bearer":{"type":"http","scheme":"bearer"}}},"#,
        r#""security":[{"api_key":[]}],"servers":[{"url":"https://pets.example"}]}"#,
    ]
    .concat();
    assert_eq!(build(), expected);
}

#[test]
fn same_registrations_give_same_text() {
    assert_eq!(build(), build());
}

#[test]
fn empty_document_json() {
    let doc = DocumentBuilder::new("Empty".to_string(), "0.1".to_string()).finalize().unwrap();
    assert_eq!(
        doc.to_json(),
        r#"{"openapi":"3.0.3","info":{"title":"Empty","version":"0.1"},"paths":{},"components":{"schemas":{},"securitySchemes":{}}}"#
    );
    assert!(doc.security().is_empty());
    assert!(doc.servers().is_empty());
    assert_eq!(doc.info().0, "Empty");
}

#[test]
fn parameters_are_written_in_order() {
    let mut op = Operation::new(vec![], None, None);
    let string = RefOr::Inline(Schema { kind: SchemaKind::String, properties: vec![] });
    op.add_parameter(Parameter::header("X-Request-Id".to_string(), true, string)).unwrap();
    let int = RefOr::Inline(Schema { kind: SchemaKind::Integer, properties: vec![] });
    op.add_parameter(Parameter { name: "id".to_string(), location: ParameterLocation::Path, required: false, schema: int })
        .unwrap();
    let mut b = DocumentBuilder::new("T".to_string(), "1".to_string());
    b.register_operation("/p/{id}".to_string(), "get".to_string(), op).unwrap();
    let expected = [
        r#"{"openapi":"3.0.3","info":{"title":"T","version":"1"},"paths":{"/p/{id}":{"get":{"parameters":["#,
        r#"{"name":"X-Request-Id","in":"header","required":true,"schema":{"type":"string"}},"#,
        r#"{"name":"id","in":"path","required":false,"schema":{"type":"integer"}}],"responses":{}}}},"#,
        r#""components":{"schemas":{},"securitySchemes":{}}}"#,
    ]
    .concat();
    assert_eq!(b.finalize().unwrap().to_json(), expected);
}

#[test]
fn escaping_of_control_characters() {
    assert_eq!(write_ref(&"a\nb\u{1}".to_string()), r#"{"$ref":"a\nb\u0001"}"#);
}
