use openapi_assembly::component::CreatedJson;
use openapi_assembly::component::{Component, SecurityComponent};
use openapi_assembly::document::{DocumentBuilder, DocumentError, SecurityScheme};
use openapi_assembly::operation::{Operation, Parameter};
use openapi_assembly::responses::{ResponseOr, Responses};
use openapi_assembly::schema::{Property, RefOr, Schema, SchemaKind, Target};

fn test_schema() -> Schema {
    Schema {
        kind: SchemaKind::Object,
        properties: vec![Property { name: "test".to_string(), target: Target::Primitive(SchemaKind::String) }],
    }
}

fn error_response(description: &str) -> ResponseOr {
    ResponseOr::Object(openapi_assembly::responses::Response { description: description.to_string(), content: vec![] })
}

#[test]
fn request_and_created_body_share_one_component() {
    let mut builder = DocumentBuilder::new("Pets".to_string(), "1.0".to_string());
    let name = "Test".to_string();
    let body_ref = builder.contribute_schema(&name, &test_schema(), &vec![]).unwrap();
    let reply = CreatedJson { body: Component { schema: Some((name.clone(), RefOr::Inline(test_schema()))), children: vec![] } };
    let reply_ref = builder.contribute_schema(&name, &test_schema(), &reply.child_schemas()).unwrap();
    assert!(matches!((&body_ref, &reply_ref), (RefOr::Reference(a), RefOr::Reference(b)) if a == b));

    let mut op = Operation::new(vec!["test".to_string()], None, None);
    op.request_body = Some(body_ref);
    op.add_responses(reply.responses(None).unwrap()).unwrap();
    builder.register_operation("/test".to_string(), "post".to_string(), op).unwrap();

    let doc = builder.finalize().unwrap();
    assert_eq!(doc.components().len(), 1);
    assert!(doc.components().get(&name).is_some());
    let op = doc.operation(&"/test".to_string(), &"post".to_string()).unwrap();
    match op.responses.get(&"201".to_string()).unwrap() {
        ResponseOr::Object(r) => {
            assert_eq!(r.content[0].0, "application/json");
            assert!(matches!(&r.content[0].1.schema, Some(RefOr::Reference(p)) if p == "#/components/schemas/Test"));
        }
        ResponseOr::Reference(_) => panic!("expected an inline response"),
    }
    assert!(matches!(&op.request_body, Some(RefOr::Reference(p)) if p == "#/components/schemas/Test"));
}

#[test]
fn two_error_statuses_give_three_responses() {
    let mut op = Operation::new(vec![], Some("Add a pet".to_string()), None);
    op.add_responses(CreatedJson {
        body: Component { schema: Some(("Test".to_string(), RefOr::Inline(test_schema()))), children: vec![] },
    }
    .responses(None)
    .unwrap())
    .unwrap();
    op.add_response(404, error_response("not found")).unwrap();
    op.add_response(409, error_response("conflict")).unwrap();
    assert_eq!(op.responses.len(), 3);
    assert!(op.responses.get(&"404".to_string()).is_some());
    assert!(op.responses.get(&"409".to_string()).is_some());
}

#[test]
fn duplicate_status_is_refused() {
    let mut op = Operation::new(vec![], None, None);
    op.add_response(404, error_response("not found")).unwrap();
    let err = op.add_response(404, error_response("gone")).unwrap_err();
    assert_eq!(err.status, "404");
    assert_eq!(op.responses.len(), 1);
    let more = Responses { responses: vec![("409".to_string(), error_response("a")), ("404".to_string(), error_response("b"))] };
    assert!(op.add_responses(more).is_err());
}

#[test]
fn duplicate_route_is_refused() {
    let mut builder = DocumentBuilder::new("Pets".to_string(), "1.0".to_string());
    builder.register_operation("/pets".to_string(), "get".to_string(), Operation::new(vec![], None, None)).unwrap();
    builder.register_operation("/pets".to_string(), "post".to_string(), Operation::new(vec![], None, None)).unwrap();
    let err = builder.register_operation("/pets".to_string(), "get".to_string(), Operation::new(vec![], None, None));
    assert!(matches!(err, Err(DocumentError::DuplicateOperation(p, m)) if p == "/pets" && m == "get"));
    assert!(matches!(builder.finalize(), Err(DocumentError::Aborted)));
}

#[test]
fn conflicting_security_scheme_is_refused() {
    let mut builder = DocumentBuilder::new("Pets".to_string(), "1.0".to_string());
    let key = || SecurityScheme { scheme_type: "apiKey".to_string(), parameter: "X-Key".to_string() };
    builder.contribute_security_scheme("api_key".to_string(), key()).unwrap();
    builder.contribute_security_scheme("api_key".to_string(), key()).unwrap();
    let other = SecurityScheme { scheme_type: "http".to_string(), parameter: "bearer".to_string() };
    let err = builder.contribute_security_scheme("api_key".to_string(), other);
    assert!(matches!(err, Err(DocumentError::SecuritySchemeConflict(n)) if n == "api_key"));
}

#[test]
fn schema_conflict_surfaces_from_builder() {
    let mut builder = DocumentBuilder::new("Pets".to_string(), "1.0".to_string());
    let name = "Test".to_string();
    builder.contribute_schema(&name, &test_schema(), &vec![]).unwrap();
    let other = Schema { kind: SchemaKind::Array, properties: vec![] };
    let err = builder.contribute_schema(&name, &other, &vec![]);
    assert!(matches!(err, Err(DocumentError::SchemaNameConflict(c)) if c.name == "Test"));
}

#[test]
fn same_registrations_give_same_document() {
    let build = || {
        let mut b = DocumentBuilder::new("Pets".to_string(), "1.0".to_string());
        b.contribute_schema(&"A".to_string(), &test_schema(), &vec![]).unwrap();
        b.contribute_schema(&"B".to_string(), &Schema { kind: SchemaKind::Array, properties: vec![] }, &vec![]).unwrap();
        b.register_operation("/a".to_string(), "get".to_string(), Operation::new(vec![], None, None)).unwrap();
        b.finalize().unwrap()
    };
    let d1 = build();
    let d2 = build();
    assert_eq!(format!("{:?}", d1.components().get(&"A".to_string())), format!("{:?}", d2.components().get(&"A".to_string())));
    assert_eq!(d1.components().len(), d2.components().len());
    assert_eq!(d1.operation_count(), d2.operation_count());
}

#[test]
fn security_component_is_named_in_snake_case() {
    let scheme = SecurityScheme { scheme_type: "apiKey".to_string(), parameter: "X-Key".to_string() };
    let c = SecurityComponent::new(&"ApiKey".to_string(), scheme);
    assert_eq!(c.name, "api_key");
    assert_eq!(c.security_requirement_name(), Some("api_key".to_string()));
    assert!(SecurityComponent::schema().is_none());
    assert!(SecurityComponent::child_schemas().is_empty());
    let mut builder = DocumentBuilder::new("Pets".to_string(), "1.0".to_string());
    builder.contribute_security_scheme(c.name.clone(), c.scheme).unwrap();
    builder.require_security(c.name);
    let doc = builder.finalize().unwrap();
    assert_eq!(doc.security(), &vec!["api_key".to_string()]);
}

#[test]
fn refused_step_aborts_the_build() {
    let mut builder = DocumentBuilder::new("Pets".to_string(), "1.0".to_string());
    let name = "Test".to_string();
    builder.contribute_schema(&name, &test_schema(), &vec![]).unwrap();
    let other = Schema { kind: SchemaKind::Array, properties: vec![] };
    assert!(builder.contribute_schema(&name, &other, &vec![]).is_err());
    assert!(matches!(builder.finalize(), Err(DocumentError::Aborted)));
}

#[test]
fn dangling_reference_in_operation_is_refused() {
    let mut builder = DocumentBuilder::new("Pets".to_string(), "1.0".to_string());
    let mut op = Operation::new(vec![], None, None);
    op.request_body = Some(RefOr::Reference("#/components/schemas/Missing".to_string()));
    builder.register_operation("/pets".to_string(), "post".to_string(), op).unwrap();
    assert!(matches!(builder.finalize(), Err(DocumentError::UnresolvedReference)));

    let mut builder = DocumentBuilder::new("Pets".to_string(), "1.0".to_string());
    let reply = CreatedJson {
        body: Component { schema: Some(("Test".to_string(), RefOr::Inline(test_schema()))), children: vec![] },
    };
    let mut op = Operation::new(vec![], None, None);
    op.add_responses(reply.responses(None).unwrap()).unwrap();
    builder.register_operation("/pets".to_string(), "post".to_string(), op).unwrap();
    assert!(matches!(builder.finalize(), Err(DocumentError::UnresolvedReference)));
}

#[test]
fn refused_responses_leave_operation_unchanged() {
    let mut op = Operation::new(vec![], None, None);
    op.add_response(404, error_response("not found")).unwrap();
    let more = Responses { responses: vec![("409".to_string(), error_response("a")), ("404".to_string(), error_response("b"))] };
    assert!(op.add_responses(more).is_err());
    assert_eq!(op.responses.len(), 1);
    assert!(op.responses.get(&"409".to_string()).is_none());
}

#[test]
fn duplicate_parameter_is_refused() {
    let mut op = Operation::new(vec![], None, None);
    let schema = || RefOr::Inline(Schema { kind: SchemaKind::String, properties: vec![] });
    op.add_parameter(Parameter::header("X-Key".to_string(), true, schema())).unwrap();
    let err = op.add_parameter(Parameter::header("X-Key".to_string(), false, schema())).unwrap_err();
    assert_eq!(err.name, "X-Key");
    assert_eq!(op.parameters.len(), 1);
}

#[test]
fn dangling_parameter_reference_is_refused() {
    let mut op = Operation::new(vec![], None, None);
    op.add_parameter(Parameter::header("X-Key".to_string(), true, RefOr::Reference("#/components/schemas/Key".to_string())))
        .unwrap();
    let mut b = DocumentBuilder::new("Pets".to_string(), "1.0".to_string());
    b.register_operation("/pets".to_string(), "get".to_string(), op).unwrap();
    assert!(matches!(b.finalize(), Err(DocumentError::UnresolvedReference)));
}
