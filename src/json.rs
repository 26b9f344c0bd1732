//! The JSON text of schemas, responses and schema components, as they stand
//! in an OpenAPI 3.0 document.
use vstd::prelude::*;
use crate::document::{Document, DocumentView};
use crate::operation::{texts, Operation, OperationView, Parameter, ParameterLocation, ParameterView};
use crate::registry::{Entries, Registry};
use crate::responses::{
    digit_char, empty_response, json_content_type, json_ref_response, response_from_schema_spec, single, status_text, CREATED,
    NO_CONTENT,
};
use crate::responses::{media_view, MediaType, Response, ResponseOr, ResponseOrView, ResponseView, Responses};
use crate::schema::{schema_ref_path, PropertyView, RefOr, RefOrView, Schema, SchemaKind, SchemaView, Target, TargetView};

verus! {

/// A lowercase hexadecimal digit.
pub open spec fn hex_digit(d: int) -> char {
    if d < 10 {
        digit_char(d)
    } else if d == 10 {
        'a'
    } else if d == 11 {
        'b'
    } else if d == 12 {
        'c'
    } else if d == 13 {
        'd'
    } else if d == 14 {
        'e'
    } else {
        'f'
    }
}

/// How one character stands inside a JSON string: a quote and a backslash
/// after a backslash, the usual short escapes for backspace, tab, newline,
/// form feed and carriage return, other control characters as `\u00` and
/// two lowercase hexadecimal digits, and every other character as itself.
pub open spec fn escape_char(c: char) -> Seq<char> {
    let v = c as u32;
    if c == '"' {
        seq!['\\', '"']
    } else if c == '\\' {
        seq!['\\', '\\']
    } else if v == 8 {
        seq!['\\', 'b']
    } else if v == 9 {
        seq!['\\', 't']
    } else if v == 10 {
        seq!['\\', 'n']
    } else if v == 12 {
        seq!['\\', 'f']
    } else if v == 13 {
        seq!['\\', 'r']
    } else if v < 32 {
        seq!['\\', 'u', '0', '0', hex_digit(v as int / 16), hex_digit(v as int % 16)]
    } else {
        seq![c]
    }
}

/// The characters of `s`, each escaped.
pub open spec fn escaped(s: Seq<char>) -> Seq<char>
    decreases s.len(),
{
    if s.len() == 0 {
        Seq::empty()
    } else {
        escaped(s.drop_last()) + escape_char(s.last())
    }
}

/// The JSON string literal of `s`: its escaped characters between quotes.
#[verifier::opaque]
pub open spec fn json_string_of(s: Seq<char>) -> Seq<char> {
    seq!['"'] + escaped(s) + seq!['"']
}

/// Relies on serde_json::to_string, applied to a string: the string between
/// quotes, with the escapes of its `format_escaped_str`. Serializing a string
/// into memory cannot fail.
#[verifier::external_body]
fn json_quote(s: &str) -> (r: String)
    ensures
        r@ == json_string_of(s@),
{
    serde_json::to_string(s).unwrap_or_default()
}

/// The items separated by commas.
pub open spec fn join(items: Seq<Seq<char>>) -> Seq<char>
    decreases items.len(),
{
    if items.len() == 0 {
        Seq::empty()
    } else if items.len() == 1 {
        items[0]
    } else {
        join(items.drop_last()) + ","@ + items.last()
    }
}

/// A JSON object whose members are `members`, each already written as
/// `"key":value`.
pub open spec fn object(members: Seq<Seq<char>>) -> Seq<char> {
    "{"@ + join(members) + "}"@
}

/// A JSON array of `items`, each already written.
pub open spec fn array(items: Seq<Seq<char>>) -> Seq<char> {
    "["@ + join(items) + "]"@
}

/// One member of a JSON object.
pub open spec fn member(key: Seq<char>, value: Seq<char>) -> Seq<char> {
    json_string_of(key) + ":"@ + value
}

/// The name of a kind in the `type` field of a schema.
pub open spec fn kind_name(k: SchemaKind) -> Seq<char> {
    match k {
        SchemaKind::Object => "object"@,
        SchemaKind::Array => "array"@,
        SchemaKind::String => "string"@,
        SchemaKind::Integer => "integer"@,
        SchemaKind::Number => "number"@,
        SchemaKind::Boolean => "boolean"@,
    }
}

/// The JSON of a reference to `path`.
pub open spec fn ref_json(path: Seq<char>) -> Seq<char> {
    object(seq![member("$ref"@, json_string_of(path))])
}

/// The JSON of a property's target: a primitive schema, or a reference to
/// the component it names.
pub open spec fn target_json(t: TargetView) -> Seq<char> {
    match t {
        TargetView::Primitive(k) => object(seq![member("type"@, json_string_of(kind_name(k)))]),
        TargetView::Component(n) => ref_json(schema_ref_path(n)),
    }
}

/// The JSON of a schema: its type, and its properties where it has any.
pub open spec fn schema_json(s: SchemaView) -> Seq<char> {
    let ty = member("type"@, json_string_of(kind_name(s.kind)));
    if s.properties.len() == 0 {
        object(seq![ty])
    } else {
        object(
            seq![
                ty,
                member(
                    "properties"@,
                    object(s.properties.map_values(|p: PropertyView| member(p.name, target_json(p.target)))),
                ),
            ],
        )
    }
}

/// The JSON of a schema or reference.
pub open spec fn ref_or_json(r: RefOrView) -> Seq<char> {
    match r {
        RefOrView::Reference(p) => ref_json(p),
        RefOrView::Inline(s) => schema_json(s),
    }
}

/// Appends `item` to the comma-separated list `out` that holds `done`.
fn push_item(out: &mut String, item: &String, first: bool, Ghost(done): Ghost<Seq<Seq<char>>>)
    requires
        old(out)@ == join(done),
        first == (done.len() == 0),
    ensures
        final(out)@ == join(done.push(item@)),
{
    proof {
        reveal_strlit(",");
        assert(done.push(item@).drop_last() =~= done);
    }
    if !first {
        out.append(",");
    } else {
        proof {
            assert(join(done) =~= Seq::<char>::empty());
        }
    }
    out.append(item.as_str());
    proof {
        if done.len() == 0 {
            assert(out@ =~= item@);
        }
    }
}

fn kind_text(k: SchemaKind) -> (r: &'static str)
    ensures
        r@ == kind_name(k),
{
    match k {
        SchemaKind::Object => "object",
        SchemaKind::Array => "array",
        SchemaKind::String => "string",
        SchemaKind::Integer => "integer",
        SchemaKind::Number => "number",
        SchemaKind::Boolean => "boolean",
    }
}

/// Writes `"key":value`.
fn write_member(key: &str, value: String) -> (r: String)
    ensures
        r@ == member(key@, value@),
{
    let mut r = json_quote(key);
    r.append(":");
    r.append(value.as_str());
    r
}

/// Writes the items given in order, separated by commas, between `open`
/// and `close`.
fn write_list(members: &Vec<String>, open: &str, close: &str) -> (r: String)
    ensures
        r@ == open@ + join(texts(members@)) + close@,
{
    let ghost items = texts(members@);
    let mut body = String::new();
    let n = members.len();
    let mut i: usize = 0;
    while i < n
        invariant
            n == members@.len(),
            i <= n,
            items == texts(members@),
            body@ == join(items.take(i as int)),
        decreases n - i,
    {
        proof {
            assert(items.take(i + 1) =~= items.take(i as int).push(members@[i as int]@));
        }
        push_item(&mut body, &members[i], i == 0, Ghost(items.take(i as int)));
        i = i + 1;
    }
    proof {
        assert(items.take(n as int) =~= items);
    }
    let mut r = open.to_owned();
    r.append(body.as_str());
    r.append(close);
    r
}

/// Writes an object of the members given in order.
fn write_object(members: &Vec<String>) -> (r: String)
    ensures
        r@ == object(texts(members@)),
{
    write_list(members, "{", "}")
}

/// Writes an array of the items given in order.
fn write_array(items: &Vec<String>) -> (r: String)
    ensures
        r@ == array(texts(items@)),
{
    write_list(items, "[", "]")
}

/// The JSON of a reference to `path`.
pub fn write_ref(path: &String) -> (r: String)
    ensures
        r@ == ref_json(path@),
{
    let mut m: Vec<String> = Vec::new();
    m.push(write_member("$ref", json_quote(path.as_str())));
    let r = write_object(&m);
    proof {
        assert(texts(m@) =~= seq![member("$ref"@, json_string_of(path@))]);
    }
    r
}

fn write_type(k: SchemaKind) -> (r: String)
    ensures
        r@ == member("type"@, json_string_of(kind_name(k))),
{
    write_member("type", json_quote(kind_text(k)))
}

/// The JSON of a property's target.
pub fn write_target(t: &Target) -> (r: String)
    ensures
        r@ == target_json(t@),
{
    match t {
        Target::Primitive(k) => {
            let mut m: Vec<String> = Vec::new();
            m.push(write_type(*k));
            let r = write_object(&m);
            proof {
                assert(texts(m@) =~= seq![member("type"@, json_string_of(kind_name(*k)))]);
            }
            r
        },
        Target::Component(n) => write_ref(&crate::schema::schema_ref(n)),
    }
}

/// The JSON of a schema.
pub fn write_schema(s: &Schema) -> (r: String)
    ensures
        r@ == schema_json(s@),
{
    let mut m: Vec<String> = Vec::new();
    m.push(write_type(s.kind));
    if s.properties.len() == 0 {
        let r = write_object(&m);
        proof {
            assert(texts(m@) =~= seq![member("type"@, json_string_of(kind_name(s.kind)))]);
        }
        return r;
    }
    let mut props: Vec<String> = Vec::new();
    let n = s.properties.len();
    let mut i: usize = 0;
    while i < n
        invariant
            n == s.properties@.len(),
            i <= n,
            props@.len() == i,
            forall|j: int| 0 <= j < i ==> (#[trigger] props@[j])@ == member(
                s.properties@[j].name@,
                target_json(s.properties@[j].target@),
            ),
        decreases n - i,
    {
        let p = &s.properties[i];
        props.push(write_member(p.name.as_str(), write_target(&p.target)));
        i = i + 1;
    }
    let inner = write_object(&props);
    proof {
        assert(texts(props@) =~= s@.properties.map_values(
            |p: PropertyView| member(p.name, target_json(p.target)),
        ));
    }
    m.push(write_member("properties", inner));
    let r = write_object(&m);
    proof {
        assert(texts(m@) =~= seq![
            member("type"@, json_string_of(kind_name(s.kind))),
            member("properties"@, object(s@.properties.map_values(|p: PropertyView| member(p.name, target_json(p.target))))),
        ]);
    }
    r
}

/// The JSON of a schema or reference.
pub fn write_ref_or(x: &RefOr) -> (r: String)
    ensures
        r@ == ref_or_json(x@),
{
    match x {
        RefOr::Reference(p) => write_ref(p),
        RefOr::Inline(s) => write_schema(s),
    }
}

/// The JSON of the body of one content type.
pub open spec fn media_json(m: Option<RefOrView>) -> Seq<char> {
    match m {
        Some(x) => object(seq![member("schema"@, ref_or_json(x))]),
        None => object(Seq::empty()),
    }
}

/// The JSON of a response: its description and its content, each left out
/// where it is empty.
pub open spec fn response_json(r: ResponseView) -> Seq<char> {
    let d: Seq<Seq<char>> = if r.description.len() == 0 {
        Seq::empty()
    } else {
        seq![member("description"@, json_string_of(r.description))]
    };
    let c: Seq<Seq<char>> = if r.content.len() == 0 {
        Seq::empty()
    } else {
        seq![
            member(
                "content"@,
                object(r.content.map_values(|e: (Seq<char>, Option<RefOrView>)| member(e.0, media_json(e.1)))),
            ),
        ]
    };
    object(d + c)
}

/// The JSON of a response or of a reference to one.
pub open spec fn response_or_json(x: ResponseOrView) -> Seq<char> {
    match x {
        ResponseOrView::Reference(p) => ref_json(p),
        ResponseOrView::Object(r) => response_json(r),
    }
}

/// The JSON of a responses map: one member per status, in order.
pub open spec fn responses_json(rs: Seq<(Seq<char>, ResponseOrView)>) -> Seq<char> {
    object(rs.map_values(|e: (Seq<char>, ResponseOrView)| member(e.0, response_or_json(e.1))))
}

/// The JSON of the schema components: one member per name, in order of
/// first contribution.
pub open spec fn components_json(e: Entries) -> Seq<char> {
    object(e.map_values(|p: (Seq<char>, SchemaView)| member(p.0, schema_json(p.1))))
}

fn write_media(m: &MediaType) -> (r: String)
    ensures
        r@ == media_json(media_view(*m)),
{
    let mut v: Vec<String> = Vec::new();
    match &m.schema {
        Some(x) => {
            v.push(write_member("schema", write_ref_or(x)));
            let r = write_object(&v);
            proof {
                assert(texts(v@) =~= seq![member("schema"@, ref_or_json(x@))]);
            }
            r
        },
        None => {
            let r = write_object(&v);
            proof {
                assert(texts(v@) =~= Seq::<Seq<char>>::empty());
            }
            r
        },
    }
}

/// The JSON of a response.
pub fn write_response(x: &Response) -> (r: String)
    ensures
        r@ == response_json(x@),
{
    let mut fields: Vec<String> = Vec::new();
    let ghost d: Seq<Seq<char>> = if x@.description.len() == 0 {
        Seq::empty()
    } else {
        seq![member("description"@, json_string_of(x@.description))]
    };
    if !x.description.as_str().is_empty() {
        fields.push(write_member("description", json_quote(x.description.as_str())));
    }
    proof {
        assert(texts(fields@) =~= d);
    }
    let n = x.content.len();
    if n != 0 {
        let mut entries: Vec<String> = Vec::new();
        let mut i: usize = 0;
        while i < n
            invariant
                n == x.content@.len(),
                i <= n,
                entries@.len() == i,
                forall|j: int| 0 <= j < i ==> (#[trigger] entries@[j])@ == member(
                    x.content@[j].0@,
                    media_json(media_view(x.content@[j].1)),
                ),
            decreases n - i,
        {
            entries.push(write_member(x.content[i].0.as_str(), write_media(&x.content[i].1)));
            i = i + 1;
        }
        let inner = write_object(&entries);
        proof {
            assert(texts(entries@) =~= x@.content.map_values(
                |e: (Seq<char>, Option<RefOrView>)| member(e.0, media_json(e.1)),
            ));
        }
        let ghost before = texts(fields@);
        fields.push(write_member("content", inner));
        proof {
            assert(texts(fields@) =~= before.push(member(
                "content"@,
                object(x@.content.map_values(|e: (Seq<char>, Option<RefOrView>)| member(e.0, media_json(e.1)))),
            )));
        }
    }
    let r = write_object(&fields);
    proof {
        let c: Seq<Seq<char>> = if x@.content.len() == 0 {
            Seq::empty()
        } else {
            seq![
                member(
                    "content"@,
                    object(x@.content.map_values(|e: (Seq<char>, Option<RefOrView>)| member(e.0, media_json(e.1)))),
                ),
            ]
        };
        assert(texts(fields@) =~= d + c);
    }
    r
}

/// The JSON of a response or of a reference to one.
pub fn write_response_or(x: &ResponseOr) -> (r: String)
    ensures
        r@ == response_or_json(x@),
{
    match x {
        ResponseOr::Reference(p) => write_ref(p),
        ResponseOr::Object(o) => write_response(o),
    }
}

impl Responses {
    /// The JSON text of the responses map.
    pub fn to_json(&self) -> (r: String)
        ensures
            r@ == responses_json(self@),
    {
        let mut entries: Vec<String> = Vec::new();
        let n = self.responses.len();
        let mut i: usize = 0;
        while i < n
            invariant
                n == self.responses@.len(),
                i <= n,
                entries@.len() == i,
                forall|j: int| 0 <= j < i ==> (#[trigger] entries@[j])@ == member(
                    self.responses@[j].0@,
                    response_or_json(self.responses@[j].1@),
                ),
            decreases n - i,
        {
            entries.push(write_member(self.responses[i].0.as_str(), write_response_or(&self.responses[i].1)));
            i = i + 1;
        }
        proof {
            assert(texts(entries@) =~= self@.map_values(
                |e: (Seq<char>, ResponseOrView)| member(e.0, response_or_json(e.1)),
            ));
        }
        write_object(&entries)
    }
}

impl Registry {
    /// The JSON text of the schema components.
    pub fn to_json(&self) -> (r: String)
        ensures
            r@ == components_json(self@),
    {
        let mut entries: Vec<String> = Vec::new();
        let n = self.len();
        let mut i: usize = 0;
        while i < n
            invariant
                n == self@.len(),
                i <= n,
                entries@.len() == i,
                forall|j: int| 0 <= j < i ==> (#[trigger] entries@[j])@ == member(self@[j].0, schema_json(self@[j].1)),
            decreases n - i,
        {
            let (name, schema) = self.entry(i);
            entries.push(write_member(name.as_str(), write_schema(schema)));
            i = i + 1;
        }
        proof {
            assert(texts(entries@) =~= self@.map_values(
                |p: (Seq<char>, SchemaView)| member(p.0, schema_json(p.1)),
            ));
        }
        write_object(&entries)
    }
}

/// A reply with no body is written as one member, its status, whose value is
/// the empty object.
pub proof fn lemma_no_content_json()
    ensures
        responses_json(single(NO_CONTENT, ResponseOrView::Object(empty_response()))) == object(
            seq![member(status_text(NO_CONTENT as int), object(Seq::empty()))],
        ),
{
    let rs = single(NO_CONTENT, ResponseOrView::Object(empty_response()));
    let r = empty_response();
    assert(response_json(r) == object(Seq::<Seq<char>>::empty() + Seq::<Seq<char>>::empty()));
    assert(Seq::<Seq<char>>::empty() + Seq::<Seq<char>>::empty() =~= Seq::<Seq<char>>::empty());
    assert(rs.map_values(|e: (Seq<char>, ResponseOrView)| member(e.0, response_or_json(e.1))) =~= seq![
        member(status_text(NO_CONTENT as int), object(Seq::empty())),
    ]);
}

/// A created reply whose body type has an inlined schema under `name` is
/// written as its status holding one JSON content entry whose schema is a
/// reference to the component `name`.
pub proof fn lemma_created_json(name: Seq<char>, schema: SchemaView)
    ensures
        response_from_schema_spec(CREATED, Some((name, RefOrView::Inline(schema)))) matches Some(rs)
            && responses_json(rs) == object(
            seq![
                member(
                    status_text(CREATED as int),
                    object(
                        seq![
                            member(
                                "content"@,
                                object(
                                    seq![
                                        member(
                                            json_content_type(),
                                            object(seq![member("schema"@, ref_json(schema_ref_path(name)))]),
                                        ),
                                    ],
                                ),
                            ),
                        ],
                    ),
                ),
            ],
        ),
{
    let rs = single(CREATED, ResponseOrView::Object(json_ref_response(name)));
    let r = json_ref_response(name);
    let content = r.content.map_values(|e: (Seq<char>, Option<RefOrView>)| member(e.0, media_json(e.1)));
    assert(content =~= seq![
        member(json_content_type(), object(seq![member("schema"@, ref_json(schema_ref_path(name)))])),
    ]);
    let c = seq![member("content"@, object(content))];
    assert(Seq::<Seq<char>>::empty() + c =~= c);
    assert(response_json(r) == object(c));
    assert(rs.map_values(|e: (Seq<char>, ResponseOrView)| member(e.0, response_or_json(e.1))) =~= seq![
        member(status_text(CREATED as int), response_json(r)),
    ]);
}

/// The JSON of a request body: a JSON content entry holding its schema.
pub open spec fn body_json(b: RefOrView) -> Seq<char> {
    object(seq![member("content"@, object(seq![member(json_content_type(), object(seq![member("schema"@, ref_or_json(b))]))]))])
}

/// The member `key` with value `value` where `present`, else nothing.
pub open spec fn opt_member(present: bool, key: Seq<char>, value: Seq<char>) -> Seq<Seq<char>> {
    if present {
        seq![member(key, value)]
    } else {
        Seq::empty()
    }
}

/// The JSON of one security requirement: the scheme's name, with no scopes.
pub open spec fn requirement_json(name: Seq<char>) -> Seq<char> {
    object(seq![member(name, array(Seq::empty()))])
}

/// The name of a parameter location in the `in` field.
pub open spec fn location_name(l: ParameterLocation) -> Seq<char> {
    match l {
        ParameterLocation::Path => "path"@,
        ParameterLocation::Query => "query"@,
        ParameterLocation::Header => "header"@,
        ParameterLocation::Cookie => "cookie"@,
    }
}

/// A boolean as JSON.
pub open spec fn bool_json(b: bool) -> Seq<char> {
    if b {
        "true"@
    } else {
        "false"@
    }
}

/// The JSON of a parameter: its name, location, whether it is required,
/// and its schema.
pub open spec fn parameter_json(p: ParameterView) -> Seq<char> {
    object(
        seq![
            member("name"@, json_string_of(p.name)),
            member("in"@, json_string_of(location_name(p.location))),
            member("required"@, bool_json(p.required)),
            member("schema"@, ref_or_json(p.schema)),
        ],
    )
}

fn location_text(l: ParameterLocation) -> (r: &'static str)
    ensures
        r@ == location_name(l),
{
    match l {
        ParameterLocation::Path => "path",
        ParameterLocation::Query => "query",
        ParameterLocation::Header => "header",
        ParameterLocation::Cookie => "cookie",
    }
}

fn write_parameter(p: &Parameter) -> (r: String)
    ensures
        r@ == parameter_json(p@),
{
    let mut m: Vec<String> = Vec::new();
    push_text(&mut m, write_member("name", json_quote(p.name.as_str())));
    push_text(&mut m, write_member("in", json_quote(location_text(p.location))));
    let b = if p.required {
        "true".to_owned()
    } else {
        "false".to_owned()
    };
    push_text(&mut m, write_member("required", b));
    push_text(&mut m, write_member("schema", write_ref_or(&p.schema)));
    proof {
        assert(texts(m@) =~= seq![
            member("name"@, json_string_of(p@.name)),
            member("in"@, json_string_of(location_name(p@.location))),
            member("required"@, bool_json(p@.required)),
            member("schema"@, ref_or_json(p@.schema)),
        ]);
    }
    write_object(&m)
}

fn write_parameters(v: &Vec<Parameter>) -> (r: String)
    ensures
        r@ == array(v@.map_values(|p: Parameter| p@).map_values(|p: ParameterView| parameter_json(p))),
{
    let ghost pv = v@.map_values(|p: Parameter| p@);
    let mut items: Vec<String> = Vec::new();
    let n = v.len();
    let mut i: usize = 0;
    while i < n
        invariant
            n == v@.len(),
            pv == v@.map_values(|p: Parameter| p@),
            i <= n,
            texts(items@) == pv.take(i as int).map_values(|p: ParameterView| parameter_json(p)),
        decreases n - i,
    {
        push_text(&mut items, write_parameter(&v[i]));
        proof {
            assert(pv.take(i + 1).map_values(|p: ParameterView| parameter_json(p)) =~= pv.take(i as int).map_values(
                |p: ParameterView| parameter_json(p),
            ).push(parameter_json(v@[i as int]@)));
        }
        i = i + 1;
    }
    proof {
        assert(pv.take(n as int) =~= pv);
    }
    write_array(&items)
}

/// The JSON of an operation: its tags, summary, description, parameters
/// and request body where it has them, its responses, and its security requirements
/// where it has any.
pub open spec fn operation_json(o: OperationView) -> Seq<char> {
    object(
        opt_member(o.tags.len() > 0, "tags"@, array(o.tags.map_values(|t: Seq<char>| json_string_of(t))))
            + opt_member(o.summary is Some, "summary"@, json_string_of(o.summary->Some_0))
            + opt_member(o.description is Some, "description"@, json_string_of(o.description->Some_0))
            + opt_member(
            o.parameters.len() > 0,
            "parameters"@,
            array(o.parameters.map_values(|p: ParameterView| parameter_json(p))),
        )
            + opt_member(o.request_body is Some, "requestBody"@, body_json(o.request_body->Some_0))
            + seq![member("responses"@, responses_json(o.responses))]
            + opt_member(
            o.security.len() > 0,
            "security"@,
            array(o.security.map_values(|n: Seq<char>| requirement_json(n))),
        ),
    )
}

fn push_text(v: &mut Vec<String>, x: String)
    ensures
        texts(final(v)@) == texts(old(v)@).push(x@),
{
    v.push(x);
    proof {
        assert(texts(final(v)@) =~= texts(old(v)@).push(x@));
    }
}

fn write_quoted_list(v: &Vec<String>) -> (r: String)
    ensures
        r@ == array(texts(v@).map_values(|t: Seq<char>| json_string_of(t))),
{
    let mut items: Vec<String> = Vec::new();
    let n = v.len();
    let mut i: usize = 0;
    while i < n
        invariant
            n == v@.len(),
            i <= n,
            texts(items@) == texts(v@).take(i as int).map_values(|t: Seq<char>| json_string_of(t)),
        decreases n - i,
    {
        push_text(&mut items, json_quote(v[i].as_str()));
        proof {
            assert(texts(v@).take(i + 1).map_values(|t: Seq<char>| json_string_of(t)) =~= texts(v@).take(
                i as int,
            ).map_values(|t: Seq<char>| json_string_of(t)).push(json_string_of(v@[i as int]@)));
        }
        i = i + 1;
    }
    proof {
        assert(texts(v@).take(n as int) =~= texts(v@));
    }
    write_array(&items)
}

fn write_requirements(v: &Vec<String>) -> (r: String)
    ensures
        r@ == array(texts(v@).map_values(|n: Seq<char>| requirement_json(n))),
{
    let mut items: Vec<String> = Vec::new();
    let n = v.len();
    let mut i: usize = 0;
    while i < n
        invariant
            n == v@.len(),
            i <= n,
            texts(items@) == texts(v@).take(i as int).map_values(|n: Seq<char>| requirement_json(n)),
        decreases n - i,
    {
        let empty: Vec<String> = Vec::new();
        let scopes = write_array(&empty);
        let mut m: Vec<String> = Vec::new();
        push_text(&mut m, write_member(v[i].as_str(), scopes));
        proof {
            assert(texts(empty@) =~= Seq::<Seq<char>>::empty());
            assert(texts(m@) =~= seq![member(v@[i as int]@, array(Seq::empty()))]);
        }
        push_text(&mut items, write_object(&m));
        proof {
            assert(texts(v@).take(i + 1).map_values(|n: Seq<char>| requirement_json(n)) =~= texts(v@).take(
                i as int,
            ).map_values(|n: Seq<char>| requirement_json(n)).push(requirement_json(v@[i as int]@)));
        }
        i = i + 1;
    }
    proof {
        assert(texts(v@).take(n as int) =~= texts(v@));
    }
    write_array(&items)
}

fn write_body(b: &RefOr) -> (r: String)
    ensures
        r@ == body_json(b@),
{
    let mut m1: Vec<String> = Vec::new();
    push_text(&mut m1, write_member("schema", write_ref_or(b)));
    let mut m2: Vec<String> = Vec::new();
    push_text(&mut m2, write_member("application/json", write_object(&m1)));
    let mut m3: Vec<String> = Vec::new();
    push_text(&mut m3, write_member("content", write_object(&m2)));
    proof {
        assert(texts(m1@) =~= seq![member("schema"@, ref_or_json(b@))]);
        assert(texts(m2@) =~= seq![member(json_content_type(), object(seq![member("schema"@, ref_or_json(b@))]))]);
        assert(texts(m3@) =~= seq![member("content"@, object(seq![member(json_content_type(), object(seq![member("schema"@, ref_or_json(b@))]))]))]);
    }
    write_object(&m3)
}

/// The JSON of an operation.
pub fn write_operation(o: &Operation) -> (r: String)
    ensures
        r@ == operation_json(o@),
{
    let ghost v = o@;
    let mut f: Vec<String> = Vec::new();
    proof {
        assert(texts(f@) =~= Seq::<Seq<char>>::empty());
    }
    let ghost a1 = opt_member(v.tags.len() > 0, "tags"@, array(v.tags.map_values(|t: Seq<char>| json_string_of(t))));
    if o.tags.len() > 0 {
        push_text(&mut f, write_member("tags", write_quoted_list(&o.tags)));
    }
    proof {
        assert(texts(f@) =~= a1);
    }
    let ghost a2 = a1 + opt_member(v.summary is Some, "summary"@, json_string_of(v.summary->Some_0));
    match &o.summary {
        Some(t) => push_text(&mut f, write_member("summary", json_quote(t.as_str()))),
        None => {},
    }
    proof {
        assert(texts(f@) =~= a2);
    }
    let ghost a3 = a2 + opt_member(v.description is Some, "description"@, json_string_of(v.description->Some_0));
    match &o.description {
        Some(t) => push_text(&mut f, write_member("description", json_quote(t.as_str()))),
        None => {},
    }
    proof {
        assert(texts(f@) =~= a3);
    }
    let ghost a3p = a3 + opt_member(
        v.parameters.len() > 0,
        "parameters"@,
        array(v.parameters.map_values(|p: ParameterView| parameter_json(p))),
    );
    if o.parameters.len() > 0 {
        push_text(&mut f, write_member("parameters", write_parameters(&o.parameters)));
    }
    proof {
        assert(texts(f@) =~= a3p);
    }
    let ghost a4 = a3p + opt_member(v.request_body is Some, "requestBody"@, body_json(v.request_body->Some_0));
    match &o.request_body {
        Some(b) => push_text(&mut f, write_member("requestBody", write_body(b))),
        None => {},
    }
    proof {
        assert(texts(f@) =~= a4);
    }
    let ghost a5 = a4 + seq![member("responses"@, responses_json(v.responses))];
    push_text(&mut f, write_member("responses", o.responses.to_json()));
    proof {
        assert(texts(f@) =~= a5);
    }
    let ghost a6 = a5 + opt_member(
        v.security.len() > 0,
        "security"@,
        array(v.security.map_values(|n: Seq<char>| requirement_json(n))),
    );
    if o.security.len() > 0 {
        push_text(&mut f, write_member("security", write_requirements(&o.security)));
    }
    proof {
        assert(texts(f@) =~= a6);
    }
    write_object(&f)
}

/// The registered operations: route, method and operation.
pub type Ops = Seq<(Seq<char>, Seq<char>, OperationView)>;

/// The distinct routes of `ops`, in order of first registration.
pub open spec fn routes_of(ops: Ops) -> Seq<Seq<char>>
    decreases ops.len(),
{
    if ops.len() == 0 {
        Seq::empty()
    } else {
        let d = routes_of(ops.drop_last());
        if d.contains(ops.last().0) {
            d
        } else {
            d.push(ops.last().0)
        }
    }
}

/// The members, method to operation, of the path item of `route`.
pub open spec fn route_members(ops: Ops, route: Seq<char>) -> Seq<Seq<char>>
    decreases ops.len(),
{
    if ops.len() == 0 {
        Seq::empty()
    } else {
        let m = route_members(ops.drop_last(), route);
        if ops.last().0 == route {
            m.push(member(ops.last().1, operation_json(ops.last().2)))
        } else {
            m
        }
    }
}

/// The JSON of the paths: one path item per route, in order of first
/// registration, each holding its operations by method.
pub open spec fn paths_json(ops: Ops) -> Seq<char> {
    object(routes_of(ops).map_values(|r: Seq<char>| member(r, object(route_members(ops, r)))))
}

/// The JSON of a security scheme of type `t` with parameter `p`: an HTTP
/// scheme names its scheme, any other a header that carries the key.
pub open spec fn scheme_json(t: Seq<char>, p: Seq<char>) -> Seq<char> {
    if t == "http"@ {
        object(seq![member("type"@, json_string_of(t)), member("scheme"@, json_string_of(p))])
    } else {
        object(
            seq![
                member("type"@, json_string_of(t)),
                member("in"@, json_string_of("header"@)),
                member("name"@, json_string_of(p)),
            ],
        )
    }
}

/// The JSON of the security schemes, by name.
pub open spec fn schemes_json(s: Seq<(Seq<char>, (Seq<char>, Seq<char>))>) -> Seq<char> {
    object(s.map_values(|e: (Seq<char>, (Seq<char>, Seq<char>))| member(e.0, scheme_json(e.1.0, e.1.1))))
}

/// The JSON of a server.
pub open spec fn server_json(url: Seq<char>) -> Seq<char> {
    object(seq![member("url"@, json_string_of(url))])
}

/// The JSON of the title and version of the API.
pub open spec fn info_json(d: DocumentView) -> Seq<char> {
    object(seq![member("title"@, json_string_of(d.title)), member("version"@, json_string_of(d.version))])
}

/// The JSON of a whole document: its OpenAPI version, info, paths and
/// components, then its security requirements and servers where it has
/// any.
pub open spec fn document_json(d: DocumentView) -> Seq<char> {
    object(
        seq![
            member("openapi"@, json_string_of("3.0.3"@)),
            member("info"@, info_json(d)),
            member("paths"@, paths_json(d.operations)),
            member(
                "components"@,
                object(
                    seq![
                        member("schemas"@, components_json(d.schemas)),
                        member("securitySchemes"@, schemes_json(d.security_schemes)),
                    ],
                ),
            ),
        ] + opt_member(
            d.security.len() > 0,
            "security"@,
            array(d.security.map_values(|n: Seq<char>| requirement_json(n))),
        ) + opt_member(d.servers.len() > 0, "servers"@, array(d.servers.map_values(|u: Seq<char>| server_json(u)))),
    )
}

fn write_servers(v: &Vec<String>) -> (r: String)
    ensures
        r@ == array(texts(v@).map_values(|u: Seq<char>| server_json(u))),
{
    let mut items: Vec<String> = Vec::new();
    let n = v.len();
    let mut i: usize = 0;
    while i < n
        invariant
            n == v@.len(),
            i <= n,
            texts(items@) == texts(v@).take(i as int).map_values(|u: Seq<char>| server_json(u)),
        decreases n - i,
    {
        let mut m: Vec<String> = Vec::new();
        push_text(&mut m, write_member("url", json_quote(v[i].as_str())));
        proof {
            assert(texts(m@) =~= seq![member("url"@, json_string_of(v@[i as int]@))]);
        }
        push_text(&mut items, write_object(&m));
        proof {
            assert(texts(v@).take(i + 1).map_values(|u: Seq<char>| server_json(u)) =~= texts(v@).take(
                i as int,
            ).map_values(|u: Seq<char>| server_json(u)).push(server_json(v@[i as int]@)));
        }
        i = i + 1;
    }
    proof {
        assert(texts(v@).take(n as int) =~= texts(v@));
    }
    write_array(&items)
}

impl Document {
    fn write_routes(&self) -> (r: Vec<String>)
        ensures
            texts(r@) == routes_of(self@.operations),
    {
        let ghost ops = self@.operations;
        let mut routes: Vec<String> = Vec::new();
        let n = self.operation_count();
        let mut i: usize = 0;
        while i < n
            invariant
                n == ops.len(),
                ops == self@.operations,
                i <= n,
                texts(routes@) == routes_of(ops.take(i as int)),
            decreases n - i,
        {
            let (route, _, _) = self.operation_at(i);
            let mut found = false;
            let m = routes.len();
            let mut k: usize = 0;
            while k < m
                invariant
                    m == routes@.len(),
                    k <= m,
                    !found ==> forall|j: int| 0 <= j < k ==> routes@[j]@ != route@,
                    found ==> texts(routes@).contains(route@),
                decreases m - k,
            {
                if routes[k].eq(route) {
                    found = true;
                    proof {
                        assert(texts(routes@)[k as int] == route@);
                    }
                }
                k = k + 1;
            }
            proof {
                assert(ops.take(i + 1).drop_last() =~= ops.take(i as int));
                assert(ops.take(i + 1).last() == ops[i as int]);
                if !found {
                    assert(!texts(routes@).contains(route@)) by {
                        if texts(routes@).contains(route@) {
                            let j = choose|j: int| 0 <= j < m && texts(routes@)[j] == route@;
                            assert(routes@[j]@ == route@);
                        }
                    }
                }
            }
            if !found {
                push_text(&mut routes, route.clone());
            }
            i = i + 1;
        }
        proof {
            assert(ops.take(n as int) =~= ops);
        }
        routes
    }

    fn write_path_item(&self, route: &String) -> (r: String)
        ensures
            r@ == object(route_members(self@.operations, route@)),
    {
        let ghost ops = self@.operations;
        let mut members: Vec<String> = Vec::new();
        let n = self.operation_count();
        let mut i: usize = 0;
        while i < n
            invariant
                n == ops.len(),
                ops == self@.operations,
                i <= n,
                texts(members@) == route_members(ops.take(i as int), route@),
            decreases n - i,
        {
            let (r, method, op) = self.operation_at(i);
            proof {
                assert(ops.take(i + 1).drop_last() =~= ops.take(i as int));
                assert(ops.take(i + 1).last() == ops[i as int]);
            }
            if r.eq(route) {
                push_text(&mut members, write_member(method.as_str(), write_operation(op)));
            }
            i = i + 1;
        }
        proof {
            assert(ops.take(n as int) =~= ops);
        }
        write_object(&members)
    }

    fn write_paths(&self) -> (r: String)
        ensures
            r@ == paths_json(self@.operations),
    {
        let ghost ops = self@.operations;
        let routes = self.write_routes();
        let mut items: Vec<String> = Vec::new();
        let n = routes.len();
        let mut i: usize = 0;
        while i < n
            invariant
                n == routes@.len(),
                ops == self@.operations,
                texts(routes@) == routes_of(ops),
                i <= n,
                texts(items@) == routes_of(ops).take(i as int).map_values(
                    |r: Seq<char>| member(r, object(route_members(ops, r))),
                ),
            decreases n - i,
        {
            push_text(&mut items, write_member(routes[i].as_str(), self.write_path_item(&routes[i])));
            proof {
                assert(texts(routes@)[i as int] == routes@[i as int]@);
                assert(routes_of(ops).take(i + 1).map_values(|r: Seq<char>| member(r, object(route_members(ops, r))))
                    =~= routes_of(ops).take(i as int).map_values(
                    |r: Seq<char>| member(r, object(route_members(ops, r))),
                ).push(member(routes@[i as int]@, object(route_members(ops, routes@[i as int]@)))));
            }
            i = i + 1;
        }
        proof {
            assert(routes_of(ops).take(n as int) =~= routes_of(ops));
        }
        write_object(&items)
    }

    fn write_schemes(&self) -> (r: String)
        ensures
            r@ == schemes_json(self@.security_schemes),
    {
        let ghost s = self@.security_schemes;
        let mut items: Vec<String> = Vec::new();
        let n = self.security_scheme_count();
        let mut i: usize = 0;
        while i < n
            invariant
                n == s.len(),
                s == self@.security_schemes,
                i <= n,
                texts(items@) == s.take(i as int).map_values(
                    |e: (Seq<char>, (Seq<char>, Seq<char>))| member(e.0, scheme_json(e.1.0, e.1.1)),
                ),
            decreases n - i,
        {
            let (name, scheme) = self.security_scheme_at(i);
            let mut m: Vec<String> = Vec::new();
            push_text(&mut m, write_member("type", json_quote(scheme.scheme_type.as_str())));
            proof {
                reveal_strlit("http");
            }
            let http = "http".to_owned();
            if scheme.scheme_type.eq(&http) {
                push_text(&mut m, write_member("scheme", json_quote(scheme.parameter.as_str())));
            } else {
                push_text(&mut m, write_member("in", json_quote("header")));
                push_text(&mut m, write_member("name", json_quote(scheme.parameter.as_str())));
            }
            proof {
                let t = scheme.scheme_type@;
                let p = scheme.parameter@;
                if t == "http"@ {
                    assert(texts(m@) =~= seq![member("type"@, json_string_of(t)), member("scheme"@, json_string_of(p))]);
                } else {
                    assert(texts(m@) =~= seq![
                        member("type"@, json_string_of(t)),
                        member("in"@, json_string_of("header"@)),
                        member("name"@, json_string_of(p)),
                    ]);
                }
            }
            push_text(&mut items, write_member(name.as_str(), write_object(&m)));
            proof {
                assert(s.take(i + 1).map_values(
                    |e: (Seq<char>, (Seq<char>, Seq<char>))| member(e.0, scheme_json(e.1.0, e.1.1)),
                ) =~= s.take(i as int).map_values(
                    |e: (Seq<char>, (Seq<char>, Seq<char>))| member(e.0, scheme_json(e.1.0, e.1.1)),
                ).push(member(s[i as int].0, scheme_json(s[i as int].1.0, s[i as int].1.1))));
            }
            i = i + 1;
        }
        proof {
            assert(s.take(n as int) =~= s);
        }
        write_object(&items)
    }

    /// The JSON text of the document.
    pub fn to_json(&self) -> (r: String)
        ensures
            r@ == document_json(self@),
    {
        let mut c: Vec<String> = Vec::new();
        push_text(&mut c, write_member("schemas", self.components().to_json()));
        push_text(&mut c, write_member("securitySchemes", self.write_schemes()));
        let (title, version) = self.info();
        let mut info: Vec<String> = Vec::new();
        push_text(&mut info, write_member("title", json_quote(title.as_str())));
        push_text(&mut info, write_member("version", json_quote(version.as_str())));
        let mut top: Vec<String> = Vec::new();
        push_text(&mut top, write_member("openapi", json_quote("3.0.3")));
        push_text(&mut top, write_member("info", write_object(&info)));
        push_text(&mut top, write_member("paths", self.write_paths()));
        push_text(&mut top, write_member("components", write_object(&c)));
        let ghost d = self@;
        proof {
            assert(texts(c@) =~= seq![
                member("schemas"@, components_json(d.schemas)),
                member("securitySchemes"@, schemes_json(d.security_schemes)),
            ]);
            assert(texts(info@) =~= seq![member("title"@, json_string_of(d.title)), member("version"@, json_string_of(d.version))]);
        }
        let ghost base = texts(top@);
        if self.security().len() > 0 {
            push_text(&mut top, write_member("security", write_requirements(self.security())));
        }
        let ghost with_security = texts(top@);
        if self.servers().len() > 0 {
            push_text(&mut top, write_member("servers", write_servers(self.servers())));
        }
        proof {
            let s1 = opt_member(
                d.security.len() > 0,
                "security"@,
                array(d.security.map_values(|n: Seq<char>| requirement_json(n))),
            );
            let s2 = opt_member(d.servers.len() > 0, "servers"@, array(d.servers.map_values(|u: Seq<char>| server_json(u))));
            assert(with_security =~= base + s1);
            assert(texts(top@) =~= base + s1 + s2);
            assert(base =~= seq![
                member("openapi"@, json_string_of("3.0.3"@)),
                member("info"@, info_json(d)),
                member("paths"@, paths_json(d.operations)),
                member("components"@, object(texts(c@))),
            ]);
        }
        write_object(&top)
    }
}

/// Two documents holding the same registrations, made in the same order,
/// are written as the same text.
pub proof fn lemma_output_deterministic(a: DocumentView, b: DocumentView)
    requires
        a == b,
    ensures
        document_json(a) == document_json(b),
{
}

/// Whether a character stands for itself inside a JSON string.
pub open spec fn plain_char(c: char) -> bool {
    c != '"' && c != '\\' && c as u32 >= 32
}

/// Text without quotes, backslashes or control characters is written
/// between quotes as it is.
pub proof fn lemma_plain_text_quoted(s: Seq<char>)
    requires
        forall|i: int| 0 <= i < s.len() ==> plain_char(#[trigger] s[i]),
    ensures
        json_string_of(s) == seq!['"'] + s + seq!['"'],
{
    lemma_plain_escaped(s);
    reveal(json_string_of);
}

proof fn lemma_plain_escaped(s: Seq<char>)
    requires
        forall|i: int| 0 <= i < s.len() ==> plain_char(#[trigger] s[i]),
    ensures
        escaped(s) == s,
    decreases s.len(),
{
    if s.len() > 0 {
        assert(plain_char(s[s.len() - 1]));
        lemma_plain_escaped(s.drop_last());
        assert(s.drop_last().push(s.last()) =~= s);
        assert(escape_char(s.last()) == seq![s.last()]);
        assert(escaped(s.drop_last()) + seq![s.last()] =~= s.drop_last().push(s.last()));
    }
}

/// The responses of a reply with no body are written as exactly
/// `{"204":{}}`.
pub proof fn lemma_no_content_text()
    ensures
        responses_json(single(NO_CONTENT, ResponseOrView::Object(empty_response()))) == seq![
            '{', '"', '2', '0', '4', '"', ':', '{', '}', '}',
        ],
{
    lemma_no_content_json();
    let k = status_text(NO_CONTENT as int);
    assert(k =~= seq!['2', '0', '4']);
    lemma_plain_text_quoted(k);
    reveal_strlit("{");
    reveal_strlit("}");
    reveal_strlit(":");
    let inner = object(Seq::<Seq<char>>::empty());
    assert(join(Seq::<Seq<char>>::empty()) == Seq::<char>::empty());
    assert(inner =~= seq!['{', '}']);
    let m = member(k, inner);
    assert(m =~= seq!['"', '2', '0', '4', '"', ':', '{', '}']);
    assert(join(seq![m]) == m);
    assert(object(seq![m]) =~= seq!['{', '"', '2', '0', '4', '"', ':', '{', '}', '}']);
}

} // verus!
