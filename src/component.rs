//! What a type contributes to a document, and the built-in reply wrappers.
use vstd::prelude::*;
use crate::responses::{
    empty_response, named_view, response_from_schema, response_from_schema_spec, single, Response, ResponseOr,
    ResponseOrView, Responses, ACCEPTED, CREATED, NO_CONTENT,
};
use crate::document::SecurityScheme;
use crate::schema::{copy_named_schemas, copy_ref_or, named_schemas_view, RefOr, RefOrView, Schema};

verus! {

/// What a type contributes: its own named schema, where it has one, and
/// every named schema nested in it, transitively, excluding itself. A nested
/// schema may be held by reference to a component defined elsewhere.
#[derive(Debug)]
pub struct Component {
    pub schema: Option<(String, RefOr)>,
    pub children: Vec<(String, RefOr)>,
}

/// The mathematical value of a `Component`.
pub struct ComponentView {
    pub schema: Option<(Seq<char>, RefOrView)>,
    pub children: Seq<(Seq<char>, RefOrView)>,
}

impl View for Component {
    type V = ComponentView;

    open spec fn view(&self) -> ComponentView {
        ComponentView { schema: named_view(self.schema), children: named_schemas_view(self.children@) }
    }
}

/// A type's own named schema as a nested schema of another, inlined or
/// held by reference; nothing where the type has none.
pub open spec fn own_named(s: Option<(Seq<char>, RefOrView)>) -> Seq<(Seq<char>, RefOrView)> {
    match s {
        Some(x) => seq![x],
        None => Seq::empty(),
    }
}

/// The own schemas of `fields`, in order.
pub open spec fn field_schemas(fields: Seq<ComponentView>) -> Seq<(Seq<char>, RefOrView)>
    decreases fields.len(),
{
    if fields.len() == 0 {
        Seq::empty()
    } else {
        field_schemas(fields.drop_last()) + own_named(fields.last().schema)
    }
}

/// The nested schemas of `fields`, one field after the other.
pub open spec fn field_children(fields: Seq<ComponentView>) -> Seq<(Seq<char>, RefOrView)>
    decreases fields.len(),
{
    if fields.len() == 0 {
        Seq::empty()
    } else {
        field_children(fields.drop_last()) + fields.last().children
    }
}

/// The nested schemas of a composite type whose fields (or variants' fields)
/// contribute `fields`: every field's own named schema, inlined or held by
/// reference, in order, then what is nested in each field.
pub open spec fn composite_children(fields: Seq<ComponentView>) -> Seq<(Seq<char>, RefOrView)> {
    field_schemas(fields) + field_children(fields)
}

/// The views of a list of contributions.
pub open spec fn views(v: Seq<Component>) -> Seq<ComponentView> {
    v.map_values(|c: Component| c@)
}

impl Component {
    /// The contribution of a primitive type (a number, a string, a
    /// boolean): it is inlined where it is used, so it contributes no named
    /// schema and nests none.
    pub fn primitive() -> (r: Component)
        ensures
            r@.schema is None,
            r@.children.len() == 0,
    {
        let r = Component { schema: None, children: Vec::new() };
        proof {
            assert(r@.children =~= Seq::<(Seq<char>, RefOrView)>::empty());
        }
        r
    }

    /// The contribution of a wrapper that passes its inner type through (an
    /// optional value, a JSON body): exactly what the inner type contributes.
    pub fn pass_through(inner: &Component) -> (r: Component)
        ensures
            r@ == inner@,
    {
        Component { schema: inner.schema(), children: inner.child_schemas() }
    }

    /// The contribution of a composite type called `name` with shape
    /// `schema`, whose fields contribute `fields`.
    pub fn composite(name: String, schema: Schema, fields: &Vec<Component>) -> (r: Component)
        ensures
            r@.schema == Some((name@, RefOrView::Inline(schema@))),
            r@.children == composite_children(views(fields@)),
    {
        let ghost fv = views(fields@);
        let mut out: Vec<(String, RefOr)> = Vec::new();
        let n = fields.len();
        let mut i: usize = 0;
        proof {
            assert(named_schemas_view(out@) =~= Seq::<(Seq<char>, RefOrView)>::empty());
        }
        while i < n
            invariant
                n == fields@.len(),
                fv == views(fields@),
                i <= n,
                named_schemas_view(out@) == field_schemas(fv.take(i as int)),
            decreases n - i,
        {
            let ghost before = named_schemas_view(out@);
            match &fields[i].schema {
                Some((f, x)) => {
                    out.push((f.clone(), copy_ref_or(x)));
                },
                None => {},
            }
            proof {
                assert(fv.take(i + 1).drop_last() =~= fv.take(i as int));
                assert(fv.take(i + 1).last() == fields@[i as int]@);
                assert(named_schemas_view(out@) =~= before + own_named(fields@[i as int]@.schema));
            }
            i = i + 1;
        }
        proof {
            assert(fv.take(n as int) =~= fv);
            assert(named_schemas_view(out@) =~= field_schemas(fv) + field_children(fv.take(0)));
        }
        let mut i: usize = 0;
        while i < n
            invariant
                n == fields@.len(),
                fv == views(fields@),
                i <= n,
                named_schemas_view(out@) == field_schemas(fv) + field_children(fv.take(i as int)),
            decreases n - i,
        {
            let kids = &fields[i].children;
            let m = kids.len();
            let ghost start = named_schemas_view(out@);
            let mut k: usize = 0;
            while k < m
                invariant
                    m == kids@.len(),
                    k <= m,
                    named_schemas_view(out@) == start + named_schemas_view(kids@).take(k as int),
                decreases m - k,
            {
                let ghost before = named_schemas_view(out@);
                out.push((kids[k].0.clone(), copy_ref_or(&kids[k].1)));
                proof {
                    assert(named_schemas_view(out@) =~= before.push((kids@[k as int].0@, kids@[k as int].1@)));
                    assert(named_schemas_view(kids@).take(k + 1) =~= named_schemas_view(kids@).take(k as int).push(
                        (kids@[k as int].0@, kids@[k as int].1@),
                    ));
                }
                k = k + 1;
            }
            proof {
                assert(named_schemas_view(kids@).take(m as int) =~= named_schemas_view(kids@));
                assert(fv.take(i + 1).drop_last() =~= fv.take(i as int));
                assert(fv.take(i + 1).last() == fields@[i as int]@);
                assert(named_schemas_view(out@) =~= field_schemas(fv) + field_children(fv.take(i + 1)));
            }
            i = i + 1;
        }
        proof {
            assert(fv.take(n as int) =~= fv);
        }
        Component { schema: Some((name, RefOr::Inline(schema))), children: out }
    }

    /// The type's own named schema.
    pub fn schema(&self) -> (r: Option<(String, RefOr)>)
        ensures
            named_view(r) == named_view(self.schema),
    {
        match &self.schema {
            None => None,
            Some((n, s)) => Some((n.clone(), copy_ref_or(s))),
        }
    }

    /// The schemas nested in the type.
    pub fn child_schemas(&self) -> (r: Vec<(String, RefOr)>)
        ensures
            named_schemas_view(r@) == named_schemas_view(self.children@),
    {
        copy_named_schemas(&self.children)
    }
}

/// A reply with status 204 and no body.
#[derive(Debug)]
pub struct NoContent;

impl NoContent {
    /// A reply with no body nests no schema.
    pub fn child_schemas() -> (r: Vec<(String, RefOr)>)
        ensures
            r@.len() == 0,
    {
        Vec::new()
    }

    /// A reply with no body has no schema of its own.
    pub fn schema() -> (r: Option<(String, RefOr)>)
        ensures
            r is None,
    {
        None
    }

    /// Exactly one response, under "204", with no description and no
    /// content. The content type asked for plays no part.
    pub fn responses(content_type: Option<String>) -> (r: Option<Responses>)
        ensures
            r matches Some(x) && x@ == single(NO_CONTENT, ResponseOrView::Object(empty_response())),
    {
        proof {
            reveal_strlit("");
        }
        let response = Response { description: "".to_owned(), content: Vec::new() };
        proof {
            assert(response@.content =~= empty_response().content);
            assert(response@.description =~= empty_response().description);
            assert(response@ == empty_response());
        }
        let mut v: Vec<(String, ResponseOr)> = Vec::new();
        v.push((crate::responses::status_key(NO_CONTENT), ResponseOr::Object(response)));
        let r = Responses { responses: v };
        proof {
            assert(r@ =~= single(NO_CONTENT, ResponseOrView::Object(empty_response())));
        }
        Some(r)
    }
}

/// A reply with status 202 whose JSON body is of the type `body` describes.
#[derive(Debug)]
pub struct AcceptedJson {
    pub body: Component,
}

impl AcceptedJson {
    /// The body type's schema, without its name.
    pub fn raw_schema(&self) -> (r: Option<RefOr>)
        ensures
            match self.body@.schema {
                None => r is None,
                Some((_, x)) => r matches Some(y) && y@ == x,
            },
    {
        match &self.body.schema {
            None => None,
            Some((_, x)) => Some(copy_ref_or(x)),
        }
    }

    /// The schemas nested in the body's type.
    pub fn child_schemas(&self) -> (r: Vec<(String, RefOr)>)
        ensures
            named_schemas_view(r@) == named_schemas_view(self.body.children@),
    {
        self.body.child_schemas()
    }

    /// The body type's own named schema.
    pub fn schema(&self) -> (r: Option<(String, RefOr)>)
        ensures
            named_view(r) == named_view(self.body.schema),
    {
        self.body.schema()
    }

    /// A reply describes no request body.
    pub fn request_body(&self) -> (r: Option<RefOr>)
        ensures
            r is None,
    {
        None
    }

    /// The responses under "202" that the body's schema gives.
    pub fn responses(&self, content_type: Option<String>) -> (r: Option<Responses>)
        ensures
            match r {
                None => response_from_schema_spec(ACCEPTED, named_view(self.body.schema)) is None,
                Some(x) => response_from_schema_spec(ACCEPTED, named_view(self.body.schema)) == Some(x@),
            },
    {
        response_from_schema(ACCEPTED, self.schema())
    }
}

/// A reply with status 201 whose JSON body is of the type `body` describes.
#[derive(Debug)]
pub struct CreatedJson {
    pub body: Component,
}

impl CreatedJson {
    /// The body type's schema, without its name.
    pub fn raw_schema(&self) -> (r: Option<RefOr>)
        ensures
            match self.body@.schema {
                None => r is None,
                Some((_, x)) => r matches Some(y) && y@ == x,
            },
    {
        match &self.body.schema {
            None => None,
            Some((_, x)) => Some(copy_ref_or(x)),
        }
    }

    /// The schemas nested in the body's type.
    pub fn child_schemas(&self) -> (r: Vec<(String, RefOr)>)
        ensures
            named_schemas_view(r@) == named_schemas_view(self.body.children@),
    {
        self.body.child_schemas()
    }

    /// The body type's own named schema.
    pub fn schema(&self) -> (r: Option<(String, RefOr)>)
        ensures
            named_view(r) == named_view(self.body.schema),
    {
        self.body.schema()
    }

    /// The responses under "201" that the body's schema gives.
    pub fn responses(&self, content_type: Option<String>) -> (r: Option<Responses>)
        ensures
            match r {
                None => response_from_schema_spec(CREATED, named_view(self.body.schema)) is None,
                Some(x) => response_from_schema_spec(CREATED, named_view(self.body.schema)) == Some(x@),
            },
    {
        response_from_schema(CREATED, self.schema())
    }
}

/// The name that convert_case gives `s` in snake case.
pub uninterp spec fn snake_case_of(s: Seq<char>) -> Seq<char>;

/// Relies on convert_case's `Casing::to_case` with `Case::Snake`: the words
/// of `s`, split at its case and delimiter boundaries, lowercased and joined
/// by underscores. The result depends on `s` alone.
#[verifier::external_body]
fn snake_case(s: &str) -> (r: String)
    ensures
        r@ == snake_case_of(s@),
{
    convert_case::Casing::to_case(&s, convert_case::Case::Snake)
}

/// A type that stands for an authentication scheme. It contributes no
/// schema, and one security scheme named after the type in snake case,
/// which operations then require by that name.
#[derive(Debug)]
pub struct SecurityComponent {
    pub name: String,
    pub scheme: SecurityScheme,
}

impl SecurityComponent {
    /// The security component of the type whose identifier is `ident`.
    pub fn new(ident: &String, scheme: SecurityScheme) -> (r: SecurityComponent)
        ensures
            r.name@ == snake_case_of(ident@),
            r.scheme == scheme,
    {
        SecurityComponent { name: snake_case(ident.as_str()), scheme }
    }

    /// The name under which operations require the scheme.
    pub fn security_requirement_name(&self) -> (r: Option<String>)
        ensures
            r matches Some(n) && n@ == self.name@,
    {
        Some(self.name.clone())
    }

    /// A security component nests no schema.
    pub fn child_schemas() -> (r: Vec<(String, RefOr)>)
        ensures
            r@.len() == 0,
    {
        Vec::new()
    }

    /// A security component has no schema of its own.
    pub fn schema() -> (r: Option<(String, RefOr)>)
        ensures
            r is None,
    {
        None
    }
}

} // verus!
