//! Structural descriptions of types and references to named components.
use vstd::prelude::*;

verus! {

/// The primitive or composite kind of a schema.
#[derive(Clone, Copy, Debug, PartialEq, Eq, Structural)]
pub enum SchemaKind {
    Object,
    Array,
    String,
    Integer,
    Number,
    Boolean,
}

/// What a property of a schema points at: a primitive kind, inlined, or a
/// named component of the document.
#[derive(Clone, Debug)]
pub enum Target {
    Primitive(SchemaKind),
    Component(String),
}

/// The mathematical value of a `Target`.
pub enum TargetView {
    Primitive(SchemaKind),
    Component(Seq<char>),
}

/// One named property of an object schema, or the item of an array schema.
#[derive(Clone, Debug)]
pub struct Property {
    pub name: String,
    pub target: Target,
}

/// The mathematical value of a `Property`.
pub struct PropertyView {
    pub name: Seq<char>,
    pub target: TargetView,
}

/// The structural shape of a type.
#[derive(Clone, Debug)]
pub struct Schema {
    pub kind: SchemaKind,
    pub properties: Vec<Property>,
}

/// The mathematical value of a `Schema`: two schemas have the same shape
/// exactly when their views are equal.
pub struct SchemaView {
    pub kind: SchemaKind,
    pub properties: Seq<PropertyView>,
}

impl View for Target {
    type V = TargetView;

    open spec fn view(&self) -> TargetView {
        match self {
            Target::Primitive(k) => TargetView::Primitive(*k),
            Target::Component(n) => TargetView::Component(n@),
        }
    }
}

impl View for Property {
    type V = PropertyView;

    open spec fn view(&self) -> PropertyView {
        PropertyView { name: self.name@, target: self.target@ }
    }
}

impl View for Schema {
    type V = SchemaView;

    open spec fn view(&self) -> SchemaView {
        SchemaView { kind: self.kind, properties: self.properties@.map_values(|p: Property| p@) }
    }
}

/// Either a schema inlined in place or a pointer to a named component.
#[derive(Clone, Debug)]
pub enum RefOr {
    Reference(String),
    Inline(Schema),
}

pub enum RefOrView {
    Reference(Seq<char>),
    Inline(SchemaView),
}

impl View for RefOr {
    type V = RefOrView;

    open spec fn view(&self) -> RefOrView {
        match self {
            RefOr::Reference(p) => RefOrView::Reference(p@),
            RefOr::Inline(s) => RefOrView::Inline(s@),
        }
    }
}

/// The text that prefixes the name of a schema component in a reference.
pub open spec fn schema_ref_prefix() -> Seq<char> {
    "#/components/schemas/"@
}

/// The reference path of the schema component called `name`.
pub open spec fn schema_ref_path(name: Seq<char>) -> Seq<char> {
    schema_ref_prefix() + name
}

/// Builds the reference path of the schema component called `name`.
pub fn schema_ref(name: &String) -> (r: String)
    ensures
        r@ == schema_ref_path(name@),
{
    let mut r = "#/components/schemas/".to_owned();
    r.append(name.as_str());
    r
}

/// A reference to the schema component called `name`.
pub fn reference_to(name: &String) -> (r: RefOr)
    ensures
        r@ == RefOrView::Reference(schema_ref_path(name@)),
{
    RefOr::Reference(schema_ref(name))
}

/// A copy of a target.
pub fn copy_target(t: &Target) -> (r: Target)
    ensures
        r@ == t@,
{
    match t {
        Target::Primitive(k) => Target::Primitive(*k),
        Target::Component(n) => Target::Component(n.clone()),
    }
}

/// A copy of a schema.
pub fn copy_schema(s: &Schema) -> (r: Schema)
    ensures
        r@ == s@,
{
    let mut props: Vec<Property> = Vec::new();
    let n = s.properties.len();
    let mut i: usize = 0;
    while i < n
        invariant
            n == s.properties@.len(),
            i <= n,
            props@.len() == i,
            forall|j: int| 0 <= j < i ==> props@[j]@ == s.properties@[j]@,
        decreases n - i,
    {
        let p = &s.properties[i];
        props.push(Property { name: p.name.clone(), target: copy_target(&p.target) });
        i = i + 1;
    }
    let r = Schema { kind: s.kind, properties: props };
    proof {
        assert(r@.properties =~= s@.properties);
    }
    r
}

/// A copy of a schema or reference.
pub fn copy_ref_or(s: &RefOr) -> (r: RefOr)
    ensures
        r@ == s@,
{
    match s {
        RefOr::Reference(p) => RefOr::Reference(p.clone()),
        RefOr::Inline(x) => RefOr::Inline(copy_schema(x)),
    }
}

/// A copy of a list of named schemas or references.
pub fn copy_named_schemas(v: &Vec<(String, RefOr)>) -> (r: Vec<(String, RefOr)>)
    ensures
        named_schemas_view(r@) == named_schemas_view(v@),
{
    let mut out: Vec<(String, RefOr)> = Vec::new();
    let n = v.len();
    let mut i: usize = 0;
    while i < n
        invariant
            n == v@.len(),
            i <= n,
            out@.len() == i,
            forall|j: int| 0 <= j < i ==> out@[j].0@ == v@[j].0@ && out@[j].1@ == v@[j].1@,
        decreases n - i,
    {
        out.push((v[i].0.clone(), copy_ref_or(&v[i].1)));
        i = i + 1;
    }
    proof {
        assert(named_schemas_view(out@) =~= named_schemas_view(v@));
    }
    out
}

/// The view of a list of named schemas or references.
pub open spec fn named_schemas_view(v: Seq<(String, RefOr)>) -> Seq<(Seq<char>, RefOrView)> {
    v.map_values(|c: (String, RefOr)| (c.0@, c.1@))
}

/// Whether two targets are the same.
pub fn same_target(a: &Target, b: &Target) -> (r: bool)
    ensures
        r == (a@ == b@),
{
    match (a, b) {
        (Target::Primitive(x), Target::Primitive(y)) => *x == *y,
        (Target::Component(x), Target::Component(y)) => x.eq(y),
        _ => false,
    }
}

/// Whether two schemas have the same structural shape.
pub fn same_shape(a: &Schema, b: &Schema) -> (r: bool)
    ensures
        r == (a@ == b@),
{
    if a.kind != b.kind || a.properties.len() != b.properties.len() {
        proof {
            if a@ == b@ {
                assert(a@.properties.len() == a.properties@.len());
            }
        }
        return false;
    }
    let n = a.properties.len();
    let mut i: usize = 0;
    while i < n
        invariant
            n == a.properties@.len(),
            n == b.properties@.len(),
            i <= n,
            forall|j: int| 0 <= j < i ==> a.properties@[j]@ == b.properties@[j]@,
        decreases n - i,
    {
        let pa = &a.properties[i];
        let pb = &b.properties[i];
        if !(pa.name == pb.name) || !same_target(&pa.target, &pb.target) {
            proof {
                assert(a@.properties[i as int] == pa@);
                assert(b@.properties[i as int] == pb@);
            }
            return false;
        }
        i = i + 1;
    }
    proof {
        assert(a@.properties =~= b@.properties);
    }
    true
}

} // verus!
