//! Accumulating operations and schemas while routes are registered, and the
//! finished document.
use vstd::prelude::*;
use crate::operation::{texts, Operation, OperationView};
use crate::registry::{
    contribution_view, path_resolves, ref_or_resolves, refs_resolve, register_all_spec, Entries, Registry,
    SchemaNameConflict,
};
use crate::responses::{media_view, ResponseOr, ResponseOrView};
use crate::schema::{schema_ref_path, RefOr, RefOrView, Schema};

verus! {

/// How a security scheme authenticates: its type ("apiKey", "http", ...)
/// and the parameter of that type (a header name, an HTTP scheme).
#[derive(Debug)]
pub struct SecurityScheme {
    pub scheme_type: String,
    pub parameter: String,
}

/// A failure while building a document.
#[derive(Debug)]
pub enum DocumentError {
    /// Two different shapes were contributed under one schema name.
    SchemaNameConflict(SchemaNameConflict),
    /// Two different security schemes were declared under one name.
    SecuritySchemeConflict(String),
    /// One route and method was registered twice.
    DuplicateOperation(String, String),
    /// An earlier step of the build was refused, so no document is made.
    Aborted,
    /// A reference names no component of the document.
    UnresolvedReference,
}

/// The parts of a document: schema components, operations by route and
/// method, and security schemes.
pub struct DocumentView {
    pub schemas: Entries,
    pub operations: Seq<(Seq<char>, Seq<char>, OperationView)>,
    pub security_schemes: Seq<(Seq<char>, (Seq<char>, Seq<char>))>,
    pub title: Seq<char>,
    pub version: Seq<char>,
    pub security: Seq<Seq<char>>,
    pub servers: Seq<Seq<char>>,
}

/// Whether `route` and `method` key an operation of `ops`.
pub open spec fn has_route(
    ops: Seq<(Seq<char>, Seq<char>, OperationView)>,
    route: Seq<char>,
    method: Seq<char>,
) -> bool {
    exists|i: int| 0 <= i < ops.len() && ops[i].0 == route && ops[i].1 == method
}

/// Whether `name` keys a security scheme of `s`.
pub open spec fn has_scheme(s: Seq<(Seq<char>, (Seq<char>, Seq<char>))>, name: Seq<char>) -> bool {
    exists|i: int| 0 <= i < s.len() && s[i].0 == name
}

/// No security scheme name occurs twice.
pub open spec fn scheme_names_unique(s: Seq<(Seq<char>, (Seq<char>, Seq<char>))>) -> bool {
    forall|i: int, j: int| 0 <= i < s.len() && 0 <= j < s.len() && i != j ==> s[i].0 != s[j].0
}

/// Collects the parts of a document while routes are registered.
pub struct DocumentBuilder {
    failed: bool,
    registry: Registry,
    operations: Vec<(String, String, Operation)>,
    security_schemes: Vec<(String, SecurityScheme)>,
    title: String,
    version: String,
    security: Vec<String>,
    servers: Vec<String>,
}

/// A finished document. It has no method that changes it.
pub struct Document {
    registry: Registry,
    operations: Vec<(String, String, Operation)>,
    security_schemes: Vec<(String, SecurityScheme)>,
    title: String,
    version: String,
    security: Vec<String>,
    servers: Vec<String>,
}

/// The view of the registered operations.
pub open spec fn ops_view(v: Seq<(String, String, Operation)>) -> Seq<(Seq<char>, Seq<char>, OperationView)> {
    v.map_values(|o: (String, String, Operation)| (o.0@, o.1@, o.2@))
}

/// The view of the declared security schemes: name, type and parameter.
pub open spec fn schemes_view(v: Seq<(String, SecurityScheme)>) -> Seq<(Seq<char>, (Seq<char>, Seq<char>))> {
    v.map_values(|s: (String, SecurityScheme)| (s.0@, (s.1.scheme_type@, s.1.parameter@)))
}

impl View for DocumentBuilder {
    type V = DocumentView;

    closed spec fn view(&self) -> DocumentView {
        DocumentView {
            schemas: self.registry@,
            operations: ops_view(self.operations@),
            security_schemes: schemes_view(self.security_schemes@),
            title: self.title@,
            version: self.version@,
            security: texts(self.security@),
            servers: texts(self.servers@),
        }
    }
}

impl View for Document {
    type V = DocumentView;

    closed spec fn view(&self) -> DocumentView {
        DocumentView {
            schemas: self.registry@,
            operations: ops_view(self.operations@),
            security_schemes: schemes_view(self.security_schemes@),
            title: self.title@,
            version: self.version@,
            security: texts(self.security@),
            servers: texts(self.servers@),
        }
    }
}

impl DocumentBuilder {
    /// Whether some step of the build was refused. A refused step leaves
    /// the registered parts as they were, and the build can then no longer
    /// produce a document.
    pub closed spec fn failed(&self) -> bool {
        self.failed
    }

    /// The builder's invariant: schema names and security scheme names are
    /// unique.
    pub closed spec fn wf(&self) -> bool {
        self.registry.wf() && scheme_names_unique(schemes_view(self.security_schemes@))
    }

    /// A builder for the document of the API called `title`, at `version`,
    /// with nothing registered.
    pub fn new(title: String, version: String) -> (r: DocumentBuilder)
        ensures
            r.wf(),
            r@.title == title@,
            r@.version == version@,
            r@.security.len() == 0,
            r@.servers.len() == 0,
            !r.failed(),
            r@.schemas.len() == 0,
            r@.operations.len() == 0,
            r@.security_schemes.len() == 0,
    {
        let r = DocumentBuilder {
            failed: false,
            registry: Registry::new(),
            operations: Vec::new(),
            security_schemes: Vec::new(),
            title,
            version,
            security: Vec::new(),
            servers: Vec::new(),
        };
        proof {
            assert(texts(r.security@) =~= Seq::<Seq<char>>::empty());
            assert(texts(r.servers@) =~= Seq::<Seq<char>>::empty());
            assert(schemes_view(r.security_schemes@) =~= Seq::<(Seq<char>, (Seq<char>, Seq<char>))>::empty());
        }
        r
    }

    /// Contributes a type's schema under `name` and the schemas nested in
    /// it, all or nothing (see `Registry::contribute`).
    pub fn contribute_schema(&mut self, name: &String, schema: &Schema, children: &Vec<(String, RefOr)>) -> (r: Result<
        RefOr,
        DocumentError,
    >)
        requires
            old(self).wf(),
        ensures
            final(self).wf(),
            final(self)@.operations == old(self)@.operations,
            final(self)@.security_schemes == old(self)@.security_schemes,
            final(self)@.title == old(self)@.title,
            final(self)@.version == old(self)@.version,
            final(self)@.security == old(self)@.security,
            final(self)@.servers == old(self)@.servers,
            match register_all_spec(old(self)@.schemas, contribution_view(name, schema, children)) {
                Ok(e) => {
                    &&& final(self)@.schemas == e
                    &&& r matches Ok(x) && x@ == RefOrView::Reference(schema_ref_path(name@))
                },
                Err(c) => {
                    &&& final(self)@.schemas == old(self)@.schemas
                    &&& r matches Err(DocumentError::SchemaNameConflict(x)) && x.name@ == c.0 && x.existing@ == c.1
                        && x.offered@ == c.2
                },
            },
            final(self).failed() == (old(self).failed() || r is Err),
    {
        match self.registry.contribute(name, schema, children) {
            Ok(x) => Ok(x),
            Err(c) => {
                self.failed = true;
                Err(DocumentError::SchemaNameConflict(c))
            },
        }
    }

    /// Registers the operation of `method` on `route`. A route and method
    /// already registered are refused.
    pub fn register_operation(&mut self, route: String, method: String, operation: Operation) -> (r: Result<
        (),
        DocumentError,
    >)
        requires
            old(self).wf(),
        ensures
            final(self).wf(),
            final(self)@.schemas == old(self)@.schemas,
            final(self)@.security_schemes == old(self)@.security_schemes,
            final(self)@.title == old(self)@.title,
            final(self)@.version == old(self)@.version,
            final(self)@.security == old(self)@.security,
            final(self)@.servers == old(self)@.servers,
            if has_route(old(self)@.operations, route@, method@) {
                &&& final(self)@.operations == old(self)@.operations
                &&& r matches Err(DocumentError::DuplicateOperation(p, m)) && p@ == route@ && m@ == method@
            } else {
                &&& final(self)@.operations == old(self)@.operations.push((route@, method@, operation@))
                &&& r is Ok
            },
            final(self).failed() == (old(self).failed() || r is Err),
    {
        let n = self.operations.len();
        let mut i: usize = 0;
        while i < n
            invariant
                n == self.operations@.len(),
                i <= n,
                self@ == old(self)@,
                self.failed == old(self).failed,
                self.wf(),
                forall|j: int| 0 <= j < i ==> !(self@.operations[j].0 == route@ && self@.operations[j].1 == method@),
            decreases n - i,
        {
            if self.operations[i].0.eq(&route) && self.operations[i].1.eq(&method) {
                proof {
                    assert(self@.operations[i as int].0 == route@ && self@.operations[i as int].1 == method@);
                }
                self.failed = true;
                return Err(DocumentError::DuplicateOperation(route, method));
            }
            i = i + 1;
        }
        let ghost resp = operation@;
        self.operations.push((route, method, operation));
        proof {
            assert(ops_view(self.operations@) =~= ops_view(old(self).operations@).push((route@, method@, resp)));
        }
        Ok(())
    }

    /// Declares the security scheme `name`. Declaring the same scheme again
    /// changes nothing; another scheme under a known name is refused.
    pub fn contribute_security_scheme(&mut self, name: String, scheme: SecurityScheme) -> (r: Result<(), DocumentError>)
        requires
            old(self).wf(),
        ensures
            final(self).wf(),
            final(self)@.schemas == old(self)@.schemas,
            final(self)@.operations == old(self)@.operations,
            final(self)@.title == old(self)@.title,
            final(self)@.version == old(self)@.version,
            final(self)@.security == old(self)@.security,
            final(self)@.servers == old(self)@.servers,
            if has_scheme(old(self)@.security_schemes, name@) {
                &&& final(self)@.security_schemes == old(self)@.security_schemes
                &&& (r is Err ==> (r matches Err(DocumentError::SecuritySchemeConflict(n)) && n@ == name@))
                &&& (r is Ok <==> exists|i: int|
                    0 <= i < old(self)@.security_schemes.len() && old(self)@.security_schemes[i] == (
                    name@,
                    (scheme.scheme_type@, scheme.parameter@),
                ))
            } else {
                &&& final(self)@.security_schemes == old(self)@.security_schemes.push(
                    (name@, (scheme.scheme_type@, scheme.parameter@)),
                )
                &&& r is Ok
            },
            final(self).failed() == (old(self).failed() || r is Err),
    {
        let n = self.security_schemes.len();
        let mut i: usize = 0;
        while i < n
            invariant
                n == self.security_schemes@.len(),
                i <= n,
                self@ == old(self)@,
                self.failed == old(self).failed,
                self.wf(),
                forall|j: int| 0 <= j < i ==> self@.security_schemes[j].0 != name@,
            decreases n - i,
        {
            if self.security_schemes[i].0.eq(&name) {
                let held = &self.security_schemes[i].1;
                proof {
                    assert(self@.security_schemes[i as int].0 == name@);
                }
                if held.scheme_type.eq(&scheme.scheme_type) && held.parameter.eq(&scheme.parameter) {
                    proof {
                        assert(self@.security_schemes[i as int] == (name@, (scheme.scheme_type@, scheme.parameter@)));
                    }
                    return Ok(());
                } else {
                    proof {
                        assert forall|j: int| 0 <= j < n && self@.security_schemes[j] == (
                            name@,
                            (scheme.scheme_type@, scheme.parameter@),
                        ) implies false by {
                            assert(self@.security_schemes[j].0 == self@.security_schemes[i as int].0);
                        }
                    }
                    self.failed = true;
                    return Err(DocumentError::SecuritySchemeConflict(name));
                }
            }
            i = i + 1;
        }
        let ghost v = (name@, (scheme.scheme_type@, scheme.parameter@));
        self.security_schemes.push((name, scheme));
        proof {
            assert(schemes_view(self.security_schemes@) =~= schemes_view(old(self).security_schemes@).push(v));
            assert(!has_scheme(old(self)@.security_schemes, name@));
        }
        Ok(())
    }

    /// Requires the security scheme `name` of every operation of the API.
    pub fn require_security(&mut self, name: String)
        requires
            old(self).wf(),
        ensures
            final(self).wf(),
            final(self)@ == (DocumentView { security: old(self)@.security.push(name@), ..old(self)@ }),
            final(self).failed() == old(self).failed(),
    {
        let ghost n = name@;
        self.security.push(name);
        proof {
            assert(texts(self.security@) =~= texts(old(self).security@).push(n));
            assert(self@ =~= (DocumentView { security: old(self)@.security.push(n), ..old(self)@ }));
        }
    }

    /// Adds a server, by its URL, on which the API is served.
    pub fn add_server(&mut self, url: String)
        requires
            old(self).wf(),
        ensures
            final(self).wf(),
            final(self)@ == (DocumentView { servers: old(self)@.servers.push(url@), ..old(self)@ }),
            final(self).failed() == old(self).failed(),
    {
        let ghost n = url@;
        self.servers.push(url);
        proof {
            assert(texts(self.servers@) =~= texts(old(self).servers@).push(n));
            assert(self@ =~= (DocumentView { servers: old(self)@.servers.push(n), ..old(self)@ }));
        }
    }

    /// Finishes the document: a value of another type, which holds what was
    /// registered and can no longer be changed. No document is made once a
    /// step of the build was refused, nor where a reference names no
    /// component.
    pub fn finalize(self) -> (r: Result<Document, DocumentError>)
        requires
            self.wf(),
        ensures
            self.failed() ==> r matches Err(DocumentError::Aborted),
            !self.failed() && !doc_resolves(self@) ==> r matches Err(DocumentError::UnresolvedReference),
            !self.failed() && doc_resolves(self@) ==> (r matches Ok(d) && d@ == self@ && d.wf()),
    {
        if self.failed {
            return Err(DocumentError::Aborted);
        }
        if self.registry.unresolved_reference().is_some() {
            return Err(DocumentError::UnresolvedReference);
        }
        let n = self.operations.len();
        let mut i: usize = 0;
        while i < n
            invariant
                n == self@.operations.len(),
                self.wf(),
                i <= n,
                forall|j: int| 0 <= j < i ==> op_resolves(self@.schemas, #[trigger] self@.operations[j].2),
                !self.failed,
                refs_resolve(self@.schemas),
            decreases n - i,
        {
            proof {
                assert(self@.operations[i as int].2 == self.operations@[i as int].2@);
            }
            if !operation_resolves(&self.registry, &self.operations[i].2) {
                return Err(DocumentError::UnresolvedReference);
            }
            i = i + 1;
        }
        Ok(
            Document {
                registry: self.registry,
                operations: self.operations,
                security_schemes: self.security_schemes,
                title: self.title,
                version: self.version,
                security: self.security,
                servers: self.servers,
            },
        )
    }
}

/// Whether everything that a response refers to is held in `e`.
pub open spec fn response_or_resolves(e: Entries, x: ResponseOrView) -> bool {
    match x {
        ResponseOrView::Reference(p) => path_resolves(e, p),
        ResponseOrView::Object(r) => forall|c: int|
            0 <= c < r.content.len() ==> ((#[trigger] r.content[c]).1 matches Some(y) ==> ref_or_resolves(e, y)),
    }
}

/// Whether everything that an operation's parameters, request body and
/// responses refer to is held in `e`.
pub open spec fn op_resolves(e: Entries, o: OperationView) -> bool {
    &&& forall|p: int| 0 <= p < o.parameters.len() ==> ref_or_resolves(e, (#[trigger] o.parameters[p]).schema)
    &&& (o.request_body matches Some(x) ==> ref_or_resolves(e, x))
    &&& forall|j: int| 0 <= j < o.responses.len() ==> response_or_resolves(e, (#[trigger] o.responses[j]).1)
}

/// Whether every reference of a document names one of its components: in
/// the components themselves and in every operation.
pub open spec fn doc_resolves(d: DocumentView) -> bool {
    &&& refs_resolve(d.schemas)
    &&& forall|i: int| 0 <= i < d.operations.len() ==> op_resolves(d.schemas, (#[trigger] d.operations[i]).2)
}

fn response_resolves(reg: &Registry, x: &ResponseOr) -> (r: bool)
    requires
        reg.wf(),
    ensures
        r == response_or_resolves(reg@, x@),
{
    match x {
        ResponseOr::Reference(p) => reg.holds_path(p),
        ResponseOr::Object(resp) => {
            let n = resp.content.len();
            let mut c: usize = 0;
            while c < n
                invariant
                    reg.wf(),
                    x@ == ResponseOrView::Object(resp@),
                    n == resp@.content.len(),
                    c <= n,
                    forall|q: int|
                        0 <= q < c ==> ((#[trigger] resp@.content[q]).1 matches Some(y) ==> ref_or_resolves(reg@, y)),
                decreases n - c,
            {
                proof {
                    assert(resp@.content[c as int] == (resp.content@[c as int].0@, media_view(resp.content@[c as int].1)));
                }
                match &resp.content[c].1.schema {
                    Some(y) => {
                        if !reg.ref_or_resolves(y) {
                            proof {
                                assert(resp@.content[c as int].1 == Some(y@));
                                assert(x@ == ResponseOrView::Object(resp@));
                                assert(!ref_or_resolves(reg@, y@));
                            }
                            return false;
                        }
                    },
                    None => {},
                }
                c = c + 1;
            }
            true
        },
    }
}

fn operation_resolves(reg: &Registry, o: &Operation) -> (r: bool)
    requires
        reg.wf(),
    ensures
        r == op_resolves(reg@, o@),
{
    let np = o.parameters.len();
    let mut p: usize = 0;
    while p < np
        invariant
            reg.wf(),
            np == o@.parameters.len(),
            p <= np,
            forall|q: int| 0 <= q < p ==> ref_or_resolves(reg@, (#[trigger] o@.parameters[q]).schema),
        decreases np - p,
    {
        proof {
            assert(o@.parameters[p as int] == o.parameters@[p as int]@);
        }
        if !reg.ref_or_resolves(&o.parameters[p].schema) {
            return false;
        }
        p = p + 1;
    }
    match &o.request_body {
        Some(x) => {
            if !reg.ref_or_resolves(x) {
                return false;
            }
        },
        None => {},
    }
    let n = o.responses.responses.len();
    let mut j: usize = 0;
    while j < n
        invariant
            reg.wf(),
            n == o@.responses.len(),
            j <= n,
            o@.request_body matches Some(x) ==> ref_or_resolves(reg@, x),
            forall|q: int| 0 <= q < np ==> ref_or_resolves(reg@, (#[trigger] o@.parameters[q]).schema),
            forall|q: int| 0 <= q < j ==> response_or_resolves(reg@, (#[trigger] o@.responses[q]).1),
        decreases n - j,
    {
        proof {
            assert(o@.responses[j as int].1 == o.responses.responses@[j as int].1@);
        }
        if !response_resolves(reg, &o.responses.responses[j].1) {
            return false;
        }
        j = j + 1;
    }
    true
}

impl Document {
    /// The document's invariant: schema names and security scheme names
    /// are unique.
    pub closed spec fn wf(&self) -> bool {
        self.registry.wf() && scheme_names_unique(schemes_view(self.security_schemes@))
    }

    /// The title and version of the API.
    pub fn info(&self) -> (r: (&String, &String))
        ensures
            r.0@ == self@.title,
            r.1@ == self@.version,
    {
        (&self.title, &self.version)
    }

    /// The security schemes required of every operation.
    pub fn security(&self) -> (r: &Vec<String>)
        ensures
            texts(r@) == self@.security,
    {
        &self.security
    }

    /// The URLs of the servers.
    pub fn servers(&self) -> (r: &Vec<String>)
        ensures
            texts(r@) == self@.servers,
    {
        &self.servers
    }

    /// The schema components.
    pub fn components(&self) -> (r: &Registry)
        ensures
            r@ == self@.schemas,
            self.wf() ==> r.wf(),
    {
        &self.registry
    }

    /// The operation at position `i`, with its route and method.
    pub fn operation_at(&self, i: usize) -> (r: (&String, &String, &Operation))
        requires
            i < self@.operations.len(),
        ensures
            (r.0@, r.1@, r.2@) == self@.operations[i as int],
    {
        let o = &self.operations[i];
        (&o.0, &o.1, &o.2)
    }

    /// The number of declared security schemes.
    pub fn security_scheme_count(&self) -> (r: usize)
        ensures
            r == self@.security_schemes.len(),
    {
        self.security_schemes.len()
    }

    /// The security scheme at position `i`, with its name.
    pub fn security_scheme_at(&self, i: usize) -> (r: (&String, &SecurityScheme))
        requires
            i < self@.security_schemes.len(),
        ensures
            (r.0@, (r.1.scheme_type@, r.1.parameter@)) == self@.security_schemes[i as int],
    {
        let s = &self.security_schemes[i];
        (&s.0, &s.1)
    }

    /// The number of registered operations.
    pub fn operation_count(&self) -> (r: usize)
        ensures
            r == self@.operations.len(),
    {
        self.operations.len()
    }

    /// The operation of `method` on `route`, if one was registered.
    pub fn operation(&self, route: &String, method: &String) -> (r: Option<&Operation>)
        ensures
            r is None <==> !has_route(self@.operations, route@, method@),
            r matches Some(op) ==> exists|i: int|
                0 <= i < self@.operations.len() && self@.operations[i] == (route@, method@, op@),
    {
        let n = self.operations.len();
        let mut i: usize = 0;
        while i < n
            invariant
                n == self.operations@.len(),
                i <= n,
                forall|j: int| 0 <= j < i ==> !(self@.operations[j].0 == route@ && self@.operations[j].1 == method@),
            decreases n - i,
        {
            if self.operations[i].0.eq(route) && self.operations[i].1.eq(method) {
                proof {
                    assert(self@.operations[i as int] == (route@, method@, self.operations@[i as int].2@));
                }
                return Some(&self.operations[i].2);
            }
            i = i + 1;
        }
        None
    }
}

} // verus!
