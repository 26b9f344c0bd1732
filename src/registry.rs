//! The schema registry: named schema components, unique by name, kept in
//! the order in which they were first contributed.
use vstd::prelude::*;
use crate::schema::{
    copy_schema, reference_to, same_shape, schema_ref, schema_ref_path, RefOr, RefOrView, Schema, SchemaView, Target, TargetView,
};

verus! {

/// The registry's contents: pairs of a component name and its shape.
pub type Entries = Seq<(Seq<char>, SchemaView)>;

/// No name occurs twice.
pub open spec fn names_unique(e: Entries) -> bool {
    forall|i: int, j: int| 0 <= i < e.len() && 0 <= j < e.len() && i != j ==> e[i].0 != e[j].0
}

/// Whether some entry carries `name`.
pub open spec fn has_name(e: Entries, name: Seq<char>) -> bool {
    exists|i: int| 0 <= i < e.len() && e[i].0 == name
}

/// The shape stored under `name`, if any.
pub open spec fn lookup(e: Entries, name: Seq<char>) -> Option<SchemaView>
    decreases e.len(),
{
    if e.len() == 0 {
        None
    } else if e.last().0 == name {
        Some(e.last().1)
    } else {
        lookup(e.drop_last(), name)
    }
}

/// The outcome of contributing `shape` under `name` to `e`: the new
/// contents, or the shape already held under that name where it differs.
pub open spec fn register_spec(e: Entries, name: Seq<char>, shape: SchemaView) -> Result<Entries, SchemaView> {
    match lookup(e, name) {
        None => Ok(e.push((name, shape))),
        Some(old) => if old == shape {
            Ok(e)
        } else {
            Err(old)
        },
    }
}

/// A name, the shape already held under it, and the different shape
/// offered for it.
pub type Conflict = (Seq<char>, SchemaView, SchemaView);

/// The outcome of contributing one named item of a contribution. An inlined
/// schema follows `register_spec`. A schema held by reference adds nothing:
/// the component it names is contributed where it is defined, and a
/// finished document holds every component that it refers to.
pub open spec fn register_item_spec(e: Entries, name: Seq<char>, x: RefOrView) -> Result<Entries, Conflict> {
    match x {
        RefOrView::Inline(shape) => match register_spec(e, name, shape) {
            Ok(e2) => Ok(e2),
            Err(held) => Err((name, held, shape)),
        },
        RefOrView::Reference(_) => Ok(e),
    }
}

/// The outcome of contributing each of `items` in turn; the first conflict
/// stops the walk.
pub open spec fn register_all_spec(e: Entries, items: Seq<(Seq<char>, RefOrView)>) -> Result<Entries, Conflict>
    decreases items.len(),
{
    if items.len() == 0 {
        Ok(e)
    } else {
        match register_all_spec(e, items.drop_last()) {
            Ok(e2) => register_item_spec(e2, items.last().0, items.last().1),
            Err(c) => Err(c),
        }
    }
}

/// Two different shapes were contributed under one name.
#[derive(Clone, Debug)]
pub struct SchemaNameConflict {
    pub name: String,
    pub existing: Schema,
    pub offered: Schema,
}

/// Named schema components.
pub struct Registry {
    entries: Vec<(String, Schema)>,
}

/// `lookup` finds a shape exactly where some entry carries the name, and
/// the shape it finds is that of such an entry.
pub proof fn lemma_lookup_has_name(e: Entries, name: Seq<char>)
    ensures
        lookup(e, name) is None <==> !has_name(e, name),
        lookup(e, name) matches Some(s) ==> exists|i: int| 0 <= i < e.len() && e[i] == (name, s),
    decreases e.len(),
{
    if e.len() > 0 {
        lemma_lookup_has_name(e.drop_last(), name);
        if e.last().0 != name {
            if has_name(e, name) {
                let i = choose|i: int| 0 <= i < e.len() && e[i].0 == name;
                assert(e.drop_last()[i].0 == name);
            }
            if lookup(e, name) is Some {
                let s = lookup(e, name).unwrap();
                let i = choose|i: int| 0 <= i < e.drop_last().len() && e.drop_last()[i] == (name, s);
                assert(e[i] == (name, s));
            }
        } else {
            assert(e[e.len() - 1] == (name, e.last().1));
        }
    }
}

/// Where names are unique, `lookup` finds the shape of the entry that carries
/// the name.
pub proof fn lemma_lookup_at(e: Entries, i: int)
    requires
        names_unique(e),
        0 <= i < e.len(),
    ensures
        lookup(e, e[i].0) == Some(e[i].1),
    decreases e.len(),
{
    if i < e.len() - 1 {
        assert(e.last().0 != e[i].0);
        assert(e.drop_last()[i] == e[i]);
        lemma_lookup_at(e.drop_last(), i);
    }
}

/// Appending a name that is not held keeps names unique.
pub proof fn lemma_push_unique(e: Entries, name: Seq<char>, shape: SchemaView)
    requires
        names_unique(e),
        lookup(e, name) is None,
    ensures
        names_unique(e.push((name, shape))),
{
    lemma_lookup_has_name(e, name);
}

/// A successful registration keeps names unique.
pub proof fn lemma_register_unique(e: Entries, name: Seq<char>, shape: SchemaView)
    requires
        names_unique(e),
    ensures
        register_spec(e, name, shape) matches Ok(e2) ==> names_unique(e2),
{
    if lookup(e, name) is None {
        lemma_push_unique(e, name, shape);
    }
}

impl View for Registry {
    type V = Entries;

    closed spec fn view(&self) -> Entries {
        self.entries@.map_values(|p: (String, Schema)| (p.0@, p.1@))
    }
}

impl Registry {
    /// The registry's invariant: names are unique.
    pub open spec fn wf(&self) -> bool {
        names_unique(self@)
    }

    /// An empty registry.
    pub fn new() -> (r: Registry)
        ensures
            r.wf(),
            r@ == Seq::<(Seq<char>, SchemaView)>::empty(),
    {
        let r = Registry { entries: Vec::new() };
        proof {
            assert(r@ =~= Seq::<(Seq<char>, SchemaView)>::empty());
        }
        r
    }

    /// The number of components.
    pub fn len(&self) -> (r: usize)
        ensures
            r == self@.len(),
    {
        self.entries.len()
    }

    /// The position of the component called `name`.
    fn find(&self, name: &String) -> (r: Option<usize>)
        requires
            self.wf(),
        ensures
            r is None ==> !has_name(self@, name@),
            r matches Some(i) ==> i < self@.len() && self@[i as int].0 == name@,
    {
        let n = self.entries.len();
        let mut i: usize = 0;
        while i < n
            invariant
                n == self.entries@.len(),
                i <= n,
                forall|j: int| 0 <= j < i ==> self@[j].0 != name@,
            decreases n - i,
        {
            if self.entries[i].0.eq(name) {
                return Some(i);
            }
            i = i + 1;
        }
        None
    }

    /// The entry at position `i`.
    pub fn entry(&self, i: usize) -> (r: (&String, &Schema))
        requires
            i < self@.len(),
        ensures
            (r.0@, r.1@) == self@[i as int],
    {
        let e = &self.entries[i];
        (&e.0, &e.1)
    }

    /// The shape stored under `name`, if any.
    pub fn get(&self, name: &String) -> (r: Option<&Schema>)
        requires
            self.wf(),
        ensures
            match r {
                None => lookup(self@, name@) is None,
                Some(s) => lookup(self@, name@) == Some(s@),
            },
    {
        proof {
            lemma_lookup_has_name(self@, name@);
        }
        match self.find(name) {
            None => None,
            Some(i) => {
                proof {
                    lemma_lookup_at(self@, i as int);
                }
                Some(&self.entries[i].1)
            },
        }
    }

    /// Whether `path` is the reference path of a held component.
    pub fn holds_path(&self, path: &String) -> (r: bool)
        ensures
            r == path_resolves(self@, path@),
    {
        let n = self.entries.len();
        let mut i: usize = 0;
        while i < n
            invariant
                n == self@.len(),
                i <= n,
                forall|j: int| 0 <= j < i ==> path@ != schema_ref_path(#[trigger] self@[j].0),
            decreases n - i,
        {
            if schema_ref(&self.entries[i].0).eq(path) {
                assert(path@ == schema_ref_path(self@[i as int].0));
                return true;
            }
            i = i + 1;
        }
        false
    }

    /// Whether every component that a property of `shape` names is held.
    pub fn shape_resolves(&self, shape: &Schema) -> (r: bool)
        requires
            self.wf(),
        ensures
            r == shape_refs_resolve(self@, shape@),
    {
        let m = shape.properties.len();
        let mut k: usize = 0;
        while k < m
            invariant
                self.wf(),
                m == shape@.properties.len(),
                k <= m,
                forall|q: int|
                    0 <= q < k ==> ((#[trigger] shape@.properties[q]).target matches TargetView::Component(c)
                        ==> has_name(self@, c)),
            decreases m - k,
        {
            proof {
                assert(shape@.properties[k as int] == shape.properties@[k as int]@);
            }
            match &shape.properties[k].target {
                Target::Component(c) => {
                    if self.find(c).is_none() {
                        return false;
                    }
                },
                Target::Primitive(_) => {},
            }
            k = k + 1;
        }
        true
    }

    /// Whether everything that `x` refers to is held.
    pub fn ref_or_resolves(&self, x: &RefOr) -> (r: bool)
        requires
            self.wf(),
        ensures
            r == ref_or_resolves(self@, x@),
    {
        match x {
            RefOr::Reference(p) => self.holds_path(p),
            RefOr::Inline(s) => self.shape_resolves(s),
        }
    }

    /// A component name that some property refers to and that the registry
    /// does not hold, if there is one. Where contributions list every
    /// nested schema there is none.
    pub fn unresolved_reference(&self) -> (r: Option<String>)
        requires
            self.wf(),
        ensures
            r is None <==> refs_resolve(self@),
            r matches Some(n) ==> !has_name(self@, n@),
    {
        let n = self.entries.len();
        let mut i: usize = 0;
        while i < n
            invariant
                n == self@.len(),
                i <= n,
                self.wf(),
                forall|j: int| 0 <= j < i ==> shape_refs_resolve(self@, #[trigger] self@[j].1),
            decreases n - i,
        {
            let props = &self.entries[i].1.properties;
            let ghost shape = self@[i as int].1;
            let m = props.len();
            let mut k: usize = 0;
            while k < m
                invariant
                    n == self@.len(),
                    i < n,
                    self.wf(),
                    shape == self@[i as int].1,
                    props@ == self.entries@[i as int].1.properties@,
                    m == shape.properties.len(),
                    k <= m,
                    forall|q: int|
                        0 <= q < k ==> ((#[trigger] shape.properties[q]).target matches TargetView::Component(c)
                            ==> has_name(self@, c)),
                decreases m - k,
            {
                proof {
                    assert(shape.properties[k as int] == props@[k as int]@);
                }
                match &props[k].target {
                    Target::Component(c) => {
                        if self.find(c).is_none() {
                            return Some(c.clone());
                        }
                    },
                    Target::Primitive(_) => {},
                }
                k = k + 1;
            }
            i = i + 1;
        }
        None
    }

    /// Contributes `schema` under `name`. An absent name is inserted at the
    /// end; the same shape again changes nothing; another shape under a
    /// known name is a conflict and changes nothing either. On success the
    /// result is a reference to the component.
    pub fn register(&mut self, name: &String, schema: &Schema) -> (r: Result<RefOr, SchemaNameConflict>)
        requires
            old(self).wf(),
        ensures
            final(self).wf(),
            match register_spec(old(self)@, name@, schema@) {
                Ok(e) => {
                    &&& final(self)@ == e
                    &&& r matches Ok(x) && x@ == RefOrView::Reference(schema_ref_path(name@))
                },
                Err(existing) => {
                    &&& final(self)@ == old(self)@
                    &&& r matches Err(c) && c.name@ == name@ && c.existing@ == existing && c.offered@ == schema@
                },
            },
    {
        proof {
            lemma_lookup_has_name(self@, name@);
            lemma_register_unique(self@, name@, schema@);
        }
        match self.find(name) {
            None => {
                self.entries.push((name.clone(), copy_schema(schema)));
                proof {
                    assert(self@ =~= old(self)@.push((name@, schema@)));
                }
                Ok(reference_to(name))
            },
            Some(i) => {
                proof {
                    lemma_lookup_at(self@, i as int);
                }
                if same_shape(&self.entries[i].1, schema) {
                    Ok(reference_to(name))
                } else {
                    Err(SchemaNameConflict {
                        name: name.clone(),
                        existing: copy_schema(&self.entries[i].1),
                        offered: copy_schema(schema),
                    })
                }
            },
        }
    }

    /// Contributes a type: its own schema under `name`, then each of the
    /// named schemas nested in it, in order, each by the rule of
    /// `register_item_spec`. The contribution is all or nothing: on a
    /// conflict the registry is left as it was, and the error names the
    /// conflicting name, the shape held and the shape offered. On success the
    /// result is a reference to `name`.
    pub fn contribute(&mut self, name: &String, schema: &Schema, children: &Vec<(String, RefOr)>) -> (r: Result<
        RefOr,
        SchemaNameConflict,
    >)
        requires
            old(self).wf(),
        ensures
            final(self).wf(),
            match register_all_spec(old(self)@, contribution_view(name, schema, children)) {
                Ok(e) => {
                    &&& final(self)@ == e
                    &&& r matches Ok(x) && x@ == RefOrView::Reference(schema_ref_path(name@))
                },
                Err(c) => {
                    &&& final(self)@ == old(self)@
                    &&& r matches Err(x) && x.name@ == c.0 && x.existing@ == c.1 && x.offered@ == c.2
                },
            },
    {
        let ghost items = contribution_view(name, schema, children);
        let saved = self.entries.len();
        let first = self.register(name, schema);
        proof {
            assert(items.take(1).drop_last() =~= Seq::<(Seq<char>, RefOrView)>::empty());
            assert(items.take(1).last() == (name@, RefOrView::Inline(schema@)));
            assert(register_all_spec(old(self)@, items.take(1).drop_last()) == Ok::<Entries, Conflict>(old(self)@));
            assert(register_all_spec(old(self)@, items.take(1)) == register_item_spec(
                old(self)@,
                name@,
                RefOrView::Inline(schema@),
            ));
        }
        match first {
            Err(c) => {
                proof {
                    lemma_all_err_stays(old(self)@, items, 1);
                }
                return Err(c);
            },
            Ok(_) => {},
        }
        let reference = reference_to(name);
        let n = children.len();
        let mut i: usize = 0;
        while i < n
            invariant
                n == children@.len(),
                i <= n,
                items == contribution_view(name, schema, children),
                items.len() == n + 1,
                self.wf(),
                saved == old(self)@.len(),
                self@.len() >= saved,
                self@.subrange(0, saved as int) == old(self)@,
                register_all_spec(old(self)@, items.take(i + 1)) == Ok::<Entries, Conflict>(self@),
                reference@ == RefOrView::Reference(schema_ref_path(name@)),
            decreases n - i,
        {
            let ghost before = self@;
            proof {
                assert(items.take(i + 2).drop_last() =~= items.take(i + 1));
                assert(items[i + 1] == (children@[i as int].0@, children@[i as int].1@));
                assert(items.take(i + 2).last() == items[i + 1]);
            }
            let res = match &children[i].1 {
                RefOr::Inline(s) => self.register(&children[i].0, s),
                RefOr::Reference(_) => Ok(reference_to(&children[i].0)),
            };
            match res {
                Err(c) => {
                    proof {
                        lemma_all_err_stays(old(self)@, items, i + 2);
                    }
                    self.entries.truncate(saved);
                    proof {
                        assert(self@ =~= old(self)@);
                    }
                    return Err(c);
                },
                Ok(_) => {
                    proof {
                        if self@ != before {
                            assert(self@.subrange(0, saved as int) =~= before.subrange(0, saved as int));
                        }
                    }
                },
            }
            i = i + 1;
        }
        proof {
            assert(items.take(n + 1) =~= items);
        }
        Ok(reference)
    }
}

/// The items of a contribution, in the order in which they are registered:
/// the type's own schema, then the named schemas nested in it.
pub open spec fn contribution_view(name: &String, schema: &Schema, children: &Vec<(String, RefOr)>) -> Seq<
    (Seq<char>, RefOrView),
> {
    seq![(name@, RefOrView::Inline(schema@))] + children@.map_values(|c: (String, RefOr)| (c.0@, c.1@))
}

/// Once a schema of a contribution conflicts, the whole contribution does.
proof fn lemma_all_err_stays(e: Entries, items: Seq<(Seq<char>, RefOrView)>, k: int)
    requires
        1 <= k <= items.len(),
        register_all_spec(e, items.take(k)) is Err,
    ensures
        register_all_spec(e, items) == register_all_spec(e, items.take(k)),
    decreases items.len() - k,
{
    if k < items.len() {
        assert(items.take(k + 1).drop_last() =~= items.take(k));
        lemma_all_err_stays(e, items, k + 1);
    } else {
        assert(items.take(k) =~= items);
    }
}

/// Contributing a shape that is already held under its name changes nothing:
/// the registry keeps exactly one entry of that name, with that shape.
pub proof fn lemma_contribution_idempotent(e: Entries, name: Seq<char>, shape: SchemaView)
    requires
        names_unique(e),
        register_spec(e, name, shape) is Ok,
    ensures
        ({
            let e1 = register_spec(e, name, shape)->Ok_0;
            &&& register_spec(e1, name, shape) == Ok::<Entries, SchemaView>(e1)
            &&& names_unique(e1)
            &&& lookup(e1, name) == Some(shape)
            &&& exists|i: int| 0 <= i < e1.len() && e1[i] == (name, shape)
        }),
{
    let e1 = register_spec(e, name, shape)->Ok_0;
    lemma_register_unique(e, name, shape);
    lemma_lookup_has_name(e, name);
    if lookup(e, name) is None {
        assert(e1.drop_last() =~= e);
    }
    lemma_lookup_has_name(e1, name);
}

/// A second, different shape under a name already held is a conflict that
/// reports the shape held and leaves the entries as they were.
pub proof fn lemma_conflict_detected(e: Entries, name: Seq<char>, first: SchemaView, second: SchemaView)
    requires
        names_unique(e),
        register_spec(e, name, first) is Ok,
        first != second,
    ensures
        register_spec(register_spec(e, name, first)->Ok_0, name, second) == Err::<Entries, SchemaView>(first),
{
    lemma_contribution_idempotent(e, name, first);
}

/// Every component named by a property of `shape` is held in `e`.
pub open spec fn shape_refs_resolve(e: Entries, shape: SchemaView) -> bool {
    forall|k: int|
        0 <= k < shape.properties.len() ==> ((#[trigger] shape.properties[k]).target matches TargetView::Component(n)
            ==> has_name(e, n))
}

/// Every reference held by an entry of `e` points at an entry of `e`.
pub open spec fn refs_resolve(e: Entries) -> bool {
    forall|i: int| 0 <= i < e.len() ==> shape_refs_resolve(e, #[trigger] e[i].1)
}

/// A type that refers only to itself (a list node whose next node has its
/// own type) lists, among its nested schemas, a reference to itself.
/// Contributing it takes one step per item: the type is inserted once, the
/// nested reference adds nothing and names the entry just inserted, and
/// every reference in the result resolves.
pub proof fn lemma_self_reference(e: Entries, name: Seq<char>, shape: SchemaView)
    requires
        names_unique(e),
        refs_resolve(e),
        !has_name(e, name),
        forall|k: int|
            0 <= k < shape.properties.len() ==> ((#[trigger] shape.properties[k]).target matches TargetView::Component(n)
                ==> n == name),
    ensures
        register_all_spec(
            e,
            seq![(name, RefOrView::Inline(shape)), (name, RefOrView::Reference(schema_ref_path(name)))],
        ) == Ok::<Entries, Conflict>(e.push((name, shape))),
        names_unique(e.push((name, shape))),
        has_name(e.push((name, shape)), name),
        refs_resolve(e.push((name, shape))),
{
    let items = seq![(name, RefOrView::Inline(shape)), (name, RefOrView::Reference(schema_ref_path(name)))];
    let e1 = e.push((name, shape));
    lemma_lookup_has_name(e, name);
    lemma_push_unique(e, name, shape);
    assert(items.drop_last().drop_last() =~= Seq::<(Seq<char>, RefOrView)>::empty());
    assert(register_all_spec(e, items.drop_last().drop_last()) == Ok::<Entries, Conflict>(e));
    assert(items.drop_last().last() == (name, RefOrView::Inline(shape)));
    assert(lookup(e, name) is None);
    assert(register_spec(e, name, shape) == Ok::<Entries, SchemaView>(e1));
    assert(register_all_spec(e, items.drop_last()) == Ok::<Entries, Conflict>(e1));
    assert(items.last() == (name, RefOrView::Reference(schema_ref_path(name))));
    assert(e1[e.len() as int] == (name, shape));
    assert forall|i: int| 0 <= i < e1.len() implies shape_refs_resolve(e1, #[trigger] e1[i].1) by {
        assert forall|k: int|
            0 <= k < e1[i].1.properties.len() implies ((#[trigger] e1[i].1.properties[k]).target matches TargetView::Component(
            n,
        ) ==> has_name(e1, n)) by {
            if let TargetView::Component(n) = e1[i].1.properties[k].target {
                if i < e.len() {
                    assert(e1[i] == e[i]);
                    assert(shape_refs_resolve(e, e[i].1));
                    let j = choose|j: int| 0 <= j < e.len() && e[j].0 == n;
                    assert(e1[j] == e[j]);
                } else {
                    assert(n == name);
                    assert(e1[e.len() as int].0 == n);
                }
            }
        }
    }
}

/// Whether `path` is the reference path of a component held in `e`.
pub open spec fn path_resolves(e: Entries, path: Seq<char>) -> bool {
    exists|i: int| 0 <= i < e.len() && path == schema_ref_path(#[trigger] e[i].0)
}

/// Whether everything that `x` refers to is held in `e`.
pub open spec fn ref_or_resolves(e: Entries, x: RefOrView) -> bool {
    match x {
        RefOrView::Reference(p) => path_resolves(e, p),
        RefOrView::Inline(s) => shape_refs_resolve(e, s),
    }
}

/// A type with two fields of one named type lists that type's schema twice
/// among its nested schemas. Contributing it holds one entry for the type
/// and exactly one for the field type.
pub proof fn lemma_repeated_field_type(e: Entries, parent: Seq<char>, parent_shape: SchemaView, field: Seq<char>, shape: SchemaView)
    requires
        names_unique(e),
        !has_name(e, parent),
        !has_name(e, field),
        parent != field,
    ensures
        register_all_spec(
            e,
            seq![
                (parent, RefOrView::Inline(parent_shape)),
                (field, RefOrView::Inline(shape)),
                (field, RefOrView::Inline(shape)),
            ],
        ) == Ok::<Entries, Conflict>(e.push((parent, parent_shape)).push((field, shape))),
        names_unique(e.push((parent, parent_shape)).push((field, shape))),
{
    let items = seq![
        (parent, RefOrView::Inline(parent_shape)),
        (field, RefOrView::Inline(shape)),
        (field, RefOrView::Inline(shape)),
    ];
    let e1 = e.push((parent, parent_shape));
    let e2 = e1.push((field, shape));
    lemma_lookup_has_name(e, parent);
    lemma_lookup_has_name(e, field);
    lemma_push_unique(e, parent, parent_shape);
    assert(e1.drop_last() =~= e);
    assert(lookup(e1, field) == lookup(e, field));
    lemma_push_unique(e1, field, shape);
    assert(e2.drop_last() =~= e1);
    assert(lookup(e2, field) == Some(shape));
    assert(items.drop_last().drop_last().drop_last() =~= Seq::<(Seq<char>, RefOrView)>::empty());
    assert(items.drop_last().drop_last().last() == (parent, RefOrView::Inline(parent_shape)));
    assert(items.drop_last().last() == (field, RefOrView::Inline(shape)));
    assert(items.last() == (field, RefOrView::Inline(shape)));
    assert(register_all_spec(e, items.drop_last().drop_last().drop_last()) == Ok::<Entries, Conflict>(e));
    assert(lookup(e, parent) is None);
    assert(register_spec(e, parent, parent_shape) == Ok::<Entries, SchemaView>(e1));
    assert(register_all_spec(e, items.drop_last().drop_last()) == Ok::<Entries, Conflict>(e1));
    assert(register_spec(e1, field, shape) == Ok::<Entries, SchemaView>(e2));
    assert(register_all_spec(e, items.drop_last()) == Ok::<Entries, Conflict>(e2));
    assert(register_spec(e2, field, shape) == Ok::<Entries, SchemaView>(e2));
}

} // verus!
