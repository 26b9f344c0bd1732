//! The description of one route handler.
use vstd::prelude::*;
use crate::responses::{status_key, status_text, valid_status, ResponseOr, ResponseOrView, Responses};
use crate::schema::{RefOr, RefOrView};

verus! {

/// One status code was declared twice for an operation.
#[derive(Debug)]
pub struct DuplicateResponseStatus {
    pub status: String,
}

/// Whether `key` keys some entry of `rs`.
pub open spec fn has_status(rs: Seq<(Seq<char>, ResponseOrView)>, key: Seq<char>) -> bool {
    exists|i: int| 0 <= i < rs.len() && rs[i].0 == key
}

/// The outcome of declaring `response` under `key`: appended where the key
/// is new, refused where it is already declared.
pub open spec fn add_response_spec(rs: Seq<(Seq<char>, ResponseOrView)>, key: Seq<char>, response: ResponseOrView) -> Option<
    Seq<(Seq<char>, ResponseOrView)>,
> {
    if has_status(rs, key) {
        None
    } else {
        Some(rs.push((key, response)))
    }
}

/// The outcome of declaring each entry of `more` in turn.
pub open spec fn add_all_spec(rs: Seq<(Seq<char>, ResponseOrView)>, more: Seq<(Seq<char>, ResponseOrView)>) -> Option<
    Seq<(Seq<char>, ResponseOrView)>,
>
    decreases more.len(),
{
    if more.len() == 0 {
        Some(rs)
    } else {
        match add_all_spec(rs, more.drop_last()) {
            Some(r2) => add_response_spec(r2, more.last().0, more.last().1),
            None => None,
        }
    }
}

/// Where a parameter is carried in a request.
#[derive(Clone, Copy, Debug, PartialEq, Eq, Structural)]
pub enum ParameterLocation {
    Path,
    Query,
    Header,
    Cookie,
}

/// One parameter of an operation: its name, where it is carried, whether
/// it is required, and its schema.
#[derive(Debug)]
pub struct Parameter {
    pub name: String,
    pub location: ParameterLocation,
    pub required: bool,
    pub schema: RefOr,
}

/// The mathematical value of a `Parameter`.
pub struct ParameterView {
    pub name: Seq<char>,
    pub location: ParameterLocation,
    pub required: bool,
    pub schema: RefOrView,
}

impl View for Parameter {
    type V = ParameterView;

    open spec fn view(&self) -> ParameterView {
        ParameterView { name: self.name@, location: self.location, required: self.required, schema: self.schema@ }
    }
}

impl Parameter {
    /// A parameter carried in a request header, as a header type declares it.
    pub fn header(name: String, required: bool, schema: RefOr) -> (r: Parameter)
        ensures
            r.name == name,
            r.location == ParameterLocation::Header,
            r.required == required,
            r.schema == schema,
    {
        Parameter { name, location: ParameterLocation::Header, required, schema }
    }
}

/// The same name and location were declared twice for an operation.
#[derive(Debug)]
pub struct DuplicateParameter {
    pub name: String,
}

/// Whether a parameter called `name` carried at `location` is among `ps`.
pub open spec fn has_parameter(ps: Seq<ParameterView>, name: Seq<char>, location: ParameterLocation) -> bool {
    exists|i: int| 0 <= i < ps.len() && ps[i].name == name && ps[i].location == location
}

/// Metadata of one route handler.
#[derive(Debug)]
pub struct Operation {
    pub tags: Vec<String>,
    pub summary: Option<String>,
    pub description: Option<String>,
    pub request_body: Option<RefOr>,
    pub responses: Responses,
    pub security: Vec<String>,
    pub parameters: Vec<Parameter>,
}

/// The mathematical value of an `Operation`.
pub struct OperationView {
    pub tags: Seq<Seq<char>>,
    pub summary: Option<Seq<char>>,
    pub description: Option<Seq<char>>,
    pub request_body: Option<RefOrView>,
    pub responses: Seq<(Seq<char>, ResponseOrView)>,
    pub security: Seq<Seq<char>>,
    pub parameters: Seq<ParameterView>,
}

/// The view of an optional text.
pub open spec fn text_opt(t: Option<String>) -> Option<Seq<char>> {
    match t {
        Some(s) => Some(s@),
        None => None,
    }
}

/// The view of an optional schema or reference.
pub open spec fn ref_or_opt(t: Option<RefOr>) -> Option<RefOrView> {
    match t {
        Some(s) => Some(s@),
        None => None,
    }
}

/// The views of a list of texts.
pub open spec fn texts(v: Seq<String>) -> Seq<Seq<char>> {
    v.map_values(|s: String| s@)
}

impl View for Operation {
    type V = OperationView;

    open spec fn view(&self) -> OperationView {
        OperationView {
            tags: texts(self.tags@),
            summary: text_opt(self.summary),
            description: text_opt(self.description),
            request_body: ref_or_opt(self.request_body),
            responses: self.responses@,
            security: texts(self.security@),
            parameters: self.parameters@.map_values(|p: Parameter| p@),
        }
    }
}

impl Operation {
    /// An operation with the given tags and texts, no body, no responses and
    /// no security requirement.
    pub fn new(tags: Vec<String>, summary: Option<String>, description: Option<String>) -> (r: Operation)
        ensures
            r.tags == tags,
            r.summary == summary,
            r.description == description,
            r.request_body is None,
            r.responses@.len() == 0,
            r.security@.len() == 0,
            r.parameters@.len() == 0,
    {
        Operation {
            tags,
            summary,
            description,
            request_body: None,
            responses: Responses { responses: Vec::new() },
            security: Vec::new(),
            parameters: Vec::new(),
        }
    }

    /// Appends `parameter` to the parameter list. A name already declared at
    /// the same location is refused and leaves the operation unchanged.
    pub fn add_parameter(&mut self, parameter: Parameter) -> (r: Result<(), DuplicateParameter>)
        ensures
            final(self).tags == old(self).tags,
            final(self).summary == old(self).summary,
            final(self).description == old(self).description,
            final(self).request_body == old(self).request_body,
            final(self).responses == old(self).responses,
            final(self).security == old(self).security,
            if has_parameter(old(self)@.parameters, parameter.name@, parameter.location) {
                &&& final(self).parameters == old(self).parameters
                &&& r matches Err(e) && e.name@ == parameter.name@
            } else {
                &&& final(self)@.parameters == old(self)@.parameters.push(parameter@)
                &&& r is Ok
            },
    {
        let n = self.parameters.len();
        let mut i: usize = 0;
        while i < n
            invariant
                n == self.parameters@.len(),
                i <= n,
                forall|j: int|
                    0 <= j < i ==> !(self@.parameters[j].name == parameter.name@ && self@.parameters[j].location
                        == parameter.location),
            decreases n - i,
        {
            if self.parameters[i].name.eq(&parameter.name) && self.parameters[i].location == parameter.location {
                proof {
                    assert(self@.parameters[i as int] == self.parameters@[i as int]@);
                }
                return Err(DuplicateParameter { name: parameter.name });
            }
            i = i + 1;
        }
        let ghost pv = parameter@;
        self.parameters.push(parameter);
        proof {
            assert(final(self)@.parameters =~= old(self)@.parameters.push(pv));
        }
        Ok(())
    }

    fn find_status(&self, key: &String) -> (r: bool)
        ensures
            r == has_status(self.responses@, key@),
    {
        let n = self.responses.responses.len();
        let mut i: usize = 0;
        while i < n
            invariant
                n == self.responses.responses@.len(),
                i <= n,
                forall|j: int| 0 <= j < i ==> self.responses@[j].0 != key@,
            decreases n - i,
        {
            if self.responses.responses[i].0.eq(key) {
                assert(self.responses@[i as int].0 == key@);
                return true;
            }
            i = i + 1;
        }
        false
    }

    /// Declares `response` under its status key; a key already declared is
    /// refused and leaves the responses unchanged.
    pub fn add_keyed_response(&mut self, key: String, response: ResponseOr) -> (r: Result<(), DuplicateResponseStatus>)
        ensures
            final(self).tags == old(self).tags,
            final(self).summary == old(self).summary,
            final(self).description == old(self).description,
            final(self).request_body == old(self).request_body,
            final(self).security == old(self).security,
            final(self).parameters == old(self).parameters,
            match add_response_spec(old(self).responses@, key@, response@) {
                Some(rs) => r is Ok && final(self).responses@ == rs,
                None => {
                    &&& final(self).responses@ == old(self).responses@
                    &&& r matches Err(e) && e.status@ == key@
                },
            },
    {
        if self.find_status(&key) {
            return Err(DuplicateResponseStatus { status: key });
        }
        self.responses.responses.push((key, response));
        proof {
            assert(final(self).responses@ =~= old(self).responses@.push((key@, response@)));
        }
        Ok(())
    }

    /// Declares `response` under status `code`.
    pub fn add_response(&mut self, code: u16, response: ResponseOr) -> (r: Result<(), DuplicateResponseStatus>)
        requires
            valid_status(code),
        ensures
            final(self).tags == old(self).tags,
            final(self).summary == old(self).summary,
            final(self).description == old(self).description,
            final(self).request_body == old(self).request_body,
            final(self).security == old(self).security,
            final(self).parameters == old(self).parameters,
            match add_response_spec(old(self).responses@, status_text(code as int), response@) {
                Some(rs) => r is Ok && final(self).responses@ == rs,
                None => {
                    &&& final(self).responses@ == old(self).responses@
                    &&& r matches Err(e) && e.status@ == status_text(code as int)
                },
            },
    {
        self.add_keyed_response(status_key(code), response)
    }

    /// Declares every response of `more`, in order. A status declared
    /// twice is refused, and then the responses are left as they were.
    pub fn add_responses(&mut self, more: Responses) -> (r: Result<(), DuplicateResponseStatus>)
        ensures
            final(self).tags == old(self).tags,
            final(self).summary == old(self).summary,
            final(self).description == old(self).description,
            final(self).request_body == old(self).request_body,
            final(self).security == old(self).security,
            final(self).parameters == old(self).parameters,
            match add_all_spec(old(self).responses@, more@) {
                Some(rs) => r is Ok && final(self).responses@ == rs,
                None => r is Err && final(self).responses@ == old(self).responses@,
            },
    {
        let saved = self.responses.responses.len();
        let ghost m = more@;
        let Responses { responses: mut rest } = more;
        let n = rest.len();
        proof {
            assert forall|j: int| 0 <= j < n implies (#[trigger] rest@[j]).0@ == m[j].0 && rest@[j].1@ == m[j].1 by {
                assert(m[j] == (rest@[j].0@, rest@[j].1@));
            }
        }
        let mut i: usize = 0;
        while i < n
            invariant
                n == m.len(),
                m == more@,
                i <= n,
                rest@.len() == n - i,
                forall|j: int| 0 <= j < n - i ==> (#[trigger] rest@[j]).0@ == m[i + j].0 && rest@[j].1@ == m[i + j].1,
                add_all_spec(old(self).responses@, m.take(i as int)) == Some(self.responses@),
                self.tags == old(self).tags,
                self.summary == old(self).summary,
                self.description == old(self).description,
                self.request_body == old(self).request_body,
                self.security == old(self).security,
                self.parameters == old(self).parameters,
                saved == old(self).responses@.len(),
                self.responses@.len() >= saved,
                self.responses@.subrange(0, saved as int) == old(self).responses@,
            decreases n - i,
        {
            let ghost before = rest@;
            let (key, resp) = rest.remove(0);
            proof {
                assert forall|j: int| 0 <= j < n - (i + 1) implies (#[trigger] rest@[j]).0@ == m[i + 1 + j].0
                    && rest@[j].1@ == m[i + 1 + j].1 by {
                    assert(rest@[j] == before[j + 1]);
                }
                assert(before[0].0@ == m[i as int].0);
            }
            proof {
                assert(m.take(i + 1).drop_last() =~= m.take(i as int));
                assert(m.take(i + 1).last() == m[i as int]);
                assert(key@ == m[i as int].0 && resp@ == m[i as int].1);
                assert(add_all_spec(old(self).responses@, m.take(i + 1)) == add_response_spec(
                    self.responses@,
                    key@,
                    resp@,
                ));
            }
            let ghost pre = self.responses@;
            let ghost kv = (key@, resp@);
            match self.add_keyed_response(key, resp) {
                Err(e) => {
                    proof {
                        assert(add_response_spec(pre, kv.0, kv.1) is None);
                        assert(add_all_spec(old(self).responses@, m.take(i + 1)) is None);
                        lemma_add_all_none_stays(old(self).responses@, m, i + 1);
                        assert(add_all_spec(old(self).responses@, m) is None);
                    }
                    self.responses.responses.truncate(saved);
                    proof {
                        assert(self.responses@ =~= old(self).responses@);
                    }
                    return Err(e);
                },
                Ok(()) => {
                    proof {
                        assert(self.responses@.subrange(0, saved as int) =~= pre.subrange(0, saved as int));
                    }
                },
            }
            i = i + 1;
        }
        proof {
            assert(m.take(n as int) =~= m);
        }
        Ok(())
    }
}

/// Once a declaration in a list is refused, the whole list is.
proof fn lemma_add_all_none_stays(rs: Seq<(Seq<char>, ResponseOrView)>, m: Seq<(Seq<char>, ResponseOrView)>, k: int)
    requires
        0 <= k <= m.len(),
        add_all_spec(rs, m.take(k)) is None,
    ensures
        add_all_spec(rs, m) is None,
    decreases m.len() - k,
{
    if k < m.len() {
        assert(m.take(k + 1).drop_last() =~= m.take(k));
        lemma_add_all_none_stays(rs, m, k + 1);
    } else {
        assert(m.take(k) =~= m);
    }
}

/// An operation whose success status and two error statuses are pairwise
/// different ends with exactly three responses, one per status; two error
/// statuses that are the same are refused.
pub proof fn lemma_operation_completeness(
    success: u16,
    first_error: u16,
    second_error: u16,
    ok: ResponseOrView,
    e1: ResponseOrView,
    e2: ResponseOrView,
)
    requires
        valid_status(success),
        valid_status(first_error),
        valid_status(second_error),
        success != first_error,
        success != second_error,
    ensures
        ({
            let k0 = status_text(success as int);
            let k1 = status_text(first_error as int);
            let k2 = status_text(second_error as int);
            let r = add_all_spec(Seq::empty(), seq![(k0, ok), (k1, e1), (k2, e2)]);
            &&& first_error != second_error ==> r == Some(seq![(k0, ok), (k1, e1), (k2, e2)])
            &&& first_error != second_error ==> r->Some_0.len() == 3
            &&& first_error == second_error ==> r is None
        }),
{
    let k0 = status_text(success as int);
    let k1 = status_text(first_error as int);
    let k2 = status_text(second_error as int);
    lemma_status_text_injective(success, first_error);
    lemma_status_text_injective(success, second_error);
    if first_error != second_error {
        lemma_status_text_injective(first_error, second_error);
    }
    let m = seq![(k0, ok), (k1, e1), (k2, e2)];
    let s0 = Seq::<(Seq<char>, ResponseOrView)>::empty();
    assert(m.drop_last().drop_last().drop_last() =~= s0);
    assert(m.drop_last().drop_last() =~= seq![(k0, ok)]);
    assert(m.drop_last() =~= seq![(k0, ok), (k1, e1)]);
    assert(add_all_spec(s0, m.drop_last().drop_last().drop_last()) == Some(s0));
    assert(!has_status(s0, k0));
    assert(s0.push((k0, ok)) =~= seq![(k0, ok)]);
    assert(add_all_spec(s0, m.drop_last().drop_last()) == Some(seq![(k0, ok)]));
    let s1 = seq![(k0, ok)];
    assert(!has_status(s1, k1) ==> s1.push((k1, e1)) =~= seq![(k0, ok), (k1, e1)]);
    let s2 = seq![(k0, ok), (k1, e1)];
    assert(add_all_spec(s0, m.drop_last()) == Some(s2));
    if first_error != second_error {
        assert(!has_status(s2, k2));
        assert(s2.push((k2, e2)) =~= m);
    } else {
        assert(s2[1].0 == k2);
    }
}

/// Different status codes have different keys.
pub proof fn lemma_status_text_injective(a: u16, b: u16)
    requires
        valid_status(a),
        valid_status(b),
        a != b,
    ensures
        status_text(a as int) != status_text(b as int),
{
    let sa = status_text(a as int);
    let sb = status_text(b as int);
    if sa == sb {
        assert(sa[0] == sb[0] && sa[1] == sb[1] && sa[2] == sb[2]);
        assert(a / 100 == b / 100);
        assert((a / 10) % 10 == (b / 10) % 10);
        assert(a % 10 == b % 10);
    }
}

} // verus!
