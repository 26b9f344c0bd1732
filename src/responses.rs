//! Responses of operations, keyed by status code, and the response shapes
//! of the built-in reply wrappers.
use vstd::prelude::*;
use crate::schema::{schema_ref, schema_ref_path, RefOr, RefOrView, Schema};

verus! {

/// The content type of JSON bodies.
pub open spec fn json_content_type() -> Seq<char> {
    "application/json"@
}

/// The body of one content type of a response.
#[derive(Debug)]
pub struct MediaType {
    pub schema: Option<RefOr>,
}

/// A response: its description and, per content type, its body.
#[derive(Debug)]
pub struct Response {
    pub description: String,
    pub content: Vec<(String, MediaType)>,
}

/// A response inlined in place, or a pointer to a shared one.
#[derive(Debug)]
pub enum ResponseOr {
    Reference(String),
    Object(Response),
}

/// The responses of an operation, one per status code, in order of
/// declaration.
#[derive(Debug)]
pub struct Responses {
    pub responses: Vec<(String, ResponseOr)>,
}

pub struct ResponseView {
    pub description: Seq<char>,
    pub content: Seq<(Seq<char>, Option<RefOrView>)>,
}

pub enum ResponseOrView {
    Reference(Seq<char>),
    Object(ResponseView),
}

/// The view of the body of one content type: its schema, if any.
pub open spec fn media_view(m: MediaType) -> Option<RefOrView> {
    match m.schema {
        Some(s) => Some(s@),
        None => None,
    }
}

impl View for Response {
    type V = ResponseView;

    open spec fn view(&self) -> ResponseView {
        ResponseView {
            description: self.description@,
            content: self.content@.map_values(|c: (String, MediaType)| (c.0@, media_view(c.1))),
        }
    }
}

impl View for ResponseOr {
    type V = ResponseOrView;

    open spec fn view(&self) -> ResponseOrView {
        match self {
            ResponseOr::Reference(p) => ResponseOrView::Reference(p@),
            ResponseOr::Object(r) => ResponseOrView::Object(r@),
        }
    }
}

impl View for Responses {
    type V = Seq<(Seq<char>, ResponseOrView)>;

    open spec fn view(&self) -> Seq<(Seq<char>, ResponseOrView)> {
        self.responses@.map_values(|p: (String, ResponseOr)| (p.0@, p.1@))
    }
}

impl Responses {
    /// The response declared under `key`, if any.
    pub fn get(&self, key: &String) -> (r: Option<&ResponseOr>)
        ensures
            r is None <==> forall|i: int| 0 <= i < self@.len() ==> self@[i].0 != key@,
            r matches Some(x) ==> exists|i: int| 0 <= i < self@.len() && self@[i] == (key@, x@),
    {
        let n = self.responses.len();
        let mut i: usize = 0;
        while i < n
            invariant
                n == self.responses@.len(),
                i <= n,
                forall|j: int| 0 <= j < i ==> self@[j].0 != key@,
            decreases n - i,
        {
            if self.responses[i].0.eq(key) {
                proof {
                    assert(self@[i as int] == (key@, self.responses@[i as int].1@));
                }
                return Some(&self.responses[i].1);
            }
            i = i + 1;
        }
        None
    }

    /// The number of declared statuses.
    pub fn len(&self) -> (r: usize)
        ensures
            r == self@.len(),
    {
        self.responses.len()
    }
}

/// A response with no description and no body.
pub open spec fn empty_response() -> ResponseView {
    ResponseView { description: Seq::empty(), content: Seq::empty() }
}

/// A response whose JSON body is a reference to the component `name`.
pub open spec fn json_ref_response(name: Seq<char>) -> ResponseView {
    ResponseView {
        description: Seq::empty(),
        content: seq![(json_content_type(), Some(RefOrView::Reference(schema_ref_path(name))))],
    }
}

/// The decimal digit `d` as a character.
pub open spec fn digit_char(d: int) -> char {
    if d == 0 {
        '0'
    } else if d == 1 {
        '1'
    } else if d == 2 {
        '2'
    } else if d == 3 {
        '3'
    } else if d == 4 {
        '4'
    } else if d == 5 {
        '5'
    } else if d == 6 {
        '6'
    } else if d == 7 {
        '7'
    } else if d == 8 {
        '8'
    } else {
        '9'
    }
}

/// A status code as the three digits that key it in a responses map.
pub open spec fn status_text(code: int) -> Seq<char> {
    seq![digit_char(code / 100), digit_char((code / 10) % 10), digit_char(code % 10)]
}

/// Whether `code` is a status code of HTTP: three decimal digits.
pub open spec fn valid_status(code: u16) -> bool {
    100 <= code <= 999
}

fn digit_str(d: u16) -> (r: &'static str)
    requires
        d < 10,
    ensures
        r@ == seq![digit_char(d as int)],
{
    proof {
        reveal_strlit("0");
        reveal_strlit("1");
        reveal_strlit("2");
        reveal_strlit("3");
        reveal_strlit("4");
        reveal_strlit("5");
        reveal_strlit("6");
        reveal_strlit("7");
        reveal_strlit("8");
        reveal_strlit("9");
    }
    match d {
        0 => "0",
        1 => "1",
        2 => "2",
        3 => "3",
        4 => "4",
        5 => "5",
        6 => "6",
        7 => "7",
        8 => "8",
        _ => "9",
    }
}

/// The key of status `code` in a responses map: its three digits.
pub fn status_key(code: u16) -> (r: String)
    requires
        valid_status(code),
    ensures
        r@ == status_text(code as int),
{
    proof {
        reveal_strlit("");
    }
    let mut r = "".to_owned();
    r.append(digit_str(code / 100));
    r.append(digit_str((code / 10) % 10));
    r.append(digit_str(code % 10));
    proof {
        assert(r@ =~= status_text(code as int));
    }
    r
}

/// The responses map that holds `response` under status `code` alone.
pub open spec fn single(code: u16, response: ResponseOrView) -> Seq<(Seq<char>, ResponseOrView)> {
    seq![(status_text(code as int), response)]
}

fn single_responses(code: u16, response: ResponseOr) -> (r: Responses)
    requires
        valid_status(code),
    ensures
        r@ == single(code, response@),
{
    let mut v: Vec<(String, ResponseOr)> = Vec::new();
    v.push((status_key(code), response));
    let r = Responses { responses: v };
    proof {
        assert(r@ =~= single(code, response@));
    }
    r
}

/// The responses of a reply whose body is the type described by `schema`
/// (its component name and schema), sent with status `code`. A body held
/// by reference is answered by that reference; an inlined body by a JSON
/// content entry that refers to the component by name. A reply with no
/// schema has no responses.
pub open spec fn response_from_schema_spec(code: u16, schema: Option<(Seq<char>, RefOrView)>) -> Option<
    Seq<(Seq<char>, ResponseOrView)>,
> {
    match schema {
        None => None,
        Some((name, RefOrView::Reference(path))) => Some(single(code, ResponseOrView::Reference(path))),
        Some((name, RefOrView::Inline(_))) => Some(single(code, ResponseOrView::Object(json_ref_response(name)))),
    }
}

/// The view of a named schema, as a type contributes it.
pub open spec fn named_view(s: Option<(String, RefOr)>) -> Option<(Seq<char>, RefOrView)> {
    match s {
        None => None,
        Some((n, r)) => Some((n@, r@)),
    }
}

/// Builds the responses of a reply with status `code` whose body is the
/// named schema `schema`.
pub fn response_from_schema(code: u16, schema: Option<(String, RefOr)>) -> (r: Option<Responses>)
    requires
        valid_status(code),
    ensures
        match r {
            None => response_from_schema_spec(code, named_view(schema)) is None,
            Some(x) => response_from_schema_spec(code, named_view(schema)) == Some(x@),
        },
{
    match schema {
        None => None,
        Some((name, RefOr::Reference(path))) => Some(single_responses(code, ResponseOr::Reference(path))),
        Some((name, RefOr::Inline(_))) => {
            let mut content: Vec<(String, MediaType)> = Vec::new();
            content.push(("application/json".to_owned(), MediaType { schema: Some(RefOr::Reference(schema_ref(&name))) }));
            proof {
                reveal_strlit("");
            }
            let response = Response { description: "".to_owned(), content };
            proof {
                assert(response@.content =~= json_ref_response(name@).content);
                assert(response@.description =~= json_ref_response(name@).description);
            }
            Some(single_responses(code, ResponseOr::Object(response)))
        },
    }
}

/// The status of a reply with no body.
pub const NO_CONTENT: u16 = 204;

/// The status of a reply that accepted work to be done.
pub const ACCEPTED: u16 = 202;

/// The status of a reply that created a resource.
pub const CREATED: u16 = 201;

} // verus!
