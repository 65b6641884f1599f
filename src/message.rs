//! The message model: methods, header maps, requests, responses and the
//! error a handler may answer with.
use vstd::prelude::*;
use vstd::string::StringExecFns;
use crate::assoc::{assoc_map, distinct_keys, lemma_assoc_absent, lemma_assoc_index, lemma_assoc_push, lemma_assoc_update};

verus! {

/// A request method: the four common verbs, or any other verb kept verbatim.
#[derive(Clone, Debug)]
pub enum HttpMethod {
    GET,
    POST,
    PUT,
    DELETE,
    OTHER(String),
}

/// The mathematical value of a method.
pub enum MethodView {
    Get,
    Post,
    Put,
    Delete,
    Other(Seq<char>),
}

impl View for HttpMethod {
    type V = MethodView;

    open spec fn view(&self) -> MethodView {
        match self {
            HttpMethod::GET => MethodView::Get,
            HttpMethod::POST => MethodView::Post,
            HttpMethod::PUT => MethodView::Put,
            HttpMethod::DELETE => MethodView::Delete,
            HttpMethod::OTHER(s) => MethodView::Other(s@),
        }
    }
}

/// The method that a request line's verb names; matching is case-sensitive.
pub open spec fn method_of_text(t: Seq<char>) -> MethodView {
    if t == "GET"@ {
        MethodView::Get
    } else if t == "POST"@ {
        MethodView::Post
    } else if t == "PUT"@ {
        MethodView::Put
    } else if t == "DELETE"@ {
        MethodView::Delete
    } else {
        MethodView::Other(t)
    }
}

/// The verb that names a method.
pub open spec fn method_text(m: MethodView) -> Seq<char> {
    match m {
        MethodView::Get => "GET"@,
        MethodView::Post => "POST"@,
        MethodView::Put => "PUT"@,
        MethodView::Delete => "DELETE"@,
        MethodView::Other(t) => t,
    }
}

/// Reading a verb keeps its text.
pub proof fn lemma_method_text_round_trip(t: Seq<char>)
    ensures
        method_text(method_of_text(t)) == t,
{
}

impl HttpMethod {
    /// Reads a verb: one of the four common ones, or any other kept as it is.
    pub fn from_text(t: String) -> (r: HttpMethod)
        ensures
            r@ == method_of_text(t@),
    {
        if t == String::from_str("GET") {
            HttpMethod::GET
        } else if t == String::from_str("POST") {
            HttpMethod::POST
        } else if t == String::from_str("PUT") {
            HttpMethod::PUT
        } else if t == String::from_str("DELETE") {
            HttpMethod::DELETE
        } else {
            HttpMethod::OTHER(t)
        }
    }

    /// Whether two methods are the same method.
    pub fn same_as(&self, other: &HttpMethod) -> (r: bool)
        ensures
            r == (self@ == other@),
    {
        match self {
            HttpMethod::GET => matches!(other, HttpMethod::GET),
            HttpMethod::POST => matches!(other, HttpMethod::POST),
            HttpMethod::PUT => matches!(other, HttpMethod::PUT),
            HttpMethod::DELETE => matches!(other, HttpMethod::DELETE),
            HttpMethod::OTHER(a) => match other {
                HttpMethod::OTHER(b) => *a == *b,
                _ => false,
            },
        }
    }
}

impl PartialEq for HttpMethod {
    fn eq(&self, other: &HttpMethod) -> (r: bool) {
        self.same_as(other)
    }
}

impl vstd::std_specs::cmp::PartialEqSpecImpl for HttpMethod {
    open spec fn obeys_eq_spec() -> bool {
        true
    }

    open spec fn eq_spec(&self, other: &HttpMethod) -> bool {
        self@ == other@
    }
}

/// The views of a sequence of name/value pairs.
pub open spec fn text_pairs(s: Seq<(String, String)>) -> Seq<(Seq<char>, Seq<char>)> {
    s.map_values(|p: (String, String)| (p.0@, p.1@))
}

/// A header map: names are case-sensitive, and each name holds one value.
/// The pairs are kept in the order in which their names were first inserted.
#[derive(Clone, Debug)]
pub struct Headers {
    entries: Vec<(String, String)>,
}

impl View for Headers {
    type V = Map<Seq<char>, Seq<char>>;

    open spec fn view(&self) -> Map<Seq<char>, Seq<char>> {
        assoc_map(self.pairs())
    }
}

impl Headers {
    /// The pairs, in order.
    pub closed spec fn pairs(&self) -> Seq<(Seq<char>, Seq<char>)> {
        text_pairs(self.entries@)
    }

    /// No name occurs twice.
    pub open spec fn wf(&self) -> bool {
        distinct_keys(self.pairs())
    }

    pub fn new() -> (r: Headers)
        ensures
            r.wf(),
            r.pairs() == Seq::<(Seq<char>, Seq<char>)>::empty(),
            r@ == Map::<Seq<char>, Seq<char>>::empty(),
    {
        let r = Headers { entries: Vec::new() };
        assert(r.pairs() =~= Seq::<(Seq<char>, Seq<char>)>::empty());
        r
    }

    /// The number of names.
    pub fn len(&self) -> (r: usize)
        ensures
            r == self.pairs().len(),
    {
        self.entries.len()
    }

    /// The pair at position `i`.
    pub fn entry(&self, i: usize) -> (r: (&String, &String))
        requires
            i < self.pairs().len(),
        ensures
            (r.0@, r.1@) == self.pairs()[i as int],
    {
        let p = &self.entries[i];
        (&p.0, &p.1)
    }

    /// The position of `name`, if present.
    fn position(&self, name: &String) -> (r: Option<usize>)
        ensures
            match r {
                Some(i) => i < self.pairs().len() && self.pairs()[i as int].0 == name@,
                None => forall|j: int| 0 <= j < self.pairs().len() ==> self.pairs()[j].0 != name@,
            },
    {
        let mut i: usize = 0;
        while i < self.entries.len()
            invariant
                i <= self.entries@.len(),
                forall|j: int| 0 <= j < i ==> self.pairs()[j].0 != name@,
            decreases self.entries@.len() - i,
        {
            if self.entries[i].0 == *name {
                return Some(i);
            }
            i = i + 1;
        }
        None
    }

    /// Sets the value of `name`, replacing any earlier value.
    pub fn insert(&mut self, name: String, value: String)
        requires
            old(self).wf(),
        ensures
            final(self).wf(),
            final(self)@ == old(self)@.insert(name@, value@),
    {
        let ghost s = self.pairs();
        match self.position(&name) {
            Some(i) => {
                proof {
                    lemma_assoc_update(s, i as int, value@);
                }
                self.entries.set(i, (name, value));
                assert(self.pairs() =~= s.update(i as int, (s[i as int].0, value@)));
            },
            None => {
                let ghost k = name@;
                let ghost v = value@;
                self.entries.push((name, value));
                assert(self.pairs() =~= s.push((k, v)));
                proof {
                    lemma_assoc_push(s, k, v);
                }
            },
        }
    }

    /// The value of `name`, if present.
    pub fn get(&self, name: &str) -> (r: Option<&String>)
        requires
            self.wf(),
        ensures
            match r {
                Some(v) => self@.contains_key(name@) && self@[name@] == v@,
                None => !self@.contains_key(name@),
            },
    {
        let key = name.to_owned();
        match self.position(&key) {
            Some(i) => {
                proof {
                    lemma_assoc_index(self.pairs(), i as int);
                }
                Some(&self.entries[i].1)
            },
            None => {
                proof {
                    lemma_assoc_absent(self.pairs(), name@);
                }
                None
            },
        }
    }
}

/// A request as read from a connection.
#[derive(Clone, Debug)]
pub struct Request {
    pub method: HttpMethod,
    pub uri: String,
    pub version: String,
    pub headers: Headers,
    pub body: Option<String>,
}

/// A response as a handler builds it.
#[derive(Clone, Debug)]
pub struct Response {
    pub version: String,
    pub status_code: u16,
    pub status_message: String,
    pub headers: Headers,
    pub body: Option<String>,
}

/// The error a handler answers with in place of a response.
#[derive(Clone, Debug)]
pub struct HttpError {
    pub status_code: u16,
    pub message: String,
}

impl HttpError {
    /// The error that stands for an internal failure, also given when no route matches.
    pub fn internal_server_error() -> (r: HttpError)
        ensures
            r.status_code == 500,
            r.message@ == "Internal Server Error"@,
    {
        HttpError { status_code: 500, message: String::from_str("Internal Server Error") }
    }
}

} // verus!
