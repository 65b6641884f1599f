//! The wire parser: the bytes of a single read turned into a `Request`.
use vstd::prelude::*;
use vstd::string::StringExecFns;
use vstd::utf8::{decode_utf8, decode_utf8_encode_utf8, encode_utf8, valid_utf8};
use crate::assoc::{assoc_map, lemma_assoc_push};
use crate::message::{lemma_method_text_round_trip, method_of_text, method_text, Headers, HttpMethod, MethodView, Request};
use crate::serializer::{append_decimal, decimal};

verus! {

/// The most header fields that a request may carry.
pub const MAX_HEADERS: usize = 16;

/// The most bytes that one read of a connection takes in.
pub const READ_CAPACITY: usize = 1024;

/// Why a buffer does not hold a request.
#[derive(Clone, Copy, Debug, PartialEq, Eq, Structural)]
pub enum ParseError {
    /// The head does not end within the buffer.
    IncompleteRequest,
    /// The head carries more header fields than there is room for.
    TooManyHeaders,
    /// The request line or a header line breaks the HTTP grammar.
    InvalidSyntax,
    MissingMethod,
    MissingPath,
    MissingVersion,
    /// A header value is not UTF-8 text.
    MalformedHeaderText,
    /// The bytes after the head are not UTF-8 text.
    MalformedBodyText,
}

/// What a scan of a request head found.
pub enum HeadScan {
    /// A whole head of `len` bytes, with the parts it named.
    Complete {
        len: usize,
        method: Option<String>,
        path: Option<String>,
        version: Option<u8>,
        headers: Vec<(String, Vec<u8>)>,
    },
    /// The buffer ends before the head does.
    Partial,
    /// More header fields than `MAX_HEADERS`.
    TooManyHeaders,
    /// Any other break of the grammar.
    Invalid,
}

/// The mathematical value of a head scan.
pub enum HeadScanView {
    Complete {
        len: nat,
        method: Option<Seq<char>>,
        path: Option<Seq<char>>,
        version: Option<u8>,
        headers: Seq<(Seq<char>, Seq<u8>)>,
    },
    Partial,
    TooManyHeaders,
    Invalid,
}

pub open spec fn opt_text(o: Option<String>) -> Option<Seq<char>> {
    match o {
        Some(s) => Some(s@),
        None => None,
    }
}

impl View for HeadScan {
    type V = HeadScanView;

    open spec fn view(&self) -> HeadScanView {
        match self {
            HeadScan::Complete { len, method, path, version, headers } => HeadScanView::Complete {
                len: *len as nat,
                method: opt_text(*method),
                path: opt_text(*path),
                version: *version,
                headers: headers@.map_values(|h: (String, Vec<u8>)| (h.0@, h.1@)),
            },
            HeadScan::Partial => HeadScanView::Partial,
            HeadScan::TooManyHeaders => HeadScanView::TooManyHeaders,
            HeadScan::Invalid => HeadScanView::Invalid,
        }
    }
}

/// What the HTTP/1.x request grammar finds in `buf`.
pub uninterp spec fn http_request_head(buf: Seq<u8>) -> HeadScanView;

/// Relies on `httparse::Request::parse`, given room for `MAX_HEADERS` fields:
/// it reports the head it found, whose length never exceeds the buffer and
/// whose fields fit in the room given.
#[verifier::external_body]
fn scan_request_head(buf: &[u8]) -> (r: HeadScan)
    ensures
        r@ == http_request_head(buf@),
        r@ matches HeadScanView::Complete { len, headers, .. } ==> len <= buf@.len()
            && headers.len() <= MAX_HEADERS,
{
    let mut headers = [httparse::EMPTY_HEADER; MAX_HEADERS];
    let mut req = httparse::Request::new(&mut headers);
    match req.parse(buf) {
        Ok(httparse::Status::Complete(len)) => HeadScan::Complete {
            len,
            method: req.method.map(String::from),
            path: req.path.map(String::from),
            version: req.version,
            headers: req.headers.iter().map(|h| (String::from(h.name), h.value.to_vec())).collect(),
        },
        Ok(httparse::Status::Partial) => HeadScan::Partial,
        Err(httparse::Error::TooManyHeaders) => HeadScan::TooManyHeaders,
        Err(_) => HeadScan::Invalid,
    }
}

/// Relies on `std::str::from_utf8`: it accepts exactly the valid UTF-8 byte
/// strings, and then yields the characters they encode.
#[verifier::external_body]
fn utf8_text(b: &[u8]) -> (r: Option<String>)
    ensures
        match r {
            Some(s) => valid_utf8(b@) && s@ == decode_utf8(b@),
            None => !valid_utf8(b@),
        },
{
    match std::str::from_utf8(b) {
        Ok(s) => Some(String::from(s)),
        Err(_) => None,
    }
}

/// The version text for minor version `v` of HTTP/1.
pub open spec fn version_text(v: u8) -> Seq<char> {
    "HTTP/1."@ + decimal(v as nat)
}

/// The mathematical value of a request.
pub struct RequestView {
    pub method: MethodView,
    pub uri: Seq<char>,
    pub version: Seq<char>,
    pub headers: Map<Seq<char>, Seq<char>>,
    pub body: Option<Seq<char>>,
}

pub open spec fn request_view(q: Request) -> RequestView {
    RequestView {
        method: q.method@,
        uri: q.uri@,
        version: q.version@,
        headers: q.headers@,
        body: opt_text(q.body),
    }
}

pub open spec fn result_view(r: Result<Request, ParseError>) -> Result<RequestView, ParseError> {
    match r {
        Ok(q) => Ok(request_view(q)),
        Err(e) => Err(e),
    }
}

/// Every header value is UTF-8 text.
pub open spec fn values_are_text(hs: Seq<(Seq<char>, Seq<u8>)>) -> bool {
    forall|i: int| 0 <= i < hs.len() ==> valid_utf8(#[trigger] hs[i].1)
}

/// The header fields with their values read as text.
pub open spec fn decoded_headers(hs: Seq<(Seq<char>, Seq<u8>)>) -> Seq<(Seq<char>, Seq<char>)> {
    hs.map_values(|h: (Seq<char>, Seq<u8>)| (h.0, decode_utf8(h.1)))
}

/// The bytes after a head of `len` bytes, read as text; none when nothing follows.
pub open spec fn body_view(buf: Seq<u8>, len: nat) -> Option<Seq<char>> {
    if len < buf.len() {
        Some(decode_utf8(buf.subrange(len as int, buf.len() as int)))
    } else {
        None
    }
}

/// The request, or the error, that a head scan of `buf` gives.
pub open spec fn request_outcome(scan: HeadScanView, buf: Seq<u8>) -> Result<RequestView, ParseError> {
    match scan {
        HeadScanView::Partial => Err(ParseError::IncompleteRequest),
        HeadScanView::TooManyHeaders => Err(ParseError::TooManyHeaders),
        HeadScanView::Invalid => Err(ParseError::InvalidSyntax),
        HeadScanView::Complete { len, method, path, version, headers } => {
            if method is None {
                Err(ParseError::MissingMethod)
            } else if path is None {
                Err(ParseError::MissingPath)
            } else if version is None {
                Err(ParseError::MissingVersion)
            } else if !values_are_text(headers) {
                Err(ParseError::MalformedHeaderText)
            } else if len < buf.len() && !valid_utf8(buf.subrange(len as int, buf.len() as int)) {
                Err(ParseError::MalformedBodyText)
            } else {
                Ok(RequestView {
                    method: method_of_text(method->Some_0),
                    uri: path->Some_0,
                    version: version_text(version->Some_0),
                    headers: assoc_map(decoded_headers(headers)),
                    body: body_view(buf, len),
                })
            }
        },
    }
}

/// A scan that could have come from `buf`: a whole head lies within it.
pub open spec fn scan_fits(scan: HeadScanView, buf: Seq<u8>) -> bool {
    scan matches HeadScanView::Complete { len, .. } ==> len <= buf.len()
}

fn copy_text(o: &Option<String>) -> (r: Option<String>)
    ensures
        opt_text(r) == opt_text(*o),
{
    match o {
        Some(s) => Some(s.clone()),
        None => None,
    }
}

/// Builds the request from what a head scan of `buf` found: the verb, path
/// and version of the request line, each header value read as text (a later
/// field of a name replaces an earlier one), and the bytes after the head as
/// the body.
#[verifier::loop_isolation(false)]
pub fn request_from_head(scan: &HeadScan, buf: &[u8]) -> (r: Result<Request, ParseError>)
    requires
        scan_fits(scan@, buf@),
    ensures
        result_view(r) == request_outcome(scan@, buf@),
        r matches Ok(q) ==> q.headers.wf(),
{
    match scan {
        HeadScan::Partial => Err(ParseError::IncompleteRequest),
        HeadScan::TooManyHeaders => Err(ParseError::TooManyHeaders),
        HeadScan::Invalid => Err(ParseError::InvalidSyntax),
        HeadScan::Complete { len, method, path, version, headers } => {
            let method = match copy_text(method) {
                Some(m) => m,
                None => { return Err(ParseError::MissingMethod); },
            };
            let uri = match copy_text(path) {
                Some(p) => p,
                None => { return Err(ParseError::MissingPath); },
            };
            let minor = match version {
                Some(v) => *v,
                None => { return Err(ParseError::MissingVersion); },
            };
            let ghost hs = scan@->Complete_headers;
            let mut map = Headers::new();
            let mut i: usize = 0;
            while i < headers.len()
                invariant
                    hs == headers@.map_values(|h: (String, Vec<u8>)| (h.0@, h.1@)),
                    i <= headers@.len(),
                    map.wf(),
                    values_are_text(hs.take(i as int)),
                    map@ == assoc_map(decoded_headers(hs.take(i as int))),
                decreases headers@.len() - i,
            {
                let value = match utf8_text(headers[i].1.as_slice()) {
                    Some(v) => v,
                    None => {
                        assert(!valid_utf8(hs[i as int].1));
                        assert(!values_are_text(hs));
                        return Err(ParseError::MalformedHeaderText);
                    },
                };
                map.insert(headers[i].0.clone(), value);
                proof {
                    let d = decoded_headers(hs.take(i as int));
                    assert(decoded_headers(hs.take(i + 1)) =~= d.push((hs[i as int].0, decode_utf8(hs[i as int].1))));
                    lemma_assoc_push(d, hs[i as int].0, decode_utf8(hs[i as int].1));
                    assert(hs.take(i + 1) =~= hs.take(i as int).push(hs[i as int]));
                }
                i = i + 1;
            }
            assert(hs.take(i as int) =~= hs);
            let body = if *len < buf.len() {
                let rest = vstd::slice::slice_subrange(buf, *len, buf.len());
                match utf8_text(rest) {
                    Some(b) => Some(b),
                    None => { return Err(ParseError::MalformedBodyText); },
                }
            } else {
                None
            };
            let mut version_string = String::from_str("HTTP/1.");
            append_decimal(&mut version_string, minor as u16);
            Ok(Request {
                method: HttpMethod::from_text(method),
                uri,
                version: version_string,
                headers: map,
                body,
            })
        },
    }
}

/// A head that is whole, names its verb, path and version, and holds text
/// in its header values and after its end.
pub open spec fn well_formed_head(scan: HeadScanView, buf: Seq<u8>) -> bool {
    &&& scan matches HeadScanView::Complete { len, method, path, version, headers }
    &&& len <= buf.len()
    &&& method is Some && path is Some && version is Some
    &&& values_are_text(headers)
    &&& len < buf.len() ==> valid_utf8(buf.subrange(len as int, buf.len() as int))
}

/// Parsing a well-formed request gives back what its head holds: the verb's
/// text, the path and the version exactly, each header name with the value
/// of its last field, and the bytes after the head, unchanged, as the body.
pub proof fn lemma_parse_reproduces_request(scan: HeadScanView, buf: Seq<u8>)
    requires
        well_formed_head(scan, buf),
    ensures
        request_outcome(scan, buf) matches Ok(q) && {
            let len = scan->Complete_len;
            &&& method_text(q.method) == scan->Complete_method->Some_0
            &&& q.uri == scan->Complete_path->Some_0
            &&& q.version == version_text(scan->Complete_version->Some_0)
            &&& q.headers == assoc_map(decoded_headers(scan->Complete_headers))
            &&& len < buf.len() ==> (q.body matches Some(b)
                && encode_utf8(b) == buf.subrange(len as int, buf.len() as int))
            &&& len == buf.len() ==> q.body is None
        },
{
    let len = scan->Complete_len;
    lemma_method_text_round_trip(scan->Complete_method->Some_0);
    if len < buf.len() {
        decode_utf8_encode_utf8(buf.subrange(len as int, buf.len() as int));
    }
}

/// Parses the bytes of one read into a request.
pub fn parse_request(buf: &[u8]) -> (r: Result<Request, ParseError>)
    ensures
        result_view(r) == request_outcome(http_request_head(buf@), buf@),
        r matches Ok(q) ==> q.headers.wf(),
{
    let scan = scan_request_head(buf);
    request_from_head(&scan, buf)
}

} // verus!
