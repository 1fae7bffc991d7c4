//! Requests as they are built from recipes, responses, and the record that
//! is kept of each exchange.

use vstd::prelude::*;
use vstd::string::*;
use crate::collection::Method;
use crate::outside::{header_name, header_name_form, header_value_accepted, is_header_value_byte};
use crate::text::utf8;

verus! {

/// Identifies one request, and the record kept of it.
#[derive(Clone, Copy, Debug, PartialEq, Eq, Hash)]
pub struct RequestId(pub u128);

/// A request with every template rendered.
#[derive(Debug, PartialEq, Eq)]
pub struct Request {
    pub id: RequestId,
    pub profile_id: Option<String>,
    pub recipe_id: String,
    pub method: Method,
    pub url: Vec<u8>,
    pub query: Vec<(String, Vec<u8>)>,
    pub headers: Vec<(String, Vec<u8>)>,
    pub body: Option<Vec<u8>>,
}

/// What the HTTP engine got back.
#[derive(Debug, PartialEq, Eq)]
pub struct Response {
    pub status: u16,
    pub headers: Vec<(String, Vec<u8>)>,
    pub body: Vec<u8>,
}

/// One exchange as history keeps it. Times are milliseconds since the Unix
/// epoch.
#[derive(Debug, PartialEq, Eq)]
pub struct RequestRecord {
    pub id: RequestId,
    pub request: Request,
    pub response: Response,
    pub start_time: i64,
    pub end_time: i64,
}

/// Why the HTTP engine gave no response.
#[derive(Clone, Debug, PartialEq, Eq)]
pub struct HttpError {
    pub message: String,
}

/// A request as contracts see it.
pub struct RequestView {
    pub id: u128,
    pub profile_id: Option<Seq<char>>,
    pub recipe_id: Seq<char>,
    pub method: Method,
    pub url: Seq<u8>,
    pub query: Seq<(Seq<char>, Seq<u8>)>,
    pub headers: Seq<(Seq<char>, Seq<u8>)>,
    pub body: Option<Seq<u8>>,
}

/// A response as contracts see it.
pub struct ResponseView {
    pub status: u16,
    pub headers: Seq<(Seq<char>, Seq<u8>)>,
    pub body: Seq<u8>,
}

/// A record as contracts see it.
pub struct RecordView {
    pub id: u128,
    pub request: RequestView,
    pub response: ResponseView,
    pub start_time: i64,
    pub end_time: i64,
}

/// The names and values of a list of named byte strings.
pub open spec fn pairs_view(v: Seq<(String, Vec<u8>)>) -> Seq<(Seq<char>, Seq<u8>)> {
    v.map_values(|p: (String, Vec<u8>)| (p.0@, p.1@))
}

/// The characters of an optional string.
pub open spec fn opt_string_view(s: Option<String>) -> Option<Seq<char>> {
    match s {
        Some(x) => Some(x@),
        None => None,
    }
}

/// The bytes of an optional byte vector.
pub open spec fn opt_bytes_view(s: Option<Vec<u8>>) -> Option<Seq<u8>> {
    match s {
        Some(x) => Some(x@),
        None => None,
    }
}

impl View for Request {
    type V = RequestView;

    open spec fn view(&self) -> RequestView {
        RequestView {
            id: self.id.0,
            profile_id: opt_string_view(self.profile_id),
            recipe_id: self.recipe_id@,
            method: self.method,
            url: self.url@,
            query: pairs_view(self.query@),
            headers: pairs_view(self.headers@),
            body: opt_bytes_view(self.body),
        }
    }
}

impl View for Response {
    type V = ResponseView;

    open spec fn view(&self) -> ResponseView {
        ResponseView {
            status: self.status,
            headers: pairs_view(self.headers@),
            body: self.body@,
        }
    }
}

impl View for RequestRecord {
    type V = RecordView;

    open spec fn view(&self) -> RecordView {
        RecordView {
            id: self.id.0,
            request: self.request@,
            response: self.response@,
            start_time: self.start_time,
            end_time: self.end_time,
        }
    }
}

/// Every byte may stand in a header value.
pub open spec fn is_header_value(bytes: Seq<u8>) -> bool {
    forall|i: int| 0 <= i < bytes.len() ==> is_header_value_byte(#[trigger] bytes[i])
}

/// Both the name and the value of a header are accepted.
pub open spec fn header_accepted(name: Seq<char>, value: Seq<char>) -> bool {
    header_name_form(name) is Some && is_header_value(utf8(value))
}

/// Every header of the list is accepted.
pub open spec fn headers_accepted(headers: Seq<(&str, &str)>) -> bool {
    forall|i: int|
        0 <= i < headers.len() ==> header_accepted(
            (#[trigger] headers[i]).0@,
            headers[i].1@,
        )
}

/// The header list made of accepted headers: names in their normal form,
/// values as their bytes, in the order given.
pub open spec fn header_list(headers: Seq<(&str, &str)>) -> Seq<(Seq<char>, Seq<u8>)> {
    Seq::new(
        headers.len(),
        |i: int| (header_name_form(headers[i].0@).unwrap(), utf8(headers[i].1@)),
    )
}

/// Builds a header list. Names are brought to their normal form; the order
/// of the headers is kept.
pub fn header_map(headers: &Vec<(&str, &str)>) -> (r: Vec<(String, Vec<u8>)>)
    requires
        headers_accepted(headers@),
    ensures
        pairs_view(r@) == header_list(headers@),
{
    let mut out: Vec<(String, Vec<u8>)> = Vec::new();
    let n = headers.len();
    let mut i: usize = 0;
    while i < n
        invariant
            i <= n,
            n == headers.len(),
            headers_accepted(headers@),
            out@.len() == i,
            forall|j: int|
                0 <= j < i ==> (#[trigger] out@[j]).0@ == header_name_form(headers@[j].0@).unwrap()
                    && out@[j].1@ == utf8(headers@[j].1@),
        decreases n - i,
    {
        let (name, value) = headers[i];
        match header_name(name) {
            Some(normal) => {
                let mut bytes: Vec<u8> = Vec::new();
                bytes.extend_from_slice(value.as_bytes());
                out.push((normal, bytes));
            },
            None => {
                assert(false);
            },
        }
        i += 1;
    }
    out
}

/// Builds a header list, or gives `None` when a name or a value is not
/// accepted.
pub fn try_header_map(headers: &Vec<(&str, &str)>) -> (r: Option<Vec<(String, Vec<u8>)>>)
    ensures
        r is Some <==> headers_accepted(headers@),
        r matches Some(list) ==> pairs_view(list@) == header_list(headers@),
{
    let n = headers.len();
    let mut i: usize = 0;
    while i < n
        invariant
            i <= n,
            n == headers.len(),
            forall|j: int|
                0 <= j < i ==> header_accepted(
                    (#[trigger] headers@[j]).0@,
                    headers@[j].1@,
                ),
        decreases n - i,
    {
        let (name, value) = headers[i];
        let named = header_name(name);
        if named.is_none() || !header_value_accepted(value) {
            return None;
        }
        i += 1;
    }
    Some(header_map(headers))
}

} // verus!
