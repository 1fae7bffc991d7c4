//! Taking the status, a header or the body out of a response.

use vstd::prelude::*;
use vstd::string::*;
use crate::collection::Section;
use crate::http::{pairs_view, Response};
use crate::select::SelectorError;
use crate::text::utf8;

verus! {

/// The decimal digits of a number, most significant first.
pub open spec fn decimal_text(n: nat) -> Seq<u8>
    decreases n,
{
    if n < 10 {
        seq![(48 + n) as u8]
    } else {
        decimal_text(n / 10).push((48 + n % 10) as u8)
    }
}

/// An ASCII capital letter as its small letter; any other byte unchanged.
pub open spec fn lower(b: u8) -> u8 {
    if 65 <= b && b <= 90 {
        (b + 32) as u8
    } else {
        b
    }
}

/// Equal byte for byte, ASCII letters compared without regard to case.
pub open spec fn same_name(a: Seq<u8>, b: Seq<u8>) -> bool {
    a.len() == b.len() && forall|i: int| 0 <= i < a.len() ==> lower(#[trigger] a[i]) == lower(b[i])
}

/// The value of the first header of that name.
pub open spec fn header_value(headers: Seq<(String, Vec<u8>)>, name: Seq<char>) -> Option<
    Seq<u8>,
>
    decreases headers.len(),
{
    if headers.len() == 0 {
        None
    } else if same_name(utf8(headers[0].0@), utf8(name)) {
        Some(headers[0].1@)
    } else {
        header_value(headers.drop_first(), name)
    }
}

/// The bytes of a section of a response: the status in decimal, the value
/// of the first header of the given name, or the body.
pub open spec fn section_of(response: Response, section: Section) -> Result<
    Seq<u8>,
    SelectorError,
> {
    match section {
        Section::Status => Ok(decimal_text(response.status as nat)),
        Section::Body => Ok(response.body@),
        Section::Header(name) => match header_value(response.headers@, name@) {
            Some(v) => Ok(v),
            None => Err(SelectorError::NoMatch),
        },
    }
}

fn push_decimal(n: u16, out: &mut Vec<u8>)
    ensures
        final(out)@ == old(out)@ + decimal_text(n as nat),
    decreases n,
{
    if n < 10 {
        out.push(48 + n as u8);
    } else {
        push_decimal(n / 10, out);
        out.push(48 + (n % 10) as u8);
    }
}

fn lower_byte(b: u8) -> (r: u8)
    ensures
        r == lower(b),
{
    if 65 <= b && b <= 90 {
        b + 32
    } else {
        b
    }
}

fn names_match(a: &[u8], b: &[u8]) -> (r: bool)
    ensures
        r == same_name(a@, b@),
{
    if a.len() != b.len() {
        return false;
    }
    let mut i: usize = 0;
    while i < a.len()
        invariant
            i <= a.len(),
            a.len() == b.len(),
            forall|j: int| 0 <= j < i ==> lower(#[trigger] a@[j]) == lower(b@[j]),
        decreases a.len() - i,
    {
        if lower_byte(a[i]) != lower_byte(b[i]) {
            return false;
        }
        i += 1;
    }
    true
}

/// A copy of a byte vector.
pub fn copy_bytes(v: &Vec<u8>) -> (r: Vec<u8>)
    ensures
        r@ == v@,
{
    let mut r: Vec<u8> = Vec::new();
    r.extend_from_slice(v.as_slice());
    r
}

/// A copy of a list of named byte strings.
pub fn copy_pairs(v: &Vec<(String, Vec<u8>)>) -> (r: Vec<(String, Vec<u8>)>)
    ensures
        pairs_view(r@) == pairs_view(v@),
{
    let mut r: Vec<(String, Vec<u8>)> = Vec::new();
    let mut i: usize = 0;
    while i < v.len()
        invariant
            i <= v.len(),
            r@.len() == i,
            forall|j: int| 0 <= j < i ==> (#[trigger] r@[j]).0@ == v@[j].0@ && r@[j].1@ == v@[j].1@,
        decreases v.len() - i,
    {
        let name = v[i].0.clone();
        let value = copy_bytes(&v[i].1);
        r.push((name, value));
        i += 1;
    }
    r
}

/// A copy of a response.
pub fn copy_response(response: &Response) -> (r: Response)
    ensures
        r@ == response@,
{
    Response {
        status: response.status,
        headers: copy_pairs(&response.headers),
        body: copy_bytes(&response.body),
    }
}

/// Takes a section out of a response. A header that the response does not
/// have is reported as `NoMatch`.
pub fn extract_section(response: &Response, section: &Section) -> (r: Result<
    Vec<u8>,
    SelectorError,
>)
    ensures
        (match r {
            Ok(v) => Ok(v@),
            Err(e) => Err(e),
        }) == section_of(*response, *section),
{
    match section {
        Section::Status => {
            let mut out: Vec<u8> = Vec::new();
            push_decimal(response.status, &mut out);
            Ok(out)
        },
        Section::Body => Ok(copy_bytes(&response.body)),
        Section::Header(name) => {
            let wanted = name.as_str().as_bytes();
            let headers = &response.headers;
            let mut i: usize = 0;
            assert(headers@.skip(0) =~= headers@);
            while i < headers.len()
                invariant
                    i <= headers.len(),
                    wanted@ == utf8(name@),
                    headers@ == response.headers@,
                    *section == Section::Header(*name),
                    header_value(headers@, name@) == header_value(headers@.skip(i as int), name@),
                decreases headers.len() - i,
            {
                assert(headers@.skip(i as int).drop_first() =~= headers@.skip(i + 1));
                if names_match(headers[i].0.as_str().as_bytes(), wanted) {
                    return Ok(copy_bytes(&headers[i].1));
                }
                i += 1;
            }
            Err(SelectorError::NoMatch)
        },
    }
}

} // verus!
