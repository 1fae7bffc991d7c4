//! Selectors: taking one value out of structured text.
//!
//! A selector is a path of steps. On an object a step names a member (the
//! first with that key); on an array it is the decimal index of an item,
//! counted from 0 and at most 999999999. The empty path selects the whole
//! document. A selected string yields the bytes it stands for, without
//! quotes; any other value yields its text as written.

use vstd::prelude::*;
use vstd::string::*;
use crate::collection::ContentType;
use crate::json::{
    check_document, is_digit, is_document, lemma_value_end, member_at, scan_member, scan_string,
    scan_value, skip_ws, string_at, value_end, ws, MAX_DEPTH,
};
use crate::text::{bytes_eq, copy_range, utf8};

verus! {

/// Why a selector gave no value.
#[derive(Clone, Copy, Debug, PartialEq, Eq)]
pub enum SelectorError {
    /// A selector needs a content type to read the value by.
    NoContentType,
    /// The value is not a document of its content type.
    InvalidContent,
    /// The path leads to nothing in the document.
    NoMatch,
}

/// The steps of a path as bytes.
pub open spec fn path_bytes(path: Seq<String>) -> Seq<Seq<u8>> {
    path.map_values(|s: String| utf8(s@))
}

/// The number that the digits of `s` from `i` on add to `acc`, or `None`
/// where a byte is no digit or the number passes 999999999.
pub open spec fn index_from(s: Seq<u8>, i: int, acc: nat) -> Option<nat>
    decreases s.len() - i,
{
    if i < 0 || i >= s.len() {
        Some(acc)
    } else if !is_digit(s[i]) || acc > 99_999_999 {
        None
    } else {
        index_from(s, i + 1, (acc * 10 + (s[i] - 48)) as nat)
    }
}

/// The array index that a step names, if it names one.
pub open spec fn index_value(step: Seq<u8>) -> Option<nat> {
    if step.len() == 0 {
        None
    } else {
        index_from(step, 0, 0)
    }
}

/// The span of the value that `path` selects in the value starting at
/// `pos`.
pub open spec fn select_at(s: Seq<u8>, pos: int, path: Seq<Seq<u8>>, depth: nat) -> Option<
    (int, int),
>
    decreases path.len(), s.len() - pos, 0nat,
{
    if path.len() == 0 {
        match value_end(s, pos, depth) {
            Some(e) => Some((pos, e)),
            None => None,
        }
    } else if pos < 0 || pos >= s.len() || depth == 0 {
        None
    } else if s[pos] == 123 {
        let p = ws(s, pos + 1);
        if pos < p <= s.len() {
            member_select(s, p, path, (depth - 1) as nat)
        } else {
            None
        }
    } else if s[pos] == 91 {
        match index_value(path[0]) {
            None => None,
            Some(k) => {
                let p = ws(s, pos + 1);
                if pos < p <= s.len() {
                    item_select(s, p, k, path.drop_first(), (depth - 1) as nat)
                } else {
                    None
                }
            },
        }
    } else {
        None
    }
}

/// Selection inside an object whose next member starts at `pos`.
pub open spec fn member_select(s: Seq<u8>, pos: int, path: Seq<Seq<u8>>, depth: nat) -> Option<
    (int, int),
>
    decreases path.len(), s.len() - pos, 1nat,
{
    if path.len() == 0 {
        None
    } else {
        match member_at(s, pos) {
            None => None,
            Some((key, v)) => if !(pos < v <= s.len()) {
                None
            } else if key == path[0] {
                select_at(s, v, path.drop_first(), depth)
            } else {
                match value_end(s, v, depth) {
                    None => None,
                    Some(e) => {
                        let p = ws(s, e);
                        if 0 <= p < s.len() && s[p] == 44 {
                            let q = ws(s, p + 1);
                            if pos < q <= s.len() {
                                member_select(s, q, path, depth)
                            } else {
                                None
                            }
                        } else {
                            None
                        }
                    },
                }
            },
        }
    }
}

/// Selection inside an array: `k` items are still to be passed over from
/// `pos`, then `rest` is followed.
pub open spec fn item_select(s: Seq<u8>, pos: int, k: nat, rest: Seq<Seq<u8>>, depth: nat)
    -> Option<(int, int)>
    decreases rest.len() + 1, s.len() - pos, 1nat,
{
    if k == 0 {
        select_at(s, pos, rest, depth)
    } else {
        match value_end(s, pos, depth) {
            None => None,
            Some(e) => {
                let p = ws(s, e);
                if 0 <= p < s.len() && s[p] == 44 {
                    let q = ws(s, p + 1);
                    if pos < q <= s.len() {
                        item_select(s, q, (k - 1) as nat, rest, depth)
                    } else {
                        None
                    }
                } else {
                    None
                }
            },
        }
    }
}

/// What a selected span yields: the content of a string, the text of
/// anything else.
pub open spec fn selection_text(s: Seq<u8>, a: int, b: int) -> Seq<u8> {
    if 0 <= a < s.len() && s[a] == 34 {
        match string_at(s, a + 1) {
            Some((text, _)) => text,
            None => s.subrange(a, b),
        }
    } else {
        s.subrange(a, b)
    }
}

/// What `path` selects in the JSON document `s`.
pub open spec fn select_json(s: Seq<u8>, path: Seq<Seq<u8>>) -> Result<Seq<u8>, SelectorError> {
    if !is_document(s) {
        Err(SelectorError::InvalidContent)
    } else {
        match select_at(s, ws(s, 0), path, MAX_DEPTH as nat) {
            None => Err(SelectorError::NoMatch),
            Some((a, b)) => Ok(selection_text(s, a, b)),
        }
    }
}

/// What `path` selects in `s`, read by its content type.
pub open spec fn selected(s: Seq<u8>, content_type: Option<ContentType>, path: Seq<Seq<u8>>)
    -> Result<Seq<u8>, SelectorError> {
    match content_type {
        None => Err(SelectorError::NoContentType),
        Some(ContentType::Json) => select_json(s, path),
    }
}

/// A span that is selected lies inside the text and is not empty.
pub proof fn lemma_select_at(s: Seq<u8>, pos: int, path: Seq<Seq<u8>>, depth: nat)
    requires
        0 <= pos <= s.len(),
    ensures
        select_at(s, pos, path, depth) matches Some((a, b)) ==> pos <= a < b <= s.len(),
    decreases path.len(), s.len() - pos, 0nat,
{
    if path.len() == 0 {
        lemma_value_end(s, pos, depth);
    } else if pos < s.len() && depth > 0 {
        let p = ws(s, pos + 1);
        if s[pos] == 123 {
            if pos < p <= s.len() {
                lemma_member_select(s, p, path, (depth - 1) as nat);
            }
        } else if s[pos] == 91 {
            match index_value(path[0]) {
                None => {},
                Some(k) => {
                    if pos < p <= s.len() {
                        lemma_item_select(s, p, k, path.drop_first(), (depth - 1) as nat);
                    }
                },
            }
        }
    }
}

proof fn lemma_member_select(s: Seq<u8>, pos: int, path: Seq<Seq<u8>>, depth: nat)
    requires
        0 <= pos <= s.len(),
    ensures
        member_select(s, pos, path, depth) matches Some((a, b)) ==> pos <= a < b <= s.len(),
    decreases path.len(), s.len() - pos, 1nat,
{
    if path.len() > 0 {
        match member_at(s, pos) {
            None => {},
            Some((key, v)) => {
                if pos < v <= s.len() {
                    if key == path[0] {
                        lemma_select_at(s, v, path.drop_first(), depth);
                    } else {
                        match value_end(s, v, depth) {
                            None => {},
                            Some(e) => {
                                let p = ws(s, e);
                                if 0 <= p < s.len() && s[p] == 44 {
                                    let q = ws(s, p + 1);
                                    if pos < q <= s.len() {
                                        lemma_member_select(s, q, path, depth);
                                    }
                                }
                            },
                        }
                    }
                }
            },
        }
    }
}

proof fn lemma_item_select(s: Seq<u8>, pos: int, k: nat, rest: Seq<Seq<u8>>, depth: nat)
    requires
        0 <= pos <= s.len(),
    ensures
        item_select(s, pos, k, rest, depth) matches Some((a, b)) ==> pos <= a < b <= s.len(),
    decreases rest.len() + 1, s.len() - pos, 1nat,
{
    if k == 0 {
        lemma_select_at(s, pos, rest, depth);
    } else {
        match value_end(s, pos, depth) {
            None => {},
            Some(e) => {
                let p = ws(s, e);
                if 0 <= p < s.len() && s[p] == 44 {
                    let q = ws(s, p + 1);
                    if pos < q <= s.len() {
                        lemma_item_select(s, q, (k - 1) as nat, rest, depth);
                    }
                }
            },
        }
    }
}

fn parse_index(step: &[u8]) -> (r: Option<u32>)
    ensures
        (match r {
            Some(k) => Some(k as nat),
            None => None,
        }) == index_value(step@),
{
    if step.len() == 0 {
        return None;
    }
    let mut acc: u32 = 0;
    let mut i: usize = 0;
    while i < step.len()
        invariant
            i <= step.len(),
            acc <= 999_999_999,
            index_value(step@) == index_from(step@, i as int, acc as nat),
        decreases step.len() - i,
    {
        let b = step[i];
        if !(48 <= b && b <= 57) || acc > 99_999_999 {
            return None;
        }
        acc = acc * 10 + (b - 48) as u32;
        i += 1;
    }
    Some(acc)
}

/// The span that the steps of `path` from `from` on select in the value
/// starting at `pos`.
fn select_value(s: &[u8], pos: usize, path: &Vec<String>, from: usize, depth: usize) -> (r: Option<
    (usize, usize),
>)
    requires
        pos <= s.len(),
        from <= path.len(),
    ensures
        (match r {
            Some((a, b)) => Some((a as int, b as int)),
            None => None,
        }) == select_at(s@, pos as int, path_bytes(path@).skip(from as int), depth as nat),
        r matches Some((a, b)) ==> a < b <= s.len(),
    decreases path.len() - from, s.len() - pos, 0nat,
{
    let ghost steps = path_bytes(path@).skip(from as int);
    proof {
        lemma_select_at(s@, pos as int, steps, depth as nat);
    }
    if from == path.len() {
        return match scan_value(s, pos, depth) {
            Some(e) => Some((pos, e)),
            None => None,
        };
    }
    if pos >= s.len() || depth == 0 {
        return None;
    }
    let step = path[from].as_str().as_bytes();
    assert(steps.drop_first() =~= path_bytes(path@).skip(from + 1));
    if s[pos] == 123 {
        let p = skip_ws(s, pos + 1);
        select_member(s, p, path, from, depth - 1)
    } else if s[pos] == 91 {
        match parse_index(step) {
            None => None,
            Some(k) => {
                let p = skip_ws(s, pos + 1);
                select_item(s, p, k, path, from + 1, depth - 1)
            },
        }
    } else {
        None
    }
}

fn select_member(s: &[u8], pos: usize, path: &Vec<String>, from: usize, depth: usize) -> (r:
    Option<(usize, usize)>)
    requires
        pos <= s.len(),
        from < path.len(),
    ensures
        (match r {
            Some((a, b)) => Some((a as int, b as int)),
            None => None,
        }) == member_select(s@, pos as int, path_bytes(path@).skip(from as int), depth as nat),
        r matches Some((a, b)) ==> a < b <= s.len(),
    decreases path.len() - from, s.len() - pos, 1nat,
{
    let ghost steps = path_bytes(path@).skip(from as int);
    let step = path[from].as_str().as_bytes();
    let mut at: usize = pos;
    loop
        invariant
            pos <= at <= s.len(),
            from < path.len(),
            steps == path_bytes(path@).skip(from as int),
            steps[0] == step@,
            steps.drop_first() == path_bytes(path@).skip(from + 1),
            member_select(s@, pos as int, steps, depth as nat) == member_select(
                s@,
                at as int,
                steps,
                depth as nat,
            ),
        decreases s.len() - at,
    {
        proof {
            lemma_member_select(s@, at as int, steps, depth as nat);
        }
        match scan_member(s, at) {
            None => {
                return None;
            },
            Some((key, v)) => {
                if bytes_eq(key.as_slice(), step) {
                    return select_value(s, v, path, from + 1, depth);
                }
                match scan_value(s, v, depth) {
                    None => {
                        return None;
                    },
                    Some(e) => {
                        let p = skip_ws(s, e);
                        if p < s.len() && s[p] == 44 {
                            let q = skip_ws(s, p + 1);
                            at = q;
                        } else {
                            return None;
                        }
                    },
                }
            },
        }
    }
}

fn select_item(s: &[u8], pos: usize, k: u32, path: &Vec<String>, from: usize, depth: usize) -> (r:
    Option<(usize, usize)>)
    requires
        pos <= s.len(),
        from <= path.len(),
    ensures
        (match r {
            Some((a, b)) => Some((a as int, b as int)),
            None => None,
        }) == item_select(
            s@,
            pos as int,
            k as nat,
            path_bytes(path@).skip(from as int),
            depth as nat,
        ),
        r matches Some((a, b)) ==> a < b <= s.len(),
    decreases path.len() - from + 1, s.len() - pos, 1nat,
{
    let ghost rest = path_bytes(path@).skip(from as int);
    let mut at: usize = pos;
    let mut left: u32 = k;
    loop
        invariant
            pos <= at <= s.len(),
            from <= path.len(),
            rest == path_bytes(path@).skip(from as int),
            item_select(s@, pos as int, k as nat, rest, depth as nat) == item_select(
                s@,
                at as int,
                left as nat,
                rest,
                depth as nat,
            ),
        decreases s.len() - at,
    {
        if left == 0 {
            return select_value(s, at, path, from, depth);
        }
        match scan_value(s, at, depth) {
            None => {
                return None;
            },
            Some(e) => {
                let p = skip_ws(s, e);
                if p < s.len() && s[p] == 44 {
                    let q = skip_ws(s, p + 1);
                    at = q;
                    left = left - 1;
                } else {
                    return None;
                }
            },
        }
    }
}

/// Takes from the JSON document `value` what `path` selects.
pub fn select_in_json(value: &[u8], path: &Vec<String>) -> (r: Result<Vec<u8>, SelectorError>)
    ensures
        (match r {
            Ok(v) => Ok(v@),
            Err(e) => Err(e),
        }) == select_json(value@, path_bytes(path@)),
{
    if !check_document(value) {
        return Err(SelectorError::InvalidContent);
    }
    let start = skip_ws(value, 0);
    assert(path_bytes(path@).skip(0) =~= path_bytes(path@));
    match select_value(value, start, path, 0, MAX_DEPTH) {
        None => Err(SelectorError::NoMatch),
        Some((a, b)) => {
            if value[a] == 34 {
                match scan_string(value, a + 1) {
                    Some((text, _)) => Ok(text),
                    None => Ok(copy_range(value, a, b)),
                }
            } else {
                Ok(copy_range(value, a, b))
            }
        },
    }
}

/// Takes from `value`, read by its content type, what `path` selects.
/// Without a content type there is nothing to select from.
pub fn select(value: &[u8], content_type: Option<ContentType>, path: &Vec<String>) -> (r: Result<
    Vec<u8>,
    SelectorError,
>)
    ensures
        (match r {
            Ok(v) => Ok(v@),
            Err(e) => Err(e),
        }) == selected(value@, content_type, path_bytes(path@)),
{
    match content_type {
        None => Err(SelectorError::NoContentType),
        Some(ContentType::Json) => select_in_json(value, path),
    }
}

} // verus!
