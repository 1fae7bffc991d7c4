//! Templates: literal text interleaved with references to chains.
//!
//! # Grammar
//!
//! A reference is written `{{key}}` or `{{key.field.path}}`. Everything
//! between `{{` and the next `}}` is the reference; it is split at every `.`
//! into names, each of which is a non-empty run of ASCII letters, digits, `_`
//! and `-`. The first name is the chain's id, the others form a field path
//! into the value the chain resolves to. Text outside references is literal
//! and kept as written; a single `{` or `}` is literal too. A `}}` outside a
//! reference and a `{{` inside one are refused as unbalanced.

use vstd::prelude::*;
use vstd::string::*;
use crate::text::to_chars;

verus! {

/// Why a template could not be parsed. Positions count characters from the
/// start of the template.
#[derive(Clone, Copy, Debug, PartialEq, Eq)]
pub enum ParseError {
    /// The `{{` at `position` is never closed.
    Unterminated { position: usize },
    /// A `}}` outside a reference or a `{{` inside one, at `position`.
    Unbalanced { position: usize },
    /// The reference whose content starts at `position` is not a dotted
    /// sequence of names.
    InvalidKey { position: usize },
}

/// A reference to a chain, with the field path to take from its value.
#[derive(Clone, Debug, PartialEq, Eq)]
pub struct KeyRef {
    pub chain: String,
    pub path: Vec<String>,
}

/// One piece of a template.
#[derive(Clone, Debug, PartialEq, Eq)]
pub enum Segment {
    Literal(String),
    Key(KeyRef),
}

/// A parsed template: its segments in the order in which they were written.
#[derive(Clone, Debug, PartialEq, Eq)]
pub struct Template {
    pub segments: Vec<Segment>,
}

/// A reference as contracts see it.
pub struct KeyView {
    pub chain: Seq<char>,
    pub path: Seq<Seq<char>>,
}

/// A segment as contracts see it.
pub enum SegmentView {
    Literal(Seq<char>),
    Key(KeyView),
}

/// The character sequences of a list of strings.
pub open spec fn strings_view(v: Seq<String>) -> Seq<Seq<char>> {
    v.map_values(|s: String| s@)
}

impl View for KeyRef {
    type V = KeyView;

    open spec fn view(&self) -> KeyView {
        KeyView { chain: self.chain@, path: strings_view(self.path@) }
    }
}

impl View for Segment {
    type V = SegmentView;

    open spec fn view(&self) -> SegmentView {
        match self {
            Segment::Literal(s) => SegmentView::Literal(s@),
            Segment::Key(k) => SegmentView::Key(k@),
        }
    }
}

impl View for Template {
    type V = Seq<SegmentView>;

    open spec fn view(&self) -> Seq<SegmentView> {
        self.segments@.map_values(|s: Segment| s@)
    }
}

/// The characters a name may be made of.
pub open spec fn is_name_char(c: char) -> bool {
    ('a' <= c && c <= 'z') || ('A' <= c && c <= 'Z') || ('0' <= c && c <= '9') || c == '_' || c
        == '-'
}

/// A non-empty run of name characters.
pub open spec fn is_name(s: Seq<char>) -> bool {
    s.len() > 0 && forall|i: int| 0 <= i < s.len() ==> is_name_char(#[trigger] s[i])
}

/// The first index in `[from, to)` at which `s` holds `sep`, or `to`.
pub open spec fn next_sep(s: Seq<char>, sep: char, from: int, to: int) -> int
    decreases to - from,
{
    if from >= to {
        to
    } else if s[from] == sep {
        from
    } else {
        next_sep(s, sep, from + 1, to)
    }
}

/// The pieces of `s[from..to]` between its dots.
pub open spec fn dotted_parts(s: Seq<char>, from: int, to: int) -> Seq<Seq<char>>
    decreases to - from,
{
    let e = next_sep(s, '.', from, to);
    if from <= e < to {
        seq![s.subrange(from, e)] + dotted_parts(s, e + 1, to)
    } else {
        seq![s.subrange(from, to)]
    }
}

/// The reference written as `s[from..to]`, if that is a dotted sequence of
/// names.
pub open spec fn key_of(s: Seq<char>, from: int, to: int) -> Option<KeyView> {
    let parts = dotted_parts(s, from, to);
    if forall|i: int| 0 <= i < parts.len() ==> is_name(#[trigger] parts[i]) {
        Some(KeyView { chain: parts[0], path: parts.skip(1) })
    } else {
        None
    }
}

/// The first index `i >= from` with `s[i] == s[i + 1] == c`, or `s.len()`.
pub open spec fn find_pair(s: Seq<char>, c: char, from: int) -> int
    decreases s.len() - from,
{
    if from < 0 || from + 1 >= s.len() {
        s.len() as int
    } else if s[from] == c && s[from + 1] == c {
        from
    } else {
        find_pair(s, c, from + 1)
    }
}

/// `done` followed by what `rest` holds, or the error of `rest`.
pub open spec fn after(done: Seq<SegmentView>, rest: Result<Seq<SegmentView>, ParseError>)
    -> Result<Seq<SegmentView>, ParseError> {
    match rest {
        Ok(r) => Ok(done + r),
        Err(e) => Err(e),
    }
}

/// The segments of `s` from `pos` on, or the first error met.
pub open spec fn parse_at(s: Seq<char>, pos: int) -> Result<Seq<SegmentView>, ParseError>
    decreases s.len() - pos,
{
    if pos < 0 || pos >= s.len() {
        Ok(Seq::empty())
    } else {
        let open = find_pair(s, '{', pos);
        let close = find_pair(s, '}', pos);
        if close < open {
            Err(ParseError::Unbalanced { position: close as usize })
        } else if pos < open <= s.len() {
            after(seq![SegmentView::Literal(s.subrange(pos, open))], parse_at(s, open))
        } else {
            let end = find_pair(s, '}', pos + 2);
            let nested = find_pair(s, '{', pos + 2);
            if end + 2 > s.len() || end < pos + 2 {
                Err(ParseError::Unterminated { position: pos as usize })
            } else if nested < end {
                Err(ParseError::Unbalanced { position: nested as usize })
            } else {
                match key_of(s, pos + 2, end) {
                    None => Err(ParseError::InvalidKey { position: (pos + 2) as usize }),
                    Some(k) => after(seq![SegmentView::Key(k)], parse_at(s, end + 2)),
                }
            }
        }
    }
}

/// What parsing the whole of `s` gives.
pub open spec fn parse_spec(s: Seq<char>) -> Result<Seq<SegmentView>, ParseError> {
    parse_at(s, 0)
}

/// Where `find_pair` points, there is a pair; it never points before `from`.
proof fn lemma_find_pair(s: Seq<char>, c: char, from: int)
    requires
        0 <= from <= s.len(),
    ensures
        from <= find_pair(s, c, from) <= s.len(),
        find_pair(s, c, from) < s.len() ==> {
            let r = find_pair(s, c, from);
            r + 1 < s.len() && s[r] == c && s[r + 1] == c
        },
    decreases s.len() - from,
{
    if from + 1 < s.len() && !(s[from] == c && s[from + 1] == c) {
        lemma_find_pair(s, c, from + 1);
    }
}

proof fn lemma_next_sep(s: Seq<char>, sep: char, from: int, to: int)
    requires
        0 <= from <= to <= s.len(),
    ensures
        from <= next_sep(s, sep, from, to) <= to,
        next_sep(s, sep, from, to) < to ==> s[next_sep(s, sep, from, to)] == sep,
    decreases to - from,
{
    if from < to && s[from] != sep {
        lemma_next_sep(s, sep, from + 1, to);
    }
}

fn scan_pair(chars: &Vec<char>, c: char, from: usize) -> (r: usize)
    requires
        from <= chars.len(),
    ensures
        r == find_pair(chars@, c, from as int),
        from <= r <= chars.len(),
{
    let n = chars.len();
    let mut i: usize = from;
    while i < n && i + 1 < n
        invariant
            from <= i <= n,
            n == chars.len(),
            find_pair(chars@, c, from as int) == find_pair(chars@, c, i as int),
        decreases n - i,
    {
        if chars[i] == c && chars[i + 1] == c {
            return i;
        }
        i += 1;
    }
    n
}

fn scan_sep(chars: &Vec<char>, sep: char, from: usize, to: usize) -> (r: usize)
    requires
        from <= to <= chars.len(),
    ensures
        r == next_sep(chars@, sep, from as int, to as int),
        from <= r <= to,
{
    let mut i: usize = from;
    while i < to
        invariant
            from <= i <= to <= chars.len(),
            next_sep(chars@, sep, from as int, to as int) == next_sep(
                chars@,
                sep,
                i as int,
                to as int,
            ),
        decreases to - i,
    {
        if chars[i] == sep {
            return i;
        }
        i += 1;
    }
    to
}

fn name_char(c: char) -> (r: bool)
    ensures
        r == is_name_char(c),
{
    ('a' <= c && c <= 'z') || ('A' <= c && c <= 'Z') || ('0' <= c && c <= '9') || c == '_' || c
        == '-'
}

fn check_name(chars: &Vec<char>, from: usize, to: usize) -> (r: bool)
    requires
        from <= to <= chars.len(),
    ensures
        r == is_name(chars@.subrange(from as int, to as int)),
{
    if from == to {
        return false;
    }
    let ghost sub = chars@.subrange(from as int, to as int);
    let mut i: usize = from;
    while i < to
        invariant
            from <= i <= to <= chars.len(),
            sub == chars@.subrange(from as int, to as int),
            forall|j: int| 0 <= j < i - from ==> is_name_char(#[trigger] sub[j]),
        decreases to - i,
    {
        if !name_char(chars[i]) {
            assert(!is_name_char(sub[i - from]));
            return false;
        }
        i += 1;
    }
    true
}

fn parse_key(raw: &str, chars: &Vec<char>, from: usize, to: usize) -> (r: Option<KeyRef>)
    requires
        chars@ == raw@,
        from <= to <= chars.len(),
    ensures
        (match r {
            Some(k) => Some(k@),
            None => None,
        }) == key_of(raw@, from as int, to as int),
{
    let ghost s = raw@;
    let ghost all = dotted_parts(s, from as int, to as int);
    let mut names: Vec<String> = Vec::new();
    let mut start: usize = from;
    loop
        invariant_except_break
            all == strings_view(names@) + dotted_parts(s, start as int, to as int),
        invariant
            chars@ == s,
            s == raw@,
            from <= start <= to <= chars.len(),
            all == dotted_parts(s, from as int, to as int),
            forall|i: int| 0 <= i < names@.len() ==> is_name(#[trigger] strings_view(names@)[i]),
        ensures
            all == strings_view(names@),
            names@.len() > 0,
            forall|i: int| 0 <= i < names@.len() ==> is_name(#[trigger] strings_view(names@)[i]),
        decreases to - start,
    {
        let e = scan_sep(chars, '.', start, to);
        let ghost part = s.subrange(start as int, e as int);
        if !check_name(chars, start, e) {
            proof {
                let k = names@.len() as int;
                assert(!is_name(all[k]));
            }
            return None;
        }
        let name = raw.substring_char(start, e).to_owned();
        let ghost before = names@;
        names.push(name);
        proof {
            assert(strings_view(names@) =~= strings_view(before).push(part));
        }
        if e < to {
            start = e + 1;
        } else {
            break ;
        }
    }
    let chain = names.remove(0);
    proof {
        assert(strings_view(names@) =~= all.skip(1));
    }
    Some(KeyRef { chain, path: names })
}

/// The view of a parse result.
pub open spec fn parsed_view(r: Result<Template, ParseError>) -> Result<
    Seq<SegmentView>,
    ParseError,
> {
    match r {
        Ok(t) => Ok(t@),
        Err(e) => Err(e),
    }
}

/// The names of `parts` with a dot between each two.
pub open spec fn dotted(parts: Seq<Seq<char>>) -> Seq<char>
    decreases parts.len(),
{
    if parts.len() == 0 {
        Seq::empty()
    } else if parts.len() == 1 {
        parts[0]
    } else {
        parts[0] + seq!['.'] + dotted(parts.drop_first())
    }
}

/// A segment as it is written in a template.
pub open spec fn segment_text(segment: SegmentView) -> Seq<char> {
    match segment {
        SegmentView::Literal(text) => text,
        SegmentView::Key(k) => seq!['{', '{'] + dotted(seq![k.chain] + k.path) + seq!['}', '}'],
    }
}

/// Segments as they are written in a template, one after the other.
pub open spec fn source_text(segments: Seq<SegmentView>) -> Seq<char>
    decreases segments.len(),
{
    if segments.len() == 0 {
        Seq::empty()
    } else {
        segment_text(segments[0]) + source_text(segments.drop_first())
    }
}

/// The position that an error names.
pub open spec fn error_position(e: ParseError) -> usize {
    match e {
        ParseError::Unterminated { position } => position,
        ParseError::Unbalanced { position } => position,
        ParseError::InvalidKey { position } => position,
    }
}

proof fn lemma_dotted_parts(s: Seq<char>, from: int, to: int)
    requires
        0 <= from <= to <= s.len(),
    ensures
        dotted_parts(s, from, to).len() >= 1,
        dotted(dotted_parts(s, from, to)) == s.subrange(from, to),
    decreases to - from,
{
    lemma_next_sep(s, '.', from, to);
    let e = next_sep(s, '.', from, to);
    if from <= e < to {
        lemma_dotted_parts(s, e + 1, to);
        let rest = dotted_parts(s, e + 1, to);
        let parts = seq![s.subrange(from, e)] + rest;
        assert(parts.drop_first() =~= rest);
    }
}

proof fn lemma_source_text(s: Seq<char>, pos: int)
    requires
        0 <= pos <= s.len(),
    ensures
        parse_at(s, pos) matches Ok(segments) ==> source_text(segments) == s.subrange(
            pos,
            s.len() as int,
        ),
    decreases s.len() - pos,
{
    let n = s.len() as int;
    if pos < n {
        lemma_find_pair(s, '{', pos);
        lemma_find_pair(s, '}', pos);
        let open = find_pair(s, '{', pos);
        let close = find_pair(s, '}', pos);
        if close < open {
        } else if pos < open <= n {
            lemma_source_text(s, open);
            match parse_at(s, open) {
                Ok(rest) => {
                    let head = SegmentView::Literal(s.subrange(pos, open));
                    let all = seq![head] + rest;
                    assert(all.drop_first() =~= rest);
                },
                Err(_) => {},
            }
        } else {
            lemma_find_pair(s, '}', pos + 2);
            let end = find_pair(s, '}', pos + 2);
            let nested = find_pair(s, '{', pos + 2);
            if end + 2 > n || end < pos + 2 || nested < end {
            } else {
                lemma_dotted_parts(s, pos + 2, end);
                match key_of(s, pos + 2, end) {
                    None => {},
                    Some(k) => {
                        lemma_source_text(s, end + 2);
                        match parse_at(s, end + 2) {
                            Ok(rest) => {
                                let head = SegmentView::Key(k);
                                let all = seq![head] + rest;
                                let parts = dotted_parts(s, pos + 2, end);
                                assert(all.drop_first() =~= rest);
                                assert(seq![k.chain] + k.path =~= parts);
                            },
                            Err(_) => {},
                        }
                    },
                }
            }
        }
    }
}

/// Writing out the segments of a parsed template gives the text that was
/// parsed: nothing is lost, added or reordered.
pub proof fn lemma_parse_keeps_text(s: Seq<char>)
    ensures
        parse_spec(s) matches Ok(segments) ==> source_text(segments) == s,
{
    lemma_source_text(s, 0);
}

proof fn lemma_error_position(s: Seq<char>, pos: int)
    requires
        0 <= pos <= s.len() <= usize::MAX,
    ensures
        parse_at(s, pos) matches Err(e) ==> pos <= error_position(e) < s.len(),
    decreases s.len() - pos,
{
    let n = s.len() as int;
    if pos < n {
        lemma_find_pair(s, '{', pos);
        lemma_find_pair(s, '}', pos);
        let open = find_pair(s, '{', pos);
        let close = find_pair(s, '}', pos);
        if close < open {
        } else if pos < open <= n {
            lemma_error_position(s, open);
        } else {
            lemma_find_pair(s, '}', pos + 2);
            lemma_find_pair(s, '{', pos + 2);
            let end = find_pair(s, '}', pos + 2);
            let nested = find_pair(s, '{', pos + 2);
            if end + 2 > n || end < pos + 2 || nested < end {
            } else {
                match key_of(s, pos + 2, end) {
                    None => {},
                    Some(k) => {
                        lemma_error_position(s, end + 2);
                    },
                }
            }
        }
    }
}

/// An error names a position inside the template.
pub proof fn lemma_error_in_text(s: Seq<char>)
    requires
        s.len() <= usize::MAX,
    ensures
        parse_spec(s) matches Err(e) ==> error_position(e) < s.len(),
{
    lemma_error_position(s, 0);
}

/// Every reference of a parsed template is made of names.
pub proof fn lemma_parsed_keys(s: Seq<char>, from: int, to: int)
    ensures
        key_of(s, from, to) matches Some(k) ==> is_name(k.chain) && forall|i: int|
            0 <= i < k.path.len() ==> is_name(#[trigger] k.path[i]),
{
    let parts = dotted_parts(s, from, to);
    if key_of(s, from, to) is Some {
        assert(parts.len() >= 1) by {
            reveal_with_fuel(dotted_parts, 1);
        }
        assert forall|i: int| 0 <= i < parts.skip(1).len() implies is_name(
            #[trigger] parts.skip(1)[i],
        ) by {
        }
    }
}

/// Neither `{` nor `}` occurs in `s`.
pub open spec fn no_braces(s: Seq<char>) -> bool {
    forall|i: int| 0 <= i < s.len() ==> #[trigger] s[i] != '{' && s[i] != '}'
}

proof fn lemma_no_pair(s: Seq<char>, c: char, from: int)
    requires
        0 <= from <= s.len(),
        forall|i: int| from <= i < s.len() ==> #[trigger] s[i] != c,
    ensures
        find_pair(s, c, from) == s.len(),
    decreases s.len() - from,
{
    if from + 1 < s.len() {
        lemma_no_pair(s, c, from + 1);
    }
}

/// Text without braces is one literal.
pub proof fn lemma_plain_text(s: Seq<char>)
    requires
        s.len() > 0,
        no_braces(s),
    ensures
        parse_spec(s) == Ok::<Seq<SegmentView>, ParseError>(seq![SegmentView::Literal(s)]),
{
    lemma_no_pair(s, '{', 0);
    lemma_no_pair(s, '}', 0);
    assert(s.subrange(0, s.len() as int) =~= s);
    assert(parse_at(s, 0) == after(
        seq![SegmentView::Literal(s.subrange(0, s.len() as int))],
        parse_at(s, s.len() as int),
    ));
}

impl Template {
    /// The template that is the one literal `text`. Where `text` holds no
    /// brace, this is what parsing `text` gives.
    pub fn literal(text: &str) -> (t: Template)
        ensures
            t@ == seq![SegmentView::Literal(text@)],
            text@.len() > 0 && no_braces(text@) ==> parse_spec(text@) == Ok::<
                Seq<SegmentView>,
                ParseError,
            >(t@),
    {
        let mut segments: Vec<Segment> = Vec::new();
        segments.push(Segment::Literal(text.to_owned()));
        proof {
            assert(segments@.map_values(|x: Segment| x@) =~= seq![SegmentView::Literal(text@)]);
            if text@.len() > 0 && no_braces(text@) {
                lemma_plain_text(text@);
            }
        }
        Template { segments }
    }

    /// Parses a template. Literal text is kept character for character and
    /// the segments come out in the order in which they were written; the
    /// first offence against the grammar is reported with its position.
    pub fn parse(raw: &str) -> (r: Result<Template, ParseError>)
        ensures
            parsed_view(r) == parse_spec(raw@),
    {
        let chars = to_chars(raw);
        let n = chars.len();
        let ghost s = raw@;
        let mut segments: Vec<Segment> = Vec::new();
        let mut pos: usize = 0;
        while pos < n
            invariant
                chars@ == s,
                s == raw@,
                n == chars.len(),
                pos <= n,
                parse_spec(s) == after(
                    segments@.map_values(|x: Segment| x@),
                    parse_at(s, pos as int),
                ),
            decreases n - pos,
        {
            let ghost done = segments@.map_values(|x: Segment| x@);
            let open = scan_pair(&chars, '{', pos);
            let close = scan_pair(&chars, '}', pos);
            proof {
                lemma_find_pair(s, '{', pos as int);
                lemma_find_pair(s, '}', pos as int);
            }
            if close < open {
                return Err(ParseError::Unbalanced { position: close });
            }
            if open > pos {
                let lit = raw.substring_char(pos, open).to_owned();
                let ghost seg = SegmentView::Literal(s.subrange(pos as int, open as int));
                segments.push(Segment::Literal(lit));
                proof {
                    assert(segments@.map_values(|x: Segment| x@) =~= done.push(seg));
                    let rest = parse_at(s, open as int);
                    match rest {
                        Ok(r) => {
                            assert(done.push(seg) + r =~= done + (seq![seg] + r));
                        },
                        Err(_) => {},
                    }
                }
                pos = open;
            } else {
                proof {
                    lemma_find_pair(s, '}', pos + 2);
                    lemma_find_pair(s, '{', pos + 2);
                }
                let end = scan_pair(&chars, '}', pos + 2);
                let nested = scan_pair(&chars, '{', pos + 2);
                if end >= n {
                    return Err(ParseError::Unterminated { position: pos });
                }
                if nested < end {
                    return Err(ParseError::Unbalanced { position: nested });
                }
                match parse_key(raw, &chars, pos + 2, end) {
                    None => {
                        return Err(ParseError::InvalidKey { position: pos + 2 });
                    },
                    Some(k) => {
                        let ghost seg = SegmentView::Key(k@);
                        segments.push(Segment::Key(k));
                        proof {
                            assert(segments@.map_values(|x: Segment| x@) =~= done.push(seg));
                            let rest = parse_at(s, end + 2);
                            match rest {
                                Ok(r) => {
                                    assert(done.push(seg) + r =~= done + (seq![seg] + r));
                                },
                                Err(_) => {},
                            }
                        }
                        pos = end + 2;
                    },
                }
            }
        }
        Ok(Template { segments })
    }
}

} // verus!
