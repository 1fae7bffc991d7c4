//! Reading JSON text: where a value ends, and what a string holds.
//!
//! The grammar is that of RFC 8259, on bytes, with two limits: containers
//! nest at most `MAX_DEPTH` deep, and a `\u` escape may not name a surrogate.
//! Bytes from 0x80 on pass through strings unchanged.
//!
//! Bytes are written as numbers. Those that the grammar names: 34 `"`,
//! 43 `+`, 44 `,`, 45 `-`, 46 `.`, 47 `/`, 48 `0`, 58 `:`, 69 `E`, 91 `[`,
//! 92 `\`, 93 `]`, 98 `b`, 101 `e`, 102 `f`, 110 `n`, 114 `r`, 116 `t`,
//! 117 `u`, 123 `{`, 125 `}`.

use vstd::prelude::*;

verus! {

/// How deep arrays and objects may nest.
pub const MAX_DEPTH: usize = 64;

/// JSON whitespace: space, tab, line feed, carriage return.
pub open spec fn is_ws(b: u8) -> bool {
    b == 32 || b == 9 || b == 10 || b == 13
}

/// A decimal digit.
pub open spec fn is_digit(b: u8) -> bool {
    48 <= b && b <= 57
}

/// A hexadecimal digit, in either case.
pub open spec fn is_hex(b: u8) -> bool {
    is_digit(b) || (97 <= b && b <= 102) || (65 <= b && b <= 70)
}

/// The value of a hexadecimal digit.
pub open spec fn hex_val(b: u8) -> int {
    if is_digit(b) {
        b - 48
    } else if 97 <= b && b <= 102 {
        b - 87
    } else {
        b - 55
    }
}

/// The first index from `pos` on that holds no whitespace.
pub open spec fn ws(s: Seq<u8>, pos: int) -> int
    decreases s.len() - pos,
{
    if 0 <= pos < s.len() && is_ws(s[pos]) {
        ws(s, pos + 1)
    } else {
        pos
    }
}

/// The first index from `pos` on that holds no digit.
pub open spec fn digits_end(s: Seq<u8>, pos: int) -> int
    decreases s.len() - pos,
{
    if 0 <= pos < s.len() && is_digit(s[pos]) {
        digits_end(s, pos + 1)
    } else {
        pos
    }
}

/// The UTF-8 encoding of a code point below 0x10000.
pub open spec fn encode_code_point(cp: int) -> Seq<u8> {
    if cp < 0x80 {
        seq![cp as u8]
    } else if cp < 0x800 {
        seq![(0xC0 + cp / 64) as u8, (0x80 + cp % 64) as u8]
    } else {
        seq![(0xE0 + cp / 4096) as u8, (0x80 + (cp / 64) % 64) as u8, (0x80 + cp % 64) as u8]
    }
}

/// The escape whose first byte after the backslash is at `pos`: the bytes it
/// stands for and how many bytes it takes after the backslash.
pub open spec fn escape_at(s: Seq<u8>, pos: int) -> Option<(Seq<u8>, int)> {
    if pos < 0 || pos >= s.len() {
        None
    } else if s[pos] == 34 || s[pos] == 92 || s[pos] == 47 {
        Some((seq![s[pos]], 1))
    } else if s[pos] == 98 {
        Some((seq![8u8], 1))
    } else if s[pos] == 102 {
        Some((seq![12u8], 1))
    } else if s[pos] == 110 {
        Some((seq![10u8], 1))
    } else if s[pos] == 114 {
        Some((seq![13u8], 1))
    } else if s[pos] == 116 {
        Some((seq![9u8], 1))
    } else if s[pos] == 117 && pos + 5 <= s.len() && is_hex(s[pos + 1]) && is_hex(s[pos + 2])
        && is_hex(s[pos + 3]) && is_hex(s[pos + 4]) {
        let cp = hex_val(s[pos + 1]) * 4096 + hex_val(s[pos + 2]) * 256 + hex_val(s[pos + 3]) * 16
            + hex_val(s[pos + 4]);
        if 0xD800 <= cp && cp <= 0xDFFF {
            None
        } else {
            Some((encode_code_point(cp), 5))
        }
    } else {
        None
    }
}

/// `head` before the text of `rest`.
pub open spec fn text_after(head: Seq<u8>, rest: Option<(Seq<u8>, int)>) -> Option<
    (Seq<u8>, int),
> {
    match rest {
        Some((text, end)) => Some((head + text, end)),
        None => None,
    }
}

/// The string whose content starts at `pos`, just behind the opening quote:
/// the bytes it stands for and the index behind its closing quote.
pub open spec fn string_at(s: Seq<u8>, pos: int) -> Option<(Seq<u8>, int)>
    decreases s.len() - pos,
{
    if pos < 0 || pos >= s.len() {
        None
    } else if s[pos] == 34 {
        Some((Seq::empty(), pos + 1))
    } else if s[pos] == 92 {
        match escape_at(s, pos + 1) {
            Some((bytes, k)) => if 1 <= k && pos + 1 + k <= s.len() {
                text_after(bytes, string_at(s, pos + 1 + k))
            } else {
                None
            },
            None => None,
        }
    } else if s[pos] < 32 {
        None
    } else {
        text_after(seq![s[pos]], string_at(s, pos + 1))
    }
}

/// Where the number that starts at `pos` ends.
pub open spec fn number_end(s: Seq<u8>, pos: int) -> Option<int> {
    let n = s.len() as int;
    let digits = if 0 <= pos < n && s[pos] == 45 {
        pos + 1
    } else {
        pos
    };
    if digits < 0 || digits >= n || !is_digit(s[digits]) {
        None
    } else {
        let whole = if s[digits] == 48 {
            digits + 1
        } else {
            digits_end(s, digits)
        };
        let fraction = if 0 <= whole < n && s[whole] == 46 {
            if whole + 1 < n && is_digit(s[whole + 1]) {
                Some(digits_end(s, whole + 1))
            } else {
                None
            }
        } else {
            Some(whole)
        };
        match fraction {
            None => None,
            Some(frac) => if 0 <= frac < n && (s[frac] == 101 || s[frac] == 69) {
                let exp = if frac + 1 < n && (s[frac + 1] == 43 || s[frac + 1] == 45) {
                    frac + 2
                } else {
                    frac + 1
                };
                if 0 <= exp < n && is_digit(s[exp]) {
                    Some(digits_end(s, exp))
                } else {
                    None
                }
            } else {
                Some(frac)
            },
        }
    }
}

/// `s` holds the bytes `word` from `pos` on.
pub open spec fn has_word(s: Seq<u8>, pos: int, word: Seq<u8>) -> bool {
    0 <= pos && pos + word.len() <= s.len() && s.subrange(pos, pos + word.len()) == word
}

/// The bytes of `null`.
pub open spec fn word_null() -> Seq<u8> {
    seq![110u8, 117u8, 108u8, 108u8]
}

/// The bytes of `true`.
pub open spec fn word_true() -> Seq<u8> {
    seq![116u8, 114u8, 117u8, 101u8]
}

/// The bytes of `false`.
pub open spec fn word_false() -> Seq<u8> {
    seq![102u8, 97u8, 108u8, 115u8, 101u8]
}

/// Where the value that starts at `pos` ends, with `depth` levels of
/// nesting left.
pub open spec fn value_end(s: Seq<u8>, pos: int, depth: nat) -> Option<int>
    decreases depth, s.len() - pos, 0nat,
{
    if pos < 0 || pos >= s.len() {
        None
    } else if s[pos] == 34 {
        match string_at(s, pos + 1) {
            Some((_, end)) => Some(end),
            None => None,
        }
    } else if s[pos] == 123 {
        let p = ws(s, pos + 1);
        if depth == 0 {
            None
        } else if 0 <= p < s.len() && s[p] == 125 {
            Some(p + 1)
        } else {
            members_end(s, p, (depth - 1) as nat)
        }
    } else if s[pos] == 91 {
        let p = ws(s, pos + 1);
        if depth == 0 {
            None
        } else if 0 <= p < s.len() && s[p] == 93 {
            Some(p + 1)
        } else {
            items_end(s, p, (depth - 1) as nat)
        }
    } else if s[pos] == 110 {
        if has_word(s, pos, word_null()) {
            Some(pos + 4)
        } else {
            None
        }
    } else if s[pos] == 116 {
        if has_word(s, pos, word_true()) {
            Some(pos + 4)
        } else {
            None
        }
    } else if s[pos] == 102 {
        if has_word(s, pos, word_false()) {
            Some(pos + 5)
        } else {
            None
        }
    } else {
        number_end(s, pos)
    }
}

/// Where the array ends whose next item starts at `pos`.
pub open spec fn items_end(s: Seq<u8>, pos: int, depth: nat) -> Option<int>
    decreases depth, s.len() - pos, 1nat,
{
    match value_end(s, pos, depth) {
        None => None,
        Some(e) => {
            let p = ws(s, e);
            if p < 0 || p >= s.len() {
                None
            } else if s[p] == 93 {
                Some(p + 1)
            } else if s[p] == 44 {
                let q = ws(s, p + 1);
                if pos < q <= s.len() {
                    items_end(s, q, depth)
                } else {
                    None
                }
            } else {
                None
            }
        },
    }
}

/// The member whose key's opening quote is at `pos`: the key, and where the
/// member's value starts.
pub open spec fn member_at(s: Seq<u8>, pos: int) -> Option<(Seq<u8>, int)> {
    if pos < 0 || pos >= s.len() || s[pos] != 34 {
        None
    } else {
        match string_at(s, pos + 1) {
            None => None,
            Some((key, e)) => {
                let p = ws(s, e);
                if 0 <= p < s.len() && s[p] == 58 {
                    Some((key, ws(s, p + 1)))
                } else {
                    None
                }
            },
        }
    }
}

/// Where the object ends whose next member starts at `pos`.
pub open spec fn members_end(s: Seq<u8>, pos: int, depth: nat) -> Option<int>
    decreases depth, s.len() - pos, 1nat,
{
    match member_at(s, pos) {
        None => None,
        Some((_, v)) => if pos < v <= s.len() {
            match value_end(s, v, depth) {
                None => None,
                Some(e) => {
                    let p = ws(s, e);
                    if p < 0 || p >= s.len() {
                        None
                    } else if s[p] == 125 {
                        Some(p + 1)
                    } else if s[p] == 44 {
                        let q = ws(s, p + 1);
                        if pos < q <= s.len() {
                            members_end(s, q, depth)
                        } else {
                            None
                        }
                    } else {
                        None
                    }
                },
            }
        } else {
            None
        },
    }
}

/// The text is one JSON value, with nothing but whitespace around it.
pub open spec fn is_document(s: Seq<u8>) -> bool {
    match value_end(s, ws(s, 0), MAX_DEPTH as nat) {
        Some(e) => ws(s, e) == s.len(),
        None => false,
    }
}

proof fn lemma_ws(s: Seq<u8>, pos: int)
    requires
        0 <= pos <= s.len(),
    ensures
        pos <= ws(s, pos) <= s.len(),
        ws(s, pos) < s.len() ==> !is_ws(s[ws(s, pos)]),
    decreases s.len() - pos,
{
    if pos < s.len() && is_ws(s[pos]) {
        lemma_ws(s, pos + 1);
    }
}

proof fn lemma_digits_end(s: Seq<u8>, pos: int)
    requires
        0 <= pos <= s.len(),
    ensures
        pos <= digits_end(s, pos) <= s.len(),
    decreases s.len() - pos,
{
    if pos < s.len() && is_digit(s[pos]) {
        lemma_digits_end(s, pos + 1);
    }
}

proof fn lemma_string_at(s: Seq<u8>, pos: int)
    requires
        0 <= pos <= s.len(),
    ensures
        string_at(s, pos) matches Some((_, end)) ==> pos < end <= s.len(),
    decreases s.len() - pos,
{
    if pos < s.len() {
        if s[pos] == 34 {
        } else if s[pos] == 92 {
            match escape_at(s, pos + 1) {
                Some((bytes, k)) => {
                    if 1 <= k && pos + 1 + k <= s.len() {
                        lemma_string_at(s, pos + 1 + k);
                    }
                },
                None => {},
            }
        } else if s[pos] >= 32 {
            lemma_string_at(s, pos + 1);
        }
    }
}

proof fn lemma_number_end(s: Seq<u8>, pos: int)
    requires
        0 <= pos <= s.len(),
    ensures
        number_end(s, pos) matches Some(end) ==> pos < end <= s.len(),
{
    let n = s.len() as int;
    let digits = if pos < n && s[pos] == 45 {
        pos + 1
    } else {
        pos
    };
    if digits < n && is_digit(s[digits]) {
        lemma_digits_end(s, digits);
        let whole = if s[digits] == 48 {
            digits + 1
        } else {
            digits_end(s, digits)
        };
        if whole < n {
            lemma_digits_end(s, whole + 1);
        }
        let frac: int = if whole < n && s[whole] == 46 {
            digits_end(s, whole + 1)
        } else {
            whole
        };
        if 0 <= frac < n {
            let exp = if frac + 1 < n && (s[frac + 1] == 43 || s[frac + 1] == 45) {
                frac + 2
            } else {
                frac + 1
            };
            if exp <= n {
                lemma_digits_end(s, exp);
            }
        }
    }
}

proof fn lemma_member_at(s: Seq<u8>, pos: int)
    requires
        0 <= pos <= s.len(),
    ensures
        member_at(s, pos) matches Some((_, v)) ==> pos < v <= s.len(),
{
    if pos < s.len() && s[pos] == 34 {
        lemma_string_at(s, pos + 1);
        match string_at(s, pos + 1) {
            None => {},
            Some((key, e)) => {
                lemma_ws(s, e);
                let p = ws(s, e);
                if p < s.len() {
                    lemma_ws(s, p + 1);
                }
            },
        }
    }
}

/// A value ends behind where it starts, and inside the text.
pub proof fn lemma_value_end(s: Seq<u8>, pos: int, depth: nat)
    requires
        0 <= pos <= s.len(),
    ensures
        value_end(s, pos, depth) matches Some(end) ==> pos < end <= s.len(),
    decreases depth, s.len() - pos, 0nat,
{
    if pos < s.len() {
        if s[pos] == 34 {
            lemma_string_at(s, pos + 1);
        } else if s[pos] == 123 {
            lemma_ws(s, pos + 1);
            if depth > 0 {
                lemma_members_end(s, ws(s, pos + 1), (depth - 1) as nat);
            }
        } else if s[pos] == 91 {
            lemma_ws(s, pos + 1);
            if depth > 0 {
                lemma_items_end(s, ws(s, pos + 1), (depth - 1) as nat);
            }
        } else if s[pos] == 110 || s[pos] == 116 || s[pos] == 102 {
        } else {
            lemma_number_end(s, pos);
        }
    }
}

proof fn lemma_items_end(s: Seq<u8>, pos: int, depth: nat)
    requires
        0 <= pos <= s.len(),
    ensures
        items_end(s, pos, depth) matches Some(end) ==> pos < end <= s.len(),
    decreases depth, s.len() - pos, 1nat,
{
    lemma_value_end(s, pos, depth);
    match value_end(s, pos, depth) {
        None => {},
        Some(e) => {
            lemma_ws(s, e);
            let p = ws(s, e);
            if p < s.len() && s[p] == 44 {
                lemma_ws(s, p + 1);
                let q = ws(s, p + 1);
                if pos < q <= s.len() {
                    lemma_items_end(s, q, depth);
                }
            }
        },
    }
}

proof fn lemma_members_end(s: Seq<u8>, pos: int, depth: nat)
    requires
        0 <= pos <= s.len(),
    ensures
        members_end(s, pos, depth) matches Some(end) ==> pos < end <= s.len(),
    decreases depth, s.len() - pos, 1nat,
{
    lemma_member_at(s, pos);
    match member_at(s, pos) {
        None => {},
        Some((_, v)) => {
            if pos < v <= s.len() {
                lemma_value_end(s, v, depth);
                match value_end(s, v, depth) {
                    None => {},
                    Some(e) => {
                        lemma_ws(s, e);
                        let p = ws(s, e);
                        if p < s.len() && s[p] == 44 {
                            lemma_ws(s, p + 1);
                            let q = ws(s, p + 1);
                            if pos < q <= s.len() {
                                lemma_members_end(s, q, depth);
                            }
                        }
                    },
                }
            }
        },
    }
}

fn ws_byte(b: u8) -> (r: bool)
    ensures
        r == is_ws(b),
{
    b == 32 || b == 9 || b == 10 || b == 13
}

fn digit_byte(b: u8) -> (r: bool)
    ensures
        r == is_digit(b),
{
    48 <= b && b <= 57
}

fn hex_digit(b: u8) -> (r: Option<u32>)
    ensures
        r is Some <==> is_hex(b),
        r matches Some(v) ==> v == hex_val(b) && v < 16,
{
    if 48 <= b && b <= 57 {
        Some((b - 48) as u32)
    } else if 97 <= b && b <= 102 {
        Some((b - 87) as u32)
    } else if 65 <= b && b <= 70 {
        Some((b - 55) as u32)
    } else {
        None
    }
}

/// The first index from `pos` on that holds no whitespace.
pub fn skip_ws(s: &[u8], pos: usize) -> (r: usize)
    requires
        pos <= s.len(),
    ensures
        r == ws(s@, pos as int),
        pos <= r <= s.len(),
{
    let mut i: usize = pos;
    while i < s.len() && ws_byte(s[i])
        invariant
            pos <= i <= s.len(),
            ws(s@, pos as int) == ws(s@, i as int),
        decreases s.len() - i,
    {
        i += 1;
    }
    i
}

fn skip_digits(s: &[u8], pos: usize) -> (r: usize)
    requires
        pos <= s.len(),
    ensures
        r == digits_end(s@, pos as int),
        pos <= r <= s.len(),
{
    let mut i: usize = pos;
    while i < s.len() && digit_byte(s[i])
        invariant
            pos <= i <= s.len(),
            digits_end(s@, pos as int) == digits_end(s@, i as int),
        decreases s.len() - i,
    {
        i += 1;
    }
    i
}

fn push_code_point(out: &mut Vec<u8>, cp: u32)
    requires
        cp < 0x10000,
    ensures
        final(out)@ == old(out)@ + encode_code_point(cp as int),
{
    if cp < 0x80 {
        out.push(cp as u8);
    } else if cp < 0x800 {
        out.push((0xC0 + cp / 64) as u8);
        out.push((0x80 + cp % 64) as u8);
    } else {
        out.push((0xE0 + cp / 4096) as u8);
        out.push((0x80 + (cp / 64) % 64) as u8);
        out.push((0x80 + cp % 64) as u8);
    }
}

/// Appends what the escape at `pos` stands for; gives the number of bytes
/// the escape takes.
fn scan_escape(s: &[u8], pos: usize, out: &mut Vec<u8>) -> (r: Option<usize>)
    requires
        pos <= s.len(),
    ensures
        match r {
            Some(k) => escape_at(s@, pos as int) == Some((final(out)@.skip(old(out)@.len() as int), k as int))
                && final(out)@.subrange(0, old(out)@.len() as int) == old(out)@
                && final(out)@.len() >= old(out)@.len()
                && 1 <= k && pos + k <= s.len(),
            None => escape_at(s@, pos as int) is None,
        },
{
    if pos >= s.len() {
        return None;
    }
    let b = s[pos];
    let single: Option<u8> = if b == 34 || b == 92 || b == 47 {
        Some(b)
    } else if b == 98 {
        Some(8)
    } else if b == 102 {
        Some(12)
    } else if b == 110 {
        Some(10)
    } else if b == 114 {
        Some(13)
    } else if b == 116 {
        Some(9)
    } else {
        None
    };
    match single {
        Some(c) => {
            out.push(c);
            Some(1)
        },
        None => {
            if b != 117 || s.len() - pos < 5 {
                return None;
            }
            let h1 = hex_digit(s[pos + 1]);
            let h2 = hex_digit(s[pos + 2]);
            let h3 = hex_digit(s[pos + 3]);
            let h4 = hex_digit(s[pos + 4]);
            match (h1, h2, h3, h4) {
                (Some(a), Some(b2), Some(c), Some(d)) => {
                    let cp: u32 = a * 4096 + b2 * 256 + c * 16 + d;
                    if 0xD800 <= cp && cp <= 0xDFFF {
                        return None;
                    }
                    push_code_point(out, cp);
                    Some(5)
                },
                _ => None,
            }
        },
    }
}

/// Reads the string whose content starts at `pos`: the bytes it stands for
/// and the index behind its closing quote.
pub fn scan_string(s: &[u8], pos: usize) -> (r: Option<(Vec<u8>, usize)>)
    requires
        pos <= s.len(),
    ensures
        match r {
            Some((text, end)) => string_at(s@, pos as int) == Some((text@, end as int)) && pos
                < end <= s.len(),
            None => string_at(s@, pos as int) is None,
        },
{
    let mut text: Vec<u8> = Vec::new();
    let mut i: usize = pos;
    loop
        invariant
            pos <= i <= s.len(),
            string_at(s@, pos as int) == text_after(text@, string_at(s@, i as int)),
        decreases s.len() - i,
    {
        if i >= s.len() {
            return None;
        }
        let b = s[i];
        if b == 34 {
            return Some((text, i + 1));
        } else if b == 92 {
            match scan_escape(s, i + 1, &mut text) {
                None => {
                    return None;
                },
                Some(k) => {
                    i = i + 1 + k;
                },
            }
        } else if b < 32 {
            return None;
        } else {
            text.push(b);
            i += 1;
        }
    }
}

/// Where the number that starts at `pos` ends.
pub fn scan_number(s: &[u8], pos: usize) -> (r: Option<usize>)
    requires
        pos <= s.len(),
    ensures
        (match r {
            Some(e) => Some(e as int),
            None => None,
        }) == number_end(s@, pos as int),
        r matches Some(e) ==> pos < e <= s.len(),
{
    let n = s.len();
    proof {
        lemma_number_end(s@, pos as int);
    }
    let digits = if pos < n && s[pos] == 45 {
        pos + 1
    } else {
        pos
    };
    if digits >= n || !digit_byte(s[digits]) {
        return None;
    }
    let whole = if s[digits] == 48 {
        digits + 1
    } else {
        skip_digits(s, digits)
    };
    let frac = if whole < n && s[whole] == 46 {
        if whole + 1 < n && digit_byte(s[whole + 1]) {
            skip_digits(s, whole + 1)
        } else {
            return None;
        }
    } else {
        whole
    };
    if frac < n && (s[frac] == 101 || s[frac] == 69) {
        let exp = if frac + 1 < n && (s[frac + 1] == 43 || s[frac + 1] == 45) {
            frac + 2
        } else {
            frac + 1
        };
        if exp < n && digit_byte(s[exp]) {
            Some(skip_digits(s, exp))
        } else {
            None
        }
    } else {
        Some(frac)
    }
}

fn scan_word(s: &[u8], pos: usize, word: &[u8]) -> (r: bool)
    requires
        pos <= s.len(),
    ensures
        r == has_word(s@, pos as int, word@),
{
    if s.len() - pos < word.len() {
        return false;
    }
    let mut i: usize = 0;
    while i < word.len()
        invariant
            i <= word.len(),
            pos + word.len() <= s.len(),
            forall|j: int| 0 <= j < i ==> s@[pos + j] == word@[j],
        decreases word.len() - i,
    {
        if s[pos + i] != word[i] {
            return false;
        }
        i += 1;
    }
    assert(s@.subrange(pos as int, pos + word.len()) =~= word@);
    true
}

/// Reads the member whose key's opening quote is at `pos`: the key, and
/// where the member's value starts.
pub fn scan_member(s: &[u8], pos: usize) -> (r: Option<(Vec<u8>, usize)>)
    requires
        pos <= s.len(),
    ensures
        match r {
            Some((key, v)) => member_at(s@, pos as int) == Some((key@, v as int)) && pos < v
                <= s.len(),
            None => member_at(s@, pos as int) is None,
        },
{
    if pos >= s.len() || s[pos] != 34 {
        return None;
    }
    match scan_string(s, pos + 1) {
        None => None,
        Some((key, e)) => {
            let p = skip_ws(s, e);
            if p < s.len() && s[p] == 58 {
                let v = skip_ws(s, p + 1);
                Some((key, v))
            } else {
                None
            }
        },
    }
}

/// Where the value that starts at `pos` ends, with `depth` levels of
/// nesting left; `None` where no value of the grammar starts at `pos`.
pub fn scan_value(s: &[u8], pos: usize, depth: usize) -> (r: Option<usize>)
    requires
        pos <= s.len(),
    ensures
        (match r {
            Some(e) => Some(e as int),
            None => None,
        }) == value_end(s@, pos as int, depth as nat),
        r matches Some(e) ==> pos < e <= s.len(),
    decreases depth, 0nat,
{
    proof {
        lemma_value_end(s@, pos as int, depth as nat);
    }
    if pos >= s.len() {
        return None;
    }
    let b = s[pos];
    if b == 34 {
        match scan_string(s, pos + 1) {
            Some((_, end)) => Some(end),
            None => None,
        }
    } else if b == 123 {
        let p = skip_ws(s, pos + 1);
        if depth == 0 {
            None
        } else if p < s.len() && s[p] == 125 {
            Some(p + 1)
        } else {
            scan_members(s, p, depth - 1)
        }
    } else if b == 91 {
        let p = skip_ws(s, pos + 1);
        if depth == 0 {
            None
        } else if p < s.len() && s[p] == 93 {
            Some(p + 1)
        } else {
            scan_items(s, p, depth - 1)
        }
    } else if b == 110 {
        let word: [u8; 4] = [110, 117, 108, 108];
        if scan_word(s, pos, word.as_slice()) {
            Some(pos + 4)
        } else {
            None
        }
    } else if b == 116 {
        let word: [u8; 4] = [116, 114, 117, 101];
        if scan_word(s, pos, word.as_slice()) {
            Some(pos + 4)
        } else {
            None
        }
    } else if b == 102 {
        let word: [u8; 5] = [102, 97, 108, 115, 101];
        if scan_word(s, pos, word.as_slice()) {
            Some(pos + 5)
        } else {
            None
        }
    } else {
        scan_number(s, pos)
    }
}

fn scan_items(s: &[u8], pos: usize, depth: usize) -> (r: Option<usize>)
    requires
        pos <= s.len(),
        depth < usize::MAX,
    ensures
        (match r {
            Some(e) => Some(e as int),
            None => None,
        }) == items_end(s@, pos as int, depth as nat),
    decreases depth, 1nat,
{
    let mut at: usize = pos;
    loop
        invariant
            pos <= at <= s.len(),
            depth < usize::MAX,
            items_end(s@, pos as int, depth as nat) == items_end(s@, at as int, depth as nat),
        decreases s.len() - at,
    {
        match scan_value(s, at, depth) {
            None => {
                return None;
            },
            Some(e) => {
                let p = skip_ws(s, e);
                if p >= s.len() {
                    return None;
                } else if s[p] == 93 {
                    return Some(p + 1);
                } else if s[p] == 44 {
                    let q = skip_ws(s, p + 1);
                    at = q;
                } else {
                    return None;
                }
            },
        }
    }
}

fn scan_members(s: &[u8], pos: usize, depth: usize) -> (r: Option<usize>)
    requires
        pos <= s.len(),
        depth < usize::MAX,
    ensures
        (match r {
            Some(e) => Some(e as int),
            None => None,
        }) == members_end(s@, pos as int, depth as nat),
    decreases depth, 1nat,
{
    let mut at: usize = pos;
    loop
        invariant
            pos <= at <= s.len(),
            depth < usize::MAX,
            members_end(s@, pos as int, depth as nat) == members_end(s@, at as int, depth as nat),
        decreases s.len() - at,
    {
        match scan_member(s, at) {
            None => {
                return None;
            },
            Some((_, v)) => {
                match scan_value(s, v, depth) {
                    None => {
                        return None;
                    },
                    Some(e) => {
                        let p = skip_ws(s, e);
                        if p >= s.len() {
                            return None;
                        } else if s[p] == 125 {
                            return Some(p + 1);
                        } else if s[p] == 44 {
                            let q = skip_ws(s, p + 1);
                            at = q;
                        } else {
                            return None;
                        }
                    },
                }
            },
        }
    }
}

/// Whether the text is one JSON value with nothing but whitespace around it.
pub fn check_document(s: &[u8]) -> (r: bool)
    ensures
        r == is_document(s@),
{
    let start = skip_ws(s, 0);
    match scan_value(s, start, MAX_DEPTH) {
        Some(e) => skip_ws(s, e) == s.len(),
        None => false,
    }
}

} // verus!
