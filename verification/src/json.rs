//! Reading a JSON object into a parameter bag.
//!
//! The grammar is that of JSON. Of a document only the members of its
//! outermost object are kept, each as a dynamically typed value: strings,
//! booleans, `null`, and integers that fit in 64 bits keep their value; a
//! fraction, a larger integer, a list or a nested object is checked for its
//! form and kept as [`DynValue::Other`].

use vstd::prelude::*;
use crate::text::{is_scalar, to_chars};
use crate::value::{bindings_map, DynValue, DynView, RawParameters};

verus! {

/// How deep lists and objects may be nested inside the outermost object.
pub const MAX_DEPTH: usize = 64;

pub open spec fn is_space(c: char) -> bool {
    c == ' ' || c == '\t' || c == '\n' || c == '\r'
}

pub open spec fn is_digit(c: char) -> bool {
    '0' <= c <= '9'
}

/// The first position from `i` on that holds no white space.
pub open spec fn skip_space(s: Seq<char>, i: int) -> int
    decreases s.len() - i,
{
    if 0 <= i < s.len() && is_space(s[i]) {
        skip_space(s, i + 1)
    } else {
        i
    }
}

/// The first position from `i` on that holds no decimal digit.
pub open spec fn digits_end(s: Seq<char>, i: int) -> int
    decreases s.len() - i,
{
    if 0 <= i < s.len() && is_digit(s[i]) {
        digits_end(s, i + 1)
    } else {
        i
    }
}

/// The number that a sequence of decimal digits denotes.
pub open spec fn digits_value(d: Seq<char>) -> int
    decreases d.len(),
{
    if d.len() == 0 {
        0
    } else {
        digits_value(d.drop_last()) * 10 + (d.last() as u32 - 48)
    }
}

/// The value of a hexadecimal digit.
pub open spec fn hex_value(c: char) -> Option<int> {
    if '0' <= c <= '9' {
        Some(c as u32 - 48)
    } else if 'a' <= c <= 'f' {
        Some(c as u32 - 87)
    } else if 'A' <= c <= 'F' {
        Some(c as u32 - 55)
    } else {
        None
    }
}

/// The number that the four hexadecimal digits at `i` denote.
pub open spec fn hex4(s: Seq<char>, i: int) -> Option<int> {
    if 0 <= i && i + 4 <= s.len() && hex_value(s[i]) is Some && hex_value(s[i + 1]) is Some
        && hex_value(s[i + 2]) is Some && hex_value(s[i + 3]) is Some {
        Some(
            ((hex_value(s[i])->Some_0 * 16 + hex_value(s[i + 1])->Some_0) * 16 + hex_value(
                s[i + 2],
            )->Some_0) * 16 + hex_value(s[i + 3])->Some_0,
        )
    } else {
        None
    }
}

/// The character with the code `code`.
pub open spec fn char_of(code: int) -> char {
    code as u32 as char
}

/// The character that the digits after `\u` at `i` denote, and where the
/// escape ends. A code from D800 to DBFF is the first half of a pair and
/// must be followed by a second `\u` escape from DC00 to DFFF.
pub open spec fn unicode_escape(s: Seq<char>, i: int) -> Option<(char, int)> {
    match hex4(s, i) {
        None => None,
        Some(first) => if 0xD800 <= first < 0xDC00 {
            if i + 6 <= s.len() && s[i + 4] == '\\' && s[i + 5] == 'u' {
                match hex4(s, i + 6) {
                    Some(second) => if 0xDC00 <= second < 0xE000 {
                        Some(
                            (
                                char_of(0x10000 + (first - 0xD800) * 0x400 + (second - 0xDC00)),
                                i + 10,
                            ),
                        )
                    } else {
                        None
                    },
                    None => None,
                }
            } else {
                None
            }
        } else if 0xDC00 <= first < 0xE000 {
            None
        } else {
            Some((char_of(first), i + 4))
        },
    }
}

/// The character that the escape after a backslash denotes, `i` being the
/// position after the backslash, and where the escape ends.
pub open spec fn escape(s: Seq<char>, i: int) -> Option<(char, int)> {
    if !(0 <= i < s.len()) {
        None
    } else if s[i] == '"' || s[i] == '\\' || s[i] == '/' {
        Some((s[i], i + 1))
    } else if s[i] == 'b' {
        Some(('\u{8}', i + 1))
    } else if s[i] == 'f' {
        Some(('\u{c}', i + 1))
    } else if s[i] == 'n' {
        Some(('\n', i + 1))
    } else if s[i] == 'r' {
        Some(('\r', i + 1))
    } else if s[i] == 't' {
        Some(('\t', i + 1))
    } else if s[i] == 'u' {
        unicode_escape(s, i + 1)
    } else {
        None
    }
}

/// `rest` with the characters `acc` put in front of its text.
pub open spec fn prefixed(acc: Seq<char>, rest: Option<(Seq<char>, int)>) -> Option<
    (Seq<char>, int),
> {
    match rest {
        Some((t, k)) => Some((acc + t, k)),
        None => None,
    }
}

/// The text of a string from `i`, a position after its opening quote, up to
/// its closing quote, and the position after that quote.
pub open spec fn string_body(s: Seq<char>, i: int) -> Option<(Seq<char>, int)>
    decreases s.len() - i,
{
    if !(0 <= i < s.len()) {
        None
    } else if s[i] == '"' {
        Some((Seq::empty(), i + 1))
    } else if s[i] == '\\' {
        match escape(s, i + 1) {
            Some((c, j)) => prefixed(seq![c], string_body(s, j)),
            None => None,
        }
    } else if (s[i] as u32) < 0x20 {
        None
    } else {
        prefixed(seq![s[i]], string_body(s, i + 1))
    }
}

/// The text of the string that starts at `i`, and where the string ends.
pub open spec fn string_at(s: Seq<char>, i: int) -> Option<(Seq<char>, int)> {
    if 0 <= i < s.len() && s[i] == '"' {
        string_body(s, i + 1)
    } else {
        None
    }
}

/// The value of the number that starts at `i`, and where the number ends.
/// An integer that fits in 64 bits keeps its value.
pub open spec fn number_at(s: Seq<char>, i: int) -> Option<(DynView, int)> {
    let negative = 0 <= i < s.len() && s[i] == '-';
    let a = if negative { i + 1 } else { i };
    let b = digits_end(s, a);
    let fraction = 0 <= b < s.len() && s[b] == '.';
    let c = if fraction { digits_end(s, b + 1) } else { b };
    let exponent = 0 <= c < s.len() && (s[c] == 'e' || s[c] == 'E');
    let signed = exponent && c + 1 < s.len() && (s[c + 1] == '+' || s[c + 1] == '-');
    let d = if signed { c + 2 } else { c + 1 };
    let e = if exponent { digits_end(s, d) } else { c };
    let magnitude = digits_value(s.subrange(a, b));
    let v = if negative { -magnitude } else { magnitude };
    if i < 0 || b == a || (b > a + 1 && s[a] == '0') {
        None
    } else if (fraction && c == b + 1) || (exponent && e == d) {
        None
    } else if fraction || exponent || v < i64::MIN || v > i64::MAX {
        Some((DynView::Other, e))
    } else {
        Some((DynView::Int(v), e))
    }
}

/// Whether the characters of `word` stand at `i`.
pub open spec fn word_at(s: Seq<char>, i: int, word: Seq<char>) -> bool {
    0 <= i && i + word.len() <= s.len() && s.subrange(i, i + word.len()) == word
}

/// `rest` with the member `m` put in front.
pub open spec fn with_member(
    m: (Seq<char>, DynView),
    rest: Option<(Seq<(Seq<char>, DynView)>, int)>,
) -> Option<(Seq<(Seq<char>, DynView)>, int)> {
    match rest {
        Some((ms, k)) => Some((seq![m] + ms, k)),
        None => None,
    }
}

/// The value that starts at `i`, and where it ends. Lists and objects may be
/// nested `depth` deep.
pub open spec fn value_at(s: Seq<char>, i: int, depth: nat) -> Option<(DynView, int)>
    decreases 3 * depth + 1, s.len() - i,
{
    if !(0 <= i < s.len()) {
        None
    } else if s[i] == '"' {
        match string_at(s, i) {
            Some((t, k)) => Some((DynView::Str(t), k)),
            None => None,
        }
    } else if s[i] == 't' {
        if word_at(s, i, seq!['t', 'r', 'u', 'e']) {
            Some((DynView::Bool(true), i + 4))
        } else {
            None
        }
    } else if s[i] == 'f' {
        if word_at(s, i, seq!['f', 'a', 'l', 's', 'e']) {
            Some((DynView::Bool(false), i + 5))
        } else {
            None
        }
    } else if s[i] == 'n' {
        if word_at(s, i, seq!['n', 'u', 'l', 'l']) {
            Some((DynView::Null, i + 4))
        } else {
            None
        }
    } else if s[i] == '[' {
        let j = skip_space(s, i + 1);
        if depth == 0 {
            None
        } else if 0 <= j < s.len() && s[j] == ']' {
            Some((DynView::Other, j + 1))
        } else {
            match elements_end(s, j, (depth - 1) as nat) {
                Some(k) => Some((DynView::Other, k)),
                None => None,
            }
        }
    } else if s[i] == '{' {
        match object_at(s, i, depth) {
            Some((_, k)) => Some((DynView::Other, k)),
            None => None,
        }
    } else {
        number_at(s, i)
    }
}

/// Where the list ends whose next element starts at `i`.
pub open spec fn elements_end(s: Seq<char>, i: int, depth: nat) -> Option<int>
    decreases 3 * depth + 2, s.len() - i,
{
    match value_at(s, i, depth) {
        None => None,
        Some((_, k)) => {
            let k1 = skip_space(s, k);
            if !(0 <= k1 < s.len()) {
                None
            } else if s[k1] == ']' {
                Some(k1 + 1)
            } else if s[k1] == ',' {
                let next = skip_space(s, k1 + 1);
                if i < next <= s.len() {
                    elements_end(s, next, depth)
                } else {
                    None
                }
            } else {
                None
            }
        },
    }
}

/// The members of the object whose next member starts at `i`, in their
/// order, and where the object ends.
pub open spec fn members_at(s: Seq<char>, i: int, depth: nat) -> Option<
    (Seq<(Seq<char>, DynView)>, int),
>
    decreases 3 * depth + 2, s.len() - i,
{
    match string_at(s, i) {
        None => None,
        Some((name, k)) => {
            let k1 = skip_space(s, k);
            if !(0 <= k1 < s.len() && s[k1] == ':') {
                None
            } else {
                match value_at(s, skip_space(s, k1 + 1), depth) {
                    None => None,
                    Some((v, k2)) => {
                        let k3 = skip_space(s, k2);
                        if !(0 <= k3 < s.len()) {
                            None
                        } else if s[k3] == '}' {
                            Some((seq![(name, v)], k3 + 1))
                        } else if s[k3] == ',' {
                            let next = skip_space(s, k3 + 1);
                            if i < next <= s.len() {
                                with_member((name, v), members_at(s, next, depth))
                            } else {
                                None
                            }
                        } else {
                            None
                        }
                    },
                }
            }
        },
    }
}

/// The members of the object that starts at `i`, and where it ends.
pub open spec fn object_at(s: Seq<char>, i: int, depth: nat) -> Option<
    (Seq<(Seq<char>, DynView)>, int),
>
    decreases 3 * depth, s.len() - i,
{
    let j = skip_space(s, i + 1);
    if !(0 <= i < s.len() && s[i] == '{') || depth == 0 {
        None
    } else if 0 <= j < s.len() && s[j] == '}' {
        Some((Seq::empty(), j + 1))
    } else {
        members_at(s, j, (depth - 1) as nat)
    }
}

/// The members of the object that `s` holds, in their order, where `s` is
/// one JSON object with nothing but white space around it.
pub open spec fn document_members(s: Seq<char>) -> Option<Seq<(Seq<char>, DynView)>> {
    match object_at(s, skip_space(s, 0), (MAX_DEPTH + 1) as nat) {
        Some((ms, k)) => if skip_space(s, k) == s.len() {
            Some(ms)
        } else {
            None
        },
        None => None,
    }
}

/// The mapping that the JSON object `s` denotes. Of two members with the
/// same name the later one counts.
pub open spec fn document_map(s: Seq<char>) -> Option<Map<Seq<char>, DynView>> {
    match document_members(s) {
        Some(ms) => Some(bindings_map(ms)),
        None => None,
    }
}


/// `rest` with the members `acc` put in front.
pub open spec fn with_members(
    acc: Seq<(Seq<char>, DynView)>,
    rest: Option<(Seq<(Seq<char>, DynView)>, int)>,
) -> Option<(Seq<(Seq<char>, DynView)>, int)> {
    match rest {
        Some((ms, k)) => Some((acc + ms, k)),
        None => None,
    }
}

proof fn lemma_prefixed_empty(rest: Option<(Seq<char>, int)>)
    ensures
        prefixed(Seq::empty(), rest) == rest,
{
    if let Some((t, k)) = rest {
        assert(Seq::<char>::empty() + t =~= t);
    }
}

proof fn lemma_with_members_empty(rest: Option<(Seq<(Seq<char>, DynView)>, int)>)
    ensures
        with_members(Seq::empty(), rest) == rest,
{
    if let Some((ms, k)) = rest {
        assert(Seq::<(Seq<char>, DynView)>::empty() + ms =~= ms);
    }
}

proof fn lemma_prefixed_push(acc: Seq<char>, c: char, rest: Option<(Seq<char>, int)>)
    ensures
        prefixed(acc, prefixed(seq![c], rest)) == prefixed(acc.push(c), rest),
{
    if let Some((t, k)) = rest {
        assert(acc + (seq![c] + t) =~= acc.push(c) + t);
    }
}

proof fn lemma_with_members_push(
    acc: Seq<(Seq<char>, DynView)>,
    m: (Seq<char>, DynView),
    rest: Option<(Seq<(Seq<char>, DynView)>, int)>,
)
    ensures
        with_members(acc, with_member(m, rest)) == with_members(acc.push(m), rest),
{
    if let Some((ms, k)) = rest {
        assert(acc + (seq![m] + ms) =~= acc.push(m) + ms);
    }
}

proof fn lemma_digits_value_grows(s: Seq<char>, a: int, k: int, b: int)
    requires
        0 <= a <= k <= b <= s.len(),
        forall|j: int| a <= j < b ==> is_digit(#[trigger] s[j]),
    ensures
        0 <= digits_value(s.subrange(a, k)) <= digits_value(s.subrange(a, b)),
    decreases b - a,
{
    if a < b {
        assert(s.subrange(a, b).drop_last() =~= s.subrange(a, b - 1));
        assert(s.subrange(a, b).last() == s[b - 1]);
        if k < b {
            lemma_digits_value_grows(s, a, k, b - 1);
        } else {
            lemma_digits_value_grows(s, a, a, b - 1);
        }
    }
    if a < k {
        assert(s.subrange(a, k).drop_last() =~= s.subrange(a, k - 1));
        assert(s.subrange(a, k).last() == s[k - 1]);
        lemma_digits_value_grows(s, a, a, k - 1);
    }
}

fn space(c: char) -> (r: bool)
    ensures
        r == is_space(c),
{
    c == ' ' || c == '\t' || c == '\n' || c == '\r'
}

fn skip_space_from(chars: &Vec<char>, start: usize) -> (r: usize)
    requires
        start <= chars.len(),
    ensures
        r == skip_space(chars@, start as int),
        start <= r <= chars.len(),
{
    let mut i = start;
    while i < chars.len() && space(chars[i])
        invariant
            start <= i <= chars.len(),
            skip_space(chars@, start as int) == skip_space(chars@, i as int),
        decreases chars.len() - i,
    {
        i = i + 1;
    }
    i
}

fn scan_digits(chars: &Vec<char>, start: usize) -> (r: usize)
    requires
        start <= chars.len(),
    ensures
        r == digits_end(chars@, start as int),
        start <= r <= chars.len(),
        forall|j: int| start <= j < r ==> is_digit(#[trigger] chars@[j]),
{
    let mut i = start;
    while i < chars.len() && '0' <= chars[i] && chars[i] <= '9'
        invariant
            start <= i <= chars.len(),
            digits_end(chars@, start as int) == digits_end(chars@, i as int),
            forall|j: int| start <= j < i ==> is_digit(#[trigger] chars@[j]),
        decreases chars.len() - i,
    {
        i = i + 1;
    }
    i
}

/// The number that the digits from `a` to `b` denote, up to 2^63.
fn magnitude(chars: &Vec<char>, a: usize, b: usize) -> (r: Option<u64>)
    requires
        a <= b <= chars.len(),
        forall|j: int| a <= j < b ==> is_digit(#[trigger] chars@[j]),
    ensures
        match r {
            Some(m) => m == digits_value(chars@.subrange(a as int, b as int)) && m
                <= 0x8000_0000_0000_0000,
            None => digits_value(chars@.subrange(a as int, b as int)) > 0x8000_0000_0000_0000,
        },
{
    let mut acc: u64 = 0;
    let mut i = a;
    assert(chars@.subrange(a as int, a as int) =~= Seq::empty());
    while i < b
        invariant
            a <= i <= b <= chars.len(),
            forall|j: int| a <= j < b ==> is_digit(#[trigger] chars@[j]),
            acc == digits_value(chars@.subrange(a as int, i as int)),
            acc <= 0x8000_0000_0000_0000,
        decreases b - i,
    {
        assert(is_digit(chars@[i as int]));
        let d: u64 = (chars[i] as u32 - 48) as u64;
        proof {
            assert(chars@.subrange(a as int, i + 1).drop_last() =~= chars@.subrange(
                a as int,
                i as int,
            ));
            assert(chars@.subrange(a as int, i + 1).last() == chars@[i as int]);
        }
        if acc > (0x8000_0000_0000_0000 - d) / 10 {
            proof {
                lemma_digits_value_grows(chars@, a as int, i + 1, b as int);
            }
            return None;
        }
        acc = acc * 10 + d;
        i = i + 1;
    }
    Some(acc)
}

fn read_number(chars: &Vec<char>, i: usize) -> (r: Option<(DynValue, usize)>)
    requires
        i < chars.len(),
    ensures
        match r {
            Some((v, k)) => number_at(chars@, i as int) == Some((v@, k as int)) && i < k
                <= chars.len(),
            None => number_at(chars@, i as int) is None,
        },
{
    let n = chars.len();
    let negative = chars[i] == '-';
    let a = if negative { i + 1 } else { i };
    let b = scan_digits(chars, a);
    if b == a || (b > a + 1 && chars[a] == '0') {
        return None;
    }
    let fraction = b < n && chars[b] == '.';
    let c = if fraction { scan_digits(chars, b + 1) } else { b };
    if fraction && c == b + 1 {
        return None;
    }
    let exponent = c < n && (chars[c] == 'e' || chars[c] == 'E');
    if exponent {
        let signed = c + 1 < n && (chars[c + 1] == '+' || chars[c + 1] == '-');
        let d = if signed { c + 2 } else { c + 1 };
        let e = scan_digits(chars, d);
        if e == d {
            return None;
        }
        return Some((DynValue::Other, e));
    }
    if fraction {
        return Some((DynValue::Other, c));
    }
    match magnitude(chars, a, b) {
        None => Some((DynValue::Other, b)),
        Some(m) => {
            if negative {
                if m == 0x8000_0000_0000_0000 {
                    Some((DynValue::Int(i64::MIN), b))
                } else {
                    Some((DynValue::Int(-(m as i64)), b))
                }
            } else if m <= 0x7fff_ffff_ffff_ffff {
                Some((DynValue::Int(m as i64), b))
            } else {
                Some((DynValue::Other, b))
            }
        },
    }
}

fn hex_digit(c: char) -> (r: Option<u32>)
    ensures
        match r {
            Some(v) => hex_value(c) == Some(v as int) && v < 16,
            None => hex_value(c) is None,
        },
{
    if '0' <= c && c <= '9' {
        Some(c as u32 - 48)
    } else if 'a' <= c && c <= 'f' {
        Some(c as u32 - 87)
    } else if 'A' <= c && c <= 'F' {
        Some(c as u32 - 55)
    } else {
        None
    }
}

fn read_hex4(chars: &Vec<char>, i: usize) -> (r: Option<u32>)
    requires
        i <= chars.len(),
    ensures
        match r {
            Some(v) => hex4(chars@, i as int) == Some(v as int) && v < 0x10000 && i + 4
                <= chars.len(),
            None => hex4(chars@, i as int) is None,
        },
{
    if chars.len() - i < 4 {
        return None;
    }
    match (hex_digit(chars[i]), hex_digit(chars[i + 1]), hex_digit(chars[i + 2]), hex_digit(
        chars[i + 3],
    )) {
        (Some(h0), Some(h1), Some(h2), Some(h3)) => Some(((h0 * 16 + h1) * 16 + h2) * 16 + h3),
        _ => None,
    }
}

fn read_unicode(chars: &Vec<char>, i: usize) -> (r: Option<(char, usize)>)
    requires
        i <= chars.len(),
    ensures
        match r {
            Some((c, k)) => unicode_escape(chars@, i as int) == Some((c, k as int)) && i < k
                <= chars.len(),
            None => unicode_escape(chars@, i as int) is None,
        },
{
    let first = match read_hex4(chars, i) {
        Some(v) => v,
        None => { return None; },
    };
    if 0xD800 <= first && first < 0xDC00 {
        if chars.len() - i < 6 || chars[i + 4] != '\\' || chars[i + 5] != 'u' {
            return None;
        }
        let second = match read_hex4(chars, i + 6) {
            Some(v) => v,
            None => { return None; },
        };
        if !(0xDC00 <= second && second < 0xE000) {
            return None;
        }
        let code: u32 = 0x10000 + (first - 0xD800) * 0x400 + (second - 0xDC00);
        assert(is_scalar(code as int));
        match char::from_u32(code) {
            Some(c) => Some((c, i + 10)),
            None => None,
        }
    } else if 0xDC00 <= first && first < 0xE000 {
        None
    } else {
        assert(is_scalar(first as int));
        match char::from_u32(first) {
            Some(c) => Some((c, i + 4)),
            None => None,
        }
    }
}

fn read_escape(chars: &Vec<char>, i: usize) -> (r: Option<(char, usize)>)
    requires
        i <= chars.len(),
    ensures
        match r {
            Some((c, k)) => escape(chars@, i as int) == Some((c, k as int)) && i < k
                <= chars.len(),
            None => escape(chars@, i as int) is None,
        },
{
    if i >= chars.len() {
        return None;
    }
    let c = chars[i];
    if c == '"' || c == '\\' || c == '/' {
        Some((c, i + 1))
    } else if c == 'b' {
        Some(('\u{8}', i + 1))
    } else if c == 'f' {
        Some(('\u{c}', i + 1))
    } else if c == 'n' {
        Some(('\n', i + 1))
    } else if c == 'r' {
        Some(('\r', i + 1))
    } else if c == 't' {
        Some(('\t', i + 1))
    } else if c == 'u' {
        read_unicode(chars, i + 1)
    } else {
        None
    }
}

fn read_string(chars: &Vec<char>, start: usize) -> (r: Option<(String, usize)>)
    requires
        start <= chars.len(),
    ensures
        match r {
            Some((t, k)) => string_at(chars@, start as int) == Some((t@, k as int)) && start < k
                <= chars.len(),
            None => string_at(chars@, start as int) is None,
        },
{
    if start >= chars.len() || chars[start] != '"' {
        return None;
    }
    let mut out = String::new();
    let mut i = start + 1;
    proof {
        lemma_prefixed_empty(string_body(chars@, i as int));
    }
    loop
        invariant
            start < i <= chars.len(),
            chars@[start as int] == '"',
            string_body(chars@, start + 1) == prefixed(out@, string_body(chars@, i as int)),
        decreases chars.len() - i,
    {
        if i >= chars.len() {
            return None;
        }
        let c = chars[i];
        if c == '"' {
            assert(out@ + Seq::<char>::empty() =~= out@);
            return Some((out, i + 1));
        }
        if c == '\\' {
            match read_escape(chars, i + 1) {
                None => { return None; },
                Some((e, j)) => {
                    proof {
                        lemma_prefixed_push(out@, e, string_body(chars@, j as int));
                    }
                    out.push(e);
                    i = j;
                },
            }
        } else if (c as u32) < 0x20 {
            return None;
        } else {
            proof {
                lemma_prefixed_push(out@, c, string_body(chars@, i + 1));
            }
            out.push(c);
            i = i + 1;
        }
    }
}

fn read_value(chars: &Vec<char>, i: usize, depth: usize) -> (r: Option<(DynValue, usize)>)
    requires
        i <= chars.len(),
    ensures
        match r {
            Some((v, k)) => value_at(chars@, i as int, depth as nat) == Some((v@, k as int)) && i
                < k <= chars.len(),
            None => value_at(chars@, i as int, depth as nat) is None,
        },
    decreases 3 * depth + 1, chars.len() - i,
{
    let n = chars.len();
    if i >= n {
        return None;
    }
    let c = chars[i];
    if c == '"' {
        match read_string(chars, i) {
            Some((t, k)) => Some((DynValue::Str(t), k)),
            None => None,
        }
    } else if c == 't' {
        if n - i >= 4 && chars[i + 1] == 'r' && chars[i + 2] == 'u' && chars[i + 3] == 'e' {
            assert(chars@.subrange(i as int, i + 4) =~= seq!['t', 'r', 'u', 'e']);
            Some((DynValue::Bool(true), i + 4))
        } else {
            assert(!word_at(chars@, i as int, seq!['t', 'r', 'u', 'e'])) by {
                if word_at(chars@, i as int, seq!['t', 'r', 'u', 'e']) {
                    let w = chars@.subrange(i as int, i + 4);
                    assert(w[1] == 'r' && w[2] == 'u' && w[3] == 'e');
                }
            }
            None
        }
    } else if c == 'f' {
        if n - i >= 5 && chars[i + 1] == 'a' && chars[i + 2] == 'l' && chars[i + 3] == 's'
            && chars[i + 4] == 'e' {
            assert(chars@.subrange(i as int, i + 5) =~= seq!['f', 'a', 'l', 's', 'e']);
            Some((DynValue::Bool(false), i + 5))
        } else {
            assert(!word_at(chars@, i as int, seq!['f', 'a', 'l', 's', 'e'])) by {
                if word_at(chars@, i as int, seq!['f', 'a', 'l', 's', 'e']) {
                    let w = chars@.subrange(i as int, i + 5);
                    assert(w[1] == 'a' && w[2] == 'l' && w[3] == 's' && w[4] == 'e');
                }
            }
            None
        }
    } else if c == 'n' {
        if n - i >= 4 && chars[i + 1] == 'u' && chars[i + 2] == 'l' && chars[i + 3] == 'l' {
            assert(chars@.subrange(i as int, i + 4) =~= seq!['n', 'u', 'l', 'l']);
            Some((DynValue::Null, i + 4))
        } else {
            assert(!word_at(chars@, i as int, seq!['n', 'u', 'l', 'l'])) by {
                if word_at(chars@, i as int, seq!['n', 'u', 'l', 'l']) {
                    let w = chars@.subrange(i as int, i + 4);
                    assert(w[1] == 'u' && w[2] == 'l' && w[3] == 'l');
                }
            }
            None
        }
    } else if c == '[' {
        if depth == 0 {
            return None;
        }
        let j = skip_space_from(chars, i + 1);
        if j < n && chars[j] == ']' {
            Some((DynValue::Other, j + 1))
        } else {
            match skip_elements(chars, j, depth - 1) {
                Some(k) => Some((DynValue::Other, k)),
                None => None,
            }
        }
    } else if c == '{' {
        match read_object(chars, i, depth) {
            Some((_, k)) => Some((DynValue::Other, k)),
            None => None,
        }
    } else {
        read_number(chars, i)
    }
}

fn skip_elements(chars: &Vec<char>, start: usize, depth: usize) -> (r: Option<usize>)
    requires
        start <= chars.len(),
    ensures
        match r {
            Some(k) => elements_end(chars@, start as int, depth as nat) == Some(k as int) && start
                < k <= chars.len(),
            None => elements_end(chars@, start as int, depth as nat) is None,
        },
    decreases 3 * depth + 2, chars.len() - start,
{
    let mut i = start;
    loop
        invariant
            start <= i <= chars.len(),
            elements_end(chars@, start as int, depth as nat) == elements_end(
                chars@,
                i as int,
                depth as nat,
            ),
        decreases chars.len() - i,
    {
        let k = match read_value(chars, i, depth) {
            Some((_, k)) => k,
            None => { return None; },
        };
        let k1 = skip_space_from(chars, k);
        if k1 >= chars.len() {
            return None;
        }
        if chars[k1] == ']' {
            return Some(k1 + 1);
        }
        if chars[k1] != ',' {
            return None;
        }
        i = skip_space_from(chars, k1 + 1);
    }
}

fn read_members(chars: &Vec<char>, start: usize, depth: usize) -> (r: Option<
    (RawParameters, usize),
>)
    requires
        start <= chars.len(),
    ensures
        match r {
            Some((p, k)) => members_at(chars@, start as int, depth as nat) matches Some((ms, end))
                && end == k && p@ == bindings_map(ms) && start < k <= chars.len(),
            None => members_at(chars@, start as int, depth as nat) is None,
        },
    decreases 3 * depth + 2, chars.len() - start,
{
    let mut params = RawParameters::new();
    let ghost mut acc: Seq<(Seq<char>, DynView)> = Seq::empty();
    let mut i = start;
    proof {
        lemma_with_members_empty(members_at(chars@, i as int, depth as nat));
    }
    loop
        invariant
            start <= i <= chars.len(),
            params@ == bindings_map(acc),
            members_at(chars@, start as int, depth as nat) == with_members(
                acc,
                members_at(chars@, i as int, depth as nat),
            ),
        decreases chars.len() - i,
    {
        let (name, k) = match read_string(chars, i) {
            Some(found) => found,
            None => { return None; },
        };
        let k1 = skip_space_from(chars, k);
        if k1 >= chars.len() || chars[k1] != ':' {
            return None;
        }
        let k2 = skip_space_from(chars, k1 + 1);
        let (value, k3) = match read_value(chars, k2, depth) {
            Some(found) => found,
            None => { return None; },
        };
        let k4 = skip_space_from(chars, k3);
        if k4 >= chars.len() {
            return None;
        }
        let ghost member = (name@, value@);
        if chars[k4] == '}' {
            proof {
                assert(acc + seq![member] =~= acc.push(member));
                assert(acc.push(member).drop_last() =~= acc);
            }
            params.insert_owned(name, value);
            return Some((params, k4 + 1));
        }
        if chars[k4] != ',' {
            return None;
        }
        let next = skip_space_from(chars, k4 + 1);
        proof {
            lemma_with_members_push(acc, member, members_at(chars@, next as int, depth as nat));
            assert(acc.push(member).drop_last() =~= acc);
            acc = acc.push(member);
        }
        params.insert_owned(name, value);
        i = next;
    }
}

fn read_object(chars: &Vec<char>, i: usize, depth: usize) -> (r: Option<(RawParameters, usize)>)
    requires
        i <= chars.len(),
    ensures
        match r {
            Some((p, k)) => object_at(chars@, i as int, depth as nat) matches Some((ms, end))
                && end == k && p@ == bindings_map(ms) && i < k <= chars.len(),
            None => object_at(chars@, i as int, depth as nat) is None,
        },
    decreases 3 * depth, chars.len() - i,
{
    if i >= chars.len() || chars[i] != '{' || depth == 0 {
        return None;
    }
    let j = skip_space_from(chars, i + 1);
    if j < chars.len() && chars[j] == '}' {
        Some((RawParameters::new(), j + 1))
    } else {
        read_members(chars, j, depth - 1)
    }
}

/// Reads `text` as one JSON object and gives its members as a parameter
/// bag; `None` where `text` is anything else.
pub fn decode_object(text: &str) -> (r: Option<RawParameters>)
    ensures
        match r {
            Some(p) => document_map(text@) == Some(p@),
            None => document_map(text@) is None,
        },
{
    let chars = to_chars(text);
    let i = skip_space_from(&chars, 0);
    match read_object(&chars, i, MAX_DEPTH + 1) {
        Some((p, k)) => {
            if skip_space_from(&chars, k) == chars.len() {
                Some(p)
            } else {
                None
            }
        },
        None => None,
    }
}

} // verus!
