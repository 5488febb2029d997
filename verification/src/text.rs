//! Character-level text utilities with exact specifications: conversion
//! between `str` and character vectors, Unicode whitespace trimming,
//! substring search, decimal formatting and parsing.

use vstd::prelude::*;

verus! {

broadcast use vstd::string::group_string_axioms;

/// Equality of two string slices, as `str`'s `==` computes it.
#[verifier::external_body]
pub(crate) fn str_eq(a: &str, b: &str) -> (r: bool)
    ensures
        r == (a@ == b@),
{
    a == b
}

/// Appends one character to `s` (`String::push`).
#[verifier::external_body]
pub(crate) fn push_char(s: &mut String, c: char)
    ensures
        final(s)@ == old(s)@.push(c),
{
    s.push(c)
}

/// The characters of `s`, in order.
pub fn chars_of(s: &str) -> (r: Vec<char>)
    ensures
        r@ == s@,
{
    let mut out: Vec<char> = Vec::new();
    for c in it: s.chars()
        invariant
            out@ == it.seq().take(it.index() as int),
            it.seq() == s@,
    {
        out.push(c);
    }
    assert(out@ =~= s@);
    out
}

/// The string made of the characters `cs[from..to]`.
pub fn string_from_range(cs: &Vec<char>, from: usize, to: usize) -> (r: String)
    requires
        from <= to <= cs@.len(),
    ensures
        r@ == cs@.subrange(from as int, to as int),
{
    let mut out = String::new();
    let mut i = from;
    while i < to
        invariant
            from <= i <= to <= cs@.len(),
            out@ == cs@.subrange(from as int, i as int),
        decreases to - i,
    {
        push_char(&mut out, cs[i]);
        assert(out@ =~= cs@.subrange(from as int, i + 1));
        i = i + 1;
    }
    out
}

/// A copy of `s` as an owned string.
pub fn owned(s: &str) -> (r: String)
    ensures
        r@ == s@,
{
    s.to_string()
}

/// The concatenation of `a` and `b`.
pub fn concat(a: &str, b: &str) -> (r: String)
    ensures
        r@ == a@ + b@,
{
    let mut out = a.to_string();
    out.append(b);
    out
}

/// `{:?}` of a text: the text quoted, with its special characters escaped.
pub uninterp spec fn str_debug_text(s: Seq<char>) -> Seq<char>;

/// `format!("{:?}", s)`.
#[verifier::external_body]
pub(crate) fn debug_str(s: &str) -> (r: String)
    ensures
        r@ == str_debug_text(s@),
{
    format!("{:?}", s)
}

/// `{:?}` of a boolean.
pub open spec fn bool_text(b: bool) -> Seq<char> {
    if b {
        "true"@
    } else {
        "false"@
    }
}

/// `{:?}` of a boolean.
pub fn bool_string(b: bool) -> (r: &'static str)
    ensures
        r@ == bool_text(b),
{
    if b {
        "true"
    } else {
        "false"
    }
}

/// Characters Unicode classes as White_Space (what `char::is_whitespace` tests).
pub open spec fn is_ws(c: char) -> bool {
    ||| ('\u{9}' <= c && c <= '\u{d}')
    ||| c == ' '
    ||| c == '\u{85}'
    ||| c == '\u{a0}'
    ||| c == '\u{1680}'
    ||| ('\u{2000}' <= c && c <= '\u{200a}')
    ||| c == '\u{2028}'
    ||| c == '\u{2029}'
    ||| c == '\u{202f}'
    ||| c == '\u{205f}'
    ||| c == '\u{3000}'
}

/// Executable whitespace test; agrees with `is_ws`.
pub fn char_is_ws(c: char) -> (r: bool)
    ensures
        r == is_ws(c),
{
    ('\u{9}' <= c && c <= '\u{d}') || c == ' ' || c == '\u{85}' || c == '\u{a0}' || c == '\u{1680}'
        || ('\u{2000}' <= c && c <= '\u{200a}') || c == '\u{2028}' || c == '\u{2029}' || c
        == '\u{202f}' || c == '\u{205f}' || c == '\u{3000}'
}

/// `s` without its leading whitespace.
pub open spec fn trim_start_spec(s: Seq<char>) -> Seq<char>
    decreases s.len(),
{
    if s.len() > 0 && is_ws(s[0]) {
        trim_start_spec(s.drop_first())
    } else {
        s
    }
}

/// `s` without its trailing whitespace.
pub open spec fn trim_end_spec(s: Seq<char>) -> Seq<char>
    decreases s.len(),
{
    if s.len() > 0 && is_ws(s.last()) {
        trim_end_spec(s.drop_last())
    } else {
        s
    }
}

/// `s` without leading and trailing whitespace (what `str::trim` gives).
pub open spec fn trim_spec(s: Seq<char>) -> Seq<char> {
    trim_end_spec(trim_start_spec(s))
}

pub proof fn lemma_trim_start_skip(s: Seq<char>, i: int)
    requires
        0 <= i <= s.len(),
        forall|j: int| 0 <= j < i ==> is_ws(#[trigger] s[j]),
    ensures
        trim_start_spec(s) == trim_start_spec(s.subrange(i, s.len() as int)),
    decreases i,
{
    if i > 0 {
        assert(is_ws(s[0]));
        let t = s.drop_first();
        assert forall|j: int| 0 <= j < i - 1 implies is_ws(#[trigger] t[j]) by {
            assert(t[j] == s[j + 1]);
        }
        lemma_trim_start_skip(t, i - 1);
        assert(t.subrange(i - 1, t.len() as int) =~= s.subrange(i, s.len() as int));
    } else {
        assert(s.subrange(0, s.len() as int) =~= s);
    }
}

proof fn lemma_trim_end_skip(s: Seq<char>, k: int)
    requires
        0 <= k <= s.len(),
        forall|j: int| k <= j < s.len() ==> is_ws(#[trigger] s[j]),
    ensures
        trim_end_spec(s) == trim_end_spec(s.subrange(0, k)),
    decreases s.len() - k,
{
    if k < s.len() {
        assert(is_ws(s.last()));
        let t = s.drop_last();
        assert forall|j: int| k <= j < t.len() implies is_ws(#[trigger] t[j]) by {
            assert(t[j] == s[j]);
        }
        lemma_trim_end_skip(t, k);
        assert(t.subrange(0, k) =~= s.subrange(0, k));
    } else {
        assert(s.subrange(0, k) =~= s);
    }
}

/// Bounds `(start, end)` such that `cs[start..end]` is `cs` trimmed.
pub fn trim_bounds(cs: &Vec<char>) -> (r: (usize, usize))
    ensures
        r.0 <= r.1 <= cs@.len(),
        cs@.subrange(r.0 as int, r.1 as int) == trim_spec(cs@),
{
    let n = cs.len();
    let mut i: usize = 0;
    while i < n && char_is_ws(cs[i])
        invariant
            i <= n == cs@.len(),
            forall|j: int| 0 <= j < i ==> is_ws(#[trigger] cs@[j]),
        decreases n - i,
    {
        i = i + 1;
    }
    proof {
        lemma_trim_start_skip(cs@, i as int);
    }
    let ghost rest = cs@.subrange(i as int, n as int);
    assert(trim_start_spec(rest) == rest);
    let mut k: usize = n;
    while k > i && char_is_ws(cs[k - 1])
        invariant
            i <= k <= n == cs@.len(),
            forall|j: int| k <= j < n ==> is_ws(#[trigger] cs@[j]),
        decreases k,
    {
        k = k - 1;
    }
    proof {
        assert forall|j: int| k - i <= j < rest.len() implies is_ws(#[trigger] rest[j]) by {
            assert(rest[j] == cs@[j + i]);
        }
        lemma_trim_end_skip(rest, k - i);
        assert(rest.subrange(0, k - i) =~= cs@.subrange(i as int, k as int));
    }
    (i, k)
}

/// `s` with leading and trailing whitespace removed (`str::trim`).
pub fn trim(s: &str) -> (r: String)
    ensures
        r@ == trim_spec(s@),
{
    let cs = chars_of(s);
    let (a, b) = trim_bounds(&cs);
    string_from_range(&cs, a, b)
}

/// Whether `needle` occurs in `hay` at position `i`.
pub open spec fn occurs_at(hay: Seq<char>, needle: Seq<char>, i: int) -> bool {
    0 <= i && i + needle.len() <= hay.len() && hay.subrange(i, i + needle.len()) == needle
}

/// Whether `needle` occurs anywhere in `hay` (`str::contains`).
pub open spec fn contains_spec(hay: Seq<char>, needle: Seq<char>) -> bool {
    exists|i: int| occurs_at(hay, needle, i)
}

/// Whether `hay` starts with `prefix`.
pub open spec fn starts_with_spec(hay: Seq<char>, prefix: Seq<char>) -> bool {
    occurs_at(hay, prefix, 0)
}

fn occurs_at_exec(hay: &Vec<char>, needle: &Vec<char>, i: usize) -> (r: bool)
    requires
        i + needle@.len() <= hay@.len(),
    ensures
        r == occurs_at(hay@, needle@, i as int),
{
    let m = needle.len();
    let mut j: usize = 0;
    while j < m
        invariant
            j <= m == needle@.len(),
            i + m <= hay.len(),
            forall|t: int| 0 <= t < j ==> hay@[i + t] == needle@[t],
        decreases m - j,
    {
        if hay[i + j] != needle[j] {
            assert(hay@.subrange(i as int, i + m)[j as int] != needle@[j as int]);
            return false;
        }
        j = j + 1;
    }
    assert(hay@.subrange(i as int, i + m) =~= needle@);
    true
}

/// Whether `needle` occurs in `hay`.
pub fn contains_chars(hay: &Vec<char>, needle: &Vec<char>) -> (r: bool)
    ensures
        r == contains_spec(hay@, needle@),
{
    if needle.len() > hay.len() {
        return false;
    }
    let last = hay.len() - needle.len();
    let mut i: usize = 0;
    loop
        invariant
            last + needle@.len() == hay@.len(),
            i <= last,
            forall|t: int| 0 <= t < i ==> !occurs_at(hay@, needle@, t),
        ensures
            forall|t: int| 0 <= t <= last ==> !occurs_at(hay@, needle@, t),
        decreases last - i,
    {
        if occurs_at_exec(hay, needle, i) {
            return true;
        }
        if i == last {
            break;
        }
        i = i + 1;
    }
    assert forall|t: int| !occurs_at(hay@, needle@, t) by {
        if 0 <= t && t <= last as int {
        }
    }
    false
}

/// Whether `needle` occurs in `hay` (`str::contains`).
pub fn contains(hay: &str, needle: &str) -> (r: bool)
    ensures
        r == contains_spec(hay@, needle@),
{
    let h = chars_of(hay);
    let n = chars_of(needle);
    contains_chars(&h, &n)
}

/// Whether `hay` starts with `prefix` (`str::starts_with`).
pub fn starts_with(hay: &str, prefix: &str) -> (r: bool)
    ensures
        r == starts_with_spec(hay@, prefix@),
{
    let h = chars_of(hay);
    let p = chars_of(prefix);
    if p.len() > h.len() {
        return false;
    }
    occurs_at_exec(&h, &p, 0)
}

/// The character of the decimal digit `d` (`0 <= d < 10`).
pub open spec fn digit_char(d: int) -> char {
    if d == 0 { '0' }
    else if d == 1 { '1' }
    else if d == 2 { '2' }
    else if d == 3 { '3' }
    else if d == 4 { '4' }
    else if d == 5 { '5' }
    else if d == 6 { '6' }
    else if d == 7 { '7' }
    else if d == 8 { '8' }
    else { '9' }
}

/// The value of the decimal digit character `c`.
pub open spec fn digit_value(c: char) -> int {
    (c as int) - ('0' as int)
}

/// Whether `c` is an ASCII decimal digit.
pub open spec fn is_digit(c: char) -> bool {
    '0' <= c && c <= '9'
}

/// The decimal representation of `n`, without sign or leading zeros.
pub open spec fn decimal(n: nat) -> Seq<char>
    decreases n,
{
    if n < 10 {
        seq![digit_char(n as int)]
    } else {
        decimal(n / 10).push(digit_char((n % 10) as int))
    }
}

fn digit_char_exec(d: u64) -> (c: char)
    requires
        d < 10,
    ensures
        c == digit_char(d as int),
{
    if d == 0 { '0' }
    else if d == 1 { '1' }
    else if d == 2 { '2' }
    else if d == 3 { '3' }
    else if d == 4 { '4' }
    else if d == 5 { '5' }
    else if d == 6 { '6' }
    else if d == 7 { '7' }
    else if d == 8 { '8' }
    else { '9' }
}

/// The decimal representation of `n` (`n.to_string()`).
pub fn decimal_string(n: u64) -> (r: String)
    ensures
        r@ == decimal(n as nat),
{
    let mut m = n;
    let mut rev: Vec<char> = Vec::new();
    loop
        invariant_except_break
            decimal(n as nat) == decimal(m as nat) + rev@.reverse(),
        ensures
            decimal(n as nat) == rev@.reverse(),
        decreases m,
    {
        if m < 10 {
            let ghost before = rev@;
            rev.push(digit_char_exec(m));
            assert(rev@.reverse() =~= seq![digit_char(m as int)] + before.reverse());
            break;
        }
        let ghost before = rev@;
        let d = m % 10;
        rev.push(digit_char_exec(d));
        assert(rev@.reverse() =~= seq![digit_char(d as int)] + before.reverse());
        m = m / 10;
        assert(decimal((m * 10 + d) as nat) == decimal(m as nat).push(digit_char(d as int)));
    }
    let mut out = String::new();
    let mut i = rev.len();
    while i > 0
        invariant
            i <= rev@.len(),
            out@ == rev@.subrange(i as int, rev@.len() as int).reverse(),
        decreases i,
    {
        i = i - 1;
        let ghost before = out@;
        push_char(&mut out, rev[i]);
        assert(rev@.subrange(i as int, rev@.len() as int) =~= seq![rev@[i as int]] + rev@.subrange(i + 1, rev@.len() as int));
        assert(out@ =~= rev@.subrange(i as int, rev@.len() as int).reverse());
    }
    assert(rev@.subrange(0, rev@.len() as int) =~= rev@);
    out
}

/// The value of a string of decimal digits.
pub open spec fn digits_value(s: Seq<char>) -> nat
    decreases s.len(),
{
    if s.len() == 0 {
        0
    } else {
        (digits_value(s.drop_last()) * 10 + digit_value(s.last())) as nat
    }
}

/// Whether every character of `s` is a decimal digit.
pub open spec fn all_digits(s: Seq<char>) -> bool {
    forall|i: int| 0 <= i < s.len() ==> is_digit(#[trigger] s[i])
}

/// What `s.parse::<u64>()` gives: an optional `+` sign, then one or more
/// decimal digits whose value fits in 64 bits.
pub open spec fn parse_u64_spec(s: Seq<char>) -> Option<u64> {
    let body = if s.len() > 0 && s[0] == '+' { s.drop_first() } else { s };
    if body.len() > 0 && all_digits(body) && digits_value(body) <= u64::MAX {
        Some(digits_value(body) as u64)
    } else {
        None
    }
}

proof fn lemma_digits_value_prefix_mono(s: Seq<char>, j: int, k: int)
    requires
        0 <= j <= k <= s.len(),
        all_digits(s),
    ensures
        digits_value(s.take(j)) <= digits_value(s.take(k)),
    decreases k - j,
{
    if j < k {
        lemma_digits_value_prefix_mono(s, j, k - 1);
        assert(s.take(k).drop_last() =~= s.take(k - 1));
        assert(is_digit(s[k - 1]));
    }
}

/// Parses `cs[from..to]` as `str::parse::<u64>` does.
pub fn parse_u64_range(cs: &Vec<char>, from: usize, to: usize) -> (r: Option<u64>)
    requires
        from <= to <= cs@.len(),
    ensures
        r == parse_u64_spec(cs@.subrange(from as int, to as int)),
{
    let ghost s = cs@.subrange(from as int, to as int);
    let mut start = from;
    if from < to && cs[from] == '+' {
        start = from + 1;
    }
    let ghost body = cs@.subrange(start as int, to as int);
    assert(body =~= (if s.len() > 0 && s[0] == '+' { s.drop_first() } else { s }));
    if start == to {
        return None;
    }
    let mut acc: u64 = 0;
    let mut overflow = false;
    let mut i = start;
    while i < to
        invariant
            from <= start <= i <= to <= cs@.len(),
            body == cs@.subrange(start as int, to as int),
            s == cs@.subrange(from as int, to as int),
            body == (if s.len() > 0 && s[0] == '+' { s.drop_first() } else { s }),
            forall|t: int| start <= t < i ==> is_digit(#[trigger] cs@[t]),
            !overflow ==> acc as nat == digits_value(body.take(i - start)),
            overflow ==> digits_value(body.take(i - start)) > u64::MAX,
        decreases to - i,
    {
        let c = cs[i];
        if !('0' <= c && c <= '9') {
            assert(body[i - start] == c);
            assert(!is_digit(body[i - start]));
            assert(!all_digits(body));
            assert(parse_u64_spec(s) == None::<u64>);
            return None;
        }
        let ghost k = i - start;
        assert(body.take(k + 1).drop_last() =~= body.take(k));
        assert(body.take(k + 1).last() == c);
        let d = (c as u32 - '0' as u32) as u64;
        assert(d as int == digit_value(c));
        if !overflow {
            if acc > (u64::MAX - d) / 10 {
                overflow = true;
                assert(acc * 10 + d > u64::MAX) by (nonlinear_arith)
                    requires acc > (u64::MAX - d) / 10, d < 10;
            } else {
                assert(acc * 10 + d <= u64::MAX) by (nonlinear_arith)
                    requires acc <= (u64::MAX - d) / 10, d < 10;
                acc = acc * 10 + d;
            }
        } else {
            assert(digits_value(body.take(k + 1)) >= digits_value(body.take(k)));
        }
        i = i + 1;
    }
    assert(body.take(to - start) =~= body);
    assert(all_digits(body));
    if overflow {
        None
    } else {
        Some(acc)
    }
}

/// `s.parse::<u64>().ok()`.
pub fn parse_u64(s: &str) -> (r: Option<u64>)
    ensures
        r == parse_u64_spec(s@),
{
    let cs = chars_of(s);
    let r = parse_u64_range(&cs, 0, cs.len());
    assert(cs@.subrange(0, cs@.len() as int) =~= cs@);
    r
}


/// The text of an optional string.
pub open spec fn opt_view(o: Option<String>) -> Option<Seq<char>> {
    match o {
        Some(s) => Some(s@),
        None => None,
    }
}

/// A copy of an optional string.
pub fn copy_opt(o: &Option<String>) -> (r: Option<String>)
    ensures
        opt_view(r) == opt_view(*o),
{
    match o {
        Some(s) => Some(owned(s.as_str())),
        None => None,
    }
}

/// The texts of a slice of string slices.
pub open spec fn strs_view(v: Seq<&str>) -> Seq<Seq<char>> {
    v.map_values(|s: &str| s@)
}


/// The lower-case form of `s`, as `str::to_lowercase` maps it (Unicode
/// lower-case mapping, character by character, context-sensitive for final
/// sigma).
pub uninterp spec fn lowercase(s: Seq<char>) -> Seq<char>;

/// `str::to_lowercase`.
#[verifier::external_body]
pub(crate) fn to_lowercase(s: &str) -> (r: String)
    ensures
        r@ == lowercase(s@),
{
    s.to_lowercase()
}

/// What `s.parse::<u16>()` gives: as for `u64`, within 16 bits.
pub open spec fn parse_u16_spec(s: Seq<char>) -> Option<u16> {
    match parse_u64_spec(s) {
        Some(v) => if v <= 65535 {
            Some(v as u16)
        } else {
            None
        },
        None => None,
    }
}

/// `s.parse::<u16>().ok()`.
pub fn parse_u16(s: &str) -> (r: Option<u16>)
    ensures
        r == parse_u16_spec(s@),
{
    match parse_u64(s) {
        Some(v) => if v <= 65535 {
            Some(v as u16)
        } else {
            None
        },
        None => None,
    }
}

/// The decimal representation of a signed number (`i32::to_string`).
pub open spec fn signed_decimal(n: int) -> Seq<char> {
    if n < 0 {
        seq!['-'] + decimal((-n) as nat)
    } else {
        decimal(n as nat)
    }
}

/// `n.to_string()` for an `i32`.
pub fn signed_decimal_string(n: i32) -> (r: String)
    ensures
        r@ == signed_decimal(n as int),
{
    if n < 0 {
        let m: i64 = n as i64;
        let digits = decimal_string((-m) as u64);
        let minus = "-";
        proof {
            reveal_strlit("-");
        }
        concat(minus, digits.as_str())
    } else {
        decimal_string(n as u64)
    }
}

/// The position of the first line break of `s` (its length when none).
pub open spec fn newline_pos(s: Seq<char>) -> nat
    decreases s.len(),
{
    if s.len() == 0 {
        0
    } else if s[0] == '\n' {
        0
    } else {
        1 + newline_pos(s.drop_first())
    }
}

/// A line without its trailing carriage return, as `str::lines` yields it.
pub open spec fn strip_cr(line: Seq<char>) -> Seq<char> {
    if line.len() > 0 && line.last() == '\r' {
        line.drop_last()
    } else {
        line
    }
}

/// The first line of `s` (lines as `str::lines` splits them) that is not
/// blank, if any.
pub open spec fn first_nonblank_line(s: Seq<char>) -> Option<Seq<char>>
    decreases s.len(),
{
    let i = newline_pos(s);
    let line = strip_cr(s.take(i as int));
    if i > s.len() {
        None
    } else if trim_spec(line).len() > 0 {
        Some(line)
    } else if i >= s.len() {
        None
    } else {
        first_nonblank_line(s.skip(i + 1 as int))
    }
}

proof fn lemma_newline_pos(s: Seq<char>)
    ensures
        newline_pos(s) <= s.len(),
        newline_pos(s) < s.len() ==> s[newline_pos(s) as int] == '\n',
        forall|k: int| 0 <= k < newline_pos(s) ==> s[k] != '\n',
    decreases s.len(),
{
    if s.len() > 0 && s[0] != '\n' {
        lemma_newline_pos(s.drop_first());
        assert forall|k: int| 0 <= k < newline_pos(s) implies s[k] != '\n' by {
            if k > 0 {
                assert(s[k] == s.drop_first()[k - 1]);
            }
        }
    }
}

pub(crate) proof fn lemma_newline_pos_skip(s: Seq<char>, j: int)
    requires
        0 <= j <= s.len(),
        forall|k: int| 0 <= k < j ==> s[k] != '\n',
    ensures
        newline_pos(s) == j + newline_pos(s.skip(j)),
    decreases j,
{
    if j > 0 {
        lemma_newline_pos_skip(s.drop_first(), j - 1);
        assert(s.drop_first().skip(j - 1) =~= s.skip(j));
    } else {
        assert(s.skip(0) =~= s);
    }
}

/// The first non-blank line of `cs[from..]`, as (start, end) of the line
/// without its line break and trailing carriage return.
fn first_nonblank_from(cs: &Vec<char>, from: usize) -> (r: Option<String>)
    requires
        from <= cs@.len(),
    ensures
        match (r, first_nonblank_line(cs@.skip(from as int))) {
            (Some(a), Some(b)) => a@ == b,
            (None, None) => true,
            _ => false,
        },
    decreases cs@.len() - from,
{
    let ghost s = cs@.skip(from as int);
    let mut j = from;
    while j < cs.len() && cs[j] != '\n'
        invariant
            from <= j <= cs@.len(),
            s == cs@.skip(from as int),
            forall|k: int| from <= k < j ==> cs@[k] != '\n',
        decreases cs@.len() - j,
    {
        j = j + 1;
    }
    proof {
        assert forall|k: int| 0 <= k < j - from implies s[k] != '\n' by {
            assert(s[k] == cs@[k + from]);
        }
        lemma_newline_pos_skip(s, j - from);
        lemma_newline_pos(s.skip(j - from));
        if j < cs@.len() {
            assert(s.skip(j - from)[0] == cs@[j as int]);
        }
        assert(newline_pos(s) == j - from);
        lemma_newline_pos(s);
    }
    let mut end = j;
    if end > from && cs[end - 1] == '\r' {
        end = end - 1;
    }
    let line = string_from_range(cs, from, end);
    proof {
        assert(s.take(j - from) =~= cs@.subrange(from as int, j as int));
        assert(line@ =~= strip_cr(s.take(j - from)));
    }
    let t = trim(line.as_str());
    if !t.as_str().is_empty() {
        Some(line)
    } else if j >= cs.len() {
        None
    } else {
        proof {
            assert(s.skip(j - from + 1) =~= cs@.skip(j + 1));
        }
        first_nonblank_from(cs, j + 1)
    }
}

/// The first non-blank line of `s`, if any.
pub fn first_nonblank(s: &str) -> (r: Option<String>)
    ensures
        match (r, first_nonblank_line(s@)) {
            (Some(a), Some(b)) => a@ == b,
            (None, None) => true,
            _ => false,
        },
{
    let cs = chars_of(s);
    assert(cs@.skip(0) =~= cs@);
    first_nonblank_from(&cs, 0)
}

/// The first `n` characters of `s` (all of them when it is shorter).
pub fn take_chars(s: &str, n: usize) -> (r: String)
    ensures
        r@ == (if s@.len() <= n {
            s@
        } else {
            s@.take(n as int)
        }),
{
    let cs = chars_of(s);
    if cs.len() <= n {
        owned(s)
    } else {
        let r = string_from_range(&cs, 0, n);
        assert(cs@.subrange(0, n as int) =~= s@.take(n as int));
        r
    }
}

} // verus!
