//! Character-level helpers shared by the rest of the library: conversion
//! between strings and character vectors, decimal numbers, html escaping,
//! integer parsing and simple searching and replacing.
use vstd::prelude::*;

verus! {

/// `String::push` appends one character at the end of the string.
pub assume_specification[ String::push ](s: &mut String, ch: char)
    ensures
        final(s)@ == old(s)@.push(ch),
;

/// The characters of `s`, as a vector.
pub fn chars_of(s: &str) -> (v: Vec<char>)
    ensures
        v@ == s@,
{
    let mut v: Vec<char> = Vec::new();
    for c in it: s.chars()
        invariant
            v@ == it.seq().take(it.index() as int),
            it.seq() == s@,
    {
        v.push(c);
    }
    v
}

/// Append the characters of `v[from..to]` to `out`.
pub fn push_range(out: &mut String, v: &Vec<char>, from: usize, to: usize)
    requires
        from <= to <= v.len(),
    ensures
        final(out)@ == old(out)@ + v@.subrange(from as int, to as int),
{
    let mut i: usize = from;
    while i < to
        invariant
            from <= i <= to <= v.len(),
            out@ == old(out)@ + v@.subrange(from as int, i as int),
        decreases to - i,
    {
        out.push(v[i]);
        i += 1;
        assert(v@.subrange(from as int, i as int) == v@.subrange(from as int, i - 1).push(
            v@[i - 1],
        ));
    }
}

/// A string holding the characters of `v`.
pub fn string_of(v: &Vec<char>) -> (s: String)
    ensures
        s@ == v@,
{
    let mut s = String::new();
    push_range(&mut s, v, 0, v.len());
    assert(v@.subrange(0, v@.len() as int) == v@);
    s
}

// ---------------------------------------------------------------------
// Decimal numbers
/// The decimal digit character for `d` (0 to 9).
pub open spec fn digit_char(d: int) -> char {
    ((d + 48) as u32) as char
}

/// The decimal representation of a natural number, without leading zeros.
pub open spec fn nat_chars(n: nat) -> Seq<char>
    decreases n,
{
    if n < 10 {
        seq![digit_char(n as int)]
    } else {
        nat_chars(n / 10).push(digit_char((n % 10) as int))
    }
}

/// The decimal representation of an integer, with a leading `-` when it
/// is negative (as `Display` writes integers).
pub open spec fn int_chars(i: int) -> Seq<char> {
    if i < 0 {
        seq!['-'] + nat_chars((-i) as nat)
    } else {
        nat_chars(i as nat)
    }
}

fn digit_of(d: u64) -> (c: char)
    requires
        d < 10,
    ensures
        c == digit_char(d as int),
{
    let b: u8 = (d as u8) + 48;
    b as char
}

/// Append the decimal representation of `n` to `out`.
pub fn push_nat(out: &mut String, n: u64)
    ensures
        final(out)@ == old(out)@ + nat_chars(n as nat),
    decreases n,
{
    if n >= 10 {
        push_nat(out, n / 10);
    }
    out.push(digit_of(n % 10));
}

/// Append the decimal representation of `i` to `out`.
pub fn push_int(out: &mut String, i: i64)
    requires
        i > i64::MIN,
    ensures
        final(out)@ == old(out)@ + int_chars(i as int),
{
    if i < 0 {
        out.push('-');
        push_nat(out, (-i) as u64);
        assert(old(out)@.push('-') + nat_chars((-i) as nat) == old(out)@ + (seq!['-']
            + nat_chars((-i) as nat)));
    } else {
        push_nat(out, i as u64);
    }
}

// ---------------------------------------------------------------------
// Html escaping
/// How one character is written in html text: `"`, `&`, `'`, `<` and
/// `>` become character references, anything else stays as it is.
pub open spec fn escape_char(c: char) -> Seq<char> {
    if c == '"' {
        "&quot;"@
    } else if c == '&' {
        "&amp;"@
    } else if c == '\'' {
        "&#39;"@
    } else if c == '<' {
        "&lt;"@
    } else if c == '>' {
        "&gt;"@
    } else {
        seq![c]
    }
}

/// Html text for `s`, with each character escaped by `escape_char`.
pub open spec fn html_escape(s: Seq<char>) -> Seq<char>
    decreases s.len(),
{
    if s.len() == 0 {
        Seq::empty()
    } else {
        html_escape(s.drop_last()) + escape_char(s.last())
    }
}

fn push_escaped_char(out: &mut String, c: char)
    ensures
        final(out)@ == old(out)@ + escape_char(c),
{
    if c == '"' {
        out.append("&quot;");
    } else if c == '&' {
        out.append("&amp;");
    } else if c == '\'' {
        out.append("&#39;");
    } else if c == '<' {
        out.append("&lt;");
    } else if c == '>' {
        out.append("&gt;");
    } else {
        out.push(c);
        assert(old(out)@.push(c) == old(out)@ + seq![c]);
    }
}

/// Append `s` to `out` as escaped html text.
pub fn push_escaped(out: &mut String, s: &str)
    ensures
        final(out)@ == old(out)@ + html_escape(s@),
{
    for c in it: s.chars()
        invariant
            it.seq() == s@,
            out@ == old(out)@ + html_escape(it.seq().take(it.index() as int)),
    {
        let ghost i = it.index();
        push_escaped_char(out, c);
        assert(s@.take(i + 1).drop_last() == s@.take(i));
        assert(out@ == old(out)@ + html_escape(s@.take(i + 1)));
    }
    assert(s@.take(s@.len() as int) == s@);
}

/// Append the characters `v@` to `out` as escaped html text.
pub fn push_escaped_chars(out: &mut String, v: &Vec<char>)
    ensures
        final(out)@ == old(out)@ + html_escape(v@),
{
    let mut i: usize = 0;
    while i < v.len()
        invariant
            i <= v.len(),
            out@ == old(out)@ + html_escape(v@.take(i as int)),
        decreases v.len() - i,
    {
        push_escaped_char(out, v[i]);
        i += 1;
        assert(v@.take(i as int).drop_last() == v@.take(i - 1));
    }
    assert(v@.take(v@.len() as int) == v@);
}

/// Escaping distributes over concatenation.
pub proof fn lemma_escape_concat(a: Seq<char>, b: Seq<char>)
    ensures
        html_escape(a + b) == html_escape(a) + html_escape(b),
    decreases b.len(),
{
    if b.len() == 0 {
        assert(a + b == a);
    } else {
        lemma_escape_concat(a, b.drop_last());
        assert((a + b).drop_last() == a + b.drop_last());
    }
}

// ---------------------------------------------------------------------
// Whitespace
/// Ascii whitespace, as `u8::is_ascii_whitespace` defines it: space, tab,
/// line feed, form feed and carriage return.
pub open spec fn is_ascii_ws(c: char) -> bool {
    c == ' ' || c == '\t' || c == '\n' || c == '\x0C' || c == '\r'
}

/// The Unicode `White_Space` property, which `char::is_whitespace` tests.
pub open spec fn is_unicode_ws(c: char) -> bool {
    let u = c as u32;
    ||| 0x09 <= u <= 0x0D
    ||| u == 0x20
    ||| u == 0x85
    ||| u == 0xA0
    ||| u == 0x1680
    ||| 0x2000 <= u <= 0x200A
    ||| u == 0x2028
    ||| u == 0x2029
    ||| u == 0x202F
    ||| u == 0x205F
    ||| u == 0x3000
}

pub fn is_unicode_whitespace(c: char) -> (r: bool)
    ensures
        r == is_unicode_ws(c),
{
    let u = c as u32;
    (0x09 <= u && u <= 0x0D) || u == 0x20 || u == 0x85 || u == 0xA0 || u == 0x1680 || (0x2000
        <= u && u <= 0x200A) || u == 0x2028 || u == 0x2029 || u == 0x202F || u == 0x205F || u
        == 0x3000
}

// ---------------------------------------------------------------------
// Integers, as `FromStr` for the primitive integer types reads them
pub open spec fn is_digit(c: char) -> bool {
    '0' <= c && c <= '9'
}

pub open spec fn all_digits(s: Seq<char>) -> bool {
    forall|i: int| 0 <= i < s.len() ==> is_digit(#[trigger] s[i])
}

pub open spec fn digit_val(c: char) -> int {
    c as int - 48
}

/// The value of a sequence of decimal digits.
pub open spec fn digits_value(s: Seq<char>) -> int
    decreases s.len(),
{
    if s.len() == 0 {
        0
    } else {
        digits_value(s.drop_last()) * 10 + digit_val(s.last())
    }
}

/// The number that `s` denotes in the syntax of Rust's integer `FromStr`:
/// an optional `+` (or, when `signed`, `-`) followed by at least one
/// decimal digit and nothing else.
pub open spec fn int_syntax(s: Seq<char>, signed: bool) -> Option<int> {
    if s.len() == 0 {
        None
    } else if (s[0] == '+' || s[0] == '-') && s.len() == 1 {
        None
    } else if s[0] == '+' {
        if all_digits(s.skip(1)) {
            Some(digits_value(s.skip(1)))
        } else {
            None
        }
    } else if s[0] == '-' && signed {
        if all_digits(s.skip(1)) {
            Some(-digits_value(s.skip(1)))
        } else {
            None
        }
    } else if all_digits(s) {
        Some(digits_value(s))
    } else {
        None
    }
}

/// What `str::parse` gives for an integer type with the range `lo..=hi`
/// (signed when `lo` is negative): the number, or `None` for an error.
pub open spec fn parse_int_spec(s: Seq<char>, lo: int, hi: int) -> Option<int> {
    match int_syntax(s, lo < 0) {
        Some(v) => if lo <= v <= hi {
            Some(v)
        } else {
            None
        },
        None => None,
    }
}

proof fn lemma_digits_value_nonneg(s: Seq<char>)
    requires
        all_digits(s),
    ensures
        digits_value(s) >= 0,
    decreases s.len(),
{
    if s.len() > 0 {
        assert(all_digits(s.drop_last()));
        lemma_digits_value_nonneg(s.drop_last());
        assert(is_digit(s[s.len() - 1]));
    }
}

proof fn lemma_digits_prefix_le(s: Seq<char>, i: int)
    requires
        all_digits(s),
        0 <= i <= s.len(),
    ensures
        digits_value(s.take(i)) <= digits_value(s),
    decreases s.len() - i,
{
    if i < s.len() {
        lemma_digits_prefix_le(s, i + 1);
        assert(s.take(i + 1).drop_last() == s.take(i));
        assert(all_digits(s.take(i)));
        lemma_digits_value_nonneg(s.take(i));
        assert(is_digit(s[i]));
    } else {
        assert(s.take(i) == s);
    }
}

/// The decimal representation of a natural number is digits, and reads
/// back as the number.
pub proof fn lemma_nat_chars_value(n: nat)
    ensures
        all_digits(nat_chars(n)),
        digits_value(nat_chars(n)) == n,
        nat_chars(n).len() >= 1,
    decreases n,
{
    if n < 10 {
        assert(nat_chars(n).drop_last() =~= Seq::<char>::empty());
        assert(digit_val(digit_char(n as int)) == n);
        assert(digits_value(nat_chars(n)) == digits_value(nat_chars(n).drop_last()) * 10 + digit_val(nat_chars(n).last()));
    } else {
        lemma_nat_chars_value(n / 10);
        let s = nat_chars(n);
        assert(s.drop_last() =~= nat_chars(n / 10));
        assert(digit_val(digit_char((n % 10) as int)) == n % 10);
        assert(s.last() == digit_char((n % 10) as int));
        assert(digits_value(s) == digits_value(nat_chars(n / 10)) * 10 + n % 10);
        assert forall|i: int| 0 <= i < s.len() implies is_digit(#[trigger] s[i]) by {
            if i < s.len() - 1 {
                assert(s[i] == nat_chars(n / 10)[i]);
            }
        }
    }
}

/// An integer written in decimal reads back as the integer, with the
/// syntax of Rust's integer `FromStr`, in any range that holds it.
pub proof fn lemma_int_chars_parse(v: int, lo: int, hi: int)
    requires
        lo <= v <= hi,
        lo <= 0,
    ensures
        parse_int_spec(int_chars(v), lo, hi) == Some(v),
{
    if v < 0 {
        let d = nat_chars((-v) as nat);
        lemma_nat_chars_value((-v) as nat);
        let s = int_chars(v);
        assert(s.skip(1) =~= d);
        assert(s[0] == '-');
    } else {
        lemma_nat_chars_value(v as nat);
        let s = int_chars(v);
        assert(is_digit(s[0]));
    }
}

/// Read the digits `v[from..to]` as a number no larger than `bound`.
fn digits_upto(v: &Vec<char>, from: usize, to: usize, bound: i64) -> (r: Option<i64>)
    requires
        from <= to <= v.len(),
        0 <= bound <= 0xFFFF_FFFFi64,
    ensures
        r matches Some(x) ==> all_digits(v@.subrange(from as int, to as int)) && x == digits_value(
            v@.subrange(from as int, to as int),
        ) && x <= bound,
        r is None ==> !all_digits(v@.subrange(from as int, to as int)) || digits_value(
            v@.subrange(from as int, to as int),
        ) > bound,
{
    let ghost ds = v@.subrange(from as int, to as int);
    let mut acc: i64 = 0;
    let mut i: usize = from;
    while i < to
        invariant
            from <= i <= to <= v.len(),
            ds == v@.subrange(from as int, to as int),
            0 <= bound <= 0xFFFF_FFFFi64,
            all_digits(ds.take(i - from)),
            acc == digits_value(ds.take(i - from)),
            0 <= acc <= bound,
        decreases to - i,
    {
        let c = v[i];
        if !('0' <= c && c <= '9') {
            assert(ds[i - from] == c);
            return None;
        }
        let d = (c as u32 - 48) as i64;
        assert(ds.take(i + 1 - from).drop_last() == ds.take(i - from));
        acc = acc * 10 + d;
        i += 1;
        assert(all_digits(ds.take(i - from)));
        if acc > bound {
            proof {
                if all_digits(ds) {
                    lemma_digits_prefix_le(ds, i - from);
                }
            }
            return None;
        }
    }
    assert(ds.take(to - from) == ds);
    Some(acc)
}

/// Read `v[from..to]` as an integer in `lo..=hi`, with the syntax and the
/// errors of Rust's integer `FromStr`.
pub fn parse_int(v: &Vec<char>, from: usize, to: usize, lo: i64, hi: i64) -> (r: Option<i64>)
    requires
        from <= to <= v.len(),
        -0x8000_0000i64 <= lo <= 0,
        0 <= hi <= 0xFFFF_FFFFi64,
    ensures
        r matches Some(x) ==> parse_int_spec(v@.subrange(from as int, to as int), lo as int, hi as int)
            == Some(x as int),
        r is None ==> parse_int_spec(v@.subrange(from as int, to as int), lo as int, hi as int)
            is None,
{
    let ghost s = v@.subrange(from as int, to as int);
    if from == to {
        return None;
    }
    let first = v[from];
    assert(s[0] == first);
    if (first == '+' || first == '-') && to - from == 1 {
        return None;
    }
    if first == '+' {
        assert(s.skip(1) == v@.subrange(from + 1, to as int));
        match digits_upto(v, from + 1, to, hi) {
            Some(x) => {
                proof {
                    lemma_digits_value_nonneg(s.skip(1));
                }
                Some(x)
            },
            None => None,
        }
    } else if first == '-' && lo < 0 {
        assert(s.skip(1) == v@.subrange(from + 1, to as int));
        match digits_upto(v, from + 1, to, -lo) {
            Some(x) => {
                proof {
                    lemma_digits_value_nonneg(s.skip(1));
                }
                Some(-x)
            },
            None => None,
        }
    } else {
        let r = digits_upto(v, from, to, hi);
        proof {
            if r is Some {
                lemma_digits_value_nonneg(s);
            }
        }
        r
    }
}

// ---------------------------------------------------------------------
// Searching and replacing
/// `s` begins with `p`.
pub open spec fn has_prefix(s: Seq<char>, p: Seq<char>) -> bool {
    p.len() <= s.len() && s.take(p.len() as int) == p
}

/// `p` occurs in `s` at position `i`.
pub open spec fn occurs_at(s: Seq<char>, p: Seq<char>, i: int) -> bool {
    0 <= i && i + p.len() <= s.len() && s.subrange(i, i + p.len()) == p
}

/// `p` occurs somewhere in `s`.
pub open spec fn contains_seq(s: Seq<char>, p: Seq<char>) -> bool {
    exists|i: int| occurs_at(s, p, i)
}

/// `v[from..]` starts with the characters of `p`.
pub fn occurs_at_exec(v: &Vec<char>, from: usize, p: &str) -> (r: bool)
    requires
        from <= v.len(),
    ensures
        r == occurs_at(v@, p@, from as int),
{
    let pv = chars_of(p);
    if pv.len() > v.len() - from {
        return false;
    }
    let mut j: usize = 0;
    while j < pv.len()
        invariant
            from + pv.len() <= v.len(),
            j <= pv.len(),
            pv@ == p@,
            forall|k: int| 0 <= k < j ==> v@[from + k] == pv@[k],
        decreases pv.len() - j,
    {
        if v[from + j] != pv[j] {
            assert(v@.subrange(from as int, from + pv.len())[j as int] != pv@[j as int]);
            return false;
        }
        j += 1;
    }
    assert(v@.subrange(from as int, from + pv.len()) == pv@);
    true
}

/// `v` starts with `p`.
pub fn starts_with(v: &Vec<char>, p: &str) -> (r: bool)
    ensures
        r == has_prefix(v@, p@),
{
    let r = occurs_at_exec(v, 0, p);
    proof {
        if r {
            assert(v@.subrange(0, p@.len() as int) == v@.take(p@.len() as int));
        } else if p@.len() <= v@.len() {
            assert(v@.subrange(0, p@.len() as int) == v@.take(p@.len() as int));
        }
    }
    r
}

/// The first position at or after `from` where `p` occurs in `v`.
pub fn find_from(v: &Vec<char>, from: usize, p: &str) -> (r: Option<usize>)
    requires
        from <= v.len(),
    ensures
        r matches Some(i) ==> from <= i && occurs_at(v@, p@, i as int) && forall|j: int|
            from <= j < i ==> !occurs_at(v@, p@, j),
        r is None ==> forall|j: int| from <= j ==> !occurs_at(v@, p@, j),
{
    let mut i: usize = from;
    loop
        invariant
            from <= i <= v.len(),
            forall|j: int| from <= j < i ==> !occurs_at(v@, p@, j),
        decreases v.len() - i,
    {
        if occurs_at_exec(v, i, p) {
            return Some(i);
        }
        if i == v.len() {
            return None;
        }
        i += 1;
    }
}

/// The position of the first occurrence of `c` in `v`.
pub fn find_char(v: &Vec<char>, c: char) -> (r: Option<usize>)
    ensures
        r matches Some(i) ==> i < v.len() && v@[i as int] == c && forall|j: int|
            0 <= j < i ==> v@[j] != c,
        r is None ==> forall|j: int| 0 <= j < v.len() ==> v@[j] != c,
{
    let mut i: usize = 0;
    while i < v.len()
        invariant
            i <= v.len(),
            forall|j: int| 0 <= j < i ==> v@[j] != c,
        decreases v.len() - i,
    {
        if v[i] == c {
            return Some(i);
        }
        i += 1;
    }
    None
}

/// `s` with each occurrence of `p` replaced by `r`, scanning from the
/// left and never overlapping, as `str::replace` does.
pub open spec fn replace_all(s: Seq<char>, p: Seq<char>, r: Seq<char>) -> Seq<char>
    recommends
        p.len() > 0,
    decreases s.len(),
{
    if s.len() == 0 || p.len() == 0 {
        s
    } else if has_prefix(s, p) {
        r + replace_all(s.skip(p.len() as int), p, r)
    } else {
        seq![s[0]] + replace_all(s.skip(1), p, r)
    }
}

/// `s` with `p` replaced by `r` everywhere, as a character vector.
pub fn replace_str(v: &Vec<char>, p: &str, r: &str) -> (out: Vec<char>)
    requires
        p@.len() > 0,
    ensures
        out@ == replace_all(v@, p@, r@),
{
    let pv = chars_of(p);
    let rv = chars_of(r);
    let mut out: Vec<char> = Vec::new();
    let mut i: usize = 0;
    assert(v@.skip(0) == v@);
    while i < v.len()
        invariant
            i <= v.len(),
            pv@ == p@,
            rv@ == r@,
            p@.len() > 0,
            out@ + replace_all(v@.skip(i as int), p@, r@) == replace_all(v@, p@, r@),
        decreases v.len() - i,
    {
        let ghost rest = v@.skip(i as int);
        if occurs_at_exec(v, i, p) {
            assert(rest.take(p@.len() as int) == v@.subrange(i as int, i + p@.len()));
            assert(rest.skip(p@.len() as int) == v@.skip(i + p@.len()));
            let ghost before = out@;
            let mut k: usize = 0;
            while k < rv.len()
                invariant
                    k <= rv.len(),
                    rv@ == r@,
                    out@ == before + rv@.take(k as int),
                decreases rv.len() - k,
            {
                out.push(rv[k]);
                k += 1;
                assert(rv@.take(k as int) == rv@.take(k - 1).push(rv@[k - 1]));
            }
            assert(rv@.take(rv@.len() as int) == rv@);
            i += pv.len();
        } else {
            proof {
                if has_prefix(rest, p@) {
                    assert(rest.take(p@.len() as int) == v@.subrange(i as int, i + p@.len()));
                }
                assert(rest.skip(1) == v@.skip(i + 1));
            }
            out.push(v[i]);
            i += 1;
        }
    }
    out
}

}

verus! {

/// Whether two strings are equal.
pub fn str_eq(a: &str, b: &str) -> (r: bool)
    ensures
        r == (a@ == b@),
{
    let av = chars_of(a);
    let bv = chars_of(b);
    if av.len() != bv.len() {
        return false;
    }
    let mut i: usize = 0;
    while i < av.len()
        invariant
            av@ == a@,
            bv@ == b@,
            av.len() == bv.len(),
            i <= av.len(),
            forall|j: int| 0 <= j < i ==> av@[j] == bv@[j],
        decreases av.len() - i,
    {
        if av[i] != bv[i] {
            return false;
        }
        i += 1;
    }
    assert(av@ == bv@);
    true
}

/// A copy of `s`.
pub fn copy_str(s: &str) -> (r: String)
    ensures
        r@ == s@,
{
    let mut r = String::new();
    r.append(s);
    r
}

} // verus!
