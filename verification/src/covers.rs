//! The names under which cover images are requested: `f1980-7.jpg`, and
//! the older `c1980` / `s7.jpg` (or `s25-26.jpg`) pairs.
use crate::issue::{choose_first, cover_url_text, lemma_first_index};
use crate::text::{
    all_digits, chars_of, contains_seq, find_char, find_from, has_prefix, int_chars, is_digit,
    lemma_int_chars_parse, lemma_nat_chars_value, nat_chars, occurs_at, parse_int, parse_int_spec,
    starts_with,
};
use vstd::prelude::*;

verus! {

/// A cover image requested by year and issue number.
#[derive(Debug, PartialEq, Eq, Structural)]
pub struct CoverRef {
    pub year: i16,
    pub number: i16,
}

/// The year part of an old cover address.
#[derive(Debug, PartialEq, Eq, Structural)]
pub struct CYear(pub i16);

/// The issue part of an old cover address.
#[derive(Debug, PartialEq, Eq, Structural)]
pub struct SIssue(pub i16);

/// The first position where `p` occurs in `s`.
pub open spec fn first_at(s: Seq<char>, p: Seq<char>) -> int {
    choose|i: int| occurs_at(s, p, i) && forall|j: int| 0 <= j < i ==> !occurs_at(s, p, j)
}

pub open spec fn parse_i16(s: Seq<char>) -> Option<int> {
    parse_int_spec(s, i16::MIN as int, i16::MAX as int)
}

/// What a cover name `fYYYY-NN.jpg` denotes: the year between the `f`
/// and the first `-`, and the number between that and the first `.jpg`;
/// or the step at which it failed: 0 without the `f`, 1 without a `-`,
/// 2 without `.jpg`, 3 for a bad year and 4 for a bad number.
pub open spec fn cover_ref_value(s: Seq<char>) -> Result<(int, int), u8> {
    if !has_prefix(s, "f"@) {
        Err(0)
    } else if !s.contains('-') {
        Err(1)
    } else if !contains_seq(s, ".jpg"@) {
        Err(2)
    } else {
        let p1 = choose_first(s, '-');
        let p2 = first_at(s, ".jpg"@);
        match parse_i16(s.subrange(1, p1)) {
            None => Err(3),
            Some(y) => match parse_i16(s.subrange(p1 + 1, p2)) {
                None => Err(4),
                Some(n) => Ok((y, n)),
            },
        }
    }
}

/// What an old cover year `cYYYY` denotes.
pub open spec fn cyear_value(s: Seq<char>) -> Result<int, u8> {
    if !has_prefix(s, "c"@) {
        Err(0)
    } else {
        match parse_i16(s.skip(1)) {
            None => Err(3),
            Some(y) => Ok(y),
        }
    }
}

/// The name of the cover of a double issue `n`.
pub open spec fn double_cover_name(n: int) -> Seq<char> {
    "s"@ + int_chars(n) + "-"@ + int_chars(n + 1) + ".jpg"@
}

/// The old cover names of a double issue can not name the last `i16`.
pub open spec fn sissue_ok(s: Seq<char>) -> bool {
    has_prefix(s, "s"@) && s.contains('-') ==> parse_i16(s.subrange(1, choose_first(s, '-')))
        != Some(i16::MAX as int)
}

/// What an old cover issue name `sNN.jpg` or `sNN-MM.jpg` denotes: the
/// number, where a double issue must be written exactly as `sN-M.jpg`
/// with `M = N + 1`.
pub open spec fn sissue_value(s: Seq<char>) -> Result<int, u8> {
    if !has_prefix(s, "s"@) {
        Err(0)
    } else if s.contains('-') {
        match parse_i16(s.subrange(1, choose_first(s, '-'))) {
            Some(n) => if double_cover_name(n) == s {
                Ok(n)
            } else {
                Err(4)
            },
            None => Err(4),
        }
    } else if !contains_seq(s, ".jpg"@) {
        Err(2)
    } else {
        match parse_i16(s.subrange(1, first_at(s, ".jpg"@))) {
            None => Err(3),
            Some(n) => Ok(n),
        }
    }
}

proof fn lemma_prefix_f(s: Seq<char>)
    requires
        has_prefix(s, "f"@),
    ensures
        s.len() >= 1,
        s[0] == 'f',
{
    reveal_strlit("f");
    assert(s.take(1)[0] == s[0]);
}

proof fn lemma_prefix_s(s: Seq<char>)
    requires
        has_prefix(s, "s"@),
    ensures
        s.len() >= 1,
        s[0] == 's',
{
    reveal_strlit("s");
    assert(s.take(1)[0] == s[0]);
}

proof fn lemma_prefix_c(s: Seq<char>)
    requires
        has_prefix(s, "c"@),
    ensures
        s.len() >= 1,
{
    reveal_strlit("c");
}

proof fn lemma_jpg_not_at_s(s: Seq<char>)
    requires
        s.len() > 0,
        s[0] == 's',
    ensures
        !occurs_at(s, ".jpg"@, 0),
{
    reveal_strlit(".jpg");
    if occurs_at(s, ".jpg"@, 0) {
        assert(s.subrange(0, 4)[0] == s[0]);
    }
}

proof fn lemma_first_at(s: Seq<char>, p: Seq<char>, i: int)
    requires
        occurs_at(s, p, i),
        forall|j: int| 0 <= j < i ==> !occurs_at(s, p, j),
    ensures
        contains_seq(s, p),
        first_at(s, p) == i,
{
    let k = first_at(s, p);
    assert(occurs_at(s, p, k) && forall|j: int| 0 <= j < k ==> !occurs_at(s, p, j));
    if k < i {
        assert(!occurs_at(s, p, k));
    }
    if k > i {
        assert(!occurs_at(s, p, i));
    }
}

/// The first position of `p` in `v`, as `first_at` describes it.
fn first_occurrence(v: &Vec<char>, p: &str) -> (r: Option<usize>)
    ensures
        r matches Some(i) ==> contains_seq(v@, p@) && first_at(v@, p@) == i && i + p@.len()
            <= v@.len() && occurs_at(v@, p@, i as int),
        r is None ==> !contains_seq(v@, p@),
{
    let r = find_from(v, 0, p);
    proof {
        if let Some(i) = r {
            lemma_first_at(v@, p@, i as int);
        } else if contains_seq(v@, p@) {
            let k = choose|k: int| occurs_at(v@, p@, k);
            assert(!occurs_at(v@, p@, k));
        }
    }
    r
}

/// The first position of `c` in `v`, as `choose_first` describes it.
fn first_char(v: &Vec<char>, c: char) -> (r: Option<usize>)
    ensures
        r matches Some(i) ==> i < v@.len() && v@.contains(c) && choose_first(v@, c) == i && v@[i as int] == c,
        r is None ==> !v@.contains(c),
{
    let r = find_char(v, c);
    proof {
        if let Some(i) = r {
            let k = choose_first(v@, c);
            assert(v@[i as int] == c);
            assert(0 <= k < v@.len() && v@[k] == c && forall|j: int| 0 <= j < k ==> v@[j] != c);
            if k < i {
                assert(v@[k] != c);
            }
            if k > i {
                assert(v@[i as int] != c);
            }
        } else if v@.contains(c) {
            let k = choose|k: int| 0 <= k < v@.len() && v@[k] == c;
            assert(v@[k] != c);
        }
    }
    r
}

/// The name of the cover image of an issue, as `Issue::cover_url`
/// writes it after `/c/`.
pub open spec fn cover_name(year: int, number: int) -> Seq<char> {
    "f"@ + int_chars(year) + "-"@ + int_chars(number) + ".jpg"@
}

/// Each character of a number written in decimal is a digit or `-`.
proof fn lemma_int_chars_chars(v: int)
    ensures
        forall|i: int|
            0 <= i < int_chars(v).len() ==> is_digit(#[trigger] int_chars(v)[i]) || int_chars(v)[i]
                == '-',
        v >= 0 ==> all_digits(int_chars(v)),
{
    if v < 0 {
        lemma_nat_chars_value((-v) as nat);
        let s = int_chars(v);
        assert forall|i: int| 0 <= i < s.len() implies is_digit(#[trigger] s[i]) || s[i] == '-' by {
            if i > 0 {
                assert(s[i] == nat_chars((-v) as nat)[i - 1]);
            }
        }
    } else {
        lemma_nat_chars_value(v as nat);
    }
}

/// A cover name made of the texts of a year and a number.
#[verifier::opaque]
spec fn name_of(y: Seq<char>, n: Seq<char>) -> Seq<char> {
    seq!['f'] + y + seq!['-'] + n + seq!['.', 'j', 'p', 'g']
}

/// In a cover name whose year is digits, the first `-` ends the year.
proof fn lemma_name_dash(y: Seq<char>, n: Seq<char>)
    requires
        all_digits(y),
    ensures
        name_of(y, n).contains('-'),
        choose_first(name_of(y, n), '-') == 1 + y.len(),
        has_prefix(name_of(y, n), "f"@),
        name_of(y, n).subrange(1, 1 + y.len() as int) == y,
{
    reveal(name_of);
    reveal_strlit("f");
    let s = name_of(y, n);
    assert(s.take(1) =~= "f"@);
    assert(s.subrange(1, 1 + y.len() as int) =~= y);
    let ly = y.len() as int;
    assert forall|j: int| 0 <= j < 1 + ly implies s[j] != '-' by {
        if j > 0 {
            assert(s[j] == y[j - 1]);
            assert(is_digit(y[j - 1]));
        }
    }
    assert(s[1 + ly] == '-');
    lemma_first_index(s, '-', 1 + ly);
}

/// In a cover name whose year is digits and whose number is digits and
/// `-`, the first `.jpg` ends the number.
proof fn lemma_name_jpg(y: Seq<char>, n: Seq<char>)
    requires
        all_digits(y),
        forall|i: int| 0 <= i < n.len() ==> is_digit(#[trigger] n[i]) || n[i] == '-',
    ensures
        contains_seq(name_of(y, n), ".jpg"@),
        first_at(name_of(y, n), ".jpg"@) == 2 + y.len() + n.len(),
        name_of(y, n).subrange(2 + y.len() as int, 2 + y.len() + n.len() as int) == n,
{
    reveal(name_of);
    reveal_strlit(".jpg");
    let s = name_of(y, n);
    assert(s.subrange(2 + y.len() as int, 2 + y.len() + n.len() as int) =~= n);
    let ly = y.len() as int;
    let q = 2 + ly + n.len();
    assert forall|j: int| 0 <= j < q implies !occurs_at(s, ".jpg"@, j) by {
        if occurs_at(s, ".jpg"@, j) {
            assert(s.subrange(j, j + 4)[0] == s[j]);
            if 1 <= j < 1 + ly {
                assert(s[j] == y[j - 1]);
                assert(is_digit(y[j - 1]));
            } else if 2 + ly <= j {
                assert(s[j] == n[j - 2 - ly]);
                assert(is_digit(n[j - 2 - ly]) || n[j - 2 - ly] == '-');
            }
        }
    }
    assert(s.subrange(q, q + 4) =~= ".jpg"@);
    lemma_first_at(s, ".jpg"@, q);
}

/// A cover name reads as the year and number it was made of.
#[verifier::rlimit(50)]
proof fn lemma_name_value(y: Seq<char>, n: Seq<char>, year: int, number: int)
    requires
        all_digits(y),
        forall|i: int| 0 <= i < n.len() ==> is_digit(#[trigger] n[i]) || n[i] == '-',
        parse_i16(y) == Some(year),
        parse_i16(n) == Some(number),
    ensures
        cover_ref_value(name_of(y, n)) == Ok::<(int, int), u8>((year, number)),
{
    lemma_name_dash(y, n);
    lemma_name_jpg(y, n);
}

proof fn lemma_cover_name_shape(y: Seq<char>, n: Seq<char>)
    ensures
        "f"@ + y + "-"@ + n + ".jpg"@ == name_of(y, n),
        "/c/f"@ + y + "-"@ + n + ".jpg"@ == "/c/"@ + name_of(y, n),
{
    reveal(name_of);
    reveal_strlit("f");
    reveal_strlit("-");
    reveal_strlit(".jpg");
    reveal_strlit("/c/");
    reveal_strlit("/c/f");
    assert("f"@ + y + "-"@ + n + ".jpg"@ =~= name_of(y, n));
    assert("/c/f"@ + y + "-"@ + n + ".jpg"@ =~= "/c/"@ + name_of(y, n));
}

/// The cover address that the site writes for an issue reads back as
/// that issue: for a year from 0 and any issue number, the name after
/// `/c/` in the address of its cover reads, by `CoverRef::parse`, as the
/// same year and number.
pub proof fn lemma_cover_url_round_trip(year: int, number: int)
    requires
        0 <= year <= i16::MAX,
        i16::MIN <= number <= i16::MAX,
    ensures
        cover_url_text(year, number) == "/c/"@ + cover_name(year, number),
        cover_ref_value(cover_name(year, number)) == Ok::<(int, int), u8>((year, number)),
{
    let y = int_chars(year);
    let n = int_chars(number);
    lemma_cover_name_shape(y, n);
    lemma_int_chars_chars(year);
    lemma_int_chars_chars(number);
    lemma_int_chars_parse(year, i16::MIN as int, i16::MAX as int);
    lemma_int_chars_parse(number, i16::MIN as int, i16::MAX as int);
    lemma_name_value(y, n, year, number);
}

/// Where the year of a cover name reads as a number, `.jpg` does not come
/// before the `-` that ends the year.
proof fn lemma_jpg_after_year(s: Seq<char>, p1: int, p2: int)
    requires
        1 <= p1 < s.len(),
        s[p1] == '-',
        s[0] == 'f',
        occurs_at(s, ".jpg"@, p2),
        parse_i16(s.subrange(1, p1)) is Some,
    ensures
        p1 + 1 <= p2,
{
    reveal_strlit(".jpg");
    assert(s.subrange(p2, p2 + 4)[0] == s[p2]);
    assert(s[p2] == '.');
    if p2 < p1 {
        let y = s.subrange(1, p1);
        assert(p2 >= 1);
        assert(y[p2 - 1] == '.');
        if p2 - 1 == 0 {
            assert(!is_digit(y[0]));
        } else {
            assert(y.skip(1)[p2 - 2] == '.');
            assert(!all_digits(y.skip(1)));
            assert(!all_digits(y));
        }
    }
}

impl CoverRef {
    /// Read a cover name `fYYYY-NN.jpg`.
    #[verifier::rlimit(40)]
    pub fn parse(s: &str) -> (r: Result<CoverRef, u8>)
        ensures
            match cover_ref_value(s@) {
                Ok((y, n)) => r == Ok::<CoverRef, u8>(CoverRef { year: y as i16, number: n as i16 }),
                Err(e) => r == Err::<CoverRef, u8>(e),
            },
    {
        let v = chars_of(s);
        if !starts_with(&v, "f") {
            return Err(0);
        }
        let p1 = match first_char(&v, '-') {
            Some(p) => p,
            None => return Err(1),
        };
        let p2 = match first_occurrence(&v, ".jpg") {
            Some(p) => p,
            None => return Err(2),
        };
        proof {
            lemma_prefix_f(v@);
        }
        assert(p1 >= 1) by {
            if p1 == 0 {
                assert(v@[0] == '-');
            }
        }
        let year = match parse_int(&v, 1, p1, i16::MIN as i64, i16::MAX as i64) {
            Some(y) => y as i16,
            None => return Err(3),
        };
        proof {
            lemma_jpg_after_year(v@, p1 as int, p2 as int);
        }
        let number = match parse_int(&v, p1 + 1, p2, i16::MIN as i64, i16::MAX as i64) {
            Some(n) => n as i16,
            None => return Err(4),
        };
        Ok(CoverRef { year, number })
    }
}

/// The address that an old cover address redirects to.
pub fn cover_redirect_url(year: &CYear, issue: &SIssue) -> (s: String)
    ensures
        s@ == crate::issue::cover_url_text(year.0 as int, issue.0 as int),
{
    let mut out = String::new();
    out.append("/c/f");
    crate::text::push_int(&mut out, year.0 as i64);
    out.append("-");
    crate::text::push_int(&mut out, issue.0 as i64);
    out.append(".jpg");
    out
}

impl CYear {
    /// Read an old cover year `cYYYY`.
    pub fn parse(s: &str) -> (r: Result<CYear, u8>)
        ensures
            match cyear_value(s@) {
                Ok(y) => r == Ok::<CYear, u8>(CYear(y as i16)),
                Err(e) => r == Err::<CYear, u8>(e),
            },
    {
        let v = chars_of(s);
        if !starts_with(&v, "c") {
            return Err(0);
        }
        proof {
            lemma_prefix_c(v@);
            assert(v@.subrange(1, v@.len() as int) == v@.skip(1));
        }
        match parse_int(&v, 1, v.len(), i16::MIN as i64, i16::MAX as i64) {
            Some(y) => Ok(CYear(y as i16)),
            None => Err(3),
        }
    }
}

fn sissue_double(s: &str, v: &Vec<char>, p: usize) -> (r: Result<SIssue, u8>)
    requires
        v@ == s@,
        1 <= p < v@.len(),
        parse_i16(v@.subrange(1, p as int)) != Some(i16::MAX as int),
    ensures
        r == match parse_i16(v@.subrange(1, p as int)) {
            Some(n) => if double_cover_name(n) == s@ {
                Ok::<SIssue, u8>(SIssue(n as i16))
            } else {
                Err(4)
            },
            None => Err(4),
        },
{
    if let Some(n) = parse_int(v, 1, p, i16::MIN as i64, i16::MAX as i64) {
        let n = n as i16;
        let mut name = String::new();
        name.append("s");
        crate::text::push_int(&mut name, n as i64);
        name.append("-");
        crate::text::push_int(&mut name, (n + 1) as i64);
        name.append(".jpg");
        if crate::text::str_eq(name.as_str(), s) {
            return Ok(SIssue(n));
        }
    }
    Err(4)
}

fn sissue_single(v: &Vec<char>) -> (r: Result<SIssue, u8>)
    requires
        v@.len() > 0,
        v@[0] == 's',
    ensures
        r == if !contains_seq(v@, ".jpg"@) {
            Err::<SIssue, u8>(2)
        } else {
            match parse_i16(v@.subrange(1, first_at(v@, ".jpg"@))) {
                None => Err(3),
                Some(n) => Ok(SIssue(n as i16)),
            }
        },
{
    let p = match first_occurrence(v, ".jpg") {
        Some(p) => p,
        None => return Err(2),
    };
    if p < 1 {
        proof {
            lemma_jpg_not_at_s(v@);
            assert(occurs_at(v@, ".jpg"@, p as int));
        }
        return Err(3);
    }
    match parse_int(v, 1, p, i16::MIN as i64, i16::MAX as i64) {
        Some(n) => Ok(SIssue(n as i16)),
        None => Err(3),
    }
}

impl SIssue {
    /// Read an old cover issue name `sNN.jpg` or `sN-M.jpg`.
    pub fn parse(s: &str) -> (r: Result<SIssue, u8>)
        requires
            sissue_ok(s@),
        ensures
            match sissue_value(s@) {
                Ok(n) => r == Ok::<SIssue, u8>(SIssue(n as i16)),
                Err(e) => r == Err::<SIssue, u8>(e),
            },
    {
        let v = chars_of(s);
        if !starts_with(&v, "s") {
            return Err(0);
        }
        proof {
            lemma_prefix_s(v@);
        }
        match first_char(&v, '-') {
            Some(p) => {
                assert(p >= 1) by {
                    if p == 0 {
                        assert(v@[0] == '-');
                    }
                }
                sissue_double(s, &v, p)
            },
            None => sissue_single(&v),
        }
    }
}

} // verus!
