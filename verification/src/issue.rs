//! Issues of the magazine: issue numbers (that may cover two numbers, as
//! in `25-26`), references to an issue by year and number, and the
//! compact "magic" number that orders them.
use crate::price::{Price, price_text};
use crate::text::{
    chars_of, find_char, int_chars, nat_chars, parse_int, parse_int_spec, push_int,
    string_of,
};
use vstd::prelude::*;

verus! {

/// The number of an issue within its year, with the text it is printed
/// as (such as `7` or `25-26`).
#[derive(Debug, PartialEq, Eq)]
pub struct Nr {
    number: i16,
    nr_str: String,
}

/// Why a text is not an issue reference.
#[derive(Debug, PartialEq, Eq, Structural)]
pub enum ParseError {
    BadIssue,
    BadYear,
    NoSpace,
}

/// An issue, by year and number.
#[derive(Debug, PartialEq, Eq)]
pub struct IssueRef {
    pub year: i16,
    pub number: Nr,
}

/// An issue as stored, with its details.
#[derive(Debug)]
pub struct Issue {
    pub id: i32,
    pub year: i16,
    pub number: i16,
    pub number_str: String,
    pub pages: Option<i16>,
    pub price: Option<Price>,
    pub cover_best: Option<i16>,
    pub magic: i16,
    pub ord: Option<i32>,
}

impl View for Nr {
    type V = (int, Seq<char>);

    closed spec fn view(&self) -> (int, Seq<char>) {
        (self.number as int, self.nr_str@)
    }
}

/// The text before the first `-` of `s` (all of `s` if there is none).
pub open spec fn before_dash(s: Seq<char>) -> Seq<char> {
    if s.contains('-') {
        s.take(choose_first(s, '-'))
    } else {
        s
    }
}

/// The position of the first `c` in `s`, where there is one.
pub open spec fn choose_first(s: Seq<char>, c: char) -> int {
    choose|i: int| 0 <= i < s.len() && s[i] == c && forall|j: int| 0 <= j < i ==> s[j] != c
}

/// The issue number that the text of an issue number denotes: the part
/// before its first `-`, read as an `i16`.
pub open spec fn nr_value(s: Seq<char>) -> Option<int> {
    parse_int_spec(before_dash(s), i16::MIN as int, i16::MAX as int)
}

/// A double issue is written with a `-`, as in `25-26`.
pub open spec fn is_double(s: Seq<char>) -> bool {
    s.contains('-')
}

/// The last number that an issue number covers.
pub open spec fn nr_last(n: (int, Seq<char>)) -> int {
    if is_double(n.1) {
        n.0 + 1
    } else {
        n.0
    }
}

/// What `IssueRef::from_str` gives for a text: the year before the first
/// space and the issue number after it.
pub open spec fn issue_ref_value(s: Seq<char>) -> Result<(int, (int, Seq<char>)), ParseError> {
    if !s.contains(' ') {
        Err(ParseError::NoSpace)
    } else {
        let p = choose_first(s, ' ');
        let rest = s.skip(p + 1);
        match parse_int_spec(s.take(p), i16::MIN as int, i16::MAX as int) {
            None => Err(ParseError::BadYear),
            Some(y) => match nr_value(rest) {
                None => Err(ParseError::BadIssue),
                Some(n) => Ok((y, (n, rest))),
            },
        }
    }
}

/// Integer division rounding towards zero, as `/` does on machine
/// integers (for a positive divisor).
pub open spec fn tdiv(a: int, b: int) -> int {
    if a >= 0 {
        a / b
    } else {
        -((-a) / b)
    }
}

/// The remainder that goes with `tdiv`, as `%` does on machine integers.
pub open spec fn tmod(a: int, b: int) -> int {
    a - tdiv(a, b) * b
}

/// How a number is written as an issue number, single or double.
pub open spec fn nr_text(number: int, double: bool) -> Seq<char> {
    if double {
        int_chars(number) + "-"@ + int_chars(number + 1)
    } else {
        int_chars(number)
    }
}

/// The issue that a magic number stands for: half of it counts issue
/// slots of 64 per year from 1950, and an odd magic is a double issue.
pub open spec fn from_magic_spec(n: int) -> (int, (int, Seq<char>)) {
    let double = tmod(n, 2) > 0;
    let h = tdiv(n, 2);
    let number = tmod(h, 64);
    (1950 + tdiv(h, 64), (number, nr_text(number, double)))
}

/// The sort number of an issue: 64 slots per year, counted from 1950.
pub open spec fn sortno_spec(year: int, number: int) -> int {
    (year - 1950) * 64 + number
}

/// The magic number of an issue: twice its sort number, plus one for a
/// double issue.
pub open spec fn magic_spec(year: int, nr: (int, Seq<char>)) -> int {
    sortno_spec(year, nr.0) * 2 + if is_double(nr.1) {
        1int
    } else {
        0int
    }
}

pub open spec fn fits_i16(v: int) -> bool {
    i16::MIN <= v <= i16::MAX
}

/// Every step of computing the sort number stays within `i16`.
pub open spec fn sortno_fits(year: int, number: int) -> bool {
    &&& fits_i16(year - 1950)
    &&& fits_i16((year - 1950) * 64)
    &&& fits_i16(sortno_spec(year, number))
}

/// Every step of computing the magic number stays within `i16`.
pub open spec fn magic_fits(year: int, nr: (int, Seq<char>)) -> bool {
    &&& sortno_fits(year, nr.0)
    &&& fits_i16(sortno_spec(year, nr.0) * 2)
    &&& fits_i16(magic_spec(year, nr))
}

/// `IssueRef`s are ordered by year, then by issue number.
pub open spec fn ref_le(a: (int, int), b: (int, int)) -> bool {
    a.0 < b.0 || (a.0 == b.0 && a.1 <= b.1)
}

/// The text of an issue number as it is printed, as `/N/YEAR` links and
/// `Fa N/YEAR` labels show it.
pub open spec fn issue_ref_html(year: int, number: int, nr_str: Seq<char>) -> Seq<char> {
    "<a href='/"@ + int_chars(year) + "/"@ + int_chars(number)
        + "'><span class='ifwide'>Fa</span> "@ + nr_str + "\u{200b}/"@ + int_chars(year)
        + "</a>"@
}

/// The site-relative url of the cover image of an issue.
pub open spec fn cover_url_text(year: int, number: int) -> Seq<char> {
    "/c/f"@ + int_chars(year) + "-"@ + int_chars(number) + ".jpg"@
}

pub(crate) proof fn lemma_first_index(s: Seq<char>, c: char, i: int)
    requires
        0 <= i < s.len(),
        s[i] == c,
        forall|j: int| 0 <= j < i ==> s[j] != c,
    ensures
        s.contains(c),
        choose_first(s, c) == i,
{
    assert(s[i] == c);
    let k = choose_first(s, c);
    assert(0 <= k < s.len() && s[k] == c && forall|j: int| 0 <= j < k ==> s[j] != c);
    if k < i {
        assert(s[k] != c);
    }
    if k > i {
        assert(s[i] != c);
    }
}

/// The position of the first `c` in `v`, as `choose_first` describes it.
fn first_of(v: &Vec<char>, c: char) -> (r: Option<usize>)
    ensures
        r matches Some(i) ==> i < v.len() && v@.contains(c) && choose_first(v@, c) == i,
        r is None ==> !v@.contains(c),
{
    let r = find_char(v, c);
    proof {
        if let Some(i) = r {
            lemma_first_index(v@, c, i as int);
        } else if v@.contains(c) {
            let k = choose|k: int| 0 <= k < v@.len() && v@[k] == c;
            assert(v@[k] != c);
        }
    }
    r
}

impl Clone for Nr {
    fn clone(&self) -> (r: Self)
        ensures
            r@ == self@,
    {
        Nr { number: self.number, nr_str: self.nr_str.clone() }
    }
}

impl Nr {
    /// An issue number with its printed text, as it is stored.
    pub fn from_parts(number: i16, nr_str: String) -> (n: Nr)
        ensures
            n@ == (number as int, nr_str@),
    {
        Nr { number, nr_str }
    }

    /// Read an issue number such as `7` or `25-26`: the number is the
    /// part before the first `-`, and the text is kept as it is.
    pub fn parse(nr_str: &str) -> (r: Result<Nr, ParseError>)
        ensures
            r matches Ok(n) ==> nr_value(nr_str@) == Some(n@.0) && n@.1 == nr_str@,
            r matches Err(e) ==> e == ParseError::BadIssue && nr_value(nr_str@) is None,
    {
        let v = chars_of(nr_str);
        let end = match first_of(&v, '-') {
            Some(p) => p,
            None => v.len(),
        };
        assert(before_dash(v@) == v@.subrange(0, end as int)) by {
            if !v@.contains('-') {
                assert(v@.subrange(0, end as int) == v@);
            }
        }
        match parse_int(&v, 0, end, i16::MIN as i64, i16::MAX as i64) {
            Some(n) => Ok(Nr { number: n as i16, nr_str: string_of(&v) }),
            None => Err(ParseError::BadIssue),
        }
    }

    /// The number of an issue is an `i16`.
    pub proof fn lemma_in_range(&self)
        ensures
            fits_i16(self@.0),
    {
    }

    /// The first number of this issue.
    pub fn first(&self) -> (n: i16)
        ensures
            n == self@.0,
    {
        self.number
    }

    /// Whether this is a double issue (written with a `-`).
    pub fn is_double(&self) -> (d: bool)
        ensures
            d == is_double(self@.1),
    {
        let v = chars_of(self.nr_str.as_str());
        first_of(&v, '-').is_some()
    }

    /// The last number of this issue: the next number for a double issue.
    pub fn last(&self) -> (n: i16)
        requires
            fits_i16(nr_last(self@)),
        ensures
            n == nr_last(self@),
    {
        if self.is_double() {
            self.number + 1
        } else {
            self.number
        }
    }

    /// The text of this issue number, as it is printed.
    pub fn text(&self) -> (s: &str)
        ensures
            s@ == self@.1,
    {
        self.nr_str.as_str()
    }
}

/// The description of a parse error.
pub open spec fn parse_error_text(e: ParseError) -> Seq<char> {
    match e {
        ParseError::BadIssue => "Bad issue in input"@,
        ParseError::BadYear => "Bad year in input"@,
        ParseError::NoSpace => "Space missing in input"@,
    }
}

impl ParseError {
    /// A description of the error.
    pub fn message(&self) -> (s: &'static str)
        ensures
            s@ == parse_error_text(*self),
    {
        match self {
            ParseError::BadIssue => "Bad issue in input",
            ParseError::BadYear => "Bad year in input",
            ParseError::NoSpace => "Space missing in input",
        }
    }
}

/// `a / b` rounded towards zero, for a positive divisor.
fn trunc_div(a: i16, b: i16) -> (q: i16)
    requires
        b > 0,
    ensures
        q == tdiv(a as int, b as int),
{
    if a >= 0 {
        a / b
    } else {
        let pa: i32 = -(a as i32);
        let q: i32 = pa / (b as i32);
        (-q) as i16
    }
}

impl Clone for IssueRef {
    fn clone(&self) -> (r: Self)
        ensures
            r.year == self.year,
            r.number@ == self.number@,
    {
        IssueRef { year: self.year, number: self.number.clone() }
    }
}

impl IssueRef {
    /// The issue that a magic number stands for (see `Issue::magic_of`).
    pub fn from_magic(n: i16) -> (r: IssueRef)
        ensures
            (r.year as int, r.number@) == from_magic_spec(n as int),
    {
        let half = trunc_div(n, 2);
        let double = n - half * 2 > 0;
        let slot = trunc_div(half, 64);
        let number = half - slot * 64;
        let year = 1950 + slot;
        let mut nr_str = String::new();
        push_int(&mut nr_str, number as i64);
        if double {
            nr_str.append("-");
            push_int(&mut nr_str, (number + 1) as i64);
        }
        IssueRef { year, number: Nr { number, nr_str } }
    }

    /// Read a reference such as `1980 7`: a year, a space and an issue
    /// number.
    pub fn parse(s: &str) -> (r: Result<IssueRef, ParseError>)
        ensures
            r matches Ok(i) ==> issue_ref_value(s@) == Ok::<_, ParseError>((i.year as int, i.number@)),
            r matches Err(e) ==> issue_ref_value(s@) == Err::<(int, (int, Seq<char>)), _>(e),
    {
        let v = chars_of(s);
        match first_of(&v, ' ') {
            None => Err(ParseError::NoSpace),
            Some(p) => {
                let year = match parse_int(&v, 0, p, i16::MIN as i64, i16::MAX as i64) {
                    Some(y) => y as i16,
                    None => {
                        assert(v@.take(p as int) == v@.subrange(0, p as int));
                        return Err(ParseError::BadYear);
                    },
                };
                assert(v@.take(p as int) == v@.subrange(0, p as int));
                let mut rest = String::new();
                crate::text::push_range(&mut rest, &v, p + 1, v.len());
                assert(rest@ == v@.skip(p + 1));
                match Nr::parse(rest.as_str()) {
                    Ok(number) => Ok(IssueRef { year, number }),
                    Err(e) => Err(e),
                }
            },
        }
    }

    /// The sort number of this issue (see `sortno_spec`).
    pub fn sortno(&self) -> (n: i16)
        requires
            sortno_fits(self.year as int, self.number@.0),
        ensures
            n == sortno_spec(self.year as int, self.number@.0),
    {
        (self.year - 1950) * 64 + self.number.number
    }

    /// Whether this issue comes before or is `other`, by year and number.
    pub fn le(&self, other: &IssueRef) -> (r: bool)
        ensures
            r == ref_le((self.year as int, self.number@.0), (other.year as int, other.number@.0)),
    {
        self.year < other.year || (self.year == other.year && self.number.number
            <= other.number.number)
    }

    /// Site-relative url to the cover image of this issue.
    pub fn cover_url(&self) -> (s: String)
        ensures
            s@ == cover_url_text(self.year as int, self.number@.0),
    {
        let mut out = String::new();
        out.append("/c/f");
        push_int(&mut out, self.year as i64);
        out.append("-");
        push_int(&mut out, self.number.number as i64);
        out.append(".jpg");
        out
    }

    /// Append a link to this issue to `out`.
    pub fn to_html(&self, out: &mut String)
        ensures
            final(out)@ == old(out)@ + issue_ref_html(
                self.year as int,
                self.number@.0,
                self.number@.1,
            ),
    {
        out.append("<a href='/");
        push_int(out, self.year as i64);
        out.append("/");
        push_int(out, self.number.number as i64);
        out.append("'><span class='ifwide'>Fa</span> ");
        out.append(self.number.nr_str.as_str());
        out.append("\u{200b}/");
        push_int(out, self.year as i64);
        out.append("</a>");
    }
}

/// How an issue is shown: its number and year, then its page count and
/// price where they are known.
pub open spec fn issue_text(
    number_str: Seq<char>,
    year: int,
    pages: Option<int>,
    price: Option<int>,
) -> Seq<char> {
    number_str + "/"@ + int_chars(year) + match (pages, price) {
        (Some(pg), Some(pr)) => " ("@ + int_chars(pg) + " sidor, pris "@ + price_text(pr)
            + ")"@,
        (Some(pg), None) => " ("@ + int_chars(pg) + " sidor)"@,
        (None, Some(pr)) => " (pris "@ + price_text(pr) + ")"@,
        (None, None) => Seq::empty(),
    }
}

pub open spec fn opt_i16(o: Option<i16>) -> Option<int> {
    match o {
        Some(v) => Some(v as int),
        None => None,
    }
}

pub open spec fn opt_price(o: Option<Price>) -> Option<int> {
    match o {
        Some(p) => Some(p@),
        None => None,
    }
}

impl Issue {
    /// The magic number of an issue (see `magic_spec`).
    pub fn magic_of(year: i16, number: &Nr) -> (m: i16)
        requires
            magic_fits(year as int, number@),
        ensures
            m == magic_spec(year as int, number@),
    {
        let extra: i16 = if number.is_double() {
            1
        } else {
            0
        };
        ((year - 1950) * 64 + number.number) * 2 + extra
    }

    /// The magic number of an issue, where every step of computing it
    /// stays within `i16` (as `magic_of` needs); none where a step does
    /// not.
    pub fn magic_checked(year: i16, number: &Nr) -> (r: Option<i16>)
        ensures
            match r {
                Some(m) => magic_fits(year as int, number@) && m == magic_spec(year as int, number@),
                None => !magic_fits(year as int, number@),
            },
    {
        let y = year as i32 - 1950;
        if y < -32768 || y > 32767 {
            return None;
        }
        let a = y * 64;
        if a < -32768 || a > 32767 {
            return None;
        }
        let s = a + number.first() as i32;
        if s < -32768 || s > 32767 {
            return None;
        }
        let d = s * 2;
        if d < -32768 || d > 32767 {
            return None;
        }
        let m = d + if number.is_double() {
            1
        } else {
            0
        };
        if m < -32768 || m > 32767 {
            return None;
        }
        Some(Issue::magic_of(year, number))
    }

    /// Whether a stored issue has other details than those given (so that
    /// it needs updating).
    pub fn differs_from(
        &self,
        ord: Option<i32>,
        pages: Option<i16>,
        price: &Option<Price>,
        cover_best: Option<i16>,
    ) -> (r: bool)
        ensures
            r == (self.cover_best != cover_best || self.pages != pages || opt_price(self.price)
                != opt_price(*price) || self.ord != ord),
    {
        let same_price = match (&self.price, price) {
            (Some(a), Some(b)) => a.ore() == b.ore(),
            (None, None) => true,
            _ => false,
        };
        self.cover_best != cover_best || self.pages != pages || !same_price || self.ord != ord
    }

    /// Site-relative url to the cover image of this issue.
    pub fn cover_url(&self) -> (s: String)
        ensures
            s@ == cover_url_text(self.year as int, self.number as int),
    {
        let mut out = String::new();
        out.append("/c/f");
        push_int(&mut out, self.year as i64);
        out.append("-");
        push_int(&mut out, self.number as i64);
        out.append(".jpg");
        out
    }

    /// The issue as text, such as `7/1980 (52 sidor, pris 4:50)`.
    pub fn to_string(&self) -> (s: String)
        ensures
            s@ == issue_text(
                self.number_str@,
                self.year as int,
                opt_i16(self.pages),
                opt_price(self.price),
            ),
    {
        let mut out = String::new();
        out.append(self.number_str.as_str());
        out.append("/");
        push_int(&mut out, self.year as i64);
        match (&self.pages, &self.price) {
            (Some(pages), Some(price)) => {
                out.append(" (");
                push_int(&mut out, *pages as i64);
                out.append(" sidor, pris ");
                out.append(price.to_string().as_str());
                out.append(")");
            },
            (Some(pages), None) => {
                out.append(" (");
                push_int(&mut out, *pages as i64);
                out.append(" sidor)");
            },
            (None, Some(price)) => {
                out.append(" (pris ");
                out.append(price.to_string().as_str());
                out.append(")");
            },
            (None, None) => {},
        }
        out
    }
}

proof fn lemma_nat_chars_no_dash(n: nat)
    ensures
        !nat_chars(n).contains('-'),
    decreases n,
{
    if n >= 10 {
        lemma_nat_chars_no_dash(n / 10);
        let s = nat_chars(n);
        if s.contains('-') {
            let i = choose|i: int| 0 <= i < s.len() && s[i] == '-';
            if i < s.len() - 1 {
                assert(nat_chars(n / 10)[i] == '-');
            }
        }
    }
}

proof fn lemma_nr_text_double(number: int, double: bool)
    requires
        number >= 0,
    ensures
        is_double(nr_text(number, double)) == double,
{
    lemma_nat_chars_no_dash(number as nat);
    if double {
        let s = nr_text(number, true);
        let k = int_chars(number).len() as int;
        reveal_strlit("-");
        assert(("-"@)[0] == '-');
        assert((int_chars(number) + "-"@)[k] == '-');
        assert(s[k] == '-');
    }
}

/// A magic number gives back the issue it was made of: for any year from
/// 1950 to 2205 and any issue number below 64, single or double (written
/// as `N` or `N-M` with `M = N + 1`), the magic number fits in an `i16`
/// and `IssueRef::from_magic` of it is that issue again.
pub proof fn lemma_magic_round_trip(year: int, number: int, double: bool)
    requires
        1950 <= year <= 2205,
        0 <= number < 64,
    ensures
        magic_fits(year, (number, nr_text(number, double))),
        from_magic_spec(magic_spec(year, (number, nr_text(number, double)))) == (
            year,
            (number, nr_text(number, double)),
        ),
{
    let nr = (number, nr_text(number, double));
    lemma_nr_text_double(number, double);
    let y = year - 1950;
    let sn = y * 64 + number;
    assert(0 <= y * 64 <= 255 * 64) by (nonlinear_arith)
        requires
            0 <= y <= 255,
    ;
    let d: int = if double {
        1
    } else {
        0
    };
    let m = sn * 2 + d;
    assert(magic_spec(year, nr) == m);
    assert(m / 2 == sn && m % 2 == d) by (nonlinear_arith)
        requires
            m == sn * 2 + d,
            0 <= d <= 1,
            sn >= 0,
    ;
    assert(sn / 64 == y && sn % 64 == number) by (nonlinear_arith)
        requires
            sn == y * 64 + number,
            0 <= number < 64,
            y >= 0,
    ;
}

/// The sort number orders issues as `IssueRef::le` does, for issue
/// numbers from 0 to 63.
pub proof fn lemma_sortno_order(a: (int, int), b: (int, int))
    requires
        0 <= a.1 < 64,
        0 <= b.1 < 64,
    ensures
        ref_le(a, b) <==> sortno_spec(a.0, a.1) <= sortno_spec(b.0, b.1),
{
    if a.0 < b.0 {
        assert((a.0 - 1950) * 64 + 64 <= (b.0 - 1950) * 64) by (nonlinear_arith)
            requires
                a.0 < b.0,
        ;
    } else if a.0 > b.0 {
        assert((b.0 - 1950) * 64 + 64 <= (a.0 - 1950) * 64) by (nonlinear_arith)
            requires
                b.0 < a.0,
        ;
    }
}

} // verus!
