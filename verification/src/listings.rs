//! The command line listings: issue numbers of each year in compact
//! ranges, page counts of a year's issues, and the check of which titles
//! were published as daily strips or sunday pages.
use crate::issue::{Nr, nr_last, fits_i16};
use crate::sort::{is_stable_sort_by, lemma_strip_keys, stable_sort};
use crate::text::{int_chars, push_int};
use crate::title::{Title, daystrip_slugs, sunday_slugs};
use vstd::prelude::*;

verus! {

/// The issues grouped by year, as they come: a group for each run of
/// the same year, with its issue numbers in order.
pub open spec fn year_runs(s: Seq<(i16, Nr)>) -> Seq<(i16, Seq<Nr>)>
    decreases s.len(),
{
    if s.len() == 0 {
        Seq::empty()
    } else {
        let r = year_runs(s.drop_last());
        let (y, n) = s.last();
        if r.len() > 0 && r.last().0 == y {
            r.update(r.len() - 1, (y, r.last().1.push(n)))
        } else {
            r.push((y, seq![n]))
        }
    }
}

/// Issues in the order of their years.
pub open spec fn year_le(a: (i16, Nr), b: (i16, Nr)) -> bool {
    a.0 <= b.0
}

pub open spec fn year_order() -> spec_fn((i16, Nr), (i16, Nr)) -> bool {
    |a: (i16, Nr), b: (i16, Nr)| year_le(a, b)
}

/// The line of the issue listing for a year with these issues.
pub open spec fn year_line_text(year: int, numbers: Seq<Nr>) -> Seq<char> {
    int_chars(year) + ": "@ + ranges_from(nr_views(numbers), 0)
}

/// The issue numbers can be counted on from: the number after the last
/// of each is an `i16`.
pub open spec fn numbers_fit(s: Seq<(i16, Nr)>) -> bool {
    forall|i: int| 0 <= i < s.len() ==> fits_i16(nr_last((#[trigger] s[i]).1@) + 1)
}

pub open spec fn groups_view(g: Seq<(i16, Vec<Nr>)>) -> Seq<(i16, Seq<Nr>)> {
    g.map_values(|x: (i16, Vec<Nr>)| (x.0, x.1@))
}

/// The last issue of the run of consecutive issues that starts at `i`.
pub open spec fn run_end(s: Seq<(int, Seq<char>)>, i: int) -> int
    decreases s.len() - i,
{
    if 0 <= i && i + 1 < s.len() && s[i + 1].0 == nr_last(s[i]) + 1 {
        run_end(s, i + 1)
    } else {
        i
    }
}

/// The issues from `i` on, as runs such as `1 - 5` (or single issues),
/// separated by `, `.
pub open spec fn ranges_from(s: Seq<(int, Seq<char>)>, i: int) -> Seq<char>
    decreases s.len() - i,
{
    if i < 0 || i >= s.len() {
        Seq::empty()
    } else {
        let e = run_end(s, i);
        (if s[e].0 > s[i].0 {
            s[i].1 + " - "@ + s[e].1
        } else {
            s[i].1
        }) + (if e + 1 < s.len() {
            ", "@
        } else {
            Seq::empty()
        }) + if i < e + 1 <= s.len() {
            ranges_from(s, e + 1)
        } else {
            Seq::empty()
        }
    }
}

proof fn lemma_run_end_bounds(s: Seq<(int, Seq<char>)>, i: int)
    requires
        0 <= i < s.len(),
    ensures
        i <= run_end(s, i) < s.len(),
    decreases s.len() - i,
{
    if i + 1 < s.len() && s[i + 1].0 == nr_last(s[i]) + 1 {
        lemma_run_end_bounds(s, i + 1);
    }
}

pub open spec fn nr_views(v: Seq<Nr>) -> Seq<(int, Seq<char>)> {
    v.map_values(|n: Nr| n@)
}

/// A line of the issue listing: the year and its issues in runs.
pub fn year_line(year: i16, numbers: &Vec<Nr>) -> (s: String)
    requires
        forall|i: int| 0 <= i < numbers@.len() ==> fits_i16(nr_last(#[trigger] numbers@[i]@) + 1),
    ensures
        s@ == int_chars(year as int) + ": "@ + ranges_from(nr_views(numbers@), 0),
{
    let ghost s = nr_views(numbers@);
    let mut out = String::new();
    push_int(&mut out, year as i64);
    out.append(": ");
    let ghost start = out@;
    let n = numbers.len();
    let mut i: usize = 0;
    while i < n
        invariant
            n == numbers@.len(),
            s == nr_views(numbers@),
            i <= n,
            forall|k: int| 0 <= k < numbers@.len() ==> fits_i16(nr_last(#[trigger] numbers@[k]@) + 1),
            start + ranges_from(s, 0) == out@ + ranges_from(s, i as int),
        decreases n - i,
    {
        let first = i;
        let mut end = i;
        proof {
            numbers@[end as int].lemma_in_range();
        }
        while end + 1 < n && numbers[end + 1].first() == numbers[end].last() + 1
            invariant
                first <= end < n,
                n == numbers@.len(),
                fits_i16(numbers@[end as int]@.0),
                s == nr_views(numbers@),
                forall|k: int| 0 <= k < numbers@.len() ==> fits_i16(nr_last(#[trigger] numbers@[k]@) + 1),
                run_end(s, first as int) == run_end(s, end as int),
            decreases n - end,
        {
            assert(s[end + 1] == numbers@[end + 1]@ && s[end as int] == numbers@[end as int]@);
            end += 1;
            proof {
                numbers@[end as int].lemma_in_range();
            }
        }
        proof {
            assert(s[end as int] == numbers@[end as int]@);
            if end + 1 < n {
                assert(s[end + 1] == numbers@[end + 1]@);
            }
            assert(run_end(s, end as int) == end);
            assert(s[first as int] == numbers@[first as int]@);
        }
        out.append(numbers[first].text());
        if numbers[end].first() > numbers[first].first() {
            out.append(" - ");
            out.append(numbers[end].text());
        }
        if end + 1 < n {
            out.append(", ");
        }
        i = end + 1;
    }
    out
}

/// The pages of the issues of a year book: each issue from `issue` on,
/// with the number of pages between one start page and the next.  The
/// issues after the first follow on the last number of the one before.
pub open spec fn page_rows(issue: (int, Seq<char>), pages: Seq<u16>, k: int) -> (int, Seq<char>) {
    if k == 0 {
        issue
    } else {
        (nr_last(issue) + k, int_chars(nr_last(issue) + k))
    }
}

/// The start pages increase up to the `k`th.
pub open spec fn increasing_upto(pages: Seq<u16>, k: int) -> bool {
    forall|j: int| 0 <= j < k ==> #[trigger] pages[j] < pages[j + 1]
}

/// The number of issues that get a page count: one for each pair of start
/// pages, up to the first pair that does not increase.
pub open spec fn page_rows_len(pages: Seq<u16>) -> int
    decreases pages.len(),
{
    if pages.len() < 2 {
        0
    } else if pages[0] < pages[1] {
        1 + page_rows_len(pages.skip(1))
    } else {
        0
    }
}

/// A line of the page count listing: the issue right-aligned in six
/// characters and the page count in three.
pub open spec fn pad_left(s: Seq<char>, width: int) -> Seq<char> {
    if s.len() >= width {
        s
    } else {
        Seq::new((width - s.len()) as nat, |i: int| ' ') + s
    }
}

pub open spec fn page_line(nr_str: Seq<char>, pages: int) -> Seq<char> {
    pad_left(nr_str, 6) + ": "@ + pad_left(int_chars(pages), 3)
}

fn push_padded(out: &mut String, s: &str, width: usize)
    requires
        width <= 8,
    ensures
        final(out)@ == old(out)@ + pad_left(s@, width as int),
{
    let n = crate::text::chars_of(s).len();
    if n < width {
        let ghost before = out@;
        let mut k: usize = 0;
        while k < width - n
            invariant
                k <= width - n,
                out@ == before + Seq::new(k as nat, |i: int| ' '),
            decreases width - n - k,
        {
            out.push(' ');
            k += 1;
            assert(Seq::new(k as nat, |i: int| ' ') == Seq::new((k - 1) as nat, |i: int| ' ').push(' '));
        }
    }
    out.append(s);
}

proof fn lemma_rows_len_nonneg(pages: Seq<u16>)
    ensures
        page_rows_len(pages) >= 0,
    decreases pages.len(),
{
    if pages.len() >= 2 && pages[0] < pages[1] {
        lemma_rows_len_nonneg(pages.skip(1));
    }
}

/// Where the first `k + 1` pairs of start pages increase, that many
/// issues get a page count.
proof fn lemma_rows_len(pages: Seq<u16>, k: int)
    requires
        0 <= k,
        k + 1 < pages.len(),
        increasing_upto(pages, k + 1),
    ensures
        page_rows_len(pages) >= k + 1,
    decreases k,
{
    assert(pages[0] < pages[1]);
    assert(page_rows_len(pages) == 1 + page_rows_len(pages.skip(1)));
    if k == 0 {
        lemma_rows_len_nonneg(pages.skip(1));
    } else {
        let t = pages.skip(1);
        assert forall|j: int| 0 <= j < k implies #[trigger] t[j] < t[j + 1] by {
            assert(pages[j + 1] < pages[j + 2]);
        }
        lemma_rows_len(t, k - 1);
    }
}

/// The page counts of the issues of a year book, as lines, up to the
/// first start page that does not follow its predecessor; and whether all
/// start pages increase.
pub fn count_pages(issue: &Nr, pages: &Vec<u16>) -> (r: (Vec<String>, bool))
    requires
        page_rows_len(pages@) > 0 ==> fits_i16(nr_last(issue@) + page_rows_len(pages@)),
    ensures
        r.1 == increasing_upto(pages@, pages@.len() - 1),
        forall|k: int| 0 <= k < r.0@.len() ==> pages@[k] < pages@[k + 1] && (#[trigger] r.0@[k])@ == page_line(page_rows(issue@, pages@, k).1, pages@[k + 1] - pages@[k]),
        r.0@.len() <= pages@.len(),
        r.1 ==> r.0@.len() == if pages@.len() < 2 { 0 } else { pages@.len() - 1 },
        !r.1 ==> r.0@.len() < pages@.len() - 1 && pages@[r.0@.len() as int] >= pages@[r.0@.len() as int + 1],
{
    let mut lines: Vec<String> = Vec::new();
    if pages.len() < 2 {
        return (lines, true);
    }
    proof {
        issue.lemma_in_range();
    }
    let mut k: usize = 0;
    while k + 1 < pages.len()
        invariant
            k + 1 <= pages@.len(),
            lines@.len() == k,
            i16::MIN <= issue@.0 <= i16::MAX,
            page_rows_len(pages@) > 0 ==> fits_i16(nr_last(issue@) + page_rows_len(pages@)),
            increasing_upto(pages@, k as int),
            forall|j: int| 0 <= j < k ==> pages@[j] < pages@[j + 1] && (#[trigger] lines@[j])@ == page_line(page_rows(issue@, pages@, j).1, pages@[j + 1] - pages@[j]),
        decreases pages.len() - k,
    {
        let start = pages[k];
        let end = pages[k + 1];
        if end <= start {
            return (lines, false);
        }
        proof {
            lemma_rows_len(pages@, k as int);
        }
        let mut line = String::new();
        if k == 0 {
            push_padded(&mut line, issue.text(), 6);
        } else {
            let last = issue.last();
            let mut nr = String::new();
            push_int(&mut nr, last as i64 + k as i64);
            push_padded(&mut line, nr.as_str(), 6);
        }
        line.append(": ");
        let mut count = String::new();
        push_int(&mut count, (end - start) as i64);
        push_padded(&mut line, count.as_str(), 3);
        lines.push(line);
        k += 1;
    }
    (lines, true)
}

/// What is wrong in the day-strip and sunday-page data of a title.
#[derive(Debug, PartialEq, Eq, Structural)]
pub enum StripProblem {
    MissingDaystrips,
    UnexpectedDaystrips,
    MissingSundays,
    UnexpectedSundays,
}

/// The first problem with a title, given whether it has episodes with day
/// strips and with sunday pages.
pub open spec fn strip_problem(slug: Seq<char>, daystrip: bool, sundays: bool) -> Option<StripProblem> {
    let want_day = daystrip_slugs().contains(slug);
    let want_sun = sunday_slugs().contains(slug);
    if want_day && !daystrip {
        Some(StripProblem::MissingDaystrips)
    } else if !want_day && daystrip {
        Some(StripProblem::UnexpectedDaystrips)
    } else if want_sun && !sundays {
        Some(StripProblem::MissingSundays)
    } else if !want_sun && sundays {
        Some(StripProblem::UnexpectedSundays)
    } else {
        None
    }
}

/// A title is in order exactly when it has day strips just when it is in
/// the day-strip list and sunday pages just when it is in the sunday-page
/// list. Otherwise the day strips are reported first: missing where the
/// title is listed, unexpected where it is not; then, with the day strips
/// in order, the sunday pages in the same way.
pub proof fn lemma_strip_problems(slug: Seq<char>, daystrip: bool, sundays: bool)
    ensures
        strip_problem(slug, daystrip, sundays) is None <==> (daystrip == daystrip_slugs().contains(
            slug,
        ) && sundays == sunday_slugs().contains(slug)),
        daystrip_slugs().contains(slug) && !daystrip ==> strip_problem(slug, daystrip, sundays)
            == Some(StripProblem::MissingDaystrips),
        !daystrip_slugs().contains(slug) && daystrip ==> strip_problem(slug, daystrip, sundays)
            == Some(StripProblem::UnexpectedDaystrips),
        daystrip == daystrip_slugs().contains(slug) && sunday_slugs().contains(slug) && !sundays
            ==> strip_problem(slug, daystrip, sundays) == Some(StripProblem::MissingSundays),
        daystrip == daystrip_slugs().contains(slug) && !sunday_slugs().contains(slug) && sundays
            ==> strip_problem(slug, daystrip, sundays) == Some(StripProblem::UnexpectedSundays),
{
}

/// A title whose day strips or sunday pages are not as the lists of
/// `Title::has_daystrip` and `Title::has_sundays` say.
#[derive(Debug)]
pub struct StripError {
    pub problem: StripProblem,
    pub title: Title,
}

/// Check each title (with whether it has day strips and sunday pages)
/// against the lists; the first mismatch is the error.
pub fn check_strips(data: Vec<(Title, bool, bool)>) -> (r: Result<(), StripError>)
    ensures
        r is Ok <==> forall|i: int| 0 <= i < data@.len() ==> strip_problem((#[trigger] data@[i]).0.slug@, data@[i].1, data@[i].2) is None,
        r is Ok <==> forall|i: int| 0 <= i < data@.len() ==> (#[trigger] data@[i]).1 == daystrip_slugs().contains(data@[i].0.slug@) && data@[i].2 == sunday_slugs().contains(data@[i].0.slug@),
        r matches Err(e) ==> exists|i: int| 0 <= i < data@.len() && strip_problem((#[trigger] data@[i]).0.slug@, data@[i].1, data@[i].2) == Some(e.problem) && e.title == data@[i].0 && forall|j: int| 0 <= j < i ==> strip_problem((#[trigger] data@[j]).0.slug@, data@[j].1, data@[j].2) is None,
{
    let ghost input = data@;
    for x in it: data
        invariant
            it.seq() == input,
            forall|j: int| 0 <= j < it.index() ==> strip_problem((#[trigger] input[j]).0.slug@, input[j].1, input[j].2) is None,
    {
        let ghost k = it.index();
        let (title, daystrip, sundays) = x;
        let want_day = title.has_daystrip();
        let want_sun = title.has_sundays();
        let problem = if want_day && !daystrip {
            Some(StripProblem::MissingDaystrips)
        } else if !want_day && daystrip {
            Some(StripProblem::UnexpectedDaystrips)
        } else if want_sun && !sundays {
            Some(StripProblem::MissingSundays)
        } else if !want_sun && sundays {
            Some(StripProblem::UnexpectedSundays)
        } else {
            None
        };
        if let Some(problem) = problem {
            assert(strip_problem(input[k].0.slug@, input[k].1, input[k].2) == Some(problem));
            proof {
                lemma_strip_problems(input[k].0.slug@, input[k].1, input[k].2);
            }
            return Err(StripError { problem, title });
        }
    }
    proof {
        assert forall|i: int| 0 <= i < input.len() implies (#[trigger] input[i]).1
            == daystrip_slugs().contains(input[i].0.slug@) && input[i].2 == sunday_slugs().contains(
            input[i].0.slug@,
        ) by {
            lemma_strip_problems(input[i].0.slug@, input[i].1, input[i].2);
        }
    }
    Ok(())
}

impl StripError {
    /// A description of the problem.
    pub fn message(&self) -> (s: String)
        ensures
            s@ == (match self.problem {
                StripProblem::MissingDaystrips => "Expected daystrips for "@,
                StripProblem::UnexpectedDaystrips => "Unexpected daystrips for "@,
                StripProblem::MissingSundays => "Expected sundays for "@,
                StripProblem::UnexpectedSundays => "Unexpected sundays for "@,
            }) + self.title.title@ + " ("@ + self.title.slug@ + (match self.problem {
                StripProblem::MissingDaystrips => ") not found"@,
                StripProblem::UnexpectedDaystrips => ") found"@,
                StripProblem::MissingSundays => ") not found"@,
                StripProblem::UnexpectedSundays => ") found"@,
            }),
    {
        let mut out = String::new();
        match self.problem {
            StripProblem::MissingDaystrips => out.append("Expected daystrips for "),
            StripProblem::UnexpectedDaystrips => out.append("Unexpected daystrips for "),
            StripProblem::MissingSundays => out.append("Expected sundays for "),
            StripProblem::UnexpectedSundays => out.append("Unexpected sundays for "),
        }
        out.append(self.title.title.as_str());
        out.append(" (");
        out.append(self.title.slug.as_str());
        match self.problem {
            StripProblem::MissingDaystrips => out.append(") not found"),
            StripProblem::UnexpectedDaystrips => out.append(") found"),
            StripProblem::MissingSundays => out.append(") not found"),
            StripProblem::UnexpectedSundays => out.append(") found"),
        }
        out
    }
}

/// Sort the issues by year, keeping the order of each year's issues.
fn sort_by_year(rows: Vec<(i16, Nr)>) -> (r: Vec<(i16, Nr)>)
    ensures
        is_stable_sort_by(rows@, r@, year_order()),
{
    let ghost input = rows@;
    let mut keyed: Vec<(i64, (i16, Nr))> = Vec::new();
    for x in it: rows
        invariant
            it.seq() == input,
            keyed@.len() == it.index(),
            forall|i: int|
                0 <= i < keyed@.len() ==> (#[trigger] keyed@[i]).1 == input[i] && keyed@[i].0
                    == input[i].0,
    {
        keyed.push((x.0 as i64, x));
    }
    let ghost keyed_s = keyed@;
    let sorted = stable_sort(keyed);
    let ghost sorted_s = sorted@;
    proof {
        lemma_strip_keys(input, keyed_s, sorted_s, year_order());
    }
    let mut out: Vec<(i16, Nr)> = Vec::new();
    for e in it: sorted
        invariant
            it.seq() == sorted_s,
            out@ == sorted_s.map_values(|e: (i64, (i16, Nr))| e.1).take(it.index() as int),
    {
        let ghost k = it.index();
        out.push(e.1);
        assert(sorted_s.map_values(|e: (i64, (i16, Nr))| e.1).take(k + 1) == sorted_s.map_values(
            |e: (i64, (i16, Nr))| e.1,
        ).take(k).push(e.1));
    }
    let ghost all = sorted_s.map_values(|e: (i64, (i16, Nr))| e.1);
    assert(out@ == all.take(all.len() as int));
    assert(all.take(all.len() as int) == all);
    out
}

/// Each group of the runs of `s` holds issues of `s`.
proof fn lemma_runs_fit(s: Seq<(i16, Nr)>)
    requires
        numbers_fit(s),
    ensures
        forall|g: int, j: int|
            0 <= g < year_runs(s).len() && 0 <= j < year_runs(s)[g].1.len() ==> fits_i16(
                nr_last((#[trigger] year_runs(s)[g].1[j])@) + 1,
            ),
    decreases s.len(),
{
    if s.len() > 0 {
        let t = s.drop_last();
        assert forall|i: int| 0 <= i < t.len() implies fits_i16(nr_last((#[trigger] t[i]).1@) + 1) by {
            assert(t[i] == s[i]);
        }
        lemma_runs_fit(t);
        assert(s.last() == s[s.len() - 1]);
        let r = year_runs(t);
        let rr = year_runs(s);
        let y = s.last().0;
        let n = s.last().1;
        assert forall|g: int, j: int|
            0 <= g < rr.len() && 0 <= j < rr[g].1.len() implies fits_i16(
            nr_last((#[trigger] rr[g].1[j])@) + 1,
        ) by {
            if r.len() > 0 && r.last().0 == y {
                assert(r.last() == r[r.len() - 1]);
                if g == r.len() - 1 {
                    if j < r[g].1.len() {
                        assert(rr[g].1[j] == r[g].1[j]);
                    } else {
                        assert(rr[g].1[j] == n);
                    }
                } else {
                    assert(rr[g] == r[g]);
                }
            } else {
                if g < r.len() {
                    assert(rr[g] == r[g]);
                } else {
                    assert(rr[g].1 == seq![n]);
                }
            }
        }
    }
}

/// The lines of the issue listing: for each year with issues, in order,
/// the line of its issues (in the order given).
pub fn year_lines(rows: Vec<(i16, Nr)>) -> (r: Vec<String>)
    requires
        numbers_fit(rows@),
    ensures
        exists|sorted: Seq<(i16, Nr)>|
            #![trigger year_runs(sorted)]
            is_stable_sort_by(rows@, sorted, year_order())
                && r@.len() == year_runs(sorted).len() && forall|k: int|
                0 <= k < r@.len() ==> (#[trigger] r@[k])@ == year_line_text(
                    year_runs(sorted)[k].0 as int,
                    year_runs(sorted)[k].1,
                ),
{
    let ghost input = rows@;
    let sorted = sort_by_year(rows);
    let ghost sorted_s = sorted@;
    proof {
        let p = choose|p: Seq<int>|
            #[trigger] crate::sort::sorted_by(input, sorted_s, year_order(), p);
        assert forall|i: int| 0 <= i < sorted_s.len() implies fits_i16(
            nr_last((#[trigger] sorted_s[i]).1@) + 1,
        ) by {
            assert(sorted_s[i] == input[p[i]]);
            assert(input[p[i]] == input[p[i]]);
        }
        lemma_runs_fit(sorted_s);
    }
    let mut groups: Vec<(i16, Vec<Nr>)> = Vec::new();
    assert(sorted_s.take(0) =~= Seq::<(i16, Nr)>::empty());
    assert(groups_view(groups@) =~= Seq::<(i16, Seq<Nr>)>::empty());
    for x in it: sorted
        invariant
            it.seq() == sorted_s,
            groups_view(groups@) == year_runs(sorted_s.take(it.index() as int)),
    {
        let ghost k = it.index() as int;
        let ghost before = groups_view(groups@);
        assert(sorted_s.take(k + 1).drop_last() =~= sorted_s.take(k));
        assert(sorted_s.take(k + 1).last() == x);
        let (y, n) = x;
        let same = groups.len() > 0 && groups[groups.len() - 1].0 == y;
        if same {
            let (gy, mut numbers) = groups.pop().unwrap();
            numbers.push(n);
            groups.push((gy, numbers));
            assert(groups_view(groups@) =~= before.update(before.len() - 1, (y, before.last().1.push(n))));
        } else {
            let mut numbers: Vec<Nr> = Vec::new();
            numbers.push(n);
            assert(numbers@ =~= seq![n]);
            groups.push((y, numbers));
            assert(groups_view(groups@) =~= before.push((y, seq![n])));
        }
    }
    assert(sorted_s.take(sorted_s.len() as int) =~= sorted_s);
    let ghost runs = year_runs(sorted_s);
    let mut lines: Vec<String> = Vec::new();
    let mut g: usize = 0;
    while g < groups.len()
        invariant
            groups_view(groups@) == runs,
            runs == year_runs(sorted_s),
            g <= groups@.len(),
            lines@.len() == g,
            forall|a: int, j: int|
                0 <= a < runs.len() && 0 <= j < runs[a].1.len() ==> fits_i16(
                    nr_last((#[trigger] runs[a].1[j])@) + 1,
                ),
            forall|i: int|
                0 <= i < g ==> (#[trigger] lines@[i])@ == year_line_text(runs[i].0 as int, runs[i].1),
        decreases groups@.len() - g,
    {
        assert(runs[g as int] == (groups@[g as int].0, groups@[g as int].1@));
        assert forall|i: int| 0 <= i < groups@[g as int].1@.len() implies fits_i16(
            nr_last((#[trigger] groups@[g as int].1@[i])@) + 1,
        ) by {
            assert(runs[g as int].1[i] == groups@[g as int].1@[i]);
        }
        let line = year_line(groups[g].0, &groups[g].1);
        lines.push(line);
        g += 1;
    }
    lines
}

} // verus!
