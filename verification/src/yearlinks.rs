//! Links between the years of the index.
use crate::text::{int_chars, push_int};
use vstd::prelude::*;

verus! {

/// Links to the years from `first` to `last`, showing `shown`.
#[derive(Debug)]
pub struct YearLinks {
    pub first: i16,
    pub shown: i16,
    pub last: i16,
    pub link_current: bool,
}

/// The link to one year: the shown year in bold (and linked only when
/// `link_current`).
pub open spec fn year_link(y: int, shown: int, link_current: bool) -> Seq<char> {
    if y == shown {
        if link_current {
            "<a href='/"@ + int_chars(y) + "'><b>"@ + int_chars(y) + "</b></a>"@
        } else {
            "<b>"@ + int_chars(y) + "</b>"@
        }
    } else {
        "<a href='/"@ + int_chars(y) + "'>"@ + int_chars(y) + "</a>"@
    }
}

/// Whether the year `y` gets a link: each tenth year, the years close to
/// the shown one, and the last year.
pub open spec fn year_listed(y: int, shown: int, last: int) -> bool {
    y % 10 == 0 || (if y >= shown {
        y - shown
    } else {
        shown - y
    }) < 3 || y == last
}

/// The links to the years from `y` to `last`, each preceded by `, `, or
/// by `… ` after years left out.
pub open spec fn year_tail(y: int, last: int, shown: int, link_current: bool, skip: bool) -> Seq<
    char,
>
    decreases last - y + 1,
{
    if y > last {
        Seq::empty()
    } else if year_listed(y, shown, last) {
        (if skip {
            "… "@
        } else {
            ", "@
        }) + year_link(y, shown, link_current) + year_tail(y + 1, last, shown, link_current, false)
    } else {
        year_tail(y + 1, last, shown, link_current, true)
    }
}

pub open spec fn year_links_html(l: YearLinks) -> Seq<char> {
    year_link(l.first as int, l.shown as int, l.link_current) + year_tail(
        l.first + 1,
        l.last as int,
        l.shown as int,
        l.link_current,
        false,
    )
}

fn push_year_link(out: &mut String, y: i32, shown: i32, link_current: bool)
    requires
        i16::MIN <= y <= i16::MAX,
    ensures
        final(out)@ == old(out)@ + year_link(y as int, shown as int, link_current),
{
    if y == shown {
        if link_current {
            out.append("<a href='/");
            push_int(out, y as i64);
            out.append("'><b>");
            push_int(out, y as i64);
            out.append("</b></a>");
        } else {
            out.append("<b>");
            push_int(out, y as i64);
            out.append("</b>");
        }
    } else {
        out.append("<a href='/");
        push_int(out, y as i64);
        out.append("'>");
        push_int(out, y as i64);
        out.append("</a>");
    }
}

impl YearLinks {
    pub fn new(first: i16, shown: i16, last: i16) -> (r: Self)
        ensures
            r == (YearLinks { first, shown, last, link_current: false }),
    {
        YearLinks { first, shown, last, link_current: false }
    }

    /// The same links, with the shown year linked too.
    pub fn link_current(self) -> (r: Self)
        ensures
            r == (YearLinks { link_current: true, ..self }),
    {
        YearLinks { link_current: true, ..self }
    }

    /// Append the year links to `out`.
    pub fn to_html(&self, out: &mut String)
        ensures
            final(out)@ == old(out)@ + year_links_html(*self),
    {
        let shown = self.shown as i32;
        let last = self.last as i32;
        let lc = self.link_current;
        push_year_link(out, self.first as i32, shown, lc);
        let ghost total = out@ + year_tail(self.first + 1, last as int, shown as int, lc, false);
        let mut y: i32 = self.first as i32 + 1;
        let mut skip = false;
        while y <= last
            invariant
                i16::MIN <= y <= i16::MAX + 1,
                last <= i16::MAX,
                i16::MIN <= shown <= i16::MAX,
                out@ + year_tail(y as int, last as int, shown as int, lc, skip) == total,
            decreases last - y + 1,
        {
            let diff = if y >= shown {
                y - shown
            } else {
                shown - y
            };
            if y % 10 == 0 || diff < 3 || y == last {
                if skip {
                    out.append("… ");
                } else {
                    out.append(", ");
                }
                push_year_link(out, y, shown, lc);
                skip = false;
            } else {
                skip = true;
            }
            y += 1;
        }
    }
}

} // verus!
