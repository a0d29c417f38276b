//! Splitting long lists into pages of 30 items, and the links between the
//! pages.
use crate::text::{int_chars, push_nat};
use vstd::prelude::*;

verus! {

pub const PAGE_SIZE: usize = 30;

/// The current page of a list split into pages.
#[derive(Debug)]
pub struct Paginator {
    n_pages: usize,
    page: usize,
}

/// The number of pages of `len` items.
pub open spec fn page_count(len: int) -> int {
    (len - 1) / (PAGE_SIZE as int) + 1
}

/// A list is split into pages when it holds more than three pages' worth
/// of items.
pub open spec fn needs_pages(len: int) -> bool {
    len / 3 > PAGE_SIZE as int
}

/// The positions of the items on page `page` (counted from 1).
pub open spec fn page_start(page: int) -> int {
    (PAGE_SIZE as int) * (page - 1)
}

pub open spec fn page_end(page: int, len: int) -> int {
    if (PAGE_SIZE as int) * page < len {
        (PAGE_SIZE as int) * page
    } else {
        len
    }
}

/// The link to one page, or the page number in bold for the current page.
pub open spec fn page_link(p: int, current: int) -> Seq<char> {
    if p == current {
        "<b>"@ + int_chars(p) + "</b>"@
    } else {
        "<a href='?p="@ + int_chars(p) + "'>"@ + int_chars(p) + "</a>"@
    }
}

/// The links to pages `from + 1` to `to`, each preceded by `, `.
pub open spec fn page_links(from: int, to: int, current: int) -> Seq<char>
    decreases to - from,
{
    if to <= from {
        Seq::empty()
    } else {
        page_links(from, to - 1, current) + ", "@ + page_link(to, current)
    }
}

/// The first page linked around the current page.
pub open spec fn first_shown(page: int) -> int {
    if page > 7 {
        page - 5
    } else {
        1
    }
}

/// The last page linked around the current page.
pub open spec fn last_shown(page: int, n_pages: int) -> int {
    if page + 7 < n_pages {
        page + 5
    } else {
        n_pages
    }
}

/// The page links: the pages near the current one, and the first and
/// the last page after an ellipsis where they are further away.
pub open spec fn paginator_html(page: int, n_pages: int) -> Seq<char> {
    let from = first_shown(page);
    let to = last_shown(page, n_pages);
    (if from > 1 {
        page_link(1, page) + " … "@
    } else {
        Seq::empty()
    }) + page_link(from, page) + page_links(from, to, page) + if to < n_pages {
        " … "@ + page_link(n_pages, page)
    } else {
        Seq::empty()
    }
}

impl View for Paginator {
    type V = (int, int);

    /// The number of pages and the current page.
    closed spec fn view(&self) -> (int, int) {
        (self.n_pages as int, self.page as int)
    }
}

fn push_page_link(out: &mut String, p: usize, current: usize)
    ensures
        final(out)@ == old(out)@ + page_link(p as int, current as int),
{
    if p == current {
        out.append("<b>");
        push_nat(out, p as u64);
        out.append("</b>");
    } else {
        out.append("<a href='?p=");
        push_nat(out, p as u64);
        out.append("'>");
        push_nat(out, p as u64);
        out.append("</a>");
    }
}

impl Paginator {
    #[verifier::type_invariant]
    closed spec fn wf(&self) -> bool {
        1 <= self.page <= self.n_pages <= usize::MAX / 2
    }

    /// Page `page` (the first page by default) of `items`, with a
    /// paginator, when `items` needs pages; all of `items` otherwise.
    /// A page number beyond the pages is an error.
    pub fn if_needed<T>(items: Vec<T>, page: Option<usize>) -> (r: Result<
        (Vec<T>, Option<Paginator>),
        (),
    >)
        ensures
            !needs_pages(items@.len() as int) ==> (r matches Ok((v, None)) && v@ == items@),
            needs_pages(items@.len() as int) ==> {
                let n = page_count(items@.len() as int);
                let p = match page {
                    Some(p) => p as int,
                    None => 1,
                };
                if 1 <= p <= n {
                    (r matches Ok((v, Some(pg))) && pg@ == (n, p) && v@ == items@.subrange(
                        page_start(p),
                        page_end(p, items@.len() as int),
                    ))
                } else {
                    r is Err
                }
            },
    {
        let len = items.len();
        if len / 3 > PAGE_SIZE {
            let n_pages = (len - 1) / PAGE_SIZE + 1;
            let page = match page {
                Some(p) => p,
                None => 1,
            };
            if page < 1 || page > n_pages {
                return Err(());
            }
            assert(PAGE_SIZE * (page - 1) <= len) by (nonlinear_arith)
                requires
                    1 <= page <= n_pages,
                    n_pages == (len - 1) / 30 + 1,
                    len > 90,
            ;
            assert(n_pages <= usize::MAX / 2) by (nonlinear_arith)
                requires
                    n_pages == (len - 1) / 30 + 1,
                    len <= usize::MAX,
            ;
            let ghost orig = items@;
            let mut items = items;
            let start = PAGE_SIZE * (page - 1);
            let mut rest = items.split_off(start);
            if rest.len() > PAGE_SIZE {
                rest.truncate(PAGE_SIZE);
            }
            proof {
                let ps = page_start(page as int);
                assert(ps == start);
                if 30 * page < len {
                    assert(rest@.len() == 30 || rest@.len() < 30);
                }
                assert(page_end(page as int, len as int) == if start + 30 < len {
                    start + 30
                } else {
                    len as int
                }) by (nonlinear_arith)
                    requires
                        start == 30 * (page - 1),
                ;
                assert(rest@ == orig.subrange(ps, page_end(page as int, len as int)));
            }
            Ok((rest, Some(Paginator { n_pages, page })))
        } else {
            Ok((items, None))
        }
    }

    /// Append the links to the pages to `out`.
    pub fn to_html(&self, out: &mut String)
        ensures
            final(out)@ == old(out)@ + paginator_html(self@.1, self@.0),
    {
        proof {
            use_type_invariant(self);
        }
        let page = self.page;
        let n_pages = self.n_pages;
        let from = if page > 7 {
            page - 5
        } else {
            1
        };
        let to = if page + 7 < n_pages {
            page + 5
        } else {
            n_pages
        };
        let ghost start = old(out)@;
        if from > 1 {
            push_page_link(out, 1, page);
            out.append(" … ");
        }
        push_page_link(out, from, page);
        let ghost mid = out@;
        let mut p = from;
        while p < to
            invariant
                from <= p <= to,
                to <= n_pages <= usize::MAX / 2,
                out@ == mid + page_links(from as int, p as int, page as int),
            decreases to - p,
        {
            p += 1;
            out.append(", ");
            push_page_link(out, p, page);
        }
        if to < n_pages {
            out.append(" … ");
            push_page_link(out, n_pages, page);
        }
    }
}

/// Every item of a paged list is on exactly one page: item `i` is on page
/// `i / 30 + 1`, which is one of the pages, and on no other page.
pub proof fn lemma_pages_cover(len: int, i: int)
    requires
        needs_pages(len),
        0 <= i < len,
    ensures
        1 <= i / (PAGE_SIZE as int) + 1 <= page_count(len),
        page_start(i / (PAGE_SIZE as int) + 1) <= i < page_end(i / (PAGE_SIZE as int) + 1, len),
        forall|q: int|
            1 <= q <= page_count(len) && q != i / (PAGE_SIZE as int) + 1 ==> !(#[trigger] page_start(q)
                <= i < page_end(q, len)),
{
    let p = i / 30 + 1;
    assert(p <= (len - 1) / 30 + 1) by (nonlinear_arith)
        requires
            0 <= i < len,
            p == i / 30 + 1,
    ;
    assert(30 * (p - 1) <= i < 30 * p) by (nonlinear_arith)
        requires
            p == i / 30 + 1,
            0 <= i,
    ;
    assert forall|q: int|
        1 <= q <= page_count(len) && q != p implies !(#[trigger] page_start(q) <= i < page_end(q, len)) by {
        if q < p {
            assert(30 * q <= 30 * (p - 1)) by (nonlinear_arith)
                requires
                    q <= p - 1,
            ;
        } else {
            assert(30 * (q - 1) >= 30 * p) by (nonlinear_arith)
                requires
                    q >= p + 1,
            ;
        }
    }
}

} // verus!
