//! Searching: the words of a query, what a query searches for, the order
//! of the hits and the completions offered while typing.
use crate::contents::{FullArticle, FullEpisode};
use crate::creator::Creator;
use crate::issue::{IssueRef, fits_i16};
use crate::refkey::{FA_ID, IdRefKey};
use crate::sort::{is_stable_sort_by, lemma_perm_onto, lemma_strip_keys, seq_le, sorted_by, stable_sort};
use crate::text::{chars_of, is_unicode_ws, is_unicode_whitespace, str_eq};
use crate::title::Title;
use vstd::prelude::*;

verus! {

/// The words of `s` so far, and the word being read.
pub open spec fn words_fold(s: Seq<char>) -> (Seq<Seq<char>>, Seq<char>)
    decreases s.len(),
{
    if s.len() == 0 {
        (Seq::empty(), Seq::empty())
    } else {
        let (words, cur) = words_fold(s.drop_last());
        let c = s.last();
        if is_unicode_ws(c) {
            if cur.len() > 0 {
                (words.push(cur), Seq::empty())
            } else {
                (words, cur)
            }
        } else {
            (words, cur.push(c))
        }
    }
}

/// The words of `s`: the runs of characters between whitespace, as
/// `str::split_whitespace` gives them.
pub open spec fn words_of(s: Seq<char>) -> Seq<Seq<char>> {
    let (words, cur) = words_fold(s);
    if cur.len() > 0 {
        words.push(cur)
    } else {
        words
    }
}

/// A word as an sql `like` pattern that matches texts containing it.
pub open spec fn like_pattern(w: Seq<char>) -> Seq<char> {
    seq!['%'] + w + seq!['%']
}

/// The words of the query text, each as a pattern for `ilike`.
pub fn search_words(q: &str) -> (r: Vec<String>)
    ensures
        r@.len() == words_of(q@).len(),
        forall|i: int| 0 <= i < r@.len() ==> (#[trigger] r@[i])@ == like_pattern(words_of(q@)[i]),
{
    let mut words: Vec<String> = Vec::new();
    let mut cur: Vec<char> = Vec::new();
    for c in it: q.chars()
        invariant
            it.seq() == q@,
            words@.len() == words_fold(q@.take(it.index() as int)).0.len(),
            forall|i: int| 0 <= i < words@.len() ==> (#[trigger] words@[i])@ == like_pattern(words_fold(q@.take(it.index() as int)).0[i]),
            cur@ == words_fold(q@.take(it.index() as int)).1,
    {
        let ghost k = it.index();
        assert(q@.take(k + 1).drop_last() == q@.take(k));
        if is_unicode_whitespace(c) {
            if cur.len() > 0 {
                words.push(pattern_of(&cur));
                cur = Vec::new();
            }
        } else {
            cur.push(c);
        }
    }
    assert(q@.take(q@.len() as int) == q@);
    if cur.len() > 0 {
        words.push(pattern_of(&cur));
    }
    words
}

fn pattern_of(w: &Vec<char>) -> (r: String)
    ensures
        r@ == like_pattern(w@),
{
    let mut s = String::new();
    s.push('%');
    crate::text::push_range(&mut s, w, 0, w.len());
    s.push('%');
    assert(w@.subrange(0, w@.len() as int) == w@);
    assert(s@ == seq!['%'] + w@ + seq!['%']);
    s
}

/// What a search is for: a text and the titles, creators and references
/// that the hits must have.
#[derive(Debug)]
pub struct SearchQuery {
    pub q: String,
    pub t: Vec<Title>,
    pub p: Vec<Creator>,
    pub k: Vec<IdRefKey>,
}

/// The kind of a query parameter.
#[derive(Debug, PartialEq, Eq, Structural)]
pub enum QueryParam {
    /// The search text.
    Text,
    /// A title, by slug.
    Title,
    /// A creator, by slug.
    Creator,
    /// A key reference, by slug.
    Key,
    /// A Phantom, by slug.
    Fa,
    /// Anything else, ignored.
    Ignored,
}

pub open spec fn param_kind(key: Seq<char>) -> QueryParam {
    if key == "q"@ {
        QueryParam::Text
    } else if key == "t"@ {
        QueryParam::Title
    } else if key == "p"@ {
        QueryParam::Creator
    } else if key == "k"@ {
        QueryParam::Key
    } else if key == "f"@ {
        QueryParam::Fa
    } else {
        QueryParam::Ignored
    }
}

/// What one search gives: which lists are searched. An empty query
/// searches nothing.
#[derive(Debug, PartialEq, Eq, Structural)]
pub struct SearchPlan {
    /// Episodes and articles.
    pub contents: bool,
    pub titles: bool,
    pub creators: bool,
    pub refkeys: bool,
}

/// The most hits of each kind that a search gives.
pub const MAX_HITS: u8 = 25;

impl SearchQuery {
    pub fn empty() -> (r: Self)
        ensures
            r.q@.len() == 0 && r.t@.len() == 0 && r.p@.len() == 0 && r.k@.len() == 0,
    {
        SearchQuery { q: String::new(), t: Vec::new(), p: Vec::new(), k: Vec::new() }
    }

    /// The kind of the query parameter named `key`.
    pub fn param_kind(key: &str) -> (r: QueryParam)
        ensures
            r == param_kind(key@),
    {
        if str_eq(key, "q") {
            QueryParam::Text
        } else if str_eq(key, "t") {
            QueryParam::Title
        } else if str_eq(key, "p") {
            QueryParam::Creator
        } else if str_eq(key, "k") {
            QueryParam::Key
        } else if str_eq(key, "f") {
            QueryParam::Fa
        } else {
            QueryParam::Ignored
        }
    }

    /// Whether the query asks for nothing at all.
    pub fn is_empty(&self) -> (r: bool)
        ensures
            r == (self.q@.len() == 0 && self.t@.len() == 0 && self.p@.len() == 0 && self.k@.len()
                == 0),
    {
        self.q.as_str().is_empty() && self.t.len() == 0 && self.p.len() == 0 && self.k.len() == 0
    }

    /// Which lists a query searches: nothing at all for an empty query;
    /// otherwise episodes and articles, titles only for a text without a
    /// title asked for, creators and references for any text.
    pub fn plan(&self) -> (r: SearchPlan)
        ensures
            r == (SearchPlan {
                contents: !(self.q@.len() == 0 && self.t@.len() == 0 && self.p@.len() == 0
                    && self.k@.len() == 0),
                titles: self.t@.len() == 0 && self.q@.len() > 0,
                creators: self.q@.len() > 0,
                refkeys: self.q@.len() > 0,
            }),
    {
        let has_text = !self.q.as_str().is_empty();
        SearchPlan {
            contents: !self.is_empty(),
            titles: self.t.len() == 0 && has_text,
            creators: has_text,
            refkeys: has_text,
        }
    }
}

/// A hit of a search: an episode, or an article with where it was
/// published.
pub enum Hit {
    Episode { title: Title, fe: FullEpisode },
    Article { article: FullArticle, published: Vec<IssueRef> },
}

/// The order key of an issue, as `IssueRef` is ordered; no issue sorts
/// first.
pub open spec fn issue_key(r: Option<(int, int)>) -> int {
    match r {
        None => 0,
        Some((y, n)) => 1 + (y + 32768) * 65536 + (n + 32768),
    }
}

pub open spec fn last_issue_of(h: Hit) -> Option<(int, int)> {
    match h {
        Hit::Episode { fe, .. } => if fe.published.issues@.len() == 0 {
            None
        } else {
            Some(
                (
                    fe.published.issues@.last().0.year as int,
                    fe.published.issues@.last().0.number@.0,
                ),
            )
        },
        Hit::Article { published, .. } => if published@.len() == 0 {
            None
        } else {
            Some((published@.last().year as int, published@.last().number@.0))
        },
    }
}

/// The key that orders hits by their last publication, latest first.
pub open spec fn hit_key(h: Hit) -> i64 {
    (-issue_key(last_issue_of(h))) as i64
}

fn issue_ref_key(r: &IssueRef) -> (k: i64)
    ensures
        k == issue_key(Some((r.year as int, r.number@.0))),
{
    proof {
        r.number.lemma_in_range();
    }
    1 + (r.year as i64 + 32768) * 65536 + (r.number.first() as i64 + 32768)
}

impl Hit {
    /// The last issue where the hit was published.
    pub fn lastpub(&self) -> (r: Option<&IssueRef>)
        ensures
            match last_issue_of(*self) {
                Some((y, n)) => r matches Some(i) && i.year == y && i.number@.0 == n,
                None => r is None,
            },
    {
        match self {
            Hit::Episode { fe, .. } => fe.published.last(),
            Hit::Article { published, .. } => if published.len() == 0 {
                None
            } else {
                Some(&published[published.len() - 1])
            },
        }
    }

    fn sort_key(&self) -> (k: i64)
        ensures
            k == hit_key(*self),
    {
        match self.lastpub() {
            Some(r) => {
                proof {
                    r.number.lemma_in_range();
                }
                -issue_ref_key(r)
            },
            None => 0,
        }
    }
}

/// Hits in the order of their last publication, latest first.
pub open spec fn hit_le(a: Hit, b: Hit) -> bool {
    hit_key(a) <= hit_key(b)
}

/// `out` is `hits` ordered by their last publication, latest first (hits
/// published in the same issue keep their order), cut to `MAX_HITS`.
pub open spec fn ranked(hits: Seq<Hit>, out: Seq<Hit>) -> bool {
    exists|sorted: Seq<Hit>|
        is_stable_sort_by(hits, sorted, |a: Hit, b: Hit| hit_le(a, b)) && out == sorted.take(
            if sorted.len() < MAX_HITS as int {
                sorted.len() as int
            } else {
                MAX_HITS as int
            },
        )
}

/// The issue `a` is no earlier than the issue `b`: a later year, or the
/// same year and no smaller number. No issue at all (a hit never
/// published) is earlier than every issue.
pub open spec fn no_earlier(a: Option<(int, int)>, b: Option<(int, int)>) -> bool {
    match (a, b) {
        (_, None) => true,
        (None, Some(_)) => false,
        (Some((ya, na)), Some((yb, nb))) => ya > yb || (ya == yb && na >= nb),
    }
}

proof fn lemma_last_in_range(h: Hit)
    ensures
        last_issue_of(h) matches Some((y, n)) ==> fits_i16(y) && fits_i16(n),
{
    match h {
        Hit::Episode { fe, .. } => {
            if fe.published.issues@.len() > 0 {
                fe.published.issues@.last().0.number.lemma_in_range();
            }
        },
        Hit::Article { published, .. } => {
            if published@.len() > 0 {
                published@.last().number.lemma_in_range();
            }
        },
    }
}

/// Hits are ranked by their last publication: `a` goes before or with
/// `b` exactly when `a` was last published no earlier than `b`.
pub proof fn lemma_hit_order(a: Hit, b: Hit)
    ensures
        hit_le(a, b) <==> no_earlier(last_issue_of(a), last_issue_of(b)),
{
    lemma_last_in_range(a);
    lemma_last_in_range(b);
    let (la, lb) = (last_issue_of(a), last_issue_of(b));
    assert(0 <= issue_key(la) <= 0x1_0000_0000) by {
        match la {
            Some((y, n)) => {
                assert(fits_i16(y) && fits_i16(n));
                assert(0 <= (y + 32768) * 65536 <= 65535 * 65536) by (nonlinear_arith)
                    requires
                        -32768 <= y <= 32767,
                ;
            },
            None => {},
        }
    }
    assert(0 <= issue_key(lb) <= 0x1_0000_0000) by {
        match lb {
            Some((y, n)) => {
                assert(fits_i16(y) && fits_i16(n));
                assert(0 <= (y + 32768) * 65536 <= 65535 * 65536) by (nonlinear_arith)
                    requires
                        -32768 <= y <= 32767,
                ;
            },
            None => {},
        }
    }
    assert(hit_key(a) == -issue_key(la));
    assert(hit_key(b) == -issue_key(lb));
    if let (Some((ya, na)), Some((yb, nb))) = (la, lb) {
        assert((issue_key(la) >= issue_key(lb)) <==> (ya > yb || (ya == yb && na >= nb)))
            by (nonlinear_arith)
            requires
                -32768 <= ya <= 32767,
                -32768 <= yb <= 32767,
                -32768 <= na <= 32767,
                -32768 <= nb <= 32767,
                issue_key(la) == 1 + (ya + 32768) * 65536 + (na + 32768),
                issue_key(lb) == 1 + (yb + 32768) * 65536 + (nb + 32768),
        ;
    }
}

/// The ranked hits come latest first: each ranked hit was last published
/// no earlier than the ones after it. At most `MAX_HITS` are kept, all of
/// them hits of the search, and a hit that is not kept was last published
/// no later than every kept one.
pub proof fn lemma_ranked_latest_first(hits: Seq<Hit>, out: Seq<Hit>)
    requires
        ranked(hits, out),
    ensures
        out.len() == if hits.len() < MAX_HITS as int {
            hits.len() as int
        } else {
            MAX_HITS as int
        },
        forall|i: int, j: int|
            0 <= i < j < out.len() ==> no_earlier(
                last_issue_of(#[trigger] out[i]),
                last_issue_of(#[trigger] out[j]),
            ),
        forall|i: int| 0 <= i < out.len() ==> hits.contains(#[trigger] out[i]),
        forall|k: int|
            0 <= k < hits.len() ==> out.contains(#[trigger] hits[k]) || (forall|i: int|
                0 <= i < out.len() ==> no_earlier(last_issue_of(#[trigger] out[i]), last_issue_of(hits[k]))),
{
    let le = |a: Hit, b: Hit| hit_le(a, b);
    let sorted = choose|sorted: Seq<Hit>|
        is_stable_sort_by(hits, sorted, le) && out == sorted.take(
            if sorted.len() < MAX_HITS as int {
                sorted.len() as int
            } else {
                MAX_HITS as int
            },
        );
    let p = choose|p: Seq<int>| sorted_by(hits, sorted, le, p);
    assert forall|i: int, j: int| 0 <= i < j < out.len() implies no_earlier(
        last_issue_of(#[trigger] out[i]),
        last_issue_of(#[trigger] out[j]),
    ) by {
        assert(out[i] == sorted[i] && out[j] == sorted[j]);
        assert(le(sorted[i], sorted[j]));
        lemma_hit_order(sorted[i], sorted[j]);
    }
    assert forall|i: int| 0 <= i < out.len() implies hits.contains(#[trigger] out[i]) by {
        assert(out[i] == sorted[i]);
        assert(sorted[i] == hits[p[i]]);
    }
    assert forall|k: int|
        0 <= k < hits.len() implies out.contains(#[trigger] hits[k]) || (forall|i: int|
            0 <= i < out.len() ==> no_earlier(last_issue_of(#[trigger] out[i]), last_issue_of(hits[k]))) by {
        lemma_perm_onto(p, hits.len() as int, k);
        let m = choose|m: int| 0 <= m < hits.len() && p[m] == k;
        assert(sorted[m] == hits[k]);
        if m < out.len() {
            assert(out[m] == hits[k]);
        } else {
            assert forall|i: int| 0 <= i < out.len() implies no_earlier(last_issue_of(#[trigger] out[i]), last_issue_of(hits[k])) by {
                assert(out[i] == sorted[i]);
                assert(le(sorted[i], sorted[m]));
                lemma_hit_order(sorted[i], sorted[m]);
            }
        }
    }
}

/// Order hits by their last publication, latest first, and keep the first
/// `MAX_HITS`.
pub fn rank_hits(hits: Vec<Hit>) -> (r: Vec<Hit>)
    ensures
        ranked(hits@, r@),
{
    let ghost input = hits@;
    let mut keyed: Vec<(i64, Hit)> = Vec::new();
    for h in it: hits
        invariant
            it.seq() == input,
            keyed@.len() == it.index(),
            forall|i: int| 0 <= i < keyed@.len() ==> (#[trigger] keyed@[i]).1 == input[i] && keyed@[i].0 == hit_key(input[i]),
    {
        let k = h.sort_key();
        keyed.push((k, h));
    }
    let ghost keyed_s = keyed@;
    let sorted = stable_sort(keyed);
    let ghost sorted_s = sorted@;
    proof {
        lemma_strip_keys(input, keyed_s, sorted_s, |a: Hit, b: Hit| hit_le(a, b));
    }
    let mut out: Vec<Hit> = Vec::new();
    for e in it: sorted
        invariant
            it.seq() == sorted_s,
            out@ == sorted_s.map_values(|e: (i64, Hit)| e.1).take(it.index() as int),
    {
        let ghost k = it.index();
        out.push(e.1);
        assert(sorted_s.map_values(|e: (i64, Hit)| e.1).take(k + 1) == sorted_s.map_values(
            |e: (i64, Hit)| e.1,
        ).take(k).push(e.1));
    }
    let ghost all = sorted_s.map_values(|e: (i64, Hit)| e.1);
    assert(out@ == all.take(all.len() as int));
    assert(all.take(all.len() as int) == all);
    out.truncate(MAX_HITS as usize);
    proof {
        let n = all.len() as int;
        assert(out@ == all.take(if n < 25 { n } else { 25 }));
        assert(is_stable_sort_by(input, all, |a: Hit, b: Hit| hit_le(a, b)));
    }
    out
}

/// A completion offered while typing a search: a title (`t`), creator
/// (`p`), Phantom (`f`) or key (`k`), with its name and slug.
#[derive(Debug)]
pub struct Completion {
    pub k: &'static str,
    pub t: String,
    pub s: String,
}

impl Completion {
    pub fn title(t: String, s: String) -> (c: Self)
        ensures
            c.k@ == "t"@ && c.t == t && c.s == s,
    {
        Completion { k: "t", t, s }
    }

    pub fn creator(t: String, s: String) -> (c: Self)
        ensures
            c.k@ == "p"@ && c.t == t && c.s == s,
    {
        Completion { k: "p", t, s }
    }

    /// A reference completion: a Phantom, or else a key.
    pub fn refkey(k: i16, t: String, s: String) -> (c: Self)
        ensures
            c.k@ == if k == FA_ID {
                "f"@
            } else {
                "k"@
            },
            c.t == t && c.s == s,
    {
        Completion {
            k: if k == FA_ID {
                "f"
            } else {
                "k"
            },
            t,
            s,
        }
    }
}

/// How many more completions to ask for when `have` are found: enough
/// for eight, but at least two.
pub fn completion_limit(have: usize) -> (r: i64)
    ensures
        r == if 8 - have > 2 {
            8 - have
        } else {
            2
        },
{
    if have < 6 {
        8 - have as i64
    } else {
        2
    }
}

/// Completions in the order of their names.
pub open spec fn completion_le(a: Completion, b: Completion) -> bool {
    seq_le(a.t@, b.t@)
}

/// Order completions by name (those with equal names keep their order).
pub fn sort_completions(cs: Vec<Completion>) -> (r: Vec<Completion>)
    ensures
        is_stable_sort_by(cs@, r@, |a: Completion, b: Completion| completion_le(a, b)),
{
    let ghost input = cs@;
    let mut keyed: Vec<(Vec<char>, Completion)> = Vec::new();
    for c in it: cs
        invariant
            it.seq() == input,
            keyed@.len() == it.index(),
            forall|i: int| 0 <= i < keyed@.len() ==> (#[trigger] keyed@[i]).1 == input[i] && keyed@[i].0@ == input[i].t@,
    {
        let k = chars_of(c.t.as_str());
        keyed.push((k, c));
    }
    let ghost keyed_s = keyed@;
    let sorted = stable_sort(keyed);
    let ghost sorted_s = sorted@;
    proof {
        lemma_strip_keys(input, keyed_s, sorted_s, |a: Completion, b: Completion| completion_le(a, b));
    }
    let mut out: Vec<Completion> = Vec::new();
    for e in it: sorted
        invariant
            it.seq() == sorted_s,
            out@ == sorted_s.map_values(|e: (Vec<char>, Completion)| e.1).take(it.index() as int),
    {
        let ghost k = it.index();
        out.push(e.1);
        assert(sorted_s.map_values(|e: (Vec<char>, Completion)| e.1).take(k + 1) == sorted_s.map_values(
            |e: (Vec<char>, Completion)| e.1,
        ).take(k).push(e.1));
    }
    let ghost all = sorted_s.map_values(|e: (Vec<char>, Completion)| e.1);
    assert(out@ == all.take(all.len() as int));
    assert(all.take(all.len() as int) == all);
    out
}

} // verus!
