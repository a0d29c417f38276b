//! Parts of episodes, where episodes and parts were published, and the
//! short summaries of an issue's contents.
use crate::cloud::joined;
use crate::datafile::strings_view;
use crate::issue::{IssueRef, issue_ref_html};
use crate::title::{Title, group_by_title, grouped_by_title};
use crate::text::{html_escape, int_chars, push_escaped, push_int, str_eq};
use vstd::prelude::*;

verus! {

/// A part of an episode (by number and/or name), or the whole episode.
#[derive(Debug)]
pub struct Part {
    pub no: Option<i16>,
    pub name: Option<String>,
}

/// The html of a part: nothing for a whole episode.
pub open spec fn part_html(p: Part) -> Seq<char> {
    if p.no is None && p.name is None {
        Seq::empty()
    } else {
        "<span class='part'>"@ + (match p.no {
            Some(n) => "del "@ + int_chars(n as int) + if p.name is Some {
                ": "@
            } else {
                Seq::empty()
            },
            None => Seq::empty(),
        }) + (match p.name {
            Some(n) => html_escape(n@),
            None => Seq::empty(),
        }) + "</span>"@
    }
}

impl Part {
    /// The whole episode.
    pub fn none() -> (p: Part)
        ensures
            p.no is None && p.name is None,
    {
        Part { no: None, name: None }
    }

    /// true for an actual part, false for the whole episode
    pub fn is_part(&self) -> (r: bool)
        ensures
            r == (self.no is Some || self.name is Some),
    {
        self.no.is_some() || self.name.is_some()
    }

    /// Whether this is the first part (or the whole episode, or a part
    /// without a number).
    pub fn is_first(&self) -> (r: bool)
        ensures
            r == match self.no {
                Some(n) => n == 1,
                None => true,
            },
    {
        match self.no {
            Some(n) => n == 1,
            None => true,
        }
    }

    pub fn name(&self) -> (r: Option<&str>)
        ensures
            match self.name {
                Some(n) => r matches Some(s) && s@ == n@,
                None => r is None,
            },
    {
        match &self.name {
            Some(n) => Some(n.as_str()),
            None => None,
        }
    }

    /// Append this part, such as `del 2: Namnet`, to `out`.
    pub fn to_html(&self, out: &mut String)
        ensures
            final(out)@ == old(out)@ + part_html(*self),
    {
        if !self.is_part() {
            return;
        }
        out.append("<span class='part'>");
        if let Some(no) = self.no {
            out.append("del ");
            push_int(out, no as i64);
            if self.name.is_some() {
                out.append(": ");
            }
        }
        if let Some(name) = &self.name {
            push_escaped(out, name.as_str());
        }
        out.append("</span>");
    }
}

/// A part of an episode as published in an issue, with its placement in
/// the readers' vote for the best comic of the issue.
#[derive(Debug)]
pub struct PartInIssue(pub IssueRef, pub Part, pub Option<i16>);

/// The issue, followed by the part in parentheses when it is a part.
pub open spec fn part_in_issue_html(p: PartInIssue) -> Seq<char> {
    issue_ref_html(p.0.year as int, p.0.number@.0, p.0.number@.1) + if p.1.no is None
        && p.1.name is None {
        Seq::empty()
    } else {
        " ("@ + part_html(p.1) + ")"@
    }
}

impl PartInIssue {
    pub fn to_html(&self, out: &mut String)
        ensures
            final(out)@ == old(out)@ + part_in_issue_html(*self),
    {
        self.0.to_html(out);
        if self.1.is_part() {
            out.append(" (");
            self.1.to_html(out);
            out.append(")");
        }
    }
}

/// Where an episode was published (or, with `others`, where else than in
/// the issue at hand).
#[derive(Debug)]
pub struct PartsPublished {
    pub issues: Vec<PartInIssue>,
    pub others: bool,
}

/// The publications of an episode, for the short form.
pub struct SmallPartsPublished<'a>(pub &'a PartsPublished);

/// The smallest of the placements that are known.
pub open spec fn best_of(s: Seq<PartInIssue>) -> Option<i16>
    decreases s.len(),
{
    if s.len() == 0 {
        None
    } else {
        match (best_of(s.drop_last()), s.last().2) {
            (Some(a), Some(b)) => Some(if b < a {
                b
            } else {
                a
            }),
            (Some(a), None) => Some(a),
            (None, b) => b,
        }
    }
}

/// The best placement of publications is the smallest one known: it is
/// the placement of one of them, and no known placement is smaller; there
/// is none exactly when no placement is known.
pub proof fn lemma_best_is_least(s: Seq<PartInIssue>)
    ensures
        best_of(s) matches Some(b) ==> (exists|i: int| 0 <= i < s.len() && s[i].2 == Some(b))
            && forall|i: int| 0 <= i < s.len() && (#[trigger] s[i].2) is Some ==> b <= s[i].2->0,
        best_of(s) is None <==> forall|i: int| 0 <= i < s.len() ==> (#[trigger] s[i].2) is None,
    decreases s.len(),
{
    if s.len() > 0 {
        let t = s.drop_last();
        lemma_best_is_least(t);
        assert forall|i: int| 0 <= i < t.len() implies #[trigger] t[i] == s[i] by {}
        let last = s.len() - 1;
        match (best_of(t), s.last().2) {
            (Some(a), Some(b)) => {
                let j = choose|i: int| 0 <= i < t.len() && t[i].2 == Some(a);
                assert(t[j] == s[j]);
                if b < a {
                    assert(s[last].2 == Some(b));
                }
                assert forall|i: int| 0 <= i < s.len() && (#[trigger] s[i].2) is Some implies best_of(
                    s,
                )->0 <= s[i].2->0 by {
                    if i < last {
                        assert(t[i] == s[i]);
                    }
                }
            },
            (Some(a), None) => {
                let j = choose|i: int| 0 <= i < t.len() && t[i].2 == Some(a);
                assert(t[j] == s[j]);
                assert forall|i: int| 0 <= i < s.len() && (#[trigger] s[i].2) is Some implies a
                    <= s[i].2->0 by {
                    if i < last {
                        assert(t[i] == s[i]);
                    }
                }
            },
            (None, b) => {
                assert forall|i: int| 0 <= i < last implies (#[trigger] s[i].2) is None by {
                    assert(t[i] == s[i]);
                    assert(t[i].2 is None);
                }
                if b is Some {
                    assert(s[last].2 == b);
                }
            },
        }
    }
}

/// The publications listed, separated by `, ` and ended by `.`.
pub open spec fn pub_list(s: Seq<PartInIssue>) -> Seq<char> {
    joined(s, |p: PartInIssue| part_in_issue_html(p), s.len() - 1) + part_in_issue_html(s.last())
        + "."@
}

/// The paragraph of publications of an episode, or nothing.
pub open spec fn parts_published_html(p: PartsPublished) -> Seq<char> {
    if p.issues@.len() == 0 {
        Seq::empty()
    } else {
        "<p class='info pub'>"@ + (if p.others {
            "Även publicerad i "@
        } else {
            "Publicerad i "@
        }) + pub_list(p.issues@) + "</p>"@
    }
}

/// The short list of publications of an episode, or nothing.
pub open spec fn small_parts_published_html(p: PartsPublished) -> Seq<char> {
    if p.issues@.len() == 0 {
        Seq::empty()
    } else {
        "<small class='pub'>"@ + pub_list(p.issues@) + "</small>"@
    }
}

/// Append the publications of `s`, separated by `, ` and ended by `.`.
fn push_pub_list(out: &mut String, s: &Vec<PartInIssue>)
    requires
        s@.len() > 0,
    ensures
        final(out)@ == old(out)@ + pub_list(s@),
{
    let ghost f = |p: PartInIssue| part_in_issue_html(p);
    let n = s.len();
    let mut i: usize = 0;
    while i + 1 < n
        invariant
            n == s@.len(),
            n > 0,
            i < n,
            f == (|p: PartInIssue| part_in_issue_html(p)),
            out@ == old(out)@ + joined(s@, f, i as int),
        decreases n - i,
    {
        s[i].to_html(out);
        out.append(", ");
        i += 1;
    }
    s[n - 1].to_html(out);
    out.append(".");
}

impl PartsPublished {
    pub fn small(&self) -> (r: SmallPartsPublished<'_>)
        ensures
            r.0 == self,
    {
        SmallPartsPublished(self)
    }

    /// The last issue of the publications.
    pub fn last(&self) -> (r: Option<&IssueRef>)
        ensures
            self.issues@.len() == 0 ==> r is None,
            self.issues@.len() > 0 ==> r == Some(&self.issues@.last().0),
    {
        if self.issues.len() == 0 {
            None
        } else {
            Some(&self.issues[self.issues.len() - 1].0)
        }
    }

    /// The best placement in the readers' vote among the publications.
    pub fn bestplac(&self) -> (r: Option<i16>)
        ensures
            r == best_of(self.issues@),
    {
        let mut best: Option<i16> = None;
        let mut i: usize = 0;
        while i < self.issues.len()
            invariant
                i <= self.issues@.len(),
                best == best_of(self.issues@.take(i as int)),
            decreases self.issues@.len() - i,
        {
            assert(self.issues@.take(i + 1).drop_last() == self.issues@.take(i as int));
            best = match (best, self.issues[i].2) {
                (Some(a), Some(b)) => Some(
                    if b < a {
                        b
                    } else {
                        a
                    },
                ),
                (Some(a), None) => Some(a),
                (None, b) => b,
            };
            i += 1;
        }
        assert(self.issues@.take(self.issues@.len() as int) == self.issues@);
        best
    }

    /// Append the paragraph of publications to `out`.
    pub fn to_html(&self, out: &mut String)
        ensures
            final(out)@ == old(out)@ + parts_published_html(*self),
    {
        if self.issues.len() == 0 {
            return;
        }
        out.append("<p class='info pub'>");
        if self.others {
            out.append("Även publicerad i ");
        } else {
            out.append("Publicerad i ");
        }
        push_pub_list(out, &self.issues);
        out.append("</p>");
    }
}

impl<'a> SmallPartsPublished<'a> {
    /// Append the short list of publications to `out`.
    pub fn to_html(&self, out: &mut String)
        ensures
            final(out)@ == old(out)@ + small_parts_published_html(*self.0),
    {
        if self.0.issues.len() == 0 {
            return;
        }
        out.append("<small class='pub'>");
        push_pub_list(out, &self.0.issues);
        out.append("</small>");
    }
}

/// Whether a part of an episode is to be published in an issue that
/// already has `existing` publications of it: unless it has exactly one.
pub fn needs_publishing(existing: i64) -> (r: bool)
    ensures
        r == (existing != 1),
{
    existing != 1
}

/// Whether an existing publication of a part, with the sequence number
/// `old_seqno` and the label `old_label`, is to get the label `label`:
/// where a label is given and differs.  A changed sequence number is not
/// handled.
pub fn relabel(old_seqno: Option<i16>, old_label: &str, seqno: Option<i16>, label: &str) -> (r:
    bool)
    requires
        !(seqno is Some && old_seqno != seqno),
    ensures
        r == (label@.len() > 0 && old_label@ != label@),
{
    label.unicode_len() > 0 && !str_eq(old_label, label)
}

/// The word for a role of a creator other than the main roles.
pub open spec fn other_role_word(r: Seq<char>) -> Seq<char> {
    if r == "color"@ {
        "färgläggare"@
    } else if r == "redax"@ {
        "redaktion"@
    } else if r == "xlat"@ {
        "översättare"@
    } else if r == "textning"@ {
        "textsättare"@
    } else {
        "något annat"@
    }
}

/// The words for `roles`, separated by `, `.
pub open spec fn role_words(roles: Seq<Seq<char>>) -> Seq<char>
    decreases roles.len(),
{
    if roles.len() == 0 {
        Seq::empty()
    } else if roles.len() == 1 {
        other_role_word(roles[0])
    } else {
        role_words(roles.drop_last()) + ", "@ + other_role_word(roles.last())
    }
}

fn role_word(r: &str) -> (w: &'static str)
    ensures
        w@ == other_role_word(r@),
{
    if str_eq(r, "color") {
        "färgläggare"
    } else if str_eq(r, "redax") {
        "redaktion"
    } else if str_eq(r, "xlat") {
        "översättare"
    } else if str_eq(r, "textning") {
        "textsättare"
    } else {
        "något annat"
    }
}

/// The comics that a creator worked on in other roles than the main
/// ones: the words for those roles, and the episodes by title.
#[derive(Debug)]
pub struct OtherContribs {
    pub roles: String,
    pub episodes: Vec<(Title, Vec<(Option<String>, PartsPublished)>)>,
}

impl OtherContribs {
    /// The other contributions of a creator, from the other roles that
    /// the creator had and the episodes (by title, with the name of the
    /// episode and where it was published) in order of first
    /// publication.
    pub fn new(roles: &Vec<String>, episodes: Vec<(Title, (Option<String>, PartsPublished))>) -> (r:
        Self)
        ensures
            r.roles@ == role_words(strings_view(roles@)),
            grouped_by_title(episodes@, r.episodes@),
    {
        let mut words = String::new();
        let mut i: usize = 0;
        while i < roles.len()
            invariant
                i <= roles@.len(),
                words@ == role_words(strings_view(roles@).take(i as int)),
            decreases roles@.len() - i,
        {
            let ghost s = strings_view(roles@);
            assert(s.take(i + 1).drop_last() =~= s.take(i as int));
            assert(s.take(i + 1).last() == roles@[i as int]@);
            if i > 0 {
                words.append(", ");
            } else {
                assert(s.take(0) =~= Seq::<Seq<char>>::empty());
            }
            words.append(role_word(roles[i].as_str()));
            i += 1;
        }
        assert(strings_view(roles@).take(roles@.len() as int) =~= strings_view(roles@));
        OtherContribs { roles: words, episodes: group_by_title(episodes) }
    }

    /// Whether there are any such comics.
    pub fn is(&self) -> (r: bool)
        ensures
            r == (self.episodes@.len() > 0),
    {
        self.episodes.len() > 0
    }
}

/// A comic in the summary of an issue.
#[derive(Debug)]
pub struct ComicSummary {
    pub slug: String,
    pub title: String,
    pub episode: Option<String>,
    pub part: Part,
}

/// An article in the summary of an issue.
#[derive(Debug)]
pub struct ArticleSummary {
    pub title: String,
    pub subtitle: Option<String>,
}

/// An item in the summary of an issue, a comic with its placement in the
/// readers' vote, or an article.
pub enum ContentSummary {
    Comic(ComicSummary, Option<i16>),
    Text(ArticleSummary),
}

pub open spec fn comic_summary_html(c: ComicSummary) -> Seq<char> {
    "<strong><a href='/titles/"@ + c.slug@ + "'>"@ + html_escape(c.title@) + "</a>"@ + (match c.episode {
        Some(e) => ": "@ + html_escape(e@),
        None => Seq::empty(),
    }) + "</strong>"@ + if c.part.no is None && c.part.name is None {
        Seq::empty()
    } else {
        " "@ + part_html(c.part)
    }
}

pub open spec fn article_summary_html(a: ArticleSummary) -> Seq<char> {
    html_escape(a.title@) + match a.subtitle {
        Some(s) => ": "@ + html_escape(s@),
        None => Seq::empty(),
    }
}

/// The css class of a summary item: comics placed among the three best
/// are marked.
pub open spec fn summary_class(c: ContentSummary) -> Seq<char> {
    match c {
        ContentSummary::Comic(_, Some(p)) => if p <= 3 {
            "comic best"@ + int_chars(p as int)
        } else {
            "comic"@
        },
        ContentSummary::Comic(_, None) => "comic"@,
        ContentSummary::Text(_) => Seq::empty(),
    }
}

impl ComicSummary {
    pub fn to_html(&self, out: &mut String)
        ensures
            final(out)@ == old(out)@ + comic_summary_html(*self),
    {
        out.append("<strong><a href='/titles/");
        out.append(self.slug.as_str());
        out.append("'>");
        push_escaped(out, self.title.as_str());
        out.append("</a>");
        if let Some(episode) = &self.episode {
            out.append(": ");
            push_escaped(out, episode.as_str());
        }
        out.append("</strong>");
        if self.part.is_part() {
            out.append(" ");
            self.part.to_html(out);
        }
    }
}

impl ArticleSummary {
    pub fn to_html(&self, out: &mut String)
        ensures
            final(out)@ == old(out)@ + article_summary_html(*self),
    {
        push_escaped(out, self.title.as_str());
        if let Some(subtitle) = &self.subtitle {
            out.append(": ");
            push_escaped(out, subtitle.as_str());
        }
    }
}

impl ContentSummary {
    /// The css class of this item.
    pub fn get_class(&self) -> (s: String)
        ensures
            s@ == summary_class(*self),
    {
        let mut out = String::new();
        match self {
            ContentSummary::Comic(_, plac) => {
                match plac {
                    Some(p) if *p <= 3 => {
                        out.append("comic best");
                        push_int(&mut out, *p as i64);
                    },
                    _ => out.append("comic"),
                }
            },
            ContentSummary::Text(_) => {},
        }
        out
    }

    pub fn to_html(&self, out: &mut String)
        ensures
            final(out)@ == old(out)@ + match *self {
                ContentSummary::Comic(c, _) => comic_summary_html(c),
                ContentSummary::Text(a) => article_summary_html(a),
            },
    {
        match self {
            ContentSummary::Comic(c, _plac) => c.to_html(out),
            ContentSummary::Text(a) => a.to_html(out),
        }
    }
}

} // verus!
