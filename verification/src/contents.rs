//! The contents of an issue: episodes and articles with their references,
//! creators and other publications, and how they are classed and
//! described.
use crate::cloud::joined;
use crate::creator::{CreatorSet, Creator};
use crate::episode::Episode;
use crate::issue::{Issue, issue_text, opt_i16, opt_price};
use crate::markup::{fa_html, text_to_fa_html};
use crate::part::{Part, PartsPublished, best_of};
use crate::refkey::RefKey;
use crate::text::{int_chars, push_int, str_eq};
use crate::title::Title;
use vstd::prelude::*;

verus! {

/// The references of an episode or article.
pub struct RefKeySet(pub Vec<RefKey>);

/// The references listed, separated by `, ` and ended by `.`.
pub open spec fn refs_html(s: Seq<RefKey>) -> Seq<char> {
    if s.len() == 0 {
        Seq::empty()
    } else {
        "<p class='info refs'>Referenser: "@ + joined(s, |r: RefKey| r@.html(), s.len() - 1)
            + s.last()@.html() + ".</p>"@
    }
}

impl RefKeySet {
    /// Append the paragraph of references to `out` (nothing without any).
    pub fn to_html(&self, out: &mut String)
        ensures
            final(out)@ == old(out)@ + refs_html(self.0@),
    {
        let ghost f = |r: RefKey| r@.html();
        let s = &self.0;
        let n = s.len();
        if n == 0 {
            return;
        }
        out.append("<p class='info refs'>Referenser: ");
        let ghost start = out@;
        let mut i: usize = 0;
        while i + 1 < n
            invariant
                n == s@.len(),
                n > 0,
                i < n,
                f == (|r: RefKey| r@.html()),
                out@ == start + joined(s@, f, i as int),
            decreases n - i,
        {
            s[i].to_html(out);
            out.append(", ");
            i += 1;
        }
        s[n - 1].to_html(out);
        out.append(".</p>");
    }
}

/// Another magazine, where an episode was first published.
#[derive(Debug)]
pub struct OtherMag {
    pub id: i32,
    pub name: String,
    pub issue: Option<i16>,
    pub i_of: Option<i16>,
    pub year: Option<i16>,
}

/// A magazine with its issue number (of a count) and year, where known.
pub open spec fn other_mag_text(m: OtherMag) -> Seq<char> {
    m.name@ + (match m.issue {
        Some(i) => " nr "@ + int_chars(i as int) + match m.i_of {
            Some(o) => "/"@ + int_chars(o as int),
            None => Seq::empty(),
        },
        None => Seq::empty(),
    }) + match m.year {
        Some(y) => " "@ + int_chars(y as int),
        None => Seq::empty(),
    }
}

impl OtherMag {
    pub fn to_string(&self) -> (s: String)
        ensures
            s@ == other_mag_text(*self),
    {
        let mut out = String::new();
        out.append(self.name.as_str());
        if let Some(issue) = self.issue {
            out.append(" nr ");
            push_int(&mut out, issue as i64);
            if let Some(i_of) = self.i_of {
                out.append("/");
                push_int(&mut out, i_of as i64);
            }
        }
        if let Some(year) = self.year {
            out.append(" ");
            push_int(&mut out, year as i64);
        }
        out
    }
}

/// A text article.
#[derive(Debug)]
pub struct Article {
    pub id: i32,
    pub title: String,
    pub subtitle: Option<String>,
    pub note: Option<String>,
}

/// An episode with its references, creators and publications.
pub struct FullEpisode {
    pub episode: Episode,
    pub refs: RefKeySet,
    pub creators: CreatorSet,
    pub published: PartsPublished,
    pub orig_mag: Option<OtherMag>,
}

/// An article with its references and creators.
pub struct FullArticle {
    pub article: Article,
    pub refs: RefKeySet,
    pub creators: CreatorSet,
}

/// The css class of an episode placed among the three best of an issue.
pub open spec fn best_class(b: Option<i16>) -> Seq<char> {
    match b {
        Some(p) => if p == 1 {
            "best1"@
        } else if p == 2 {
            "best2"@
        } else if p == 3 {
            "best3"@
        } else {
            ""@
        },
        None => ""@,
    }
}

pub open spec fn note_html(note: Option<String>) -> Option<Seq<char>> {
    match note {
        Some(n) => Some(fa_html(n@)),
        None => None,
    }
}

impl FullEpisode {
    /// The note of the episode, as html.
    pub fn note(&self) -> (r: Option<String>)
        ensures
            match note_html(self.episode.note) {
                Some(h) => r matches Some(s) && s@ == h,
                None => r is None,
            },
    {
        match &self.episode.note {
            Some(n) => Some(text_to_fa_html(n.as_str())),
            None => None,
        }
    }

    /// The css class for the best placement of the episode.
    pub fn bestclass(&self) -> (s: &'static str)
        ensures
            s@ == best_class(best_of(self.published.issues@)),
    {
        match self.published.bestplac() {
            Some(1) => "best1",
            Some(2) => "best2",
            Some(3) => "best3",
            _ => "",
        }
    }
}

impl FullArticle {
    /// The note of the article, as html.
    pub fn note(&self) -> (r: Option<String>)
        ensures
            match note_html(self.article.note) {
                Some(h) => r matches Some(s) && s@ == h,
                None => r is None,
            },
    {
        match &self.article.note {
            Some(n) => Some(text_to_fa_html(n.as_str())),
            None => None,
        }
    }
}

/// What an item of an issue's contents is.
pub enum PublishedContent {
    Text(FullArticle),
    EpisodePart {
        title: Title,
        episode: FullEpisode,
        part: Part,
        best_plac: Option<i16>,
        label: String,
    },
}

/// An item of an issue's contents, with its position and css classes.
pub struct PublishedInfo {
    pub content: PublishedContent,
    pub seqno: Option<i16>,
    pub classnames: &'static str,
}

/// The css classes of an item: an episode placed among the three best
/// gets one more.
pub open spec fn published_classes(base: Seq<char>, best_plac: Option<i16>, is_episode: bool) -> Seq<
    char,
> {
    match best_plac {
        Some(p) => if is_episode && p <= 3 {
            base + " best"@ + int_chars(p as int)
        } else {
            base
        },
        None => base,
    }
}

impl PublishedInfo {
    pub fn classnames(&self) -> (s: String)
        ensures
            s@ == match self.content {
                PublishedContent::EpisodePart { best_plac, .. } => published_classes(
                    self.classnames@,
                    best_plac,
                    true,
                ),
                PublishedContent::Text(_) => self.classnames@,
            },
    {
        let mut out = String::new();
        out.append(self.classnames);
        match &self.content {
            PublishedContent::EpisodePart { best_plac: Some(p), .. } => {
                if *p <= 3 {
                    out.append(" best");
                    push_int(&mut out, *p as i64);
                }
            },
            _ => {},
        }
        out
    }
}

/// The css classes of an episode in an issue, from its title, whether
/// it has a teaser and whether this is its first part, and whether the
/// issue's main episode is already found.  The result is the classes,
/// whether the teaser is dropped, and whether the main episode is now
/// found.
pub open spec fn episode_classes(
    title: Seq<char>,
    has_teaser: bool,
    first_part: bool,
    have_main: bool,
) -> (Seq<char>, bool, bool) {
    if !has_teaser || !first_part {
        ("episode noteaser"@, true, have_main)
    } else if title == "Fantomen"@ && !have_main {
        ("episode main"@, false, true)
    } else {
        ("episode"@, false, have_main)
    }
}

/// The css classes of an episode in an issue: the first episode of
/// "Fantomen" with a teaser is the main one, and episodes without a
/// teaser (or continued parts, whose teaser is dropped) have none.
/// Returns the classes and whether to drop the teaser, and notes in
/// `have_main` when the main episode is found.
pub fn episode_class(title: &str, has_teaser: bool, first_part: bool, have_main: &mut bool) -> (r: (
    &'static str,
    bool,
))
    ensures
        (r.0@, r.1, *final(have_main)) == episode_classes(
            title@,
            has_teaser,
            first_part,
            *old(have_main),
        ),
{
    if !has_teaser || !first_part {
        ("episode noteaser", true)
    } else if str_eq(title, "Fantomen") && !*have_main {
        *have_main = true;
        ("episode main", false)
    } else {
        ("episode", false)
    }
}

/// An issue with its cover artists and contents.
pub struct IssueDetails {
    pub issue: Issue,
    pub cover_by: Vec<Creator>,
    pub contents: Vec<PublishedInfo>,
}

/// The titles of the comics among the contents, each as ` Title.`.
pub open spec fn comic_titles(c: Seq<PublishedInfo>) -> Seq<char>
    decreases c.len(),
{
    if c.len() == 0 {
        Seq::empty()
    } else {
        comic_titles(c.drop_last()) + match c.last().content {
            PublishedContent::EpisodePart { title, .. } => " "@ + title.title@ + "."@,
            PublishedContent::Text(_) => Seq::empty(),
        }
    }
}

impl IssueDetails {
    /// A description of the issue: the issue, then the titles of its
    /// comics.
    pub fn description(&self) -> (s: String)
        ensures
            s@ == "Innehållet i Fantomen "@ + issue_text(
                self.issue.number_str@,
                self.issue.year as int,
                opt_i16(self.issue.pages),
                opt_price(self.issue.price),
            ) + "."@ + comic_titles(self.contents@),
    {
        let mut result = String::new();
        result.append("Innehållet i Fantomen ");
        result.append(self.issue.to_string().as_str());
        result.append(".");
        let ghost start = result@;
        let mut i: usize = 0;
        while i < self.contents.len()
            invariant
                i <= self.contents@.len(),
                result@ == start + comic_titles(self.contents@.take(i as int)),
            decreases self.contents@.len() - i,
        {
            assert(self.contents@.take(i + 1).drop_last() == self.contents@.take(i as int));
            match &self.contents[i].content {
                PublishedContent::EpisodePart { title, .. } => {
                    result.push(' ');
                    result.append(title.title.as_str());
                    result.push('.');
                    proof {
                        reveal_strlit(" ");
                        reveal_strlit(".");
                        assert(result@ == start + comic_titles(self.contents@.take(i as int))
                            + " "@ + title.title@ + "."@);
                    }
                },
                PublishedContent::Text(_) => {},
            }
            i += 1;
        }
        assert(self.contents@.take(self.contents@.len() as int) == self.contents@);
        result
    }
}

} // verus!
