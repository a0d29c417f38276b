//! Reading a year's data file: each issue, its cover, and the articles
//! (`text` elements) and comics (`serie` elements) that it holds.
use crate::datafile::{
    creator_names, creator_names_of, episode_name, episode_name_of, name_step_fn, normalize_space,
    parse_refs, ref_step_fn, refs_of, refs_view, strings_view,
};
use crate::xml::{parse_xml, xml_root_of};
use crate::element::{
    DataError, Elem, ElemV, Outcome, elems_view, lemma_children_view, attr, attr_ns, attr_named_ns, attr_of, attr_value,
    best_plac, best_plac_of, child, child_of, child_text, child_text_of, fold_steps, lemma_fold_all,
    lemma_fold_next, lemma_fold_reads, lemma_fold_stops, opt_view, parse_attribute, parse_req_text, parse_text,
    req_text, req_text_value, req_value, text_in, text_norm, text_norm_of, text_value_of,
};
use crate::episode::Date;
use crate::issue::{IssueRef, Nr};
use crate::part::Part;
use crate::price::Price;
use crate::refkey::{RefKey, RefKeyView};
use crate::datafile::normalized;
use crate::text::{copy_str, str_eq};
use vstd::prelude::*;

verus! {

/// The namespace of the `xml:lang` attribute.
pub const XMLNS: &'static str = "http://www.w3.org/XML/1998/namespace";

/// The message of a halt where a required text is missing.
pub const NO_VALUE: &'static str = "called `Option::unwrap()` on a `None` value";

/// The message of a halt where an issue has more child elements than its
/// sequence numbers can count.
pub const TOO_MANY: &'static str = "attempt to add with overflow";

/// What a child element of a `text` or `serie` element says.
#[derive(Debug)]
pub enum Detail {
    /// An element that the head of the article or comic was read from.
    InHead,
    /// The original language and name of the episode.
    Orig { lang: String, name: String },
    /// Creators in a role.
    By { role: String, names: Vec<String> },
    /// References to people, places, things and comics.
    Refs(Vec<RefKey>),
    /// The episode was published before in an issue of the magazine.
    PrevFa(IssueRef),
    /// The episode was first published on a day.
    PrevDate(Date),
    /// The episode was published before in another magazine.
    PrevMag { name: String, issue: Option<i16>, of: Option<i16>, year: Option<i16> },
    /// The episode was first published as strips between two days (on
    /// sundays, or daily).
    Daystrip { from: Date, to: Date, sundays: bool },
    /// The episode was first published as the daily strips of these
    /// numbers.
    StripNrs { first: i32, last: i32 },
}

/// A `Detail` with its texts as character sequences.
pub enum DetailV {
    InHead,
    Orig(Seq<char>, Seq<char>),
    By(Seq<char>, Seq<Seq<char>>),
    Refs(Seq<RefKeyView>),
    PrevFa((int, Seq<char>), i16),
    PrevDate((int, int, int)),
    PrevMag(Seq<char>, Option<i16>, Option<i16>, Option<i16>),
    Daystrip((int, int, int), (int, int, int), bool),
    StripNrs(i32, i32),
}

impl View for Detail {
    type V = DetailV;

    open spec fn view(&self) -> DetailV {
        match self {
            Detail::InHead => DetailV::InHead,
            Detail::Orig { lang, name } => DetailV::Orig(lang@, name@),
            Detail::By { role, names } => DetailV::By(role@, strings_view(names@)),
            Detail::Refs(v) => DetailV::Refs(refs_view(v@)),
            Detail::PrevFa(r) => DetailV::PrevFa(r.number@, r.year),
            Detail::PrevDate(d) => DetailV::PrevDate(d@),
            Detail::PrevMag { name, issue, of, year } => DetailV::PrevMag(
                name@,
                *issue,
                *of,
                *year,
            ),
            Detail::Daystrip { from, to, sundays } => DetailV::Daystrip(from@, to@, *sundays),
            Detail::StripNrs { first, last } => DetailV::StripNrs(*first, *last),
        }
    }
}

pub open spec fn details_view(v: Seq<Detail>) -> Seq<DetailV> {
    v.map_values(|d: Detail| d@)
}

/// `r` is what reading gives where the outcome is `o`.
pub open spec fn gives<T: View>(o: Outcome<T::V>, r: Result<T, DataError>) -> bool {
    match o {
        Outcome::Read(v) => r matches Ok(x) && x@ == v,
        Outcome::Fail(e) => r matches Err(y) && y == e,
        Outcome::Halt(_) => false,
    }
}

/// The message of the halt that an outcome is, if it is one.
pub open spec fn halt_of<T>(o: Outcome<T>) -> Option<&'static str> {
    match o {
        Outcome::Halt(m) => Some(m),
        _ => None,
    }
}

/// The role of the creators in a `by` element: its `role` attribute, or
/// `by`.
pub open spec fn role_of(e: Elem) -> Seq<char> {
    match attr_of(e, "role"@) {
        Some(r) => r,
        None => "by"@,
    }
}

/// Reading a `by` element.
pub open spec fn by_step(e: Elem) -> Outcome<DetailV> {
    match creator_names_of(e) {
        Outcome::Read(v) => Outcome::Read(DetailV::By(role_of(e), v)),
        Outcome::Fail(x) => Outcome::Fail(x),
        Outcome::Halt(m) => Outcome::Halt(m),
    }
}

/// Reading a `ref` element.
pub open spec fn ref_step(e: Elem) -> Outcome<DetailV> {
    match refs_of(e) {
        Outcome::Read(v) => Outcome::Read(DetailV::Refs(v)),
        Outcome::Fail(x) => Outcome::Fail(x),
        Outcome::Halt(m) => Outcome::Halt(m),
    }
}

/// Read a `by` element.
fn read_by(e: &Elem) -> (r: Result<Detail, DataError>)
    ensures
        gives(by_step(*e), r),
{
    let names = creator_names(e)?;
    let role = match attr(e, "role") {
        Some(r) => copy_str(r),
        None => copy_str("by"),
    };
    Ok(Detail::By { role, names })
}

/// Read a `ref` element.
fn read_refs(e: &Elem) -> (r: Result<Detail, DataError>)
    ensures
        gives(ref_step(*e), r),
{
    let refs = parse_refs(e)?;
    Ok(Detail::Refs(refs))
}

// ---------------------------------------------------------------------
// Articles

/// Reading the child element `e`, at position `i`, of a `text` element.
pub open spec fn article_step(e: Elem, i: int) -> Outcome<DetailV> {
    let n = e.name@;
    if n == "title"@ || n == "subtitle"@ || n == "note"@ {
        Outcome::Read(DetailV::InHead)
    } else if n == "by"@ {
        by_step(e)
    } else if n == "ref"@ {
        ref_step(e)
    } else {
        Outcome::Fail(DataError::Unexpected(i as usize))
    }
}

pub open spec fn article_step_fn() -> spec_fn(Elem, int) -> Outcome<DetailV> {
    |e: Elem, i: int| article_step(e, i)
}

/// Read the child element `e`, at position `index`, of a `text` element.
pub fn article_detail(e: &Elem, index: usize) -> (r: Result<Detail, DataError>)
    ensures
        gives(article_step(*e, index as int), r),
{
    let n = e.name.as_str();
    if str_eq(n, "title") || str_eq(n, "subtitle") || str_eq(n, "note") {
        Ok(Detail::InHead)
    } else if str_eq(n, "by") {
        read_by(e)
    } else if str_eq(n, "ref") {
        read_refs(e)
    } else {
        Err(DataError::Unexpected(index))
    }
}

/// The title, subtitle and note of an article.
#[derive(Debug)]
pub struct ArticleHead {
    pub title: String,
    pub subtitle: Option<String>,
    pub note: Option<String>,
}

impl View for ArticleHead {
    type V = (Seq<char>, Option<Seq<char>>, Option<Seq<char>>);

    open spec fn view(&self) -> (Seq<char>, Option<Seq<char>>, Option<Seq<char>>) {
        (self.title@, opt_view(self.subtitle), opt_view(self.note))
    }
}

/// What a `text` element says of an article.
#[derive(Debug)]
pub struct ArticleData {
    pub head: ArticleHead,
    pub details: Vec<Detail>,
}

impl View for ArticleData {
    type V = ((Seq<char>, Option<Seq<char>>, Option<Seq<char>>), Seq<DetailV>);

    open spec fn view(&self) -> ((Seq<char>, Option<Seq<char>>, Option<Seq<char>>), Seq<DetailV>) {
        (self.head@, details_view(self.details@))
    }
}

/// The head of an article: its title (required), and its subtitle and
/// note, with their whitespace normalized.
pub open spec fn article_head_of(c: Elem) -> Result<
    (Seq<char>, Option<Seq<char>>, Option<Seq<char>>),
    DataError,
> {
    match child_text_of(c, "title"@) {
        None => Err(DataError::MissingText("title")),
        Some(t) => Ok((t, text_norm_of(c, "subtitle"@), text_norm_of(c, "note"@))),
    }
}

/// What a `text` element says of an article.
pub open spec fn article_of(c: Elem) -> Outcome<
    ((Seq<char>, Option<Seq<char>>, Option<Seq<char>>), Seq<DetailV>),
> {
    match article_head_of(c) {
        Err(x) => Outcome::Fail(x),
        Ok(h) => match fold_steps(c.children@, article_step_fn()) {
            Outcome::Read(d) => Outcome::Read((h, d)),
            Outcome::Fail(x) => Outcome::Fail(x),
            Outcome::Halt(m) => Outcome::Halt(m),
        },
    }
}

/// Read the head of an article from its `text` element.
pub fn article_head(c: &Elem) -> (r: Result<ArticleHead, DataError>)
    ensures
        req_value(r) == article_head_of(*c),
{
    let title = req_text(c, "title")?;
    Ok(
        ArticleHead {
            title: copy_str(title),
            subtitle: text_norm(c, "subtitle"),
            note: text_norm(c, "note"),
        },
    )
}

/// Read an article from its `text` element.
pub fn read_article(c: &Elem) -> (r: Result<ArticleData, DataError>)
    ensures
        gives(article_of(*c), r),
{
    let head = article_head(c)?;
    let ghost s = c.children@;
    let mut out: Vec<Detail> = Vec::new();
    let mut i: usize = 0;
    proof {
        lemma_fold_all(s, article_step_fn());
        assert(details_view(out@) =~= Seq::<DetailV>::empty());
    }
    while i < c.children.len()
        invariant
            s == c.children@,
            i <= s.len(),
            fold_steps(s.take(i as int), article_step_fn()) == Outcome::Read(details_view(out@)),
            article_head_of(*c) == Ok::<_, DataError>(head@),
        decreases s.len() - i,
    {
        proof {
            lemma_fold_next(s, article_step_fn(), i as int);
        }
        match article_detail(&c.children[i], i) {
            Ok(d) => {
                assert(details_view(out@.push(d)) =~= details_view(out@).push(d@));
                out.push(d);
            },
            Err(x) => {
                proof {
                    lemma_fold_stops(s, article_step_fn(), i + 1);
                }
                return Err(x);
            },
        }
        i += 1;
    }
    proof {
        lemma_fold_all(s, article_step_fn());
    }
    Ok(ArticleData { head, details: out })
}

// ---------------------------------------------------------------------
// Comics

/// The first child element of `e`, if it has one, is named `name`.
pub open spec fn first_child_is(e: Elem, name: Seq<char>) -> bool {
    e.children@.len() > 0 && e.children@[0].name@ == name
}

/// Reading a `prevpub` element: where the episode was published before.
pub open spec fn prevpub_step(e: Elem) -> Outcome<DetailV> {
    if first_child_is(e, "fa"@) {
        match text_value_of::<Nr>(e, "fa") {
            Err(x) => Outcome::Fail(x),
            Ok(None) => Outcome::Halt(NO_VALUE),
            Ok(Some(nr)) => match req_text_value::<i16>(e, "year") {
                Err(x) => Outcome::Fail(x),
                Ok(y) => Outcome::Read(DetailV::PrevFa(nr, y)),
            },
        }
    } else if first_child_is(e, "date"@) && attr_of(e, "role"@) == Some("orig"@) {
        match text_value_of::<Date>(e, "date") {
            Err(x) => Outcome::Fail(x),
            Ok(None) => Outcome::Halt(NO_VALUE),
            Ok(Some(d)) => Outcome::Read(DetailV::PrevDate(d)),
        }
    } else if first_child_is(e, "magazine"@) {
        match text_norm_of(e, "magazine"@) {
            None => Outcome::Halt(NO_VALUE),
            Some(name) => match text_value_of::<i16>(e, "issue") {
                Err(x) => Outcome::Fail(x),
                Ok(issue) => match text_value_of::<i16>(e, "of") {
                    Err(x) => Outcome::Fail(x),
                    Ok(of) => match text_value_of::<i16>(e, "year") {
                        Err(x) => Outcome::Fail(x),
                        Ok(year) => Outcome::Read(DetailV::PrevMag(name, issue, of, year)),
                    },
                },
            },
        }
    } else {
        Outcome::Fail(DataError::UnknownPrevpub)
    }
}

/// Reading a `daystrip` element: the first dates, or strip numbers, of
/// an episode.
pub open spec fn daystrip_step(e: Elem) -> Outcome<DetailV> {
    match text_value_of::<Date>(e, "from") {
        Err(x) => Outcome::Fail(x),
        Ok(Some(from)) => match req_text_value::<Date>(e, "to") {
            Err(x) => Outcome::Fail(x),
            Ok(to) => Outcome::Read(DetailV::Daystrip(from, to, attr_of(e, "d"@) == Some("sun"@))),
        },
        Ok(None) => match text_value_of::<i32>(e, "fromnr") {
            Err(x) => Outcome::Fail(x),
            Ok(Some(from)) => match req_text_value::<i32>(e, "tonr") {
                Err(x) => Outcome::Fail(x),
                Ok(to) => Outcome::Read(DetailV::StripNrs(from, to)),
            },
            Ok(None) => Outcome::Fail(DataError::UnknownDaystrip),
        },
    }
}

/// An `episode` element that gives the original name of the episode.
pub open spec fn is_orig_episode(e: Elem) -> bool {
    e.name@ == "episode"@ && attr_of(e, "role"@) == Some("orig"@)
}

/// Reading the child element `e`, at position `i`, of a `serie` element.
pub open spec fn serie_step(e: Elem, i: int) -> Outcome<DetailV> {
    let n = e.name@;
    if is_orig_episode(e) {
        match attr_named_ns(e.attrs@, XMLNS@, "lang"@) {
            None => Outcome::Halt("orig should have lang"),
            Some(lang) => match opt_view(e.text) {
                None => Outcome::Halt("orig should have name"),
                Some(t) => Outcome::Read(DetailV::Orig(lang, normalized(t))),
            },
        }
    } else if n == "label"@ || n == "title"@ || n == "episode"@ || n == "teaser"@ || n == "part"@
        || n == "note"@ || n == "copyright"@ || n == "best"@ {
        Outcome::Read(DetailV::InHead)
    } else if n == "by"@ {
        by_step(e)
    } else if n == "ref"@ {
        ref_step(e)
    } else if n == "prevpub"@ {
        prevpub_step(e)
    } else if n == "daystrip"@ {
        daystrip_step(e)
    } else {
        Outcome::Fail(DataError::Unexpected(i as usize))
    }
}

pub open spec fn serie_step_fn() -> spec_fn(Elem, int) -> Outcome<DetailV> {
    |e: Elem, i: int| serie_step(e, i)
}

/// The first child element of `e`, if it has one, is named `name`.
fn first_child_named(e: &Elem, name: &str) -> (b: bool)
    ensures
        b == first_child_is(*e, name@),
{
    e.children.len() > 0 && str_eq(e.children[0].name.as_str(), name)
}

/// The attribute `name` of `e` is `value`.
fn attr_is(e: &Elem, name: &str, value: &str) -> (b: bool)
    ensures
        b == (attr_of(*e, name@) == Some(value@)),
{
    match attr(e, name) {
        Some(v) => str_eq(v, value),
        None => false,
    }
}

/// Read a `prevpub` element.
fn read_prevpub(e: &Elem) -> (r: Result<Detail, DataError>)
    requires
        !(prevpub_step(*e) is Halt),
    ensures
        gives(prevpub_step(*e), r),
{
    if first_child_named(e, "fa") {
        let nr = match parse_text::<Nr>(e, "fa")? {
            Some(nr) => nr,
            None => {
                proof {
                    assert(false);
                }
                return Err(DataError::MissingText("fa"));
            },
        };
        let year = parse_req_text::<i16>(e, "year")?;
        Ok(Detail::PrevFa(IssueRef { year, number: nr }))
    } else if first_child_named(e, "date") && attr_is(e, "role", "orig") {
        match parse_text::<Date>(e, "date")? {
            Some(d) => Ok(Detail::PrevDate(d)),
            None => {
                proof {
                    assert(false);
                }
                Err(DataError::MissingText("date"))
            },
        }
    } else if first_child_named(e, "magazine") {
        let name = match text_norm(e, "magazine") {
            Some(n) => n,
            None => {
                proof {
                    assert(false);
                }
                return Err(DataError::MissingText("magazine"));
            },
        };
        let issue = parse_text::<i16>(e, "issue")?;
        let of = parse_text::<i16>(e, "of")?;
        let year = parse_text::<i16>(e, "year")?;
        Ok(Detail::PrevMag { name, issue, of, year })
    } else {
        Err(DataError::UnknownPrevpub)
    }
}

/// Read a `daystrip` element.
fn read_daystrip(e: &Elem) -> (r: Result<Detail, DataError>)
    ensures
        gives(daystrip_step(*e), r),
{
    match parse_text::<Date>(e, "from")? {
        Some(from) => {
            let to = parse_req_text::<Date>(e, "to")?;
            let sundays = attr_is(e, "d", "sun");
            Ok(Detail::Daystrip { from, to, sundays })
        },
        None => match parse_text::<i32>(e, "fromnr")? {
            Some(from) => {
                let to = parse_req_text::<i32>(e, "tonr")?;
                Ok(Detail::StripNrs { first: from, last: to })
            },
            None => Err(DataError::UnknownDaystrip),
        },
    }
}

/// Read the child element `e`, at position `index`, of a `serie`
/// element.
pub fn serie_detail(e: &Elem, index: usize) -> (r: Result<Detail, DataError>)
    requires
        !(serie_step(*e, index as int) is Halt),
    ensures
        gives(serie_step(*e, index as int), r),
{
    let n = e.name.as_str();
    if str_eq(n, "episode") && attr_is(e, "role", "orig") {
        let lang = match attr_ns(e, XMLNS, "lang") {
            Some(l) => copy_str(l),
            None => {
                proof {
                    assert(false);
                }
                return Err(DataError::MissingAttribute("lang"));
            },
        };
        let name = match &e.text {
            Some(t) => normalize_space(t.as_str()),
            None => {
                proof {
                    assert(false);
                }
                return Err(DataError::MissingText("episode"));
            },
        };
        Ok(Detail::Orig { lang, name })
    } else if str_eq(n, "label") || str_eq(n, "title") || str_eq(n, "episode") || str_eq(n, "teaser")
        || str_eq(n, "part") || str_eq(n, "note") || str_eq(n, "copyright") || str_eq(n, "best") {
        Ok(Detail::InHead)
    } else if str_eq(n, "by") {
        read_by(e)
    } else if str_eq(n, "ref") {
        read_refs(e)
    } else if str_eq(n, "prevpub") {
        read_prevpub(e)
    } else if str_eq(n, "daystrip") {
        read_daystrip(e)
    } else {
        Err(DataError::Unexpected(index))
    }
}

/// Whether reading the child element `e`, at position `index`, of a
/// `serie` element halts, and with what message.
pub fn serie_detail_halt(e: &Elem, index: usize) -> (r: Option<&'static str>)
    ensures
        r == halt_of(serie_step(*e, index as int)),
{
    let n = e.name.as_str();
    if str_eq(n, "episode") && attr_is(e, "role", "orig") {
        if attr_ns(e, XMLNS, "lang").is_none() {
            Some("orig should have lang")
        } else if e.text.is_none() {
            Some("orig should have name")
        } else {
            None
        }
    } else if str_eq(n, "label") || str_eq(n, "title") || str_eq(n, "episode") || str_eq(n, "teaser")
        || str_eq(n, "part") || str_eq(n, "note") || str_eq(n, "copyright") || str_eq(n, "best") {
        None
    } else if str_eq(n, "by") || str_eq(n, "ref") {
        proof {
            lemma_by_step_reads(*e);
        }
        None
    } else if str_eq(n, "prevpub") {
        if first_child_named(e, "fa") {
            match parse_text::<Nr>(e, "fa") {
                Ok(None) => Some(NO_VALUE),
                _ => None,
            }
        } else if first_child_named(e, "date") && attr_is(e, "role", "orig") {
            match parse_text::<Date>(e, "date") {
                Ok(None) => Some(NO_VALUE),
                _ => None,
            }
        } else if first_child_named(e, "magazine") && child_text(e, "magazine").is_none() {
            Some(NO_VALUE)
        } else {
            None
        }
    } else {
        None
    }
}

/// Reading a `by` or `ref` element never halts.
proof fn lemma_by_step_reads(e: Elem)
    ensures
        !(by_step(e) is Halt),
        !(ref_step(e) is Halt),
{
    if e.children@.len() > 0 {
        lemma_fold_reads(e.children@, name_step_fn());
    }
    lemma_fold_reads(e.children@, ref_step_fn());
}

/// The title, name, introduction, note, copyright, part, placing and
/// label of a comic in an issue.
pub struct SerieHeadV {
    pub title: Seq<char>,
    pub episode: Option<Seq<char>>,
    pub teaser: Option<Seq<char>>,
    pub note: Option<Seq<char>>,
    pub copyright: Option<Seq<char>>,
    pub part_no: Option<i16>,
    pub part_name: Option<Seq<char>>,
    pub best_plac: Option<i16>,
    pub label: Seq<char>,
}

/// What the head of a `serie` element says: the title and episode of the
/// comic, and the part of it that the issue holds.
#[derive(Debug)]
pub struct SerieHead {
    pub title: String,
    pub episode: Option<String>,
    pub teaser: Option<String>,
    pub note: Option<String>,
    pub copyright: Option<String>,
    pub part: Part,
    pub best_plac: Option<i16>,
    pub label: String,
}

impl View for SerieHead {
    type V = SerieHeadV;

    open spec fn view(&self) -> SerieHeadV {
        SerieHeadV {
            title: self.title@,
            episode: opt_view(self.episode),
            teaser: opt_view(self.teaser),
            note: opt_view(self.note),
            copyright: opt_view(self.copyright),
            part_no: self.part.no,
            part_name: opt_view(self.part.name),
            best_plac: self.best_plac,
            label: self.label@,
        }
    }
}

/// What a `serie` element says of a comic in an issue.
#[derive(Debug)]
pub struct SerieData {
    pub head: SerieHead,
    pub details: Vec<Detail>,
}

impl View for SerieData {
    type V = (SerieHeadV, Seq<DetailV>);

    open spec fn view(&self) -> (SerieHeadV, Seq<DetailV>) {
        (self.head@, details_view(self.details@))
    }
}

/// The head of a comic: its title (required), the name of its episode,
/// the introduction, note and copyright (normalized), the part (by the
/// `no` attribute and the text of a `part` element), the placing in the
/// reader's vote and the label (normalized, or empty).
pub open spec fn serie_head_of(c: Elem) -> Result<SerieHeadV, DataError> {
    match child_text_of(c, "title"@) {
        None => Err(DataError::MissingText("title")),
        Some(title) => {
            let part = child_of(c, "part"@);
            match (match part {
                Some(p) => attr_value::<i16>(p, "no"),
                None => Ok(None),
            }) {
                Err(x) => Err(x),
                Ok(no) => match best_plac_of(c) {
                    Err(x) => Err(x),
                    Ok(best) => Ok(
                        SerieHeadV {
                            title,
                            episode: episode_name_of(c),
                            teaser: text_norm_of(c, "teaser"@),
                            note: text_norm_of(c, "note"@),
                            copyright: text_norm_of(c, "copyright"@),
                            part_no: no,
                            part_name: text_in(part),
                            best_plac: best,
                            label: match text_norm_of(c, "label"@) {
                                Some(l) => l,
                                None => Seq::empty(),
                            },
                        },
                    ),
                },
            }
        },
    }
}

/// What a `serie` element says of a comic in an issue.
pub open spec fn serie_of(c: Elem) -> Outcome<(SerieHeadV, Seq<DetailV>)> {
    match serie_head_of(c) {
        Err(x) => Outcome::Fail(x),
        Ok(h) => match fold_steps(c.children@, serie_step_fn()) {
            Outcome::Read(d) => Outcome::Read((h, d)),
            Outcome::Fail(x) => Outcome::Fail(x),
            Outcome::Halt(m) => Outcome::Halt(m),
        },
    }
}

/// Read the head of a comic from its `serie` element.
pub fn serie_head(c: &Elem) -> (r: Result<SerieHead, DataError>)
    ensures
        req_value(r) == serie_head_of(*c),
{
    let title = req_text(c, "title")?;
    let part = child(c, "part");
    let no = match part {
        Some(p) => parse_attribute::<i16>(p, "no")?,
        None => None,
    };
    let best = best_plac(c)?;
    let name = match part {
        Some(p) => match &p.text {
            Some(t) => Some(copy_str(t.as_str())),
            None => None,
        },
        None => None,
    };
    let label = match text_norm(c, "label") {
        Some(l) => l,
        None => String::new(),
    };
    Ok(
        SerieHead {
            title: copy_str(title),
            episode: episode_name(c),
            teaser: text_norm(c, "teaser"),
            note: text_norm(c, "note"),
            copyright: text_norm(c, "copyright"),
            part: Part { no, name },
            best_plac: best,
            label,
        },
    )
}

/// Read a comic from its `serie` element.
pub fn read_serie(c: &Elem) -> (r: Result<SerieData, DataError>)
    requires
        !(serie_of(*c) is Halt),
    ensures
        gives(serie_of(*c), r),
{
    let head = serie_head(c)?;
    let ghost s = c.children@;
    let mut out: Vec<Detail> = Vec::new();
    let mut i: usize = 0;
    proof {
        lemma_fold_all(s, serie_step_fn());
        assert(details_view(out@) =~= Seq::<DetailV>::empty());
    }
    while i < c.children.len()
        invariant
            s == c.children@,
            i <= s.len(),
            fold_steps(s.take(i as int), serie_step_fn()) == Outcome::Read(details_view(out@)),
            serie_head_of(*c) == Ok::<_, DataError>(head@),
            !(fold_steps(s, serie_step_fn()) is Halt),
        decreases s.len() - i,
    {
        proof {
            lemma_fold_next(s, serie_step_fn(), i as int);
            if serie_step(s[i as int], i as int) is Halt {
                lemma_fold_stops(s, serie_step_fn(), i + 1);
            }
        }
        match serie_detail(&c.children[i], i) {
            Ok(d) => {
                assert(details_view(out@.push(d)) =~= details_view(out@).push(d@));
                out.push(d);
            },
            Err(x) => {
                proof {
                    lemma_fold_stops(s, serie_step_fn(), i + 1);
                }
                return Err(x);
            },
        }
        i += 1;
    }
    proof {
        lemma_fold_all(s, serie_step_fn());
    }
    Ok(SerieData { head, details: out })
}

/// Whether reading a comic from its `serie` element halts, and with what
/// message.
pub fn serie_halt(c: &Elem) -> (r: Option<&'static str>)
    ensures
        r == halt_of(serie_of(*c)),
{
    if serie_head(c).is_err() {
        return None;
    }
    let ghost s = c.children@;
    let mut i: usize = 0;
    proof {
        lemma_fold_all(s, serie_step_fn());
    }
    while i < c.children.len()
        invariant
            s == c.children@,
            i <= s.len(),
            fold_steps(s.take(i as int), serie_step_fn()) is Read,
            serie_head_of(*c) is Ok,
        decreases s.len() - i,
    {
        proof {
            lemma_fold_next(s, serie_step_fn(), i as int);
        }
        let e = &c.children[i];
        if let Some(m) = serie_detail_halt(e, i) {
            proof {
                lemma_fold_stops(s, serie_step_fn(), i + 1);
            }
            return Some(m);
        }
        if serie_detail(e, i).is_err() {
            proof {
                lemma_fold_stops(s, serie_step_fn(), i + 1);
            }
            return None;
        }
        i += 1;
    }
    proof {
        lemma_fold_all(s, serie_step_fn());
    }
    None
}

// ---------------------------------------------------------------------
// Issues

/// What an `issue` element says of the issue itself: its number, pages,
/// price and the placing of its cover in the reader's vote.
#[derive(Debug)]
pub struct IssueHead {
    pub nr: Nr,
    pub pages: Option<i16>,
    pub price: Option<Price>,
    pub cover_best: Option<i16>,
}

impl View for IssueHead {
    type V = ((int, Seq<char>), Option<i16>, Option<int>, Option<i16>);

    open spec fn view(&self) -> ((int, Seq<char>), Option<i16>, Option<int>, Option<i16>) {
        (
            self.nr@,
            self.pages,
            match self.price {
                Some(p) => Some(p@),
                None => None,
            },
            self.cover_best,
        )
    }
}

/// A child element of an `issue` element.
#[derive(Debug)]
pub enum IssueItem {
    /// The cover, with its artists where a `by` element names them.
    Cover(Option<Vec<String>>),
    /// An article.
    Article(ArticleData),
    /// A comic.
    Serie(SerieData),
    /// An element that says nothing that is kept.
    Ignored,
}

/// An `IssueItem` with its texts as character sequences.
pub enum IssueItemV {
    Cover(Option<Seq<Seq<char>>>),
    Article(((Seq<char>, Option<Seq<char>>, Option<Seq<char>>), Seq<DetailV>)),
    Serie((SerieHeadV, Seq<DetailV>)),
    Ignored,
}

impl View for IssueItem {
    type V = IssueItemV;

    open spec fn view(&self) -> IssueItemV {
        match self {
            IssueItem::Cover(Some(v)) => IssueItemV::Cover(Some(strings_view(v@))),
            IssueItem::Cover(None) => IssueItemV::Cover(None),
            IssueItem::Article(a) => IssueItemV::Article(a@),
            IssueItem::Serie(c) => IssueItemV::Serie(c@),
            IssueItem::Ignored => IssueItemV::Ignored,
        }
    }
}

pub open spec fn items_view(v: Seq<IssueItem>) -> Seq<IssueItemV> {
    v.map_values(|i: IssueItem| i@)
}

/// What an `issue` element says: the issue, and its contents in order
/// (the position of an item is its sequence number in the issue).
#[derive(Debug)]
pub struct IssueData {
    pub head: IssueHead,
    pub items: Vec<IssueItem>,
}

impl View for IssueData {
    type V = (((int, Seq<char>), Option<i16>, Option<int>, Option<i16>), Seq<IssueItemV>);

    open spec fn view(&self) -> (
        ((int, Seq<char>), Option<i16>, Option<int>, Option<i16>),
        Seq<IssueItemV>,
    ) {
        (self.head@, items_view(self.items@))
    }
}

/// The head of an issue: the `nr` attribute (required), the `pages` and
/// `price` attributes, and the placing of the cover (in its `omslag`
/// element).
pub open spec fn issue_head_of(i: Elem) -> Result<
    ((int, Seq<char>), Option<i16>, Option<int>, Option<i16>),
    DataError,
> {
    match attr_value::<Nr>(i, "nr") {
        Err(x) => Err(x),
        Ok(None) => Err(DataError::MissingAttribute("nr")),
        Ok(Some(nr)) => match attr_value::<i16>(i, "pages") {
            Err(x) => Err(x),
            Ok(pages) => match attr_value::<Price>(i, "price") {
                Err(x) => Err(x),
                Ok(price) => match (match child_of(i, "omslag"@) {
                    Some(o) => best_plac_of(o),
                    None => Ok(None),
                }) {
                    Err(x) => Err(x),
                    Ok(best) => Ok((nr, pages, price, best)),
                },
            },
        },
    }
}

/// The sequence numbers of the contents of an issue are `i16`s: the
/// element at this position and those after it have none.
pub const MAX_ITEMS: usize = 32767;

/// Reading the child element `c`, at position `j`, of an `issue` element.
pub open spec fn issue_step(c: Elem, j: int) -> Outcome<IssueItemV> {
    let n = c.name@;
    if j >= MAX_ITEMS {
        Outcome::Halt(TOO_MANY)
    } else if n == "omslag"@ {
        match child_of(c, "by"@) {
            None => Outcome::Read(IssueItemV::Cover(None)),
            Some(by) => match creator_names_of(by) {
                Outcome::Read(v) => Outcome::Read(IssueItemV::Cover(Some(v))),
                Outcome::Fail(x) => Outcome::Fail(x),
                Outcome::Halt(m) => Outcome::Halt(m),
            },
        }
    } else if n == "text"@ {
        match article_of(c) {
            Outcome::Read(a) => Outcome::Read(IssueItemV::Article(a)),
            Outcome::Fail(x) => Outcome::Fail(x),
            Outcome::Halt(m) => Outcome::Halt(m),
        }
    } else if n == "serie"@ {
        match serie_of(c) {
            Outcome::Read(a) => Outcome::Read(IssueItemV::Serie(a)),
            Outcome::Fail(x) => Outcome::Fail(x),
            Outcome::Halt(m) => Outcome::Halt(m),
        }
    } else if n == "skick"@ {
        Outcome::Read(IssueItemV::Ignored)
    } else {
        Outcome::Fail(DataError::Unexpected(j as usize))
    }
}

pub open spec fn issue_step_fn() -> spec_fn(Elem, int) -> Outcome<IssueItemV> {
    |e: Elem, j: int| issue_step(e, j)
}

/// What an `issue` element says.
pub open spec fn issue_of(i: Elem) -> Outcome<
    (((int, Seq<char>), Option<i16>, Option<int>, Option<i16>), Seq<IssueItemV>),
> {
    match issue_head_of(i) {
        Err(x) => Outcome::Fail(x),
        Ok(h) => match fold_steps(i.children@, issue_step_fn()) {
            Outcome::Read(d) => Outcome::Read((h, d)),
            Outcome::Fail(x) => Outcome::Fail(x),
            Outcome::Halt(m) => Outcome::Halt(m),
        },
    }
}

/// Read the head of an issue from its `issue` element.
pub fn issue_head(i: &Elem) -> (r: Result<IssueHead, DataError>)
    ensures
        req_value(r) == issue_head_of(*i),
{
    let nr = match parse_attribute::<Nr>(i, "nr")? {
        Some(nr) => nr,
        None => {
            return Err(DataError::MissingAttribute("nr"));
        },
    };
    let pages = parse_attribute::<i16>(i, "pages")?;
    let price = parse_attribute::<Price>(i, "price")?;
    let cover_best = match child(i, "omslag") {
        Some(o) => best_plac(o)?,
        None => None,
    };
    Ok(IssueHead { nr, pages, price, cover_best })
}

/// Read the child element `c`, at position `index`, of an `issue`
/// element.
pub fn issue_item(c: &Elem, index: usize) -> (r: Result<IssueItem, DataError>)
    requires
        !(issue_step(*c, index as int) is Halt),
    ensures
        gives(issue_step(*c, index as int), r),
{
    let n = c.name.as_str();
    if str_eq(n, "omslag") {
        match child(c, "by") {
            None => Ok(IssueItem::Cover(None)),
            Some(by) => {
                let names = creator_names(by)?;
                Ok(IssueItem::Cover(Some(names)))
            },
        }
    } else if str_eq(n, "text") {
        let a = read_article(c)?;
        Ok(IssueItem::Article(a))
    } else if str_eq(n, "serie") {
        let a = read_serie(c)?;
        Ok(IssueItem::Serie(a))
    } else if str_eq(n, "skick") {
        Ok(IssueItem::Ignored)
    } else {
        Err(DataError::Unexpected(index))
    }
}

/// Whether reading the child element `c`, at position `index`, of an
/// `issue` element halts, and with what message.
pub fn issue_item_halt(c: &Elem, index: usize) -> (r: Option<&'static str>)
    ensures
        r == halt_of(issue_step(*c, index as int)),
{
    if index >= MAX_ITEMS {
        Some(TOO_MANY)
    } else if str_eq(c.name.as_str(), "omslag") {
        proof {
            match child_of(*c, "by"@) {
                Some(by) => if by.children@.len() > 0 {
                    lemma_fold_reads(by.children@, name_step_fn());
                },
                None => {},
            }
        }
        None
    } else if str_eq(c.name.as_str(), "text") {
        proof {
            assert forall|e: Elem, i: int| !(#[trigger] article_step_fn()(e, i) is Halt) by {
                lemma_by_step_reads(e);
            }
            lemma_fold_reads(c.children@, article_step_fn());
        }
        None
    } else if str_eq(c.name.as_str(), "serie") {
        serie_halt(c)
    } else {
        None
    }
}

/// Read an issue from its `issue` element.
pub fn read_issue(i: &Elem) -> (r: Result<IssueData, DataError>)
    requires
        !(issue_of(*i) is Halt),
    ensures
        gives(issue_of(*i), r),
{
    let head = issue_head(i)?;
    let ghost s = i.children@;
    let mut out: Vec<IssueItem> = Vec::new();
    let mut j: usize = 0;
    proof {
        lemma_fold_all(s, issue_step_fn());
        assert(items_view(out@) =~= Seq::<IssueItemV>::empty());
    }
    while j < i.children.len()
        invariant
            s == i.children@,
            j <= s.len(),
            fold_steps(s.take(j as int), issue_step_fn()) == Outcome::Read(items_view(out@)),
            issue_head_of(*i) == Ok::<_, DataError>(head@),
            !(fold_steps(s, issue_step_fn()) is Halt),
        decreases s.len() - j,
    {
        proof {
            lemma_fold_next(s, issue_step_fn(), j as int);
            if issue_step(s[j as int], j as int) is Halt {
                lemma_fold_stops(s, issue_step_fn(), j + 1);
            }
        }
        match issue_item(&i.children[j], j) {
            Ok(item) => {
                assert(items_view(out@.push(item)) =~= items_view(out@).push(item@));
                out.push(item);
            },
            Err(x) => {
                proof {
                    lemma_fold_stops(s, issue_step_fn(), j + 1);
                }
                return Err(x);
            },
        }
        j += 1;
    }
    proof {
        lemma_fold_all(s, issue_step_fn());
    }
    Ok(IssueData { head, items: out })
}

/// Whether reading an issue from its `issue` element halts, and with
/// what message.
pub fn issue_halt(i: &Elem) -> (r: Option<&'static str>)
    ensures
        r == halt_of(issue_of(*i)),
{
    if issue_head(i).is_err() {
        return None;
    }
    let ghost s = i.children@;
    let mut j: usize = 0;
    proof {
        lemma_fold_all(s, issue_step_fn());
    }
    while j < i.children.len()
        invariant
            s == i.children@,
            j <= s.len(),
            fold_steps(s.take(j as int), issue_step_fn()) is Read,
            issue_head_of(*i) is Ok,
        decreases s.len() - j,
    {
        proof {
            lemma_fold_next(s, issue_step_fn(), j as int);
        }
        let c = &i.children[j];
        if let Some(m) = issue_item_halt(c, j) {
            proof {
                lemma_fold_stops(s, issue_step_fn(), j + 1);
            }
            return Some(m);
        }
        if issue_item(c, j).is_err() {
            proof {
                lemma_fold_stops(s, issue_step_fn(), j + 1);
            }
            return None;
        }
        j += 1;
    }
    proof {
        lemma_fold_all(s, issue_step_fn());
    }
    None
}

/// What a child element of an `issue` element holds.
#[derive(Debug, PartialEq, Eq)]
pub enum ItemKind {
    /// The cover (`omslag`).
    Cover,
    /// An article (`text`).
    Article,
    /// A comic (`serie`).
    Serie,
    /// The condition of the issue (`skick`), which is not kept.
    Ignored,
}

/// What kind of item the child element `c`, at position `index`, of an
/// `issue` element is (as `issue_step` tells them apart).
pub fn item_kind(c: &Elem, index: usize) -> (r: Result<ItemKind, DataError>)
    ensures
        c.name@ == "omslag"@ ==> r == Ok::<ItemKind, DataError>(ItemKind::Cover),
        c.name@ == "text"@ ==> r == Ok::<ItemKind, DataError>(ItemKind::Article),
        c.name@ == "serie"@ ==> r == Ok::<ItemKind, DataError>(ItemKind::Serie),
        c.name@ == "skick"@ ==> r == Ok::<ItemKind, DataError>(ItemKind::Ignored),
        c.name@ != "omslag"@ && c.name@ != "text"@ && c.name@ != "serie"@ && c.name@ != "skick"@
            ==> r == Err::<ItemKind, DataError>(DataError::Unexpected(index)),
{
    proof {
        reveal_strlit("omslag");
        reveal_strlit("text");
        reveal_strlit("serie");
        reveal_strlit("skick");
        assert("omslag"@.len() == 6 && "text"@.len() == 4);
        assert("serie"@.len() == 5 && "skick"@.len() == 5);
        assert("serie"@[1] != "skick"@[1]);
    }
    let n = c.name.as_str();
    if str_eq(n, "omslag") {
        Ok(ItemKind::Cover)
    } else if str_eq(n, "text") {
        Ok(ItemKind::Article)
    } else if str_eq(n, "serie") {
        Ok(ItemKind::Serie)
    } else if str_eq(n, "skick") {
        Ok(ItemKind::Ignored)
    } else {
        Err(DataError::Unexpected(index))
    }
}

/// A child element of the root of a year's data file.
#[derive(Debug, PartialEq, Eq)]
pub enum YearEntry {
    /// Information about the file, which is not kept.
    Info,
    /// An issue of the year.
    Issue,
}

/// What the child element `e`, at position `index`, of the root of a
/// year's data file is.
pub fn year_entry(e: &Elem, index: usize) -> (r: Result<YearEntry, DataError>)
    ensures
        e.name@ == "info"@ ==> r == Ok::<YearEntry, DataError>(YearEntry::Info),
        e.name@ != "info"@ && e.name@ == "issue"@ ==> r == Ok::<YearEntry, DataError>(
            YearEntry::Issue,
        ),
        e.name@ != "info"@ && e.name@ != "issue"@ ==> r == Err::<YearEntry, DataError>(
            DataError::Unexpected(index),
        ),
{
    if str_eq(e.name.as_str(), "info") {
        Ok(YearEntry::Info)
    } else if str_eq(e.name.as_str(), "issue") {
        Ok(YearEntry::Issue)
    } else {
        Err(DataError::Unexpected(index))
    }
}

/// Reading the child elements `s` (as plain values) of the root of a
/// year's data file in order, up to the first that is neither `info` nor
/// `issue`: the `issue` elements met, and the error that stopped the
/// reading, if any.
pub open spec fn year_read(s: Seq<ElemV>) -> (Seq<ElemV>, Option<DataError>)
    decreases s.len(),
{
    if s.len() == 0 {
        (Seq::empty(), None)
    } else {
        let (issues, stop) = year_read(s.drop_last());
        let c = s.last();
        if stop is Some {
            (issues, stop)
        } else if c.name == "info"@ {
            (issues, None)
        } else if c.name == "issue"@ {
            (issues.push(c), None)
        } else {
            (issues, Some(DataError::Unexpected((s.len() - 1) as usize)))
        }
    }
}

proof fn lemma_year_stopped(s: Seq<ElemV>, i: int)
    requires
        0 <= i <= s.len(),
        year_read(s.take(i)).1 is Some,
    ensures
        year_read(s) == year_read(s.take(i)),
    decreases s.len() - i,
{
    if i < s.len() {
        assert(s.take(i + 1).drop_last() =~= s.take(i));
        lemma_year_stopped(s, i + 1);
    } else {
        assert(s.take(i) =~= s);
    }
}

/// The issue elements of a year's data file, in order, and the error
/// that stopped the reading of the file, if any (the issues before it
/// are given).
pub struct YearFile {
    pub issues: Vec<Elem>,
    pub stop: Option<DataError>,
}

/// Read the text of a year's data file: the children of its root element
/// are `info` elements, which are passed over, and `issue` elements.
pub fn read_year(text: &str) -> (r: Result<YearFile, roxmltree::Error>)
    ensures
        r is Err <==> xml_root_of(text@) is None,
        r matches Ok(f) ==> xml_root_of(text@) matches Some(v) && (
            elems_view(f.issues@),
            f.stop,
        ) == year_read(v.children),
{
    let root = match parse_xml(text) {
        Ok(root) => root,
        Err(e) => return Err(e),
    };
    proof {
        lemma_children_view(root);
    }
    let ghost s = root@.children;
    let ghost kids0 = root.children@;
    let mut kids = root.children;
    assert(kids@ == kids0);
    assert(kids0.len() == kids.len());
    let mut issues: Vec<Elem> = Vec::new();
    let mut i: usize = 0;
    assert(s.take(0) =~= Seq::<ElemV>::empty());
    assert(kids0.skip(0) =~= kids0);
    while kids.len() > 0
        invariant
            xml_root_of(text@) == Some(root@),
            s == root@.children,
            s == elems_view(kids0),
            i <= s.len(),
            s.len() == kids0.len(),
            kids0.len() <= usize::MAX,
            kids@ == kids0.skip(i as int),
            year_read(s.take(i as int)) == (elems_view(issues@), None::<DataError>),
        decreases kids@.len(),
    {
        assert(s.take(i + 1).drop_last() =~= s.take(i as int));
        let c = kids.remove(0);
        assert(c == kids0[i as int]);
        assert(kids@ =~= kids0.skip(i + 1));
        assert(s.take(i + 1).last() == c@);
        proof {
            lemma_children_view(c);
        }
        match year_entry(&c, i) {
            Ok(YearEntry::Info) => {},
            Ok(YearEntry::Issue) => {
                let ghost before = issues@;
                issues.push(c);
                assert(elems_view(issues@) =~= elems_view(before).push(c@));
            },
            Err(x) => {
                proof {
                    lemma_year_stopped(s, i + 1);
                }
                return Ok(YearFile { issues, stop: Some(x) });
            },
        }
        i += 1;
    }
    assert(s.take(i as int) =~= s);
    Ok(YearFile { issues, stop: None })
}

} // verus!
