//! References: to one of the Phantoms, to a key person or thing, to a
//! creator or to a title.  Each has a name and a url slug.
use crate::text::{copy_str, html_escape, int_chars, push_escaped, push_int, str_eq};
use vstd::prelude::*;

verus! {

/// The slug that `slug::slugify` makes of a text: lower-case ascii
/// letters, digits and single dashes, from the text transliterated to
/// ascii.
pub uninterp spec fn slugify_result(s: Seq<char>) -> Seq<char>;

/// Calls `slug::slugify`, which lowers and transliterates `s` to ascii
/// and joins the runs of letters and digits by single dashes.  The
/// contract states only that the result is a function of `s`.
#[verifier::external_body]
pub(crate) fn slugify(s: &str) -> (r: String)
    ensures
        r@ == slugify_result(s@),
{
    slug::slugify(s)
}

/// A reference from an episode or an article.
#[derive(Debug, PartialEq, Eq)]
pub enum RefKey {
    /// slug
    Fa(String),
    /// Actual key and slug
    Key(String, String),
    /// Name, slug
    Who(String, String),
    /// Name, slug
    Title(String, String),
}

/// A reference with its database id.
#[derive(Debug)]
pub struct IdRefKey {
    pub id: i32,
    pub refkey: RefKey,
}

pub const KEY_ID: i16 = 1;
pub const FA_ID: i16 = 2;
pub const WHO_ID: i16 = 3;
pub const TITLE_ID: i16 = 4;

/// The reference that `RefKey::key` makes of a key name: some names are
/// Phantoms, others keys with a slug of their own.
pub open spec fn key_ref(name: Seq<char>) -> RefKeyView {
    if name == "Julie"@ {
        RefKeyView::Fa("17j"@)
    } else if name == "Kit & Heloise"@ {
        RefKeyView::Fa("22"@)
    } else if name == "Kit"@ {
        RefKeyView::Fa("22k"@)
    } else if name == "Heloise"@ {
        RefKeyView::Fa("22h"@)
    } else {
        RefKeyView::Key(name, slugify_result(name))
    }
}

/// A reference, with its texts as character sequences.
pub enum RefKeyView {
    Fa(Seq<char>),
    Key(Seq<char>, Seq<char>),
    Who(Seq<char>, Seq<char>),
    Title(Seq<char>, Seq<char>),
}

/// The name of a Phantom, by the slug of the reference.
pub open spec fn fa_name(slug: Seq<char>) -> Seq<char> {
    if slug == "0"@ {
        "Kapten Walker"@
    } else if slug == "1"@ {
        "Den 1:a Fantomen"@
    } else if slug == "17j"@ {
        "Julie"@
    } else if slug == "22h"@ {
        "Heloise"@
    } else if slug == "22k"@ {
        "Kit"@
    } else {
        "Den "@ + slug + ":e Fantomen"@
    }
}

/// The short name of a Phantom: the slug, but for those with names.
pub open spec fn fa_short(slug: Seq<char>) -> Seq<char> {
    if slug == "0"@ {
        "Kapten Walker"@
    } else if slug == "17j"@ {
        "Julie"@
    } else if slug == "22h"@ {
        "Heloise"@
    } else if slug == "22k"@ {
        "Kit"@
    } else {
        slug
    }
}

impl RefKeyView {
    pub open spec fn name(self) -> Seq<char> {
        match self {
            RefKeyView::Fa(s) => fa_name(s),
            RefKeyView::Key(n, _) => n,
            RefKeyView::Who(n, _) => n,
            RefKeyView::Title(n, _) => n,
        }
    }

    pub open spec fn short(self) -> Seq<char> {
        match self {
            RefKeyView::Fa(s) => fa_short(s),
            RefKeyView::Key(n, _) => n,
            RefKeyView::Who(n, _) => n,
            RefKeyView::Title(n, _) => n,
        }
    }

    pub open spec fn slug(self) -> Seq<char> {
        match self {
            RefKeyView::Fa(s) => s,
            RefKeyView::Key(_, s) => s,
            RefKeyView::Who(_, s) => s,
            RefKeyView::Title(_, s) => s,
        }
    }

    /// The site-relative url of the page of a reference.
    pub open spec fn url(self) -> Seq<char> {
        match self {
            RefKeyView::Fa(s) => "/fa/"@ + s,
            RefKeyView::Key(_, s) => "/what/"@ + s,
            RefKeyView::Who(_, s) => "/who/"@ + s,
            RefKeyView::Title(_, s) => "/titles/"@ + s,
        }
    }

    pub open spec fn letter(self) -> char {
        match self {
            RefKeyView::Fa(..) => 'f',
            RefKeyView::Key(..) => 'k',
            RefKeyView::Who(..) => 'p',
            RefKeyView::Title(..) => 't',
        }
    }

    /// The kind of a reference, as stored.
    pub open spec fn kind(self) -> i16 {
        match self {
            RefKeyView::Fa(..) => FA_ID,
            RefKeyView::Key(..) => KEY_ID,
            RefKeyView::Who(..) => WHO_ID,
            RefKeyView::Title(..) => TITLE_ID,
        }
    }

    /// The css class of a link to a reference.
    pub open spec fn css_class(self) -> Seq<char> {
        match self {
            RefKeyView::Fa(..) => "fa"@,
            RefKeyView::Key(..) => "key"@,
            RefKeyView::Who(..) => "who"@,
            RefKeyView::Title(..) => "title"@,
        }
    }

    /// A link to a reference, as reference lists show it.
    pub open spec fn html(self) -> Seq<char> {
        "<a href=\""@ + html_escape(self.url()) + "\" class=\"ref "@ + self.css_class() + "\">"@
            + html_escape(self.name()) + "</a>"@
    }

    /// A link to a reference in a weighted cloud of references.
    pub open spec fn cloud_html(self, n: int, w: int) -> Seq<char> {
        "<a href='"@ + self.url() + "' class='w"@ + int_chars(w) + "' data-n='"@ + int_chars(n)
            + "'>"@ + html_escape(self.name()) + "</a>"@
    }
}

/// The reference that a stored row (kind, title, slug) denotes, if the
/// kind is known.
pub open spec fn row_ref(kind: i16, title: Seq<char>, slug: Seq<char>) -> Option<RefKeyView> {
    if kind == KEY_ID {
        Some(RefKeyView::Key(title, slug))
    } else if kind == FA_ID {
        Some(RefKeyView::Fa(slug))
    } else if kind == WHO_ID {
        Some(RefKeyView::Who(title, slug))
    } else if kind == TITLE_ID {
        Some(RefKeyView::Title(title, slug))
    } else {
        None
    }
}

impl View for RefKey {
    type V = RefKeyView;

    open spec fn view(&self) -> RefKeyView {
        match self {
            RefKey::Fa(s) => RefKeyView::Fa(s@),
            RefKey::Key(n, s) => RefKeyView::Key(n@, s@),
            RefKey::Who(n, s) => RefKeyView::Who(n@, s@),
            RefKey::Title(n, s) => RefKeyView::Title(n@, s@),
        }
    }
}

impl RefKey {
    /// A reference to a Phantom, by slug.
    pub fn fa(slug: &str) -> (r: RefKey)
        ensures
            r@ == RefKeyView::Fa(slug@),
    {
        RefKey::Fa(copy_str(slug))
    }

    /// A reference to a key (a recurring person or thing), by name.
    pub fn key(name: &str) -> (r: RefKey)
        ensures
            r@ == key_ref(name@),
    {
        if str_eq(name, "Julie") {
            RefKey::fa("17j")
        } else if str_eq(name, "Kit & Heloise") {
            RefKey::fa("22")
        } else if str_eq(name, "Kit") {
            RefKey::fa("22k")
        } else if str_eq(name, "Heloise") {
            RefKey::fa("22h")
        } else {
            RefKey::Key(copy_str(name), slugify(name))
        }
    }

    /// A reference to a creator, by name.
    pub fn who(name: &str) -> (r: RefKey)
        ensures
            r@ == RefKeyView::Who(name@, slugify_result(name@)),
    {
        RefKey::Who(copy_str(name), slugify(name))
    }

    /// A reference to a title, by name.
    pub fn title(name: &str) -> (r: RefKey)
        ensures
            r@ == RefKeyView::Title(name@, slugify_result(name@)),
    {
        RefKey::Title(copy_str(name), slugify(name))
    }

    /// The reference that a stored row (kind, title, slug) denotes, or
    /// `None` for an unknown kind.
    pub fn from_row(kind: i16, title: String, slug: String) -> (r: Option<RefKey>)
        ensures
            r matches Some(k) ==> row_ref(kind, title@, slug@) == Some(k@),
            r is None <==> row_ref(kind, title@, slug@) is None,
    {
        if kind == KEY_ID {
            Some(RefKey::Key(title, slug))
        } else if kind == FA_ID {
            Some(RefKey::Fa(slug))
        } else if kind == WHO_ID {
            Some(RefKey::Who(title, slug))
        } else if kind == TITLE_ID {
            Some(RefKey::Title(title, slug))
        } else {
            None
        }
    }

    /// The kind of this reference, as stored.
    pub fn kind(&self) -> (k: i16)
        ensures
            k == self@.kind(),
    {
        match self {
            RefKey::Fa(..) => FA_ID,
            RefKey::Key(..) => KEY_ID,
            RefKey::Who(..) => WHO_ID,
            RefKey::Title(..) => TITLE_ID,
        }
    }

    /// The site-relative url of the page of this reference.
    pub fn url(&self) -> (u: String)
        ensures
            u@ == self@.url(),
    {
        let mut out = String::new();
        match self {
            RefKey::Fa(s) => {
                out.append("/fa/");
                out.append(s.as_str());
            },
            RefKey::Key(_, s) => {
                out.append("/what/");
                out.append(s.as_str());
            },
            RefKey::Who(_, s) => {
                out.append("/who/");
                out.append(s.as_str());
            },
            RefKey::Title(_, s) => {
                out.append("/titles/");
                out.append(s.as_str());
            },
        }
        out
    }

    pub fn slug(&self) -> (s: &str)
        ensures
            s@ == self@.slug(),
    {
        match self {
            RefKey::Fa(s) => s.as_str(),
            RefKey::Key(_, s) => s.as_str(),
            RefKey::Who(_, s) => s.as_str(),
            RefKey::Title(_, s) => s.as_str(),
        }
    }

    /// The name of this reference, as pages show it.
    pub fn name(&self) -> (n: String)
        ensures
            n@ == self@.name(),
    {
        match self {
            RefKey::Fa(slug) => {
                let s = slug.as_str();
                if str_eq(s, "0") {
                    copy_str("Kapten Walker")
                } else if str_eq(s, "1") {
                    copy_str("Den 1:a Fantomen")
                } else if str_eq(s, "17j") {
                    copy_str("Julie")
                } else if str_eq(s, "22h") {
                    copy_str("Heloise")
                } else if str_eq(s, "22k") {
                    copy_str("Kit")
                } else {
                    let mut out = String::new();
                    out.append("Den ");
                    out.append(s);
                    out.append(":e Fantomen");
                    out
                }
            },
            RefKey::Key(name, _) => name.clone(),
            RefKey::Who(name, _) => name.clone(),
            RefKey::Title(name, _) => name.clone(),
        }
    }

    /// The short name of this reference.
    pub fn short(&self) -> (n: String)
        ensures
            n@ == self@.short(),
    {
        match self {
            RefKey::Fa(slug) => {
                let s = slug.as_str();
                if str_eq(s, "0") {
                    copy_str("Kapten Walker")
                } else if str_eq(s, "17j") {
                    copy_str("Julie")
                } else if str_eq(s, "22h") {
                    copy_str("Heloise")
                } else if str_eq(s, "22k") {
                    copy_str("Kit")
                } else {
                    copy_str(s)
                }
            },
            RefKey::Key(name, _) => name.clone(),
            RefKey::Who(name, _) => name.clone(),
            RefKey::Title(name, _) => name.clone(),
        }
    }

    pub fn letter(&self) -> (c: char)
        ensures
            c == self@.letter(),
    {
        match self {
            RefKey::Fa(..) => 'f',
            RefKey::Key(..) => 'k',
            RefKey::Who(..) => 'p',
            RefKey::Title(..) => 't',
        }
    }

    /// Append a link to this reference to `out`.
    pub fn to_html(&self, out: &mut String)
        ensures
            final(out)@ == old(out)@ + self@.html(),
    {
        out.append("<a href=\"");
        push_escaped(out, self.url().as_str());
        out.append("\" class=\"ref ");
        match self {
            RefKey::Fa(..) => out.append("fa"),
            RefKey::Key(..) => out.append("key"),
            RefKey::Who(..) => out.append("who"),
            RefKey::Title(..) => out.append("title"),
        }
        out.append("\">");
        push_escaped(out, self.name().as_str());
        out.append("</a>");
    }

    /// Append a link to this reference, weighted `w` and with the count
    /// `n`, to `out`.
    pub fn write_cloud_item(&self, out: &mut String, n: i32, w: u8)
        ensures
            final(out)@ == old(out)@ + self@.cloud_html(n as int, w as int),
    {
        out.append("<a href='");
        out.append(self.url().as_str());
        out.append("' class='w");
        push_int(out, w as i64);
        out.append("' data-n='");
        push_int(out, n as i64);
        out.append("'>");
        push_escaped(out, self.name().as_str());
        out.append("</a>");
    }

    /// The stored fields (kind, title, slug) of this reference; for a
    /// creator, the name and slug of the reference as it is (a creator
    /// reference is stored by its creator's actual name and slug, which
    /// only the database knows).
    pub fn stored_fields(&self) -> (r: (i16, String, String))
        ensures
            r.0 == self@.kind(),
            r.1@ == self@.name(),
            r.2@ == self@.slug(),
    {
        let slug = copy_str(self.slug());
        match self {
            RefKey::Fa(_) => (FA_ID, self.name(), slug),
            RefKey::Key(t, _) => (KEY_ID, t.clone(), slug),
            RefKey::Who(n, _) => (WHO_ID, n.clone(), slug),
            RefKey::Title(n, _) => (TITLE_ID, n.clone(), slug),
        }
    }
}

impl IdRefKey {
    /// The reference that a stored row (id, kind, title, slug) denotes, or
    /// `None` for an unknown kind.
    pub fn from_row(id: i32, kind: i16, title: String, slug: String) -> (r: Option<IdRefKey>)
        ensures
            r matches Some(k) ==> k.id == id && row_ref(kind, title@, slug@) == Some(k.refkey@),
            r is None <==> row_ref(kind, title@, slug@) is None,
    {
        match RefKey::from_row(kind, title, slug) {
            Some(refkey) => Some(IdRefKey { id, refkey }),
            None => None,
        }
    }

    pub fn name(&self) -> (n: String)
        ensures
            n@ == self.refkey@.name(),
    {
        self.refkey.name()
    }

    pub fn slug(&self) -> (s: &str)
        ensures
            s@ == self.refkey@.slug(),
    {
        self.refkey.slug()
    }

    pub fn letter(&self) -> (c: char)
        ensures
            c == self.refkey@.letter(),
    {
        self.refkey.letter()
    }
}

} // verus!

verus! {

impl crate::cloud::CloudItem for RefKey {
    open spec fn cloud_key(&self) -> Seq<char> {
        self@.name()
    }

    open spec fn cloud_html(&self, n: int, w: int) -> Seq<char> {
        self@.cloud_html(n, w)
    }

    fn sort_key(&self) -> (k: Vec<char>) {
        crate::text::chars_of(self.name().as_str())
    }

    fn write_item(&self, out: &mut String, n: i32, w: u8) {
        self.write_cloud_item(out, n, w)
    }
}

/// The slug of a name, as titles, creators and keys get theirs.
pub fn slug_for(name: &str) -> (r: String)
    ensures
        r@ == slugify_result(name@),
{
    slugify(name)
}

/// A reference stored as its kind, name and slug (as `stored_fields`
/// gives them) reads back (by `from_row`) as the same reference.
pub proof fn lemma_stored_ref_round_trip(k: RefKeyView)
    ensures
        row_ref(k.kind(), k.name(), k.slug()) == Some(k),
{
}

/// Each kind of reference has its pages under a path of its own:
/// Phantoms under `/fa/`, key references under `/what/`, creators under
/// `/who/` and titles under `/titles/`, each followed by the slug; and so
/// two references have the same page exactly when they are of the same
/// kind and have the same slug.
pub proof fn lemma_url_paths(a: RefKeyView, b: RefKeyView)
    ensures
        a is Fa ==> a.url() == "/fa/"@ + a.slug(),
        a is Key ==> a.url() == "/what/"@ + a.slug(),
        a is Who ==> a.url() == "/who/"@ + a.slug(),
        a is Title ==> a.url() == "/titles/"@ + a.slug(),
        a.url() == b.url() <==> (a.letter() == b.letter() && a.slug() == b.slug()),
{
    reveal_strlit("/fa/");
    reveal_strlit("/what/");
    reveal_strlit("/who/");
    reveal_strlit("/titles/");
    let (ua, ub) = (a.url(), b.url());
    if ua == ub {
        assert(ua[1] == ub[1] && ua[2] == ub[2] && ua[3] == ub[3]);
        let n = (ua.len() - a.slug().len()) as int;
        assert(n == ub.len() - b.slug().len()) by {
            if a.letter() != b.letter() {
                assert(false);
            }
        }
        assert(a.slug() =~= ua.skip(n));
        assert(b.slug() =~= ub.skip(n));
    } else if a.letter() == b.letter() && a.slug() == b.slug() {
        assert(ua =~= ub);
    }
}

} // verus!
