//! Old and misspelled addresses: where a page that is not found may be
//! redirected, for references, creators and titles.
use crate::refkey::{FA_ID, KEY_ID};
use crate::text::{
    chars_of, copy_str, has_prefix, parse_int, parse_int_spec, replace_all, replace_str, starts_with,
    str_eq, string_of,
};
use vstd::prelude::*;

verus! {

/// The text in lower case, as `str::to_lowercase` makes it.
pub uninterp spec fn lowercase_of(s: Seq<char>) -> Seq<char>;

/// Calls `str::to_lowercase`, which maps each character to its Unicode
/// lower case.  The contract states only that the result is a function
/// of `s`.
#[verifier::external_body]
fn to_lowercase(s: &str) -> (r: String)
    ensures
        r@ == lowercase_of(s@),
{
    s.to_lowercase()
}

/// Where to go for a reference that is not found.
#[derive(Debug, PartialEq, Eq)]
pub enum RefFallback {
    /// Redirect to this address.
    Redirect(String),
    /// Redirect to the reference with this slug, if there is exactly one.
    TryTarget(String),
    /// Nothing to try.
    NotFound,
}

/// The slug normalized: lower case, `_` as `-`, and without `.html`.
pub open spec fn ref_target(slug: Seq<char>) -> Seq<char> {
    replace_all(replace_all(lowercase_of(slug), "_"@, "-"@), ".html"@, ""@)
}

/// Where a missing reference of the kind `kind` goes: some old slugs of
/// Phantoms and keys have new places, and other slugs are tried in
/// normalized form.
pub open spec fn ref_fallback(kind: i16, slug: Seq<char>) -> Result<Seq<char>, Option<Seq<char>>> {
    if kind == FA_ID && slug == "17.1"@ {
        Ok("/fa/17j"@)
    } else if kind == FA_ID && slug == "22.1"@ {
        Ok("/fa/22k"@)
    } else if kind == FA_ID && slug == "22.2"@ {
        Ok("/fa/22j"@)
    } else if kind == KEY_ID && slug == "christophe_derrant"@ {
        Ok("/what/christophe-d-errant"@)
    } else if kind == KEY_ID && slug == "olangofolket"@ {
        Ok("/what/olango-folket"@)
    } else if kind == KEY_ID && slug == "/what/piratpete"@ {
        Ok("/what/pirat-pete"@)
    } else if ref_target(slug) != slug {
        Err(Some(ref_target(slug)))
    } else {
        Err(None)
    }
}

/// Where a missing reference goes (see `ref_fallback`).
pub fn refkey_fallback(kind: i16, slug: &str) -> (r: RefFallback)
    ensures
        match ref_fallback(kind, slug@) {
            Ok(url) => r matches RefFallback::Redirect(u) && u@ == url,
            Err(Some(t)) => r matches RefFallback::TryTarget(s) && s@ == t,
            Err(None) => r == RefFallback::NotFound,
        },
{
    if kind == FA_ID {
        if str_eq(slug, "17.1") {
            return RefFallback::Redirect(copy_str("/fa/17j"));
        } else if str_eq(slug, "22.1") {
            return RefFallback::Redirect(copy_str("/fa/22k"));
        } else if str_eq(slug, "22.2") {
            return RefFallback::Redirect(copy_str("/fa/22j"));
        }
    }
    if kind == KEY_ID {
        if str_eq(slug, "christophe_derrant") {
            return RefFallback::Redirect(copy_str("/what/christophe-d-errant"));
        } else if str_eq(slug, "olangofolket") {
            return RefFallback::Redirect(copy_str("/what/olango-folket"));
        } else if str_eq(slug, "/what/piratpete") {
            return RefFallback::Redirect(copy_str("/what/pirat-pete"));
        }
    }
    let lower = chars_of(to_lowercase(slug).as_str());
    proof {
        reveal_strlit("_");
        reveal_strlit(".html");
    }
    let t = replace_str(&lower, "_", "-");
    let t = replace_str(&t, ".html", "");
    let target = string_of(&t);
    if str_eq(target.as_str(), slug) {
        RefFallback::NotFound
    } else {
        RefFallback::TryTarget(target)
    }
}

/// The address of the reference with the slug `target`, of the kind
/// `kind` (a Phantom, or else a key).
pub fn refkey_url(kind: i16, target: &str) -> (r: String)
    ensures
        r@ == (if kind == FA_ID {
            "/fa/"@
        } else {
            "/what/"@
        }) + target@,
{
    let mut out = String::new();
    if kind == FA_ID {
        out.append("/fa/");
    } else {
        out.append("/what/");
    }
    out.append(target);
    out
}

/// Where to go for a creator that is not found.
#[derive(Debug, PartialEq, Eq)]
pub enum CreatorFallback {
    /// Redirect to this address.
    Redirect(String),
    /// Look for a creator whose name or slug is like this pattern.
    Search(String),
}

/// The slug as a pattern: `_` and `-` match anything, and `.html` is
/// dropped.
pub open spec fn creator_pattern(slug: Seq<char>) -> Seq<char> {
    replace_all(replace_all(replace_all(slug, "_"@, "%"@), "-"@, "%"@), ".html"@, ""@)
}

/// Where a missing creator goes: two misspellings of one name are known,
/// other slugs are looked for as patterns.
pub open spec fn creator_fallback_spec(slug: Seq<char>) -> Result<Seq<char>, Seq<char>> {
    let t = creator_pattern(slug);
    if t == "anderas%eriksson"@ || t == "andreas%erikssson"@ {
        Ok("/who/andreas-eriksson"@)
    } else {
        Err(t)
    }
}

/// Where a missing creator goes (see `creator_fallback_spec`).
pub fn creator_fallback(slug: &str) -> (r: CreatorFallback)
    ensures
        match creator_fallback_spec(slug@) {
            Ok(url) => r matches CreatorFallback::Redirect(u) && u@ == url,
            Err(p) => r matches CreatorFallback::Search(s) && s@ == p,
        },
{
    proof {
        reveal_strlit("_");
        reveal_strlit("-");
        reveal_strlit(".html");
    }
    let v = chars_of(slug);
    let t = replace_str(&v, "_", "%");
    let t = replace_str(&t, "-", "%");
    let t = replace_str(&t, ".html", "");
    let target = string_of(&t);
    if str_eq(target.as_str(), "anderas%eriksson") || str_eq(target.as_str(), "andreas%erikssson") {
        CreatorFallback::Redirect(copy_str("/who/andreas-eriksson"))
    } else {
        CreatorFallback::Search(target)
    }
}

/// A title slug may ask for only the daily strips (`weekdays-`) or only
/// the sunday pages (`sundays-`) of a title.
pub open spec fn strip_choice(slug: Seq<char>) -> (Seq<char>, Option<bool>) {
    if has_prefix(slug, "weekdays-"@) {
        (slug.skip("weekdays-"@.len() as int), Some(false))
    } else if has_prefix(slug, "sundays-"@) {
        (slug.skip("sundays-"@.len() as int), Some(true))
    } else {
        (slug, None)
    }
}

/// The title slug, and whether only sunday pages (`Some(true)`) or only
/// daily strips (`Some(false)`) are asked for.
pub fn split_strip_prefix(slug: &str) -> (r: (String, Option<bool>))
    ensures
        (r.0@, r.1) == strip_choice(slug@),
{
    let v = chars_of(slug);
    let w = chars_of("weekdays-");
    let s = chars_of("sundays-");
    if starts_with(&v, "weekdays-") {
        let mut rest = String::new();
        crate::text::push_range(&mut rest, &v, w.len(), v.len());
        assert(v@.subrange(w@.len() as int, v@.len() as int) == v@.skip(w@.len() as int));
        (rest, Some(false))
    } else if starts_with(&v, "sundays-") {
        let mut rest = String::new();
        crate::text::push_range(&mut rest, &v, s.len(), v.len());
        assert(v@.subrange(s@.len() as int, v@.len() as int) == v@.skip(s@.len() as int));
        (rest, Some(true))
    } else {
        (copy_str(slug), None)
    }
}

/// An icon asked for at an old address.
#[derive(Debug, PartialEq, Eq, Structural)]
pub enum OldIcon {
    Favicon,
    TouchIcon,
}

/// What to try for an old page address: an icon, or a year (if the
/// address is one), then a title by slug, and then a title whose slug is
/// like a pattern.
#[derive(Debug)]
pub struct OldSlugPlan {
    pub icon: Option<OldIcon>,
    pub year: Option<i16>,
    pub title_slug: String,
    pub title_pattern: String,
}

/// The characters of `s`, separated by `%`.
pub open spec fn spaced_pattern(s: Seq<char>) -> Seq<char>
    decreases s.len(),
{
    if s.len() <= 1 {
        s
    } else {
        spaced_pattern(s.drop_last()) + seq!['%', s.last()]
    }
}

/// An old address without `_` (as `-`) and `.html`, read as a year.
pub open spec fn old_year(slug: Seq<char>) -> Option<int> {
    parse_int_spec(replace_all(replace_all(slug, "_"@, "-"@), ".html"@, ""@), i16::MIN as int, i16::MAX as int)
}

/// An old address without the `weekdays-` and `sundays-` prefixes.
pub open spec fn old_title(slug: Seq<char>) -> Seq<char> {
    replace_all(replace_all(slug, "weekdays-"@, ""@), "sundays-"@, ""@)
}

pub open spec fn old_icon(slug: Seq<char>) -> Option<OldIcon> {
    if slug == "favicon.ico"@ {
        Some(OldIcon::Favicon)
    } else if slug == "apple-touch-icon.png"@ || slug == "apple-touch-icon-precomposed.png"@ {
        Some(OldIcon::TouchIcon)
    } else {
        None
    }
}

/// What to try for an old page address.
pub fn oldslug_plan(slug: &str) -> (r: OldSlugPlan)
    ensures
        r.icon == old_icon(slug@),
        match old_year(slug@) {
            Some(y) => r.year == Some(y as i16),
            None => r.year is None,
        },
        r.title_slug@ == old_title(slug@),
        r.title_pattern@ == spaced_pattern(replace_all(old_title(slug@), "-"@, ""@)),
{
    let icon = if str_eq(slug, "favicon.ico") {
        Some(OldIcon::Favicon)
    } else if str_eq(slug, "apple-touch-icon.png") || str_eq(slug, "apple-touch-icon-precomposed.png") {
        Some(OldIcon::TouchIcon)
    } else {
        None
    };
    proof {
        reveal_strlit("_");
        reveal_strlit("-");
        reveal_strlit(".html");
        reveal_strlit("weekdays-");
        reveal_strlit("sundays-");
    }
    let v = chars_of(slug);
    let t = replace_str(&v, "_", "-");
    let t = replace_str(&t, ".html", "");
    let year = match parse_int(&t, 0, t.len(), i16::MIN as i64, i16::MAX as i64) {
        Some(y) => Some(y as i16),
        None => None,
    };
    assert(t@.subrange(0, t@.len() as int) == t@);
    let u = replace_str(&v, "weekdays-", "");
    let u = replace_str(&u, "sundays-", "");
    let title_slug = string_of(&u);
    let d = replace_str(&u, "-", "");
    let mut pattern: Vec<char> = Vec::new();
    let mut i: usize = 0;
    while i < d.len()
        invariant
            i <= d@.len(),
            pattern@ == spaced_pattern(d@.take(i as int)),
        decreases d@.len() - i,
    {
        if i > 0 {
            pattern.push('%');
        }
        pattern.push(d[i]);
        proof {
            assert(d@.take(i + 1).drop_last() == d@.take(i as int));
            if i == 0 {
                assert(d@.take(1) == seq![d@[0]]);
            } else {
                assert(pattern@ == spaced_pattern(d@.take(i as int)) + seq!['%', d@[i as int]]);
            }
        }
        i += 1;
    }
    assert(d@.take(d@.len() as int) == d@);
    OldSlugPlan { icon, year, title_slug, title_pattern: string_of(&pattern) }
}

/// The address of a title's page.
pub fn title_url(slug: &str) -> (r: String)
    ensures
        r@ == "/titles/"@ + slug@,
{
    let mut out = String::new();
    out.append("/titles/");
    out.append(slug);
    out
}

/// The address of a creator's page.
pub fn creator_url(slug: &str) -> (r: String)
    ensures
        r@ == "/who/"@ + slug@,
{
    let mut out = String::new();
    out.append("/who/");
    out.append(slug);
    out
}

} // verus!
