//! Finding the scan of the cover of an issue on the phantom wiki: the
//! page of the issue, the page of its cover image, and the image file.
use crate::element::opt_view;
use crate::text::{chars_of, contains_seq, copy_str, find_from, int_chars, push_int};
use vstd::prelude::*;

verus! {

/// The wiki that has scans of the covers.
pub const WIKI: &'static str = "https://www.phantomwiki.org";

/// Selects the link to the page of the cover image on the page of an
/// issue.
pub const IMAGE_LINK: &'static str = "#bodyContent a.image";

/// Selects the link to the image file on the page of a cover image.
pub const FILE_LINK: &'static str = ".fullImageLink a";

/// What `scraper` finds in the html text `html` with the css selector
/// `selector`: none where no element matches, else the `href` attribute
/// of the first element that matches, if it has one.
pub uninterp spec fn first_href(html: Seq<char>, selector: Seq<char>) -> Option<
    Option<Seq<char>>,
>;

/// Calls `scraper::Html::parse_document` on `html` and selects in it,
/// with `scraper::Selector::parse` of `selector`, the first element that
/// matches; gives its `href` attribute.  The contract names the result;
/// it states neither the syntax of html nor that of css selectors (a
/// selector that `scraper` refuses matches nothing).
#[verifier::external_body]
fn select_href(html: &str, selector: &str) -> (r: Option<Option<String>>)
    ensures
        match r {
            Some(h) => first_href(html@, selector@) == Some(opt_view(h)),
            None => first_href(html@, selector@) is None,
        },
{
    let selector = scraper::Selector::parse(selector).ok()?;
    let doc = scraper::Html::parse_document(html);
    let elem = doc.select(&selector).next()?;
    Some(elem.value().attr("href").map(String::from))
}

/// Why the scan of a cover could not be found.
#[derive(Debug, Clone, Copy, PartialEq, Eq)]
pub enum FetchError {
    /// No element matches the selector.
    NoElement(&'static str),
    /// The element that matches the selector has no `href`.
    NoHref(&'static str),
    /// The wiki has no scan of the cover.
    CoverMissing,
}

/// The site-relative address of the wiki page of an issue.
pub open spec fn issue_page_path(year: int, nr_str: Seq<char>) -> Seq<char> {
    "/index.php/Fantomen_"@ + nr_str + "/"@ + int_chars(year)
}

/// The address of the wiki page of an issue.
pub fn issue_page_path_of(year: i16, nr_str: &str) -> (r: String)
    ensures
        r@ == issue_page_path(year as int, nr_str@),
{
    let mut out = String::new();
    out.append("/index.php/Fantomen_");
    out.append(nr_str);
    out.append("/");
    push_int(&mut out, year as i64);
    out
}

/// The full address of a site-relative address on the wiki.
pub fn wiki_url(path: &str) -> (r: String)
    ensures
        r@ == WIKI@ + path@,
{
    let mut out = copy_str(WIKI);
    out.append(path);
    out
}

/// A link to an image that the wiki uses where it has no scan of the
/// cover: the skull mark, or the small swedish flag that may come next.
pub open spec fn is_placeholder(href: Seq<char>) -> bool {
    contains_seq(href, "Scullmark.gif"@) || contains_seq(href, "Mini_sweden"@)
}

/// Whether `p` occurs in `s`.
fn contains(s: &str, p: &str) -> (r: bool)
    ensures
        r == contains_seq(s@, p@),
{
    let v = chars_of(s);
    match find_from(&v, 0, p) {
        Some(_) => true,
        None => false,
    }
}

/// The link that a selector found, or why there is none.
pub open spec fn link_of(found: Option<Option<Seq<char>>>, selector: &'static str) -> Result<
    Seq<char>,
    FetchError,
> {
    match found {
        None => Err(FetchError::NoElement(selector)),
        Some(None) => Err(FetchError::NoHref(selector)),
        Some(Some(h)) => Ok(h),
    }
}

/// The link to the page of the cover image, from what `IMAGE_LINK` found
/// on the page of an issue: none where it links to a placeholder.
pub open spec fn image_page_of(found: Option<Option<Seq<char>>>) -> Result<Seq<char>, FetchError> {
    match link_of(found, IMAGE_LINK) {
        Ok(h) => if is_placeholder(h) {
            Err(FetchError::CoverMissing)
        } else {
            Ok(h)
        },
        Err(e) => Err(e),
    }
}

/// The link to the page of the cover image, from what `IMAGE_LINK` found
/// on the page of an issue.
pub fn image_page_link(found: Option<Option<String>>) -> (r: Result<String, FetchError>)
    ensures
        match image_page_of(
            match found {
                Some(h) => Some(opt_view(h)),
                None => None,
            },
        ) {
            Ok(h) => r matches Ok(s) && s@ == h,
            Err(e) => r == Err::<String, FetchError>(e),
        },
{
    match found {
        None => Err(FetchError::NoElement(IMAGE_LINK)),
        Some(None) => Err(FetchError::NoHref(IMAGE_LINK)),
        Some(Some(h)) => if contains(h.as_str(), "Scullmark.gif") || contains(
            h.as_str(),
            "Mini_sweden",
        ) {
            Err(FetchError::CoverMissing)
        } else {
            Ok(h)
        },
    }
}

/// The link to the page of the cover image, on the page of an issue.
pub fn image_page(html: &str) -> (r: Result<String, FetchError>)
    ensures
        match image_page_of(first_href(html@, IMAGE_LINK@)) {
            Ok(h) => r matches Ok(s) && s@ == h,
            Err(e) => r == Err::<String, FetchError>(e),
        },
{
    image_page_link(select_href(html, IMAGE_LINK))
}

/// The link to the image file, from what `FILE_LINK` found on the page
/// of a cover image.
pub fn image_file_link(found: Option<Option<String>>) -> (r: Result<String, FetchError>)
    ensures
        match link_of(
            match found {
                Some(h) => Some(opt_view(h)),
                None => None,
            },
            FILE_LINK,
        ) {
            Ok(h) => r matches Ok(s) && s@ == h,
            Err(e) => r == Err::<String, FetchError>(e),
        },
{
    match found {
        None => Err(FetchError::NoElement(FILE_LINK)),
        Some(None) => Err(FetchError::NoHref(FILE_LINK)),
        Some(Some(h)) => Ok(h),
    }
}

/// The link to the image file, on the page of a cover image.
pub fn image_file(html: &str) -> (r: Result<String, FetchError>)
    ensures
        match link_of(first_href(html@, FILE_LINK@), FILE_LINK) {
            Ok(h) => r matches Ok(s) && s@ == h,
            Err(e) => r == Err::<String, FetchError>(e),
        },
{
    image_file_link(select_href(html, FILE_LINK))
}

} // verus!
