//! Notes of episodes and articles as html: the text escaped, with links
//! to the issues it mentions (such as `Fa 7 1980`) and to web addresses.
use crate::text::{chars_of, replace_all, replace_str, string_of};
use vstd::prelude::*;

verus! {

/// What `regex::Regex::new(pattern)` and then `replace_all(text,
/// replacement)` on the compiled regex give: `None` where the pattern
/// does not compile, else the text with every match replaced (with
/// `$name` in the replacement standing for the named group).
pub uninterp spec fn regex_replace_all(
    pattern: Seq<char>,
    text: Seq<char>,
    replacement: Seq<char>,
) -> Option<Seq<char>>;

/// Compiles `pattern` with `regex::Regex::new` and calls `replace_all` of
/// the compiled regex on `text`.  The contract only names the outcome as
/// a function of the three texts; it does not say what the regex
/// matches.
#[verifier::external_body]
fn replace_matches(pattern: &str, text: &str, replacement: &str) -> (r: Option<String>)
    ensures
        r matches Some(s) ==> regex_replace_all(pattern@, text@, replacement@) == Some(s@),
        r is None ==> regex_replace_all(pattern@, text@, replacement@) is None,
{
    regex::Regex::new(pattern).ok().map(|re| re.replace_all(text, replacement).into_owned())
}

/// A reference to an issue: `Fa` or `fa`, a number (or two, with a dash)
/// and a year from 1900 to 2099.
pub const FA_PATTERN: &'static str =
    r"\b[Ff]a (?P<ii>(?P<i>[1-9]\d?)(-[1-9]\d?)?)[ /](?P<y>(19|20)\d{2})\b";

/// A link to the issue that `FA_PATTERN` found.
pub const FA_LINK: &'static str = "<a href='/$y/$i'>Fa $ii/$y</a>";

/// A web address.
pub const URL_PATTERN: &'static str = r"\b(?P<p>https?)://(?P<l>[a-z0-9?%./=&;-]+)";

/// A link to the web address that `URL_PATTERN` found.
pub const URL_LINK: &'static str = "<a href='$p://$l'>$l</a>";

/// The text with `&`, `<` and `>` written as character references.
pub open spec fn escape_amp_lt_gt(t: Seq<char>) -> Seq<char> {
    replace_all(replace_all(replace_all(t, "&"@, "&amp;"@), "<"@, "&lt;"@), ">"@, "&gt;"@)
}

/// One replacement step: its result, or the text unchanged where the
/// pattern does not compile.
pub open spec fn replaced_or_same(pattern: Seq<char>, t: Seq<char>, link: Seq<char>) -> Seq<
    char,
> {
    match regex_replace_all(pattern, t, link) {
        Some(s) => s,
        None => t,
    }
}

/// A note as html: escaped, then issue references and web addresses
/// made into links.
pub open spec fn fa_html(t: Seq<char>) -> Seq<char> {
    replaced_or_same(
        URL_PATTERN@,
        replaced_or_same(FA_PATTERN@, escape_amp_lt_gt(t), FA_LINK@),
        URL_LINK@,
    )
}

/// The text with `&`, `<` and `>` written as character references.
pub fn escape_text(text: &str) -> (r: String)
    ensures
        r@ == escape_amp_lt_gt(text@),
{
    proof {
        reveal_strlit("&");
        reveal_strlit("<");
        reveal_strlit(">");
    }
    let v = chars_of(text);
    let v = replace_str(&v, "&", "&amp;");
    let v = replace_str(&v, "<", "&lt;");
    let v = replace_str(&v, ">", "&gt;");
    string_of(&v)
}

fn replace_or_keep(pattern: &str, text: String, link: &str) -> (r: String)
    ensures
        r@ == replaced_or_same(pattern@, text@, link@),
{
    match replace_matches(pattern, text.as_str(), link) {
        Some(s) => s,
        None => text,
    }
}

/// A note as html, with links to the issues and web addresses it
/// mentions.
pub fn text_to_fa_html(text: &str) -> (r: String)
    ensures
        r@ == fa_html(text@),
{
    let html = escape_text(text);
    let html = replace_or_keep(FA_PATTERN, html, FA_LINK);
    replace_or_keep(URL_PATTERN, html, URL_LINK)
}

} // verus!
