//! Episodes of comics: their original language, name and dates, and the
//! numbers of the daily strips they were made of.
use crate::text::{copy_str, html_escape, int_chars, push_escaped, push_int, str_eq};
use vstd::prelude::*;

verus! {

/// A day of the (proleptic Gregorian) calendar.
#[derive(Debug, Clone, Copy, PartialEq, Eq, Structural)]
pub struct Date {
    year: i32,
    month: u32,
    day: u32,
}

pub open spec fn is_leap(y: int) -> bool {
    (y % 4 == 0 && y % 100 != 0) || y % 400 == 0
}

pub open spec fn days_in_month(y: int, m: int) -> int {
    if m == 2 {
        if is_leap(y) {
            29
        } else {
            28
        }
    } else if m == 4 || m == 6 || m == 9 || m == 11 {
        30
    } else {
        31
    }
}

/// A day that exists in the calendar, in the years that `chrono` handles.
pub open spec fn valid_date(y: int, m: int, d: int) -> bool {
    &&& -262143 <= y <= 262142
    &&& 1 <= m <= 12
    &&& 1 <= d <= days_in_month(y, m)
}

/// The number of days from 1970-01-01 to a day (negative before it).
pub open spec fn days_from_epoch(y: int, m: int, d: int) -> int {
    let yy = if m <= 2 {
        y - 1
    } else {
        y
    };
    let era = yy / 400;
    let yoe = yy - era * 400;
    let mp = if m > 2 {
        m - 3
    } else {
        m + 9
    };
    let doy = (153 * mp + 2) / 5 + d - 1;
    let doe = yoe * 365 + yoe / 4 - yoe / 100 + doy;
    era * 146097 + doe - 719468
}

/// The day of the week of a day, counted from monday as 0 (1970-01-01
/// was a thursday).
pub open spec fn weekday_spec(y: int, m: int, d: int) -> int {
    (days_from_epoch(y, m, d) + 3) % 7
}

/// Calls `chrono::NaiveDate::from_ymd_opt` and, for a date that exists,
/// `weekday().num_days_from_monday()`.  The contract states what the
/// `chrono` documentation gives: no date for a day that does not exist
/// or a year out of range, else the day of the week, monday first.
#[verifier::external_body]
fn weekday_of(year: i32, month: u32, day: u32) -> (r: Option<u32>)
    ensures
        r is Some <==> valid_date(year as int, month as int, day as int),
        r matches Some(w) ==> w == weekday_spec(year as int, month as int, day as int),
{
    match chrono::NaiveDate::from_ymd_opt(year, month, day) {
        Some(date) => Some(chrono::Datelike::weekday(&date).num_days_from_monday()),
        None => None,
    }
}

/// The year, month and day that `chrono` reads from a text as a
/// `NaiveDate` (a date such as `1950-03-18`, with the leniencies of its
/// parser), or none where it refuses the text.
pub uninterp spec fn iso_date_value(s: Seq<char>) -> Option<(i32, u32, u32)>;

/// Calls `str::parse::<chrono::NaiveDate>` and takes the year, month and
/// day of the date it gives.  The contract names the result; it does not
/// state the syntax that `chrono` accepts.
#[verifier::external_body]
pub(crate) fn parse_iso_date(s: &str) -> (r: Option<(i32, u32, u32)>)
    ensures
        r == iso_date_value(s@),
{
    match s.parse::<chrono::NaiveDate>() {
        Ok(d) => Some(
            (chrono::Datelike::year(&d), chrono::Datelike::month(&d), chrono::Datelike::day(&d)),
        ),
        Err(_) => None,
    }
}

pub open spec fn weekday_name(w: int) -> Seq<char> {
    if w == 0 {
        "måndag"@
    } else if w == 1 {
        "tisdag"@
    } else if w == 2 {
        "onsdag"@
    } else if w == 3 {
        "torsdag"@
    } else if w == 4 {
        "fredag"@
    } else if w == 5 {
        "lördag"@
    } else {
        "söndag"@
    }
}

pub open spec fn month_name(m: int) -> Seq<char> {
    if m == 1 {
        "januari"@
    } else if m == 2 {
        "februari"@
    } else if m == 3 {
        "mars"@
    } else if m == 4 {
        "april"@
    } else if m == 5 {
        "maj"@
    } else if m == 6 {
        "juni"@
    } else if m == 7 {
        "juli"@
    } else if m == 8 {
        "augusti"@
    } else if m == 9 {
        "september"@
    } else if m == 10 {
        "oktober"@
    } else if m == 11 {
        "november"@
    } else {
        "december"@
    }
}

/// A day in Swedish, such as `söndag den 1 januari 1950`.
pub open spec fn sv_date(d: Date) -> Seq<char> {
    weekday_name(weekday_spec(d.year_spec(), d.month_spec(), d.day_spec())) + " den "@
        + int_chars(d.day_spec()) + " "@ + month_name(d.month_spec()) + " "@ + int_chars(
        d.year_spec(),
    )
}

fn weekday_text(w: u32) -> (s: &'static str)
    ensures
        s@ == weekday_name(w as int),
{
    if w == 0 {
        "måndag"
    } else if w == 1 {
        "tisdag"
    } else if w == 2 {
        "onsdag"
    } else if w == 3 {
        "torsdag"
    } else if w == 4 {
        "fredag"
    } else if w == 5 {
        "lördag"
    } else {
        "söndag"
    }
}

fn month_text(m: u32) -> (s: &'static str)
    ensures
        s@ == month_name(m as int),
{
    if m == 1 {
        "januari"
    } else if m == 2 {
        "februari"
    } else if m == 3 {
        "mars"
    } else if m == 4 {
        "april"
    } else if m == 5 {
        "maj"
    } else if m == 6 {
        "juni"
    } else if m == 7 {
        "juli"
    } else if m == 8 {
        "augusti"
    } else if m == 9 {
        "september"
    } else if m == 10 {
        "oktober"
    } else if m == 11 {
        "november"
    } else {
        "december"
    }
}

impl View for Date {
    type V = (int, int, int);

    /// The year, month and day.
    open spec fn view(&self) -> (int, int, int) {
        (self.year_spec(), self.month_spec(), self.day_spec())
    }
}

impl Date {
    #[verifier::type_invariant]
    closed spec fn wf(self) -> bool {
        valid_date(self.year as int, self.month as int, self.day as int)
    }

    pub closed spec fn year_spec(self) -> int {
        self.year as int
    }

    pub closed spec fn month_spec(self) -> int {
        self.month as int
    }

    pub closed spec fn day_spec(self) -> int {
        self.day as int
    }

    /// The day `day` of month `month` of `year`, if it exists.
    pub fn from_ymd(year: i32, month: u32, day: u32) -> (r: Option<Date>)
        ensures
            r is Some <==> valid_date(year as int, month as int, day as int),
            r matches Some(d) ==> d.year_spec() == year && d.month_spec() == month && d.day_spec()
                == day,
    {
        if year < -262143 || year > 262142 || month < 1 || month > 12 || day < 1 {
            return None;
        }
        let leap = (year % 4 == 0 && year % 100 != 0) || year % 400 == 0;
        let len: u32 = if month == 2 {
            if leap {
                29
            } else {
                28
            }
        } else if month == 4 || month == 6 || month == 9 || month == 11 {
            30
        } else {
            31
        };
        if day > len {
            return None;
        }
        Some(Date { year, month, day })
    }

    pub fn year(&self) -> (y: i32)
        ensures
            y == self.year_spec(),
    {
        self.year
    }

    pub fn month(&self) -> (m: u32)
        ensures
            m == self.month_spec(),
    {
        self.month
    }

    pub fn day(&self) -> (d: u32)
        ensures
            d == self.day_spec(),
    {
        self.day
    }

    /// Append the day in Swedish to `out`.
    pub fn push_sv(&self, out: &mut String)
        ensures
            final(out)@ == old(out)@ + sv_date(*self),
    {
        proof {
            use_type_invariant(self);
        }
        let w = match weekday_of(self.year, self.month, self.day) {
            Some(w) => w,
            None => 0,
        };
        out.append(weekday_text(w));
        out.append(" den ");
        push_int(out, self.day as i64);
        out.append(" ");
        out.append(month_text(self.month));
        out.append(" ");
        push_int(out, self.year as i64);
    }
}

/// An episode of a comic, as stored.
#[derive(Debug)]
pub struct Episode {
    pub id: i32,
    pub title_id: i32,
    pub episode: Option<String>,
    pub teaser: Option<String>,
    pub note: Option<String>,
    pub copyright: Option<String>,
    pub orig_lang: Option<String>,
    pub orig_episode: Option<String>,
    pub orig_date: Option<Date>,
    pub orig_to_date: Option<Date>,
    pub sun: bool,
    pub orig_mag_id: Option<i32>,
    pub strip_from: Option<i32>,
    pub strip_to: Option<i32>,
}

/// The original language and name of an episode.
pub struct OrigEpisode<'a> {
    pub lang: &'a str,
    pub episode: &'a str,
}

/// When an episode was first published: a day, or the days of its first
/// and last daily strip or sunday page.
#[derive(Debug, Clone, Copy)]
pub struct OrigDates {
    pub from: Date,
    pub to: Option<Date>,
    pub sun: bool,
}

/// The name of a language, by its code.
pub open spec fn lang_name(code: Seq<char>) -> Seq<char> {
    if code == "fr"@ {
        "Franska"@
    } else if code == "en"@ {
        "Engelska"@
    } else {
        code
    }
}

/// What kind of first publication the dates are.
pub open spec fn dates_kind(to: Option<Date>, sun: bool) -> Seq<char> {
    if to is None {
        "Först publicerad"@
    } else if sun {
        "Söndagssidor"@
    } else {
        "Dagstrippar"@
    }
}

/// The dates as text: a range of days, or one day.
pub open spec fn dates_html(d: OrigDates) -> Seq<char> {
    match d.to {
        Some(to) => if d.from != to {
            sv_date(d.from) + " - "@ + sv_date(to)
        } else {
            sv_date(d.from)
        },
        None => sv_date(d.from),
    }
}

/// A detail that is given replaces the stored one; one that is not given
/// keeps it.
pub open spec fn replaced(old: Option<String>, new: Option<&str>) -> Option<Seq<char>> {
    match new {
        Some(t) => Some(t@),
        None => match old {
            Some(o) => Some(o@),
            None => None,
        },
    }
}

impl Episode {
    /// Set the introduction, note and copyright of this episode where
    /// they are given, and keep them where not.  Returns whether any was
    /// given, that is whether the stored episode is to be updated.
    pub fn set_details(&mut self, teaser: Option<&str>, note: Option<&str>, copyright: Option<&str>) -> (changed: bool)
        ensures
            changed == (teaser is Some || note is Some || copyright is Some),
            match final(self).teaser {
                Some(t) => Some(t@),
                None => None,
            } == replaced(old(self).teaser, teaser),
            match final(self).note {
                Some(t) => Some(t@),
                None => None,
            } == replaced(old(self).note, note),
            match final(self).copyright {
                Some(t) => Some(t@),
                None => None,
            } == replaced(old(self).copyright, copyright),
            final(self).id == old(self).id,
            final(self).title_id == old(self).title_id,
            final(self).episode == old(self).episode,
            final(self).orig_lang == old(self).orig_lang,
            final(self).orig_episode == old(self).orig_episode,
            final(self).orig_date == old(self).orig_date,
            final(self).orig_to_date == old(self).orig_to_date,
            final(self).sun == old(self).sun,
            final(self).orig_mag_id == old(self).orig_mag_id,
            final(self).strip_from == old(self).strip_from,
            final(self).strip_to == old(self).strip_to,
    {
        if let Some(t) = teaser {
            self.teaser = Some(copy_str(t));
        }
        if let Some(n) = note {
            self.note = Some(copy_str(n));
        }
        if let Some(c) = copyright {
            self.copyright = Some(copy_str(c));
        }
        teaser.is_some() || note.is_some() || copyright.is_some()
    }

    /// The original language and name of this episode, where both are
    /// known.
    pub fn orig(&self) -> (r: Option<OrigEpisode<'_>>)
        ensures
            match (self.orig_lang, self.orig_episode) {
                (Some(l), Some(e)) => r matches Some(o) && o.lang@ == l@ && o.episode@ == e@,
                _ => r is None,
            },
    {
        match (&self.orig_lang, &self.orig_episode) {
            (Some(lang), Some(episode)) => Some(
                OrigEpisode { lang: lang.as_str(), episode: episode.as_str() },
            ),
            _ => None,
        }
    }

    /// When this episode was first published, where known.
    pub fn orig_dates(&self) -> (r: Option<OrigDates>)
        ensures
            match self.orig_date {
                Some(d) => r == Some(OrigDates { from: d, to: self.orig_to_date, sun: self.sun }),
                None => r is None,
            },
    {
        match self.orig_date {
            Some(from) => Some(OrigDates { from, to: self.orig_to_date, sun: self.sun }),
            None => None,
        }
    }

    /// The numbers of the first and last daily strip of this episode,
    /// where both are known (one of them alone is ignored).
    pub fn strip_nrs(&self) -> (r: Option<(i32, i32)>)
        ensures
            match (self.strip_from, self.strip_to) {
                (Some(f), Some(t)) => r == Some((f, t)),
                _ => r is None,
            },
    {
        match (self.strip_from, self.strip_to) {
            (Some(from), Some(to)) => Some((from, to)),
            _ => None,
        }
    }
}

impl<'a> OrigEpisode<'a> {
    /// The name of the original language (in Swedish, for the common ones).
    pub fn langname(&self) -> (s: &'a str)
        ensures
            s@ == lang_name(self.lang@),
    {
        if str_eq(self.lang, "fr") {
            "Franska"
        } else if str_eq(self.lang, "en") {
            "Engelska"
        } else {
            self.lang
        }
    }

    /// Append the original name, quoted and marked with its language.
    pub fn to_html(&self, out: &mut String)
        ensures
            final(out)@ == old(out)@ + "<q lang='"@ + self.lang@ + "'>"@ + html_escape(
                self.episode@,
            ) + "</q>"@,
    {
        out.append("<q lang='");
        out.append(self.lang);
        out.append("'>");
        push_escaped(out, self.episode);
        out.append("</q>");
    }
}

impl OrigDates {
    /// The dates of an episode first published on one day.
    pub fn date(date: Date) -> (r: OrigDates)
        ensures
            r == (OrigDates { from: date, to: None, sun: false }),
    {
        OrigDates { from: date, to: None, sun: false }
    }

    /// What kind of first publication this is.
    pub fn kind(&self) -> (s: &'static str)
        ensures
            s@ == dates_kind(self.to, self.sun),
    {
        if self.to.is_none() {
            "Först publicerad"
        } else if self.sun {
            "Söndagssidor"
        } else {
            "Dagstrippar"
        }
    }

    /// Append the dates, in Swedish.
    pub fn to_html(&self, out: &mut String)
        ensures
            final(out)@ == old(out)@ + dates_html(*self),
    {
        match self.to {
            Some(to) => {
                if self.from != to {
                    self.from.push_sv(out);
                    out.append(" - ");
                    to.push_sv(out);
                } else {
                    self.from.push_sv(out);
                }
            },
            None => self.from.push_sv(out),
        }
    }
}

} // verus!
