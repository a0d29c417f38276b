use fanrs::creator::{CoverSet, Creator};
use fanrs::episode::{Date, Episode};
use fanrs::fallbacks::{CreatorFallback, RefFallback, creator_fallback, refkey_fallback};
use fanrs::issue::{IssueRef, Nr};
use fanrs::listings::{StripProblem, check_strips, count_pages, year_line, year_lines};
use fanrs::part::{OtherContribs, PartsPublished, needs_publishing, relabel};
use fanrs::refkey::{FA_ID, KEY_ID, RefKey, slug_for};
use fanrs::title::Title;
use fanrs::wiki::{
    FetchError, IMAGE_LINK, image_file, image_page, issue_page_path_of, wiki_url,
};

fn nr(s: &str) -> Nr {
    Nr::parse(s).unwrap()
}

#[test]
fn days_in_swedish() {
    let mut out = String::new();
    Date::from_ymd(1950, 1, 1).unwrap().push_sv(&mut out);
    assert_eq!(out, "söndag den 1 januari 1950");
    let mut out = String::new();
    Date::from_ymd(2024, 2, 29).unwrap().push_sv(&mut out);
    assert_eq!(out, "torsdag den 29 februari 2024");
    assert!(Date::from_ymd(2023, 2, 29).is_none());
}

#[test]
fn stored_refs_read_back() {
    for k in [RefKey::fa("17j"), RefKey::key("Skallegrottan"), RefKey::who("Lee Falk"), RefKey::title("Mandrake")] {
        let (kind, name, slug) = k.stored_fields();
        assert_eq!(RefKey::from_row(kind, name, slug), Some(k));
    }
    assert_eq!(RefKey::from_row(9, "x".into(), "x".into()), None);
}

#[test]
fn slugs() {
    assert_eq!(slug_for("Fantomen och Rex"), "fantomen-och-rex");
    assert_eq!(slug_for("Örnen"), "ornen");
}

#[test]
fn missing_refs() {
    assert_eq!(refkey_fallback(FA_ID, "17.1"), RefFallback::Redirect("/fa/17j".into()));
    assert_eq!(refkey_fallback(KEY_ID, "Olango_Folket.html"), RefFallback::TryTarget("olango-folket".into()));
    assert_eq!(refkey_fallback(KEY_ID, "olango-folket"), RefFallback::NotFound);
}

#[test]
fn missing_creators() {
    assert_eq!(creator_fallback("anderas_eriksson"), CreatorFallback::Redirect("/who/andreas-eriksson".into()));
    assert_eq!(creator_fallback("lee_falk.html"), CreatorFallback::Search("lee%falk".into()));
}

#[test]
fn episode_details() {
    let mut e = Episode {
        id: 1,
        title_id: 2,
        episode: Some("Kedjan".into()),
        teaser: Some("old".into()),
        note: None,
        copyright: Some("KFS".into()),
        orig_lang: None,
        orig_episode: None,
        orig_date: None,
        orig_to_date: None,
        sun: false,
        orig_mag_id: None,
        strip_from: None,
        strip_to: None,
    };
    assert!(!e.set_details(None, None, None));
    assert!(e.set_details(Some("new"), None, None));
    assert_eq!(e.teaser.as_deref(), Some("new"));
    assert_eq!(e.note, None);
    assert_eq!(e.copyright.as_deref(), Some("KFS"));
}

#[test]
fn publications() {
    assert!(needs_publishing(0));
    assert!(!needs_publishing(1));
    assert!(needs_publishing(2));
    assert!(relabel(Some(3), "", Some(3), "Ny"));
    assert!(!relabel(Some(3), "Ny", None, "Ny"));
    assert!(!relabel(None, "Gammal", None, ""));
}

fn title(id: i32, t: &str) -> Title {
    Title { id, title: t.to_string(), slug: t.to_lowercase() }
}

fn published() -> PartsPublished {
    PartsPublished { issues: vec![], others: false }
}

#[test]
fn other_contributions() {
    let roles = vec!["color".to_string(), "xlat".to_string(), "ink".to_string()];
    let o = OtherContribs::new(
        &roles,
        vec![
            (title(1, "Mandrake"), (Some("a".to_string()), published())),
            (title(2, "Fantomen"), (None, published())),
        ],
    );
    assert_eq!(o.roles, "färgläggare, översättare, något annat");
    assert!(o.is());
    assert_eq!(o.episodes[0].0.title, "Fantomen");
    assert_eq!(o.episodes[1].1[0].0.as_deref(), Some("a"));
    let none = OtherContribs::new(&vec![], vec![]);
    assert_eq!(none.roles, "");
    assert!(!none.is());
}

fn cover(year: i16, n: &str, best: Option<i16>) -> (IssueRef, Option<i16>) {
    (IssueRef { year, number: nr(n) }, best)
}

#[test]
fn few_covers() {
    let set = CoverSet::from_covers(vec![cover(1990, "3", Some(1)), cover(1980, "7", None), cover(1985, "1", None)]);
    let years: Vec<i16> = set.best.iter().map(|c| c.0.year).collect();
    assert_eq!(years, vec![1980, 1985, 1990]);
    assert!(!set.is_many());
    assert!(!set.is_empty());
    assert_eq!(set.len(), 3);
}

#[test]
fn many_covers() {
    let covers: Vec<_> = (0..21).map(|i| cover(2000 - i as i16, "1", Some(i as i16))).collect();
    let set = CoverSet::from_covers(covers);
    assert_eq!(set.best.len(), 15);
    assert_eq!(set.best[0].0.year, 2000);
    assert_eq!(set.all.len(), 21);
    assert_eq!(set.all[0].0.year, 1980);
    assert!(set.is_many());
    assert_eq!(set.len(), 21);
}

#[test]
fn creators_link() {
    let c = Creator { id: 1, name: "Lee Falk".into(), slug: "lee-falk".into() };
    let mut out = String::new();
    c.to_html(&mut out);
    assert_eq!(out, "<a href='/who/lee-falk'>Lee Falk</a>");
}

#[test]
fn issue_lists() {
    let line = year_line(1980, &vec![nr("1"), nr("2"), nr("3"), nr("5"), nr("6-7"), nr("8")]);
    assert_eq!(line, "1980: 1 - 3, 5 - 8");
    assert_eq!(year_line(1950, &vec![nr("1")]), "1950: 1");
}

#[test]
fn page_counts() {
    let (lines, ok) = count_pages(&nr("25-26"), &vec![3, 55, 107, 160]);
    assert!(ok);
    assert_eq!(lines, vec![" 25-26:  52".to_string(), "    27:  52".to_string(), "    28:  53".to_string()]);
    let (lines, ok) = count_pages(&nr("1"), &vec![3, 55, 40]);
    assert!(!ok);
    assert_eq!(lines.len(), 1);
}

#[test]
fn strip_checks() {
    let ok = vec![(title(1, "Ludvig"), false, true)];
    assert!(check_strips(ok).is_ok());
    let bad = vec![(title(1, "Ludvig"), false, true), (Title { id: 2, title: "Mandrake".into(), slug: "mandrake".into() }, false, true)];
    let err = check_strips(bad).unwrap_err();
    assert_eq!(err.problem, StripProblem::MissingDaystrips);
    assert_eq!(err.message(), "Expected daystrips for Mandrake (mandrake) not found");
}

#[test]
fn wiki_addresses() {
    let path = issue_page_path_of(1980, "25-26");
    assert_eq!(path, "/index.php/Fantomen_25-26/1980");
    assert_eq!(wiki_url(&path), "https://www.phantomwiki.org/index.php/Fantomen_25-26/1980");
}

#[test]
fn wiki_pages() {
    let page = "<html><body><div id='bodyContent'>
        <p><a class='image' href='/index.php/File:Fa198025.jpg'><img src='x'/></a></p>
        </div></body></html>";
    assert_eq!(image_page(page), Ok("/index.php/File:Fa198025.jpg".to_string()));
    let missing = "<div id='bodyContent'><a class='image' href='/images/Scullmark.gif'>x</a></div>";
    assert_eq!(image_page(missing), Err(FetchError::CoverMissing));
    assert_eq!(image_page("<p>nothing</p>"), Err(FetchError::NoElement(IMAGE_LINK)));
    let file = "<div class='fullImageLink'><a href='/images/a/ab/Fa198025.jpg'>x</a></div>";
    assert_eq!(image_file(file), Ok("/images/a/ab/Fa198025.jpg".to_string()));
    let nohref = "<div class='fullImageLink'><a>x</a></div>";
    assert_eq!(image_file(nohref), Err(FetchError::NoHref(fanrs::wiki::FILE_LINK)));
}

#[test]
fn issue_listing_by_year() {
    let rows = vec![(1981, nr("1")), (1980, nr("1")), (1980, nr("2")), (1981, nr("3"))];
    assert_eq!(year_lines(rows), vec!["1980: 1 - 2".to_string(), "1981: 1, 3".to_string()]);
    assert_eq!(year_lines(vec![]), Vec::<String>::new());
}
