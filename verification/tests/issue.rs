use fanrs::covers::{CYear, CoverRef, SIssue, cover_redirect_url};
use fanrs::issue::{Issue, IssueRef, Nr, ParseError};
use fanrs::price::{BadPrice, Price};

fn nr(s: &str) -> Nr {
    Nr::parse(s).unwrap()
}

#[test]
fn issue_numbers() {
    let n = nr("25-26");
    assert_eq!(n.first(), 25);
    assert_eq!(n.last(), 26);
    assert!(n.is_double());
    assert_eq!(n.text(), "25-26");
    let n = nr("7");
    assert_eq!((n.first(), n.last(), n.is_double()), (7, 7, false));
    assert_eq!(Nr::parse("x"), Err(ParseError::BadIssue));
}

#[test]
fn issue_refs() {
    let r = IssueRef::parse("1980 25-26").unwrap();
    assert_eq!(r.year, 1980);
    assert_eq!(r.number.text(), "25-26");
    assert_eq!(IssueRef::parse("1980"), Err(ParseError::NoSpace));
    assert_eq!(IssueRef::parse("19x0 7"), Err(ParseError::BadYear));
    assert_eq!(IssueRef::parse("1980 x"), Err(ParseError::BadIssue));
    assert_eq!(ParseError::NoSpace.message(), "Space missing in input");
}

#[test]
fn magic_numbers_round_trip() {
    for (year, text) in [(1950, "1"), (1980, "25-26"), (2021, "13"), (2205, "63")] {
        let n = nr(text);
        let magic = Issue::magic_of(year, &n);
        let back = IssueRef::from_magic(magic);
        assert_eq!(back.year, year);
        assert_eq!(back.number, n);
    }
    assert_eq!(Issue::magic_of(1950, &nr("1")), 2);
    assert_eq!(Issue::magic_of(1951, &nr("1-2")), 131);
}

#[test]
fn sort_numbers_order_issues() {
    let a = IssueRef { year: 1980, number: nr("7") };
    let b = IssueRef { year: 1980, number: nr("12") };
    let c = IssueRef { year: 1981, number: nr("1") };
    assert!(a.sortno() < b.sortno() && b.sortno() < c.sortno());
    assert!(a.le(&b) && b.le(&c) && !c.le(&a));
    assert_eq!(a.sortno(), 30 * 64 + 7);
}

#[test]
fn issue_links() {
    let r = IssueRef { year: 1980, number: nr("25-26") };
    let mut out = String::new();
    r.to_html(&mut out);
    assert_eq!(out, "<a href='/1980/25'><span class='ifwide'>Fa</span> 25-26\u{200b}/1980</a>");
    assert_eq!(r.cover_url(), "/c/f1980-25.jpg");
}

#[test]
fn cover_names_round_trip() {
    let r = IssueRef { year: 1980, number: nr("7") };
    let url = r.cover_url();
    let name = url.strip_prefix("/c/").unwrap();
    assert_eq!(CoverRef::parse(name), Ok(CoverRef { year: 1980, number: 7 }));
}

#[test]
fn cover_names() {
    assert_eq!(CoverRef::parse("f1975-12.jpg"), Ok(CoverRef { year: 1975, number: 12 }));
    assert_eq!(CoverRef::parse("x1975-12.jpg"), Err(0));
    assert_eq!(CoverRef::parse("f1975.jpg"), Err(1));
    assert_eq!(CoverRef::parse("f1975-12.png"), Err(2));
    assert_eq!(CoverRef::parse("fyear-12.jpg"), Err(3));
    assert_eq!(CoverRef::parse("f1975-x.jpg"), Err(4));
    assert_eq!(CYear::parse("c1975"), Ok(CYear(1975)));
    assert_eq!(CYear::parse("d1975"), Err(0));
    assert_eq!(SIssue::parse("s7.jpg"), Ok(SIssue(7)));
    assert_eq!(SIssue::parse("s25-26.jpg"), Ok(SIssue(25)));
    assert_eq!(SIssue::parse("s25-27.jpg"), Err(4));
    assert_eq!(cover_redirect_url(&CYear(1975), &SIssue(25)), "/c/f1975-25.jpg");
}

#[test]
fn prices() {
    assert_eq!(Price::parse("7.50").map(|p| p.ore()), Ok(750));
    assert_eq!(Price::parse("7").map(|p| p.ore()), Ok(700));
    assert_eq!(Price::parse(".50").map(|p| p.ore()), Ok(50));
    assert_eq!(Price::parse("7.5"), Err(BadPrice));
    assert_eq!(Price::parse("x"), Err(BadPrice));
    assert_eq!(Price::from_ore(750).to_string(), "7:50");
    assert_eq!(Price::from_ore(705).to_string(), "7:05");
    assert_eq!(Price::from_ore(700).to_string(), "7:-");
    assert_eq!(Price::from_ore(95).to_string(), "95 öre");
}
