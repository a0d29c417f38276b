use fanrs::datafile::{
    creator_names, episode_name, normalize_space, parse_refs, read_person, read_persons,
};
use fanrs::xml::parse_xml;
use fanrs::element::{Attr, DataError, Elem, FromText, attr};
use fanrs::episode::Date;
use fanrs::issuefile::{
    Detail, IssueItem, YearEntry, issue_halt, read_issue, read_year, serie_halt, year_entry,
};
use fanrs::refkey::RefKey;

fn parse(xml: &str) -> Elem {
    parse_xml(xml).unwrap()
}

#[test]
fn test_parse_refs() {
    let doc = "<ref>
        <fa no=\"12\"/>
        <key>Marion Trelawny</key>
        <who>Jaime Vallvé</who>
        <serie>Johan Vilde</serie>
      </ref>\n";

    assert_eq!(
        parse_refs(&parse(doc)),
        Ok(vec![
            RefKey::fa("12"),
            RefKey::key("Marion Trelawny"),
            RefKey::who("Jaime Vallvé"),
            RefKey::title("Johan Vilde"),
        ]),
    );
}

#[test]
fn test_normalize_space() {
    assert_eq!(normalize_space("foo bar"), "foo bar");
    assert_eq!(normalize_space("\n  foo\n\tbar \n"), "foo bar");
}

#[test]
fn normalize_space_twice_is_once() {
    let once = normalize_space("  a \t b\n\nc  ");
    assert_eq!(once, "a b c");
    assert_eq!(normalize_space(&once), once);
    assert_eq!(normalize_space(" \n\t "), "");
}

#[test]
fn refs_with_a_bad_element() {
    let doc = "<ref><fa no='1'/><fa/><who>X</who></ref>";
    assert_eq!(
        parse_refs(&parse(doc)),
        Err(DataError::BadRef { index: 1, message: "Fa without no" }),
    );
    let doc = "<ref><key>A</key><what>B</what></ref>";
    assert_eq!(
        parse_refs(&parse(doc)),
        Err(DataError::BadRef { index: 1, message: "Unknown reference" }),
    );
}

#[test]
fn key_refs_that_are_phantoms() {
    assert_eq!(RefKey::key("Julie"), RefKey::fa("17j"));
    assert_eq!(RefKey::key("Kit"), RefKey::fa("22k"));
}

#[test]
fn who_refs_get_slugs() {
    // The slug is made by `slug::slugify`, not the name itself.
    match RefKey::who("Jaime Vallvé") {
        RefKey::Who(name, slug) => {
            assert_eq!(name, "Jaime Vallvé");
            assert_eq!(slug, "jaime-vallve");
        }
        other => panic!("unexpected {other:?}"),
    }
}

#[test]
fn creators_of_a_by_element() {
    let by = parse("<by role='text'><who>Lee Falk</who><who>Sy Barry</who></by>");
    assert_eq!(creator_names(&by), Ok(vec!["Lee Falk".to_string(), "Sy Barry".to_string()]));
    let by = parse("<by>Lee Falk</by>");
    assert_eq!(creator_names(&by), Ok(vec!["Lee Falk".to_string()]));
    let by = parse("<by><who>A</who><who/></by>");
    assert_eq!(creator_names(&by), Err(DataError::MissingName));
    let by = parse("<by/>");
    assert_eq!(creator_names(&by), Err(DataError::MissingName));
}

#[test]
fn episode_names() {
    let c = parse("<serie><title>Fantomen</title><episode>  Den  gyllene\n kedjan </episode></serie>");
    assert_eq!(episode_name(&c), Some("Den gyllene kedjan".to_string()));
    let c = parse("<serie><title>Fantomen</title><episode role='orig'>The Golden Chain</episode></serie>");
    assert_eq!(episode_name(&c), None);
}

#[test]
fn persons() {
    let e = parse("<person slug='lee-falk'><name>Lee Falk</name><alias>L. Falk</alias><alias/><alias>Falk</alias></person>");
    let p = read_person(&e, 0).unwrap();
    assert_eq!(p.name, "Lee Falk");
    assert_eq!(p.slug, "lee-falk");
    assert_eq!(p.aliases, vec!["L. Falk".to_string(), "Falk".to_string()]);

    let e = parse("<person><name>Örjan Öst</name></person>");
    let p = read_person(&e, 0).unwrap();
    assert_eq!(p.slug, "orjan-ost");

    let e = parse("<person><alias>X</alias></person>");
    assert_eq!(read_person(&e, 3).unwrap_err(), DataError::MissingText("name"));
    let e = parse("<people/>");
    assert_eq!(read_person(&e, 3).unwrap_err(), DataError::Unexpected(3));
}

#[test]
fn dates_as_chrono_reads_them() {
    let d = Date::from_text("1969-02-12").unwrap();
    assert_eq!((d.year(), d.month(), d.day()), (1969, 2, 12));
    assert!(Date::from_text("1969-02-30").is_none());
    assert!(Date::from_text("12 feb 1969").is_none());
}

#[test]
fn numbers_as_from_str_reads_them() {
    assert_eq!(i16::from_text("17"), Some(17));
    assert_eq!(i16::from_text("+17"), Some(17));
    assert_eq!(i16::from_text("-3"), Some(-3));
    assert_eq!(i16::from_text("40000"), None);
    assert_eq!(i16::from_text(" 7"), None);
    assert_eq!(i32::from_text("40000"), Some(40000));
}

const ISSUE: &str = "<issue nr='7' pages='52' price='7.50'>
  <omslag><by>Sy Barry</by><best plac='2'/></omslag>
  <text>
    <title>Fantomen och  hans\n värld</title>
    <subtitle>En  artikel</subtitle>
    <by role='text'><who>Ulf Granberg</who></by>
    <ref><key>Skallegrottan</key></ref>
  </text>
  <serie>
    <title>Fantomen</title>
    <episode>Den  gyllene kedjan</episode>
    <episode role='orig' xml:lang='en'>The Golden  Chain</episode>
    <part no='2'>Andra delen</part>
    <by role='text'>Lee Falk</by>
    <best plac='1'/>
    <prevpub><fa>12</fa><year>1950</year></prevpub>
    <daystrip><from>1969-02-12</from><to>1969-06-07</to></daystrip>
  </serie>
  <skick>ok</skick>
</issue>";

#[test]
fn read_an_issue() {
    let i = parse(ISSUE);
    assert_eq!(issue_halt(&i), None);
    let data = read_issue(&i).unwrap();
    assert_eq!(data.head.nr.first(), 7);
    assert_eq!(data.head.pages, Some(52));
    assert_eq!(data.head.price.as_ref().map(|p| p.ore()), Some(750));
    assert_eq!(data.head.cover_best, Some(2));
    assert_eq!(data.items.len(), 4);
    match &data.items[0] {
        IssueItem::Cover(Some(names)) => assert_eq!(names, &vec!["Sy Barry".to_string()]),
        other => panic!("unexpected {other:?}"),
    }
    match &data.items[1] {
        IssueItem::Article(a) => {
            assert_eq!(a.head.title, "Fantomen och  hans\n värld");
            assert_eq!(a.head.subtitle.as_deref(), Some("En artikel"));
            assert_eq!(a.head.note, None);
            assert_eq!(a.details.len(), 4);
            assert!(matches!(&a.details[0], Detail::InHead));
            match &a.details[2] {
                Detail::By { role, names } => {
                    assert_eq!(role, "text");
                    assert_eq!(names, &vec!["Ulf Granberg".to_string()]);
                }
                other => panic!("unexpected {other:?}"),
            }
            match &a.details[3] {
                Detail::Refs(refs) => assert_eq!(refs, &vec![RefKey::key("Skallegrottan")]),
                other => panic!("unexpected {other:?}"),
            }
        }
        other => panic!("unexpected {other:?}"),
    }
    match &data.items[2] {
        IssueItem::Serie(s) => {
            assert_eq!(s.head.title, "Fantomen");
            assert_eq!(s.head.episode.as_deref(), Some("Den gyllene kedjan"));
            assert_eq!(s.head.part.no, Some(2));
            assert_eq!(s.head.part.name.as_deref(), Some("Andra delen"));
            assert_eq!(s.head.best_plac, Some(1));
            assert_eq!(s.head.label, "");
            match &s.details[2] {
                Detail::Orig { lang, name } => {
                    assert_eq!(lang, "en");
                    assert_eq!(name, "The Golden Chain");
                }
                other => panic!("unexpected {other:?}"),
            }
            match &s.details[4] {
                Detail::By { role, names } => {
                    assert_eq!(role, "text");
                    assert_eq!(names, &vec!["Lee Falk".to_string()]);
                }
                other => panic!("unexpected {other:?}"),
            }
            match &s.details[6] {
                Detail::PrevFa(r) => {
                    assert_eq!(r.year, 1950);
                    assert_eq!(r.number.first(), 12);
                }
                other => panic!("unexpected {other:?}"),
            }
            match &s.details[7] {
                Detail::Daystrip { from, to, sundays } => {
                    assert_eq!((from.year(), from.month(), from.day()), (1969, 2, 12));
                    assert_eq!((to.year(), to.month(), to.day()), (1969, 6, 7));
                    assert!(!sundays);
                }
                other => panic!("unexpected {other:?}"),
            }
        }
        other => panic!("unexpected {other:?}"),
    }
    assert!(matches!(&data.items[3], IssueItem::Ignored));
}

#[test]
fn issue_errors() {
    let i = parse("<issue pages='12'/>");
    assert_eq!(read_issue(&i).unwrap_err(), DataError::MissingAttribute("nr"));
    let i = parse("<issue nr='x'/>");
    assert_eq!(read_issue(&i).unwrap_err(), DataError::BadAttribute("nr"));
    let i = parse("<issue nr='3' price='7,50'/>");
    assert_eq!(read_issue(&i).unwrap_err(), DataError::BadAttribute("price"));
    let i = parse("<issue nr='3'><serie><title>X</title></serie><bogus/></issue>");
    assert_eq!(read_issue(&i).unwrap_err(), DataError::Unexpected(1));
    let i = parse("<issue nr='3'><serie><episode>X</episode></serie></issue>");
    assert_eq!(read_issue(&i).unwrap_err(), DataError::MissingText("title"));
    let i = parse("<issue nr='3'><serie><title>X</title><prevpub><nope/></prevpub></serie></issue>");
    assert_eq!(read_issue(&i).unwrap_err(), DataError::UnknownPrevpub);
    let i = parse("<issue nr='3'><serie><title>X</title><daystrip/></serie></issue>");
    assert_eq!(read_issue(&i).unwrap_err(), DataError::UnknownDaystrip);
    let i = parse("<issue nr='3'><serie><title>X</title><daystrip><fromnr>12</fromnr></daystrip></serie></issue>");
    assert_eq!(read_issue(&i).unwrap_err(), DataError::MissingText("tonr"));
    let i = parse("<issue nr='3'><serie><title>X</title><daystrip><from>1969-13-01</from></daystrip></serie></issue>");
    assert_eq!(read_issue(&i).unwrap_err(), DataError::BadText("from"));
}

#[test]
fn strip_numbers_and_other_magazines() {
    let c = parse("<serie><title>X</title>
        <daystrip d='sun'><fromnr>12</fromnr><tonr>40</tonr></daystrip>
        <prevpub><magazine>Serie-Pressen</magazine><issue>3</issue><year>1972</year></prevpub>
      </serie>");
    assert_eq!(serie_halt(&c), None);
    let s = fanrs::issuefile::read_serie(&c).unwrap();
    assert!(matches!(s.details[1], Detail::StripNrs { first: 12, last: 40 }));
    match &s.details[2] {
        Detail::PrevMag { name, issue, of, year } => {
            assert_eq!(name, "Serie-Pressen");
            assert_eq!((*issue, *of, *year), (Some(3), None, Some(1972)));
        }
        other => panic!("unexpected {other:?}"),
    }
}

#[test]
fn issues_that_halt_reading() {
    let c = parse("<serie><title>X</title><episode role='orig'>Y</episode></serie>");
    assert_eq!(serie_halt(&c), Some("orig should have lang"));
    let c = parse("<serie><title>X</title><prevpub><fa/><year>1950</year></prevpub></serie>");
    assert_eq!(serie_halt(&c), Some(fanrs::issuefile::NO_VALUE));
    // An error before it stops the reading first.
    let c = parse("<serie><title>X</title><bogus/><episode role='orig'>Y</episode></serie>");
    assert_eq!(serie_halt(&c), None);
    let i = parse("<issue nr='1'><serie><title>X</title><episode role='orig' xml:lang='en'/></serie></issue>");
    assert_eq!(issue_halt(&i), Some("orig should have name"));
}

#[test]
fn year_file_entries() {
    assert_eq!(year_entry(&parse("<info/>"), 0), Ok(YearEntry::Info));
    assert_eq!(year_entry(&parse("<issue nr='1'/>"), 1), Ok(YearEntry::Issue));
    assert_eq!(year_entry(&parse("<other/>"), 2), Err(DataError::Unexpected(2)));
}

#[test]
fn test_parse_xml_tree() {
    let e = parse_xml("<a xml:lang='sv' k='v'>lead<b>x</b> tail<c/></a>").unwrap();
    assert_eq!(e.name, "a");
    assert_eq!(e.attrs.len(), 2);
    assert_eq!(e.attrs[0].ns.as_deref(), Some("http://www.w3.org/XML/1998/namespace"));
    assert_eq!(e.attrs[0].name, "lang");
    assert_eq!(e.attrs[1].value, "v");
    assert_eq!(e.text.as_deref(), Some("lead"));
    assert_eq!(e.children.len(), 2);
    assert_eq!(e.children[0].text.as_deref(), Some("x"));
    assert_eq!(e.children[1].name, "c");
    assert!(parse_xml("<a><b></a>").is_err());
}

#[test]
fn test_read_persons() {
    let f = read_persons(
        "<people><person slug='lee-falk'><name>Lee Falk</name><alias>Falk</alias></person>\
         <person><name>Sy Barry</name></person></people>",
    )
    .unwrap();
    assert_eq!(f.persons.len(), 2);
    assert_eq!(f.persons[0].slug, "lee-falk");
    assert_eq!(f.persons[0].aliases, vec!["Falk".to_string()]);
    assert_eq!(f.persons[1].slug, "sy-barry");
    assert_eq!(f.stop, None);
    let f = read_persons("<people><person><name>A</name></person><bogus/><person><name>B</name></person></people>").unwrap();
    assert_eq!(f.persons.len(), 1);
    assert_eq!(f.stop, Some(DataError::Unexpected(1)));
    assert!(read_persons("<people>").is_err());
}

#[test]
fn test_read_year() {
    let f = read_year("<year><info/><issue nr='1'/><issue nr='2'/></year>").unwrap();
    assert_eq!(f.issues.len(), 2);
    assert_eq!(attr(&f.issues[1], "nr"), Some("2"));
    assert_eq!(f.stop, None);
    let f = read_year("<year><issue nr='1'/><bogus/><issue nr='2'/></year>").unwrap();
    assert_eq!(f.issues.len(), 1);
    assert_eq!(f.stop, Some(DataError::Unexpected(1)));
    assert!(read_year("not xml").is_err());
}
