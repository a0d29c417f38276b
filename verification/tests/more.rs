use fanrs::cloud::{Cloud, YearNo};
use fanrs::contents::episode_class;
use fanrs::episode::{Date, OrigDates};
use fanrs::error::{ViewError, ViewResult};
use fanrs::markup::escape_text;
use fanrs::search::{Completion, QueryParam, SearchPlan, SearchQuery, completion_limit, search_words, sort_completions};
use fanrs::title::Title;

#[test]
fn year_ordinals() {
    assert_eq!(YearNo::of(1950).to_string(), "1:a");
    assert_eq!(YearNo::of(1951).to_string(), "2:a");
    assert_eq!(YearNo::of(1952).to_string(), "3:e");
    assert_eq!(YearNo::of(1970).to_string(), "21:a");
    assert_eq!(YearNo::of(1961).to_string(), "12:e");
}

#[test]
fn clouds_of_titles() {
    let t = |id: i32, name: &str| Title { id, title: name.to_string(), slug: name.to_lowercase() };
    let cloud = Cloud::from_ordered(vec![(t(1, "Mandrake"), 30), (t(2, "Ben"), 20), (t(3, "Fantomen"), 10)]);
    assert_eq!(cloud.len(), 3);
    let mut out = String::new();
    cloud.to_html(&mut out);
    assert_eq!(
        out,
        "<a href='/titles/ben' class='w5' data-n='20'>Ben</a>, \
         <a href='/titles/fantomen' class='w2' data-n='10'>Fantomen</a>, \
         <a href='/titles/mandrake' class='w8' data-n='30'>Mandrake</a>.",
    );
}

#[test]
fn cloud_weights_of_two() {
    let t = |id: i32, name: &str| Title { id, title: name.to_string(), slug: name.to_lowercase() };
    let cloud = Cloud::from_ordered(vec![(t(1, "B"), 5), (t(2, "A"), 1)]);
    let mut out = String::new();
    cloud.to_html(&mut out);
    assert_eq!(
        out,
        "<a href='/titles/a' class='w4' data-n='1'>A</a>, \
         <a href='/titles/b' class='w8' data-n='5'>B</a>.",
    );
}

#[test]
fn view_errors() {
    assert_eq!(ViewError::NotFound.status(), 404);
    assert_eq!(ViewError::ServiceUnavailable.status(), 503);
    assert_eq!(ViewError::database().status(), 500);
    assert_eq!(ViewError::database(), ViewError::Internal("Databasfel"));
    assert_eq!(ViewError::from_pool(true), ViewError::ServiceUnavailable);
    assert!(ViewError::NotFound.page_text().is_none());
    assert_eq!(ViewError::rendering().page_text().unwrap().0, "Renderingsfel");
    let r: Result<u8, ()> = Err(());
    assert_eq!(r.ise(), Err(ViewError::Internal("Något gick snett")));
    let r: Result<u8, ()> = Ok(7);
    assert_eq!(r.ise(), Ok(7));
}

#[test]
fn escaping_in_parts() {
    let a = "Kit & <Julie";
    let b = "> & Heloise";
    assert_eq!(escape_text(&format!("{a}{b}")), format!("{}{}", escape_text(a), escape_text(b)));
    assert_eq!(escape_text("a<b>&c"), "a&lt;b&gt;&amp;c");
}

#[test]
fn episode_classes() {
    let mut have_main = false;
    assert_eq!(episode_class("Fantomen", true, true, &mut have_main), ("episode main", false));
    assert!(have_main);
    assert_eq!(episode_class("Fantomen", true, true, &mut have_main), ("episode", false));
    assert_eq!(episode_class("Mandrake", false, true, &mut have_main), ("episode noteaser", true));
    assert_eq!(episode_class("Mandrake", true, false, &mut have_main), ("episode noteaser", true));
}

#[test]
fn first_publication_dates() {
    let d = Date::from_ymd(1936, 2, 17).unwrap();
    let o = OrigDates::date(d);
    assert_eq!(o.kind(), "Först publicerad");
    let mut out = String::new();
    o.to_html(&mut out);
    assert_eq!(out, "måndag den 17 februari 1936");
    let strips = OrigDates { from: d, to: Date::from_ymd(1936, 2, 18), sun: false };
    assert_eq!(strips.kind(), "Dagstrippar");
    let mut out = String::new();
    strips.to_html(&mut out);
    assert_eq!(out, "måndag den 17 februari 1936 - tisdag den 18 februari 1936");
    let sundays = OrigDates { from: d, to: Some(d), sun: true };
    assert_eq!(sundays.kind(), "Söndagssidor");
}

#[test]
fn search_queries() {
    assert_eq!(search_words("  fantomen\tdjungel "), vec!["%fantomen%".to_string(), "%djungel%".to_string()]);
    assert!(search_words("   ").is_empty());
    assert_eq!(SearchQuery::param_kind("q"), QueryParam::Text);
    assert_eq!(SearchQuery::param_kind("f"), QueryParam::Fa);
    assert_eq!(SearchQuery::param_kind("x"), QueryParam::Ignored);
    let q = SearchQuery::empty();
    assert!(q.is_empty());
    assert_eq!(
        q.plan(),
        SearchPlan { contents: false, titles: false, creators: false, refkeys: false }
    );
    let q = SearchQuery { q: "kedjan".into(), t: vec![], p: vec![], k: vec![] };
    let plan = q.plan();
    assert!(plan.contents && plan.titles && plan.creators && plan.refkeys);
}

#[test]
fn completions() {
    assert_eq!(completion_limit(0), 8);
    assert_eq!(completion_limit(5), 3);
    assert_eq!(completion_limit(7), 2);
    let cs = sort_completions(vec![
        Completion::title("Mandrake".into(), "mandrake".into()),
        Completion::creator("Lee Falk".into(), "lee-falk".into()),
        Completion::refkey(fanrs::refkey::FA_ID, "Julie".into(), "17j".into()),
        Completion::refkey(fanrs::refkey::KEY_ID, "Bandar".into(), "bandar".into()),
    ]);
    let order: Vec<(&str, &str)> = cs.iter().map(|c| (c.k, c.t.as_str())).collect();
    assert_eq!(order, vec![("k", "Bandar"), ("f", "Julie"), ("p", "Lee Falk"), ("t", "Mandrake")]);
}
