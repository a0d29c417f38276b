use fanrs::paginator::Paginator;
use fanrs::yearlinks::YearLinks;

#[test]
fn short_lists_have_no_pages() {
    let items: Vec<u32> = (0..90).collect();
    let (page, pager) = Paginator::if_needed(items.clone(), Some(3)).unwrap();
    assert_eq!(page, items);
    assert!(pager.is_none());
}

#[test]
fn long_lists_are_split() {
    let items: Vec<u32> = (0..95).collect();
    let (page, pager) = Paginator::if_needed(items.clone(), None).unwrap();
    assert_eq!(page, (0..30).collect::<Vec<_>>());
    let mut out = String::new();
    pager.unwrap().to_html(&mut out);
    assert_eq!(out, "<b>1</b>, <a href='?p=2'>2</a>, <a href='?p=3'>3</a>, <a href='?p=4'>4</a>");

    let (page, _) = Paginator::if_needed(items.clone(), Some(4)).unwrap();
    assert_eq!(page, (90..95).collect::<Vec<_>>());
    assert!(Paginator::if_needed(items.clone(), Some(5)).is_err());
    assert!(Paginator::if_needed(items, Some(0)).is_err());
}

#[test]
fn every_item_is_on_one_page() {
    let items: Vec<u32> = (0..301).collect();
    let mut seen = Vec::new();
    for p in 1..=11 {
        let (page, _) = Paginator::if_needed(items.clone(), Some(p)).unwrap();
        seen.extend(page);
    }
    assert_eq!(seen, items);
}

#[test]
fn far_pages_are_elided() {
    let items: Vec<u32> = (0..600).collect();
    let (_, pager) = Paginator::if_needed(items, Some(10)).unwrap();
    let mut out = String::new();
    pager.unwrap().to_html(&mut out);
    assert_eq!(
        out,
        "<a href='?p=1'>1</a> … <a href='?p=5'>5</a>, <a href='?p=6'>6</a>, \
         <a href='?p=7'>7</a>, <a href='?p=8'>8</a>, <a href='?p=9'>9</a>, <b>10</b>, \
         <a href='?p=11'>11</a>, <a href='?p=12'>12</a>, <a href='?p=13'>13</a>, \
         <a href='?p=14'>14</a>, <a href='?p=15'>15</a> … <a href='?p=20'>20</a>",
    );
}

#[test]
fn year_links() {
    let mut out = String::new();
    YearLinks::new(1950, 1957, 1962).to_html(&mut out);
    assert_eq!(
        out,
        "<a href='/1950'>1950</a>… <a href='/1955'>1955</a>, <a href='/1956'>1956</a>, \
         <b>1957</b>, <a href='/1958'>1958</a>, <a href='/1959'>1959</a>, \
         <a href='/1960'>1960</a>… <a href='/1962'>1962</a>",
    );
    let mut out = String::new();
    YearLinks::new(1950, 1951, 1952).link_current().to_html(&mut out);
    assert_eq!(
        out,
        "<a href='/1950'>1950</a>, <a href='/1951'><b>1951</b></a>, <a href='/1952'>1952</a>",
    );
}
