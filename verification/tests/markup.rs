use fanrs::markup::text_to_fa_html;

#[test]
fn text_to_fa_html_a() {
    assert_eq!(
        text_to_fa_html("Hello world of the Phantom"),
        "Hello world of the Phantom",
    )
}

#[test]
fn text_to_fa_html_b() {
    assert_eq!(
        text_to_fa_html("Hello <Kit & Julie>"),
        "Hello &lt;Kit &amp; Julie&gt;",
    )
}

#[test]
fn text_to_fa_html_c() {
    assert_eq!(
        text_to_fa_html("See Fa 7 1980."),
        "See <a href='/1980/7'>Fa 7/1980</a>.",
    )
}

#[test]
fn text_to_fa_html_d() {
    assert_eq!(
        text_to_fa_html("See Fa 25-26/2019."),
        "See <a href='/2019/25'>Fa 25-26/2019</a>.",
    )
}

#[test]
fn text_to_fa_html_e() {
    assert_eq!(
        text_to_fa_html("See https://rasmus.krats.se .").as_str(),
        "See <a href='https://rasmus.krats.se'>rasmus.krats.se</a> .",
    )
}

#[test]
fn fa_links_need_a_year_of_this_or_last_century() {
    assert_eq!(text_to_fa_html("fa 3/1875"), "fa 3/1875");
    assert_eq!(
        text_to_fa_html("fa 3/1975 och Fa 12 2001"),
        "<a href='/1975/3'>Fa 3/1975</a> och <a href='/2001/12'>Fa 12/2001</a>",
    );
}
