use fanrs::title::{Title, daystrips, group_by_title, is_sorted, sundays};

#[test]
fn test_daystrips_sorted() {
    assert!(is_sorted(&daystrips()));
}

#[test]
fn test_sundays_sorted() {
    assert!(is_sorted(&sundays()));
}

#[test]
fn unsorted_lists_are_found() {
    assert!(!is_sorted(&vec!["b", "a"]));
    assert!(!is_sorted(&vec!["a", "a"]));
    assert!(is_sorted(&vec![]));
}

fn title(id: i32, t: &str) -> Title {
    Title { id, title: t.to_string(), slug: t.to_lowercase() }
}

#[test]
fn daystrip_and_sunday_titles() {
    let f = Title { id: 1, title: "Fantomen".into(), slug: "fantomen".into() };
    assert!(f.has_daystrip() && f.has_sundays());
    let l = Title { id: 2, title: "Ludvig".into(), slug: "ludvig".into() };
    assert!(!l.has_daystrip() && l.has_sundays());
    let s = Title { id: 3, title: "Spirit".into(), slug: "spirit".into() };
    assert!(!s.has_daystrip() && !s.has_sundays());
}

#[test]
fn group_episodes_by_title() {
    let rows = vec![
        (title(1, "Mandrake"), "a"),
        (title(2, "Fantomen"), "b"),
        (title(3, "Mandrake"), "c"),
        (title(4, "Brick Bradford"), "d"),
        (title(5, "Fantomen"), "e"),
    ];
    let groups = group_by_title(rows);
    let seen: Vec<(i32, &str, Vec<&str>)> = groups
        .iter()
        .map(|(t, items)| (t.id, t.title.as_str(), items.clone()))
        .collect();
    assert_eq!(
        seen,
        vec![
            (4, "Brick Bradford", vec!["d"]),
            (2, "Fantomen", vec!["b", "e"]),
            (1, "Mandrake", vec!["a", "c"]),
        ],
    );
}
