//! Titles of comics, and which of them were published as daily strips
//! or as sunday pages.
use crate::cloud::CloudItem;
use crate::sort::{
    chars_le, lemma_seq_le_antisym, lemma_seq_le_refl, lemma_seq_le_total, lemma_seq_le_trans, seq_le,
};
use crate::text::{chars_of, html_escape, int_chars, push_escaped, push_int, str_eq};
use vstd::prelude::*;

verus! {

/// A title of a comic.
///
/// May be recurring, such as "Fantomen" or "Spirit", or a one-shot.
#[derive(Debug)]
pub struct Title {
    pub id: i32,
    pub title: String,
    pub slug: String,
}

/// The slugs of the titles that were published as daily strips.
pub open spec fn daystrip_slugs() -> Seq<Seq<char>> {
    seq![
        "blixt-gordon"@,
        "fantomen"@,
        "johnny-hazard"@,
        "king-vid-granspolisen"@,
        "latigo"@,
        "mandrake"@,
        "rick-o-shay"@,
    ]
}

/// The slugs of the titles that were published as sunday pages.
pub open spec fn sunday_slugs() -> Seq<Seq<char>> {
    seq!["fantomen"@, "johnny-hazard"@, "ludvig"@, "mandrake"@, "mandrake-fantomen"@]
}

pub open spec fn views_of(v: Seq<&str>) -> Seq<Seq<char>> {
    v.map_values(|s: &str| s@)
}

/// Each text sorts strictly before the next.
pub open spec fn strictly_sorted(s: Seq<Seq<char>>) -> bool {
    forall|i: int| 0 <= i < s.len() - 1 ==> seq_le(#[trigger] s[i], s[i + 1]) && s[i] != s[i + 1]
}

/// The slugs of the titles that were published as daily strips.
pub fn daystrips() -> (v: Vec<&'static str>)
    ensures
        views_of(v@) == daystrip_slugs(),
{
    let v = vec![
        "blixt-gordon",
        "fantomen",
        "johnny-hazard",
        "king-vid-granspolisen",
        "latigo",
        "mandrake",
        "rick-o-shay",
    ];
    assert(views_of(v@) == daystrip_slugs());
    v
}

/// The slugs of the titles that were published as sunday pages.
pub fn sundays() -> (v: Vec<&'static str>)
    ensures
        views_of(v@) == sunday_slugs(),
{
    let v = vec!["fantomen", "johnny-hazard", "ludvig", "mandrake", "mandrake-fantomen"];
    assert(views_of(v@) == sunday_slugs());
    v
}

/// Whether `s` is one of `list`.
fn is_one_of(list: &Vec<&str>, s: &str) -> (r: bool)
    ensures
        r == views_of(list@).contains(s@),
{
    let mut i: usize = 0;
    while i < list.len()
        invariant
            i <= list.len(),
            forall|j: int| 0 <= j < i ==> list@[j]@ != s@,
        decreases list.len() - i,
    {
        if str_eq(list[i], s) {
            assert(views_of(list@)[i as int] == s@);
            return true;
        }
        i += 1;
    }
    proof {
        if views_of(list@).contains(s@) {
            let k = choose|k: int| 0 <= k < views_of(list@).len() && views_of(list@)[k] == s@;
            assert(list@[k]@ == s@);
        }
    }
    false
}

/// Whether each text of `data` sorts strictly before the next.
pub fn is_sorted(data: &Vec<&str>) -> (r: bool)
    ensures
        r == strictly_sorted(views_of(data@)),
{
    let ghost s = views_of(data@);
    if data.len() < 2 {
        return true;
    }
    let mut i: usize = 0;
    while i + 1 < data.len()
        invariant
            i + 1 <= data.len(),
            s == views_of(data@),
            forall|j: int| 0 <= j < i ==> seq_le(#[trigger] s[j], s[j + 1]) && s[j] != s[j + 1],
        decreases data.len() - i,
    {
        let a = chars_of(data[i]);
        let b = chars_of(data[i + 1]);
        if !crate::sort::chars_le(&a, &b) || str_eq(data[i], data[i + 1]) {
            assert(s[i as int] == a@ && s[i + 1] == b@);
            return false;
        }
        i += 1;
    }
    true
}

impl Title {
    /// Whether this title was published as daily strips.
    pub fn has_daystrip(&self) -> (r: bool)
        ensures
            r == daystrip_slugs().contains(self.slug@),
    {
        is_one_of(&daystrips(), self.slug.as_str())
    }

    /// Whether this title was published as sunday pages.
    pub fn has_sundays(&self) -> (r: bool)
        ensures
            r == sunday_slugs().contains(self.slug@),
    {
        is_one_of(&sundays(), self.slug.as_str())
    }
}

impl CloudItem for Title {
    open spec fn cloud_key(&self) -> Seq<char> {
        self.title@
    }

    open spec fn cloud_html(&self, n: int, w: int) -> Seq<char> {
        "<a href='/titles/"@ + self.slug@ + "' class='w"@ + int_chars(w) + "' data-n='"@
            + int_chars(n) + "'>"@ + html_escape(self.title@) + "</a>"@
    }

    fn sort_key(&self) -> (k: Vec<char>) {
        chars_of(self.title.as_str())
    }

    fn write_item(&self, out: &mut String, n: i32, w: u8) {
        out.append("<a href='/titles/");
        out.append(self.slug.as_str());
        out.append("' class='w");
        push_int(out, w as i64);
        out.append("' data-n='");
        push_int(out, n as i64);
        out.append("'>");
        push_escaped(out, self.title.as_str());
        out.append("</a>");
    }
}

/// The lists of day-strip and sunday-page titles are each in strictly
/// ascending order (so that a binary search finds exactly their members).
pub proof fn lemma_title_lists_sorted()
    ensures
        strictly_sorted(daystrip_slugs()),
        strictly_sorted(sunday_slugs()),
{
    reveal_strlit("blixt-gordon");
    reveal_strlit("fantomen");
    reveal_strlit("johnny-hazard");
    reveal_strlit("king-vid-granspolisen");
    reveal_strlit("latigo");
    reveal_strlit("mandrake");
    reveal_strlit("rick-o-shay");
    reveal_strlit("ludvig");
    reveal_strlit("mandrake-fantomen");
    reveal_with_fuel(seq_le, 10);
    assert(seq_le("blixt-gordon"@, "fantomen"@));
    assert(seq_le("fantomen"@, "johnny-hazard"@));
    assert(seq_le("johnny-hazard"@, "king-vid-granspolisen"@));
    assert(seq_le("king-vid-granspolisen"@, "latigo"@));
    assert(seq_le("latigo"@, "mandrake"@));
    assert(seq_le("mandrake"@, "rick-o-shay"@));
    assert(seq_le("johnny-hazard"@, "ludvig"@));
    assert(seq_le("ludvig"@, "mandrake"@));
    assert(seq_le("mandrake"@, "mandrake-fantomen"@));
}

/// The items of the rows whose title has the text `t`, in order.
pub open spec fn items_titled<T>(rows: Seq<(Title, T)>, t: Seq<char>) -> Seq<T>
    decreases rows.len(),
{
    if rows.len() == 0 {
        Seq::empty()
    } else {
        let a = items_titled(rows.drop_last(), t);
        if rows.last().0.title@ == t {
            a.push(rows.last().1)
        } else {
            a
        }
    }
}

/// Row `i` is the first of `rows` whose title has the text `t`.
pub open spec fn first_titled<T>(rows: Seq<(Title, T)>, t: Seq<char>, i: int) -> bool {
    &&& 0 <= i < rows.len()
    &&& rows[i].0.title@ == t
    &&& forall|j: int| 0 <= j < i ==> (#[trigger] rows[j]).0.title@ != t
}

/// The groups are in strictly ascending order of their titles' texts.
#[verifier::opaque]
pub open spec fn titles_ascending<T>(groups: Seq<(Title, Vec<T>)>) -> bool {
    forall|a: int, b: int|
        #![trigger groups[a], groups[b]]
        0 <= a < b < groups.len() ==> seq_le(groups[a].0.title@, groups[b].0.title@)
            && groups[a].0.title@ != groups[b].0.title@
}

/// Each group has the title of the first row with its text.
#[verifier::opaque]
pub open spec fn first_titles<T>(rows: Seq<(Title, T)>, groups: Seq<(Title, Vec<T>)>) -> bool {
    forall|a: int|
        #![trigger groups[a]]
        0 <= a < groups.len() ==> exists|i: int|
            first_titled(rows, groups[a].0.title@, i) && groups[a].0 == #[trigger] rows[i].0
}

/// Each group has the items of the rows with its text, in order.
#[verifier::opaque]
pub open spec fn group_items<T>(rows: Seq<(Title, T)>, groups: Seq<(Title, Vec<T>)>) -> bool {
    forall|a: int|
        #![trigger groups[a]]
        0 <= a < groups.len() ==> groups[a].1@ == items_titled(rows, groups[a].0.title@)
}

/// Each row has a group with the text of its title.
#[verifier::opaque]
pub open spec fn rows_grouped<T>(rows: Seq<(Title, T)>, groups: Seq<(Title, Vec<T>)>) -> bool {
    forall|i: int|
        #![trigger rows[i]]
        0 <= i < rows.len() ==> exists|a: int|
            0 <= a < groups.len() && (#[trigger] groups[a]).0.title@ == rows[i].0.title@
}

/// `groups` holds the items of `rows` grouped by the text of their
/// titles, as a map ordered by titles (whose order is that of their
/// texts) holds them: the groups in the order of their texts, each with
/// the first title of that text and the items of that text in order.
pub open spec fn grouped_by_title<T>(rows: Seq<(Title, T)>, groups: Seq<(Title, Vec<T>)>) -> bool {
    &&& titles_ascending(groups)
    &&& first_titles(rows, groups)
    &&& group_items(rows, groups)
    &&& rows_grouped(rows, groups)
}

proof fn lemma_items_titled_none<T>(rows: Seq<(Title, T)>, t: Seq<char>)
    requires
        forall|j: int| 0 <= j < rows.len() ==> (#[trigger] rows[j]).0.title@ != t,
    ensures
        items_titled(rows, t) == Seq::<T>::empty(),
    decreases rows.len(),
{
    if rows.len() > 0 {
        assert forall|j: int| 0 <= j < rows.drop_last().len() implies (
        #[trigger] rows.drop_last()[j]).0.title@ != t by {
            assert(rows.drop_last()[j] == rows[j]);
        }
        lemma_items_titled_none(rows.drop_last(), t);
        assert(rows.last() == rows[rows.len() - 1]);
    }
}

/// Adding a row keeps each group's first title.
proof fn lemma_first_titles_push<T>(
    rows: Seq<(Title, T)>,
    old_groups: Seq<(Title, Vec<T>)>,
    x: (Title, T),
    groups: Seq<(Title, Vec<T>)>,
    p: int,
    shift: bool,
)
    requires
        first_titles(rows, old_groups),
        0 <= p <= old_groups.len(),
        groups.len() == old_groups.len() + if shift {
            1int
        } else {
            0
        },
        forall|a: int| 0 <= a < p ==> groups[a] == old_groups[a],
        !shift ==> forall|a: int| p < a < groups.len() ==> groups[a] == old_groups[a],
        shift ==> forall|a: int| p < a < groups.len() ==> groups[a] == old_groups[a - 1],
        !shift ==> p < old_groups.len() && groups[p].0 == old_groups[p].0,
        shift ==> groups[p].0 == x.0 && forall|j: int|
            0 <= j < rows.len() ==> (#[trigger] rows[j]).0.title@ != x.0.title@,
    ensures
        first_titles(rows.push(x), groups),
{
    reveal(first_titles);
    let new_rows = rows.push(x);
    assert forall|a: int|
        #![trigger groups[a]]
        0 <= a < groups.len() implies exists|i: int|
            first_titled(new_rows, groups[a].0.title@, i) && groups[a].0 == #[trigger] new_rows[i].0 by {
        if shift && a == p {
            let k = rows.len() as int;
            assert(new_rows[k] == x);
            assert forall|j: int| 0 <= j < k implies (#[trigger] new_rows[j]).0.title@ != x.0.title@ by {
                assert(new_rows[j] == rows[j]);
            }
            assert(first_titled(new_rows, x.0.title@, k));
        } else {
            let oa = if shift && a > p {
                a - 1
            } else {
                a
            };
            assert(groups[a].0 == old_groups[oa].0);
            assert(old_groups[oa] == old_groups[oa]);
            let i = choose|i: int|
                first_titled(rows, old_groups[oa].0.title@, i) && old_groups[oa].0
                    == #[trigger] rows[i].0;
            assert(new_rows[i] == rows[i]);
            assert forall|j: int| 0 <= j < i implies (#[trigger] new_rows[j]).0.title@
                != groups[a].0.title@ by {
                assert(new_rows[j] == rows[j]);
            }
        }
    }
}

/// Adding a row keeps every row grouped, where the group for its text is
/// at `p`.
proof fn lemma_rows_grouped_push<T>(
    rows: Seq<(Title, T)>,
    old_groups: Seq<(Title, Vec<T>)>,
    x: (Title, T),
    groups: Seq<(Title, Vec<T>)>,
    p: int,
    shift: bool,
)
    requires
        rows_grouped(rows, old_groups),
        0 <= p <= old_groups.len(),
        groups.len() == old_groups.len() + if shift {
            1int
        } else {
            0
        },
        p < groups.len(),
        groups[p].0.title@ == x.0.title@,
        forall|a: int| 0 <= a < p ==> groups[a].0 == old_groups[a].0,
        !shift ==> forall|a: int| p <= a < groups.len() ==> groups[a].0 == old_groups[a].0,
        shift ==> forall|a: int| p < a < groups.len() ==> groups[a] == old_groups[a - 1],
    ensures
        rows_grouped(rows.push(x), groups),
{
    reveal(rows_grouped);
    let new_rows = rows.push(x);
    assert forall|i: int|
        #![trigger new_rows[i]]
        0 <= i < new_rows.len() implies exists|a: int|
            0 <= a < groups.len() && (#[trigger] groups[a]).0.title@ == new_rows[i].0.title@ by {
        if i < rows.len() {
            assert(new_rows[i] == rows[i]);
            assert(rows[i] == rows[i]);
            let a = choose|a: int|
                0 <= a < old_groups.len() && (#[trigger] old_groups[a]).0.title@ == rows[i].0.title@;
            if shift && a >= p {
                assert(groups[a + 1] == old_groups[a]);
            } else {
                assert(groups[a].0 == old_groups[a].0);
            }
        } else {
            assert(groups[p].0.title@ == x.0.title@);
        }
    }
}

/// Adding a row whose title has the text of an existing group adds its
/// item to that group.
proof fn lemma_add_to_group<T>(
    rows: Seq<(Title, T)>,
    old_groups: Seq<(Title, Vec<T>)>,
    x: (Title, T),
    p: int,
    groups: Seq<(Title, Vec<T>)>,
)
    requires
        grouped_by_title(rows, old_groups),
        0 <= p < old_groups.len(),
        old_groups[p].0.title@ == x.0.title@,
        groups.len() == old_groups.len(),
        forall|a: int| 0 <= a < groups.len() && a != p ==> groups[a] == old_groups[a],
        groups[p].0 == old_groups[p].0,
        groups[p].1@ == old_groups[p].1@.push(x.1),
    ensures
        grouped_by_title(rows.push(x), groups),
{
    let new_rows = rows.push(x);
    assert(new_rows.drop_last() =~= rows);
    lemma_first_titles_push(rows, old_groups, x, groups, p, false);
    lemma_rows_grouped_push(rows, old_groups, x, groups, p, false);
    reveal(titles_ascending);
    assert forall|a: int, b: int|
        #![trigger groups[a], groups[b]]
        0 <= a < b < groups.len() implies seq_le(groups[a].0.title@, groups[b].0.title@)
        && groups[a].0.title@ != groups[b].0.title@ by {
        assert(groups[a].0 == old_groups[a].0);
        assert(groups[b].0 == old_groups[b].0);
        assert(old_groups[a] == old_groups[a] && old_groups[b] == old_groups[b]);
    }
    reveal(group_items);
    assert forall|a: int|
        #![trigger groups[a]]
        0 <= a < groups.len() implies groups[a].1@ == items_titled(new_rows, groups[a].0.title@) by {
        assert(old_groups[a] == old_groups[a]);
        if a != p {
            assert(old_groups[a] == groups[a]);
            assert(old_groups[p] == old_groups[p]);
            if a < p {
                assert(old_groups[a].0.title@ != old_groups[p].0.title@);
            } else {
                assert(old_groups[p].0.title@ != old_groups[a].0.title@);
            }
        }
    }
}

/// Adding a row whose title has a new text adds a group for it, at the
/// place of that text among the others.
proof fn lemma_add_group<T>(
    rows: Seq<(Title, T)>,
    old_groups: Seq<(Title, Vec<T>)>,
    x: (Title, T),
    p: int,
    groups: Seq<(Title, Vec<T>)>,
)
    requires
        grouped_by_title(rows, old_groups),
        0 <= p <= old_groups.len(),
        forall|a: int|
            0 <= a < p ==> seq_le((#[trigger] old_groups[a]).0.title@, x.0.title@)
                && old_groups[a].0.title@ != x.0.title@,
        p < old_groups.len() ==> seq_le(x.0.title@, old_groups[p].0.title@) && old_groups[p].0.title@
            != x.0.title@,
        groups.len() == old_groups.len() + 1,
        forall|a: int| 0 <= a < p ==> groups[a] == old_groups[a],
        forall|a: int| p < a < groups.len() ==> groups[a] == old_groups[a - 1],
        groups[p].0 == x.0,
        groups[p].1@ == seq![x.1],
    ensures
        grouped_by_title(rows.push(x), groups),
{
    let new_rows = rows.push(x);
    let t = x.0.title@;
    assert(new_rows.drop_last() =~= rows);
    // No group, and so no earlier row, has the title of `x`.
    assert forall|a: int| 0 <= a < old_groups.len() implies (#[trigger] old_groups[a]).0.title@ != t by {
        if a > p {
            reveal(titles_ascending);
            assert(old_groups[p] == old_groups[p]);
            assert(seq_le(old_groups[p].0.title@, old_groups[a].0.title@));
            if old_groups[a].0.title@ == t {
                lemma_seq_le_antisym(t, old_groups[p].0.title@);
            }
        }
    }
    assert forall|j: int| 0 <= j < rows.len() implies (#[trigger] rows[j]).0.title@ != t by {
        reveal(rows_grouped);
        assert(rows[j] == rows[j]);
        let a = choose|a: int|
            0 <= a < old_groups.len() && (#[trigger] old_groups[a]).0.title@ == rows[j].0.title@;
        assert(old_groups[a] == old_groups[a]);
    }
    lemma_items_titled_none(rows, t);
    assert(items_titled(new_rows, t) =~= seq![x.1]);
    lemma_first_titles_push(rows, old_groups, x, groups, p, true);
    lemma_rows_grouped_push(rows, old_groups, x, groups, p, true);
    reveal(group_items);
    assert forall|a: int|
        #![trigger groups[a]]
        0 <= a < groups.len() implies groups[a].1@ == items_titled(new_rows, groups[a].0.title@) by {
        if a != p {
            let oa = if a < p {
                a
            } else {
                a - 1
            };
            assert(groups[a] == old_groups[oa]);
            assert(old_groups[oa] == old_groups[oa]);
        }
    }
    reveal(titles_ascending);
    assert forall|a: int, b: int|
        #![trigger groups[a], groups[b]]
        0 <= a < b < groups.len() implies seq_le(groups[a].0.title@, groups[b].0.title@)
        && groups[a].0.title@ != groups[b].0.title@ by {
        let oa = if a < p {
            a
        } else {
            a - 1
        };
        let ob = if b < p {
            b
        } else {
            b - 1
        };
        if a == p {
            assert(groups[b] == old_groups[ob]);
            assert(old_groups[p] == old_groups[p]);
            if ob > p {
                assert(seq_le(old_groups[p].0.title@, old_groups[ob].0.title@));
                lemma_seq_le_trans(t, old_groups[p].0.title@, old_groups[ob].0.title@);
            }
        } else if b == p {
            assert(groups[a] == old_groups[oa]);
        } else {
            assert(groups[a] == old_groups[oa]);
            assert(groups[b] == old_groups[ob]);
            assert(old_groups[oa] == old_groups[oa] && old_groups[ob] == old_groups[ob]);
        }
    }
}

/// Add the row `x` to the groups of `rows`.
fn add_titled<T>(groups: &mut Vec<(Title, Vec<T>)>, x: (Title, T), Ghost(rows): Ghost<
    Seq<(Title, T)>,
>)
    requires
        grouped_by_title(rows, old(groups)@),
    ensures
        grouped_by_title(rows.push(x), final(groups)@),
{
    let ghost old_groups = groups@;
    let ghost t = x.0.title@;
    let title = chars_of(x.0.title.as_str());
    // Find the first group whose title does not sort before that of `x`.
    let mut p: usize = 0;
    while p < groups.len() && !chars_le(&title, &chars_of(groups[p].0.title.as_str()))
        invariant
            p <= groups@.len(),
            groups@ == old_groups,
            title@ == t,
            forall|a: int| 0 <= a < p ==> !seq_le(t, (#[trigger] old_groups[a]).0.title@),
        decreases groups@.len() - p,
    {
        p += 1;
    }
    proof {
        assert forall|a: int| 0 <= a < p implies seq_le((#[trigger] old_groups[a]).0.title@, t)
            && old_groups[a].0.title@ != t by {
            lemma_seq_le_total(old_groups[a].0.title@, t);
            lemma_seq_le_refl(t);
        }
    }
    if p < groups.len() && str_eq(groups[p].0.title.as_str(), x.0.title.as_str()) {
        let (gt, mut items) = groups.remove(p);
        let (xt, item) = x;
        items.push(item);
        groups.insert(p, (gt, items));
        proof {
            assert(groups@ =~= old_groups.update(p as int, (gt, items)));
            lemma_add_to_group(rows, old_groups, (xt, item), p as int, groups@);
        }
    } else {
        let (xt, item) = x;
        let mut items: Vec<T> = Vec::new();
        items.push(item);
        assert(items@ =~= seq![item]);
        groups.insert(p, (xt, items));
        proof {
            lemma_add_group(rows, old_groups, (xt, item), p as int, groups@);
        }
    }
}

/// Group the items of `rows` by the text of their titles.
pub fn group_by_title<T>(rows: Vec<(Title, T)>) -> (r: Vec<(Title, Vec<T>)>)
    ensures
        grouped_by_title(rows@, r@),
{
    let ghost input = rows@;
    let mut groups: Vec<(Title, Vec<T>)> = Vec::new();
    proof {
        assert(input.take(0) =~= Seq::<(Title, T)>::empty());
        reveal(titles_ascending);
        reveal(first_titles);
        reveal(group_items);
        reveal(rows_grouped);
    }
    for x in it: rows
        invariant
            it.seq() == input,
            grouped_by_title(input.take(it.index() as int), groups@),
    {
        let ghost k = it.index() as int;
        assert(input.take(k + 1) =~= input.take(k).push(x));
        add_titled(&mut groups, x, Ghost(input.take(k)));
    }
    proof {
        assert(input.take(input.len() as int) =~= input);
    }
    groups
}

} // verus!
