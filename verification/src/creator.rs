//! Creators (writers, artists and others) and the creators of an episode
//! or an article, by role.
use crate::cloud::CloudItem;
use crate::issue::{IssueRef, ref_le};
use crate::sort::{SortKey, is_stable_sort_by, lemma_strip_keys, stable_sort};
use crate::text::{chars_of, html_escape, int_chars, push_escaped, push_int, str_eq};
use vstd::prelude::*;

verus! {

/// A creator: the id and name of an alias, with the slug of the creator.
#[derive(Debug)]
pub struct Creator {
    pub id: i32,
    pub name: String,
    pub slug: String,
}

/// A link to a creator's page, with the name as it is.
pub open spec fn creator_html(c: Creator) -> Seq<char> {
    "<a href='/who/"@ + c.slug@ + "'>"@ + c.name@ + "</a>"@
}

impl Creator {
    /// Append a link to this creator's page to `out`.
    pub fn to_html(&self, out: &mut String)
        ensures
            final(out)@ == old(out)@ + creator_html(*self),
    {
        out.append("<a href='/who/");
        out.append(self.slug.as_str());
        out.append("'>");
        out.append(self.name.as_str());
        out.append("</a>");
    }
}

impl Clone for Creator {
    fn clone(&self) -> (r: Self)
        ensures
            r == *self,
    {
        Creator { id: self.id, name: self.name.clone(), slug: self.slug.clone() }
    }
}

impl CloudItem for Creator {
    open spec fn cloud_key(&self) -> Seq<char> {
        self.name@
    }

    open spec fn cloud_html(&self, n: int, w: int) -> Seq<char> {
        "<a href='/who/"@ + self.slug@ + "' class='w"@ + int_chars(w) + "' data-n='"@ + int_chars(
            n,
        ) + "'>"@ + html_escape(self.name@) + "</a>"@
    }

    fn sort_key(&self) -> (k: Vec<char>) {
        chars_of(self.name.as_str())
    }

    fn write_item(&self, out: &mut String, n: i32, w: u8) {
        out.append("<a href='/who/");
        out.append(self.slug.as_str());
        out.append("' class='w");
        push_int(out, w as i64);
        out.append("' data-n='");
        push_int(out, n as i64);
        out.append("'>");
        push_escaped(out, self.name.as_str());
        out.append("</a>");
    }
}

/// The creators of an episode or article, grouped by role.  Each role
/// occurs once, with its creators in the order they were given.
pub struct CreatorSet {
    roles: Vec<(String, Vec<Creator>)>,
}

/// The creators of `data` that have the role `role`, in order.
pub open spec fn with_role(data: Seq<(String, Creator)>, role: Seq<char>) -> Seq<Creator>
    decreases data.len(),
{
    if data.len() == 0 {
        Seq::empty()
    } else if data.last().0@ == role {
        with_role(data.drop_last(), role).push(data.last().1)
    } else {
        with_role(data.drop_last(), role)
    }
}

/// The roles that occur in `data`.
pub open spec fn roles_of(data: Seq<(String, Creator)>) -> Set<Seq<char>> {
    Set::new(|r: Seq<char>| exists|i: int| 0 <= i < data.len() && data[i].0@ == r)
}

/// The roles and their descriptions, in the order they are shown.
pub open spec fn role_table() -> Seq<(Seq<char>, Seq<char>)> {
    seq![
        ("by"@, "Av"@),
        ("text"@, "Text:"@),
        ("bild"@, "Bild:"@),
        ("ink"@, "Tush:"@),
        ("color"@, "Färgläggning:"@),
        ("orig"@, "Efter en originalberättelse av:"@),
        ("redax"@, "Redaktion:"@),
        ("xlat"@, "Översättning:"@),
        ("textning"@, "Textsättning:"@),
    ]
}

/// Creators as a list: `a`, `a och b`, or `a, b och c`.
pub open spec fn creators_list(cs: Seq<Creator>) -> Seq<char> {
    if cs.len() == 1 {
        creator_html(cs[0])
    } else {
        creator_html(cs[0]) + comma_list(cs.subrange(1, cs.len() - 1)) + " och "@ + creator_html(
            cs.last(),
        )
    }
}

/// Each creator preceded by `, `.
pub open spec fn comma_list(cs: Seq<Creator>) -> Seq<char>
    decreases cs.len(),
{
    if cs.len() == 0 {
        Seq::empty()
    } else {
        comma_list(cs.drop_last()) + ", "@ + creator_html(cs.last())
    }
}

/// One role with its creators, or nothing where no creator has it.
pub open spec fn role_html(m: Map<Seq<char>, Seq<Creator>>, code: Seq<char>, desc: Seq<char>) -> Seq<
    char,
> {
    if m.contains_key(code) && m[code].len() > 0 {
        desc + " "@ + creators_list(m[code]) + ". "@
    } else {
        Seq::empty()
    }
}

/// The roles of the table, up to `k`, with their creators.
pub open spec fn roles_html(m: Map<Seq<char>, Seq<Creator>>, k: int) -> Seq<char>
    decreases k,
{
    if k <= 0 {
        Seq::empty()
    } else {
        roles_html(m, k - 1) + role_html(m, role_table()[k - 1].0, role_table()[k - 1].1)
    }
}

/// The paragraph of creators of an episode or article.
pub open spec fn creator_set_html(m: Map<Seq<char>, Seq<Creator>>) -> Seq<char> {
    if m.dom() == Set::<Seq<char>>::empty() {
        Seq::empty()
    } else {
        "<p class='info creators'>"@ + roles_html(m, 9) + "</p>"@
    }
}

impl View for CreatorSet {
    type V = Map<Seq<char>, Seq<Creator>>;

    closed spec fn view(&self) -> Map<Seq<char>, Seq<Creator>> {
        Map::new(
            |r: Seq<char>| exists|i: int| 0 <= i < self.roles@.len() && self.roles@[i].0@ == r,
            |r: Seq<char>|
                self.roles@[choose|i: int| 0 <= i < self.roles@.len() && self.roles@[i].0@ == r].1@,
        )
    }
}

impl CreatorSet {
    #[verifier::type_invariant]
    closed spec fn wf(&self) -> bool {
        forall|i: int, j: int|
            0 <= i < self.roles@.len() && 0 <= j < self.roles@.len() && i != j ==> self.roles@[i].0@
                != self.roles@[j].0@
    }

    /// The main roles: those that make a creator a main creator of an
    /// episode.
    pub fn main_roles() -> (v: Vec<&'static str>)
        ensures
            v@.map_values(|s: &str| s@) == seq!["by"@, "bild"@, "text"@, "orig"@, "ink"@],
    {
        let v = vec!["by", "bild", "text", "orig", "ink"];
        assert(v@.map_values(|s: &str| s@) == seq!["by"@, "bild"@, "text"@, "orig"@, "ink"@]);
        v
    }

    /// Group (role, creator) pairs by role.
    pub fn from_data(data: Vec<(String, Creator)>) -> (s: CreatorSet)
        ensures
            s@.dom() == roles_of(data@),
            forall|r: Seq<char>| #[trigger] s@.contains_key(r) ==> s@[r] == with_role(data@, r),
    {
        let ghost input = data@;
        let mut roles: Vec<(String, Vec<Creator>)> = Vec::new();
        for x in it: data
            invariant
                it.seq() == input,
                forall|i: int, j: int|
                    0 <= i < roles@.len() && 0 <= j < roles@.len() && i != j ==> roles@[i].0@
                        != roles@[j].0@,
                forall|i: int|
                    0 <= i < roles@.len() ==> role_seen(input, it.index() as int, (#[trigger] roles@[i]).0@),
                forall|k: int|
                    0 <= k < it.index() ==> has_entry(roles@, (#[trigger] input[k]).0@),
                forall|i: int|
                    0 <= i < roles@.len() ==> (#[trigger] roles@[i]).1@ == with_role(
                        input.take(it.index() as int),
                        roles@[i].0@,
                    ),
        {
            let ghost k = it.index();
            let ghost before = roles@;
            let (role, creator) = x;
            assert(input.take(k + 1).drop_last() == input.take(k));
            assert(input.take(k + 1).last() == input[k]);
            let mut pos: usize = 0;
            while pos < roles.len() && !str_eq(roles[pos].0.as_str(), role.as_str())
                invariant
                    pos <= roles@.len(),
                    forall|j: int| 0 <= j < pos ==> roles@[j].0@ != role@,
                decreases roles@.len() - pos,
            {
                pos += 1;
            }
            if pos < roles.len() {
                let mut entry = roles.remove(pos);
                entry.1.push(creator);
                roles.insert(pos, entry);
                proof {
                    assert forall|i: int| 0 <= i < roles@.len() implies (#[trigger] roles@[i]).1@
                        == with_role(input.take(k + 1), roles@[i].0@) by {
                        if i != pos {
                            assert(roles@[i] == before[i]);
                        }
                    }
                    assert forall|i: int| 0 <= i < roles@.len() implies role_seen(
                        input,
                        k + 1,
                        (#[trigger] roles@[i]).0@,
                    ) by {
                        if i != pos {
                            assert(roles@[i] == before[i]);
                            assert(role_seen(input, k as int, before[i].0@));
                        } else {
                            assert(input[k].0@ == roles@[i].0@);
                        }
                    }
                    assert forall|kk: int| 0 <= kk < k + 1 implies has_entry(
                        roles@,
                        (#[trigger] input[kk]).0@,
                    ) by {
                        if kk < k {
                            assert(has_entry(before, input[kk].0@));
                            let i = choose|i: int| 0 <= i < before.len() && before[i].0@ == input[kk].0@;
                            assert(roles@[i].0@ == before[i].0@);
                        } else {
                            assert(roles@[pos as int].0@ == input[kk].0@);
                        }
                    }
                }
            } else {
                let mut cs: Vec<Creator> = Vec::new();
                cs.push(creator);
                roles.push((role, cs));
                proof {
                    assert forall|j: int| 0 <= j < k implies input.take(k)[j].0@ != input[k].0@ by {
                        assert(input.take(k)[j] == input[j]);
                        assert(has_entry(before, input[j].0@));
                    }
                    lemma_with_role_absent(input.take(k), input[k].0@);
                    assert forall|i: int| 0 <= i < roles@.len() implies (#[trigger] roles@[i]).1@
                        == with_role(input.take(k + 1), roles@[i].0@) by {
                        if i < before.len() {
                            assert(roles@[i] == before[i]);
                        }
                    }
                    assert forall|i: int| 0 <= i < roles@.len() implies role_seen(
                        input,
                        k + 1,
                        (#[trigger] roles@[i]).0@,
                    ) by {
                        if i < before.len() {
                            assert(roles@[i] == before[i]);
                            assert(role_seen(input, k as int, before[i].0@));
                        } else {
                            assert(input[k].0@ == roles@[i].0@);
                        }
                    }
                    assert forall|kk: int| 0 <= kk < k + 1 implies has_entry(
                        roles@,
                        (#[trigger] input[kk]).0@,
                    ) by {
                        if kk < k {
                            assert(has_entry(before, input[kk].0@));
                            let i = choose|i: int| 0 <= i < before.len() && before[i].0@ == input[kk].0@;
                            assert(roles@[i] == before[i]);
                        } else {
                            assert(roles@[before.len() as int].0@ == input[kk].0@);
                        }
                    }
                }
            }
        }
        assert(input.take(input.len() as int) == input);
        let s = CreatorSet { roles };
        proof {
            assert forall|r: Seq<char>| s@.dom().contains(r) <==> roles_of(input).contains(r) by {
                if s@.dom().contains(r) {
                    let i = choose|i: int| 0 <= i < s.roles@.len() && s.roles@[i].0@ == r;
                    assert(role_seen(input, input.len() as int, s.roles@[i].0@));
                }
                if roles_of(input).contains(r) {
                    let k = choose|k: int| 0 <= k < input.len() && input[k].0@ == r;
                    assert(has_entry(s.roles@, input[k].0@));
                }
            }
            assert(s@.dom() =~= roles_of(input));
            assert forall|r: Seq<char>| #[trigger] s@.contains_key(r) implies s@[r] == with_role(
                input,
                r,
            ) by {
                let i = choose|i: int| 0 <= i < s.roles@.len() && s.roles@[i].0@ == r;
                assert(s.roles@[i].1@ == with_role(input, s.roles@[i].0@));
            }
        }
        s
    }
}

/// Some pair among the first `k` of `input` has the role `r`.
pub open spec fn role_seen(input: Seq<(String, Creator)>, k: int, r: Seq<char>) -> bool {
    exists|j: int| 0 <= j < k && input[j].0@ == r
}

/// Some entry of `roles` is for the role `r`.
pub open spec fn has_entry(roles: Seq<(String, Vec<Creator>)>, r: Seq<char>) -> bool {
    exists|i: int| 0 <= i < roles.len() && roles[i].0@ == r
}

/// A role that no pair has gives no creators.
proof fn lemma_with_role_absent(data: Seq<(String, Creator)>, role: Seq<char>)
    requires
        forall|i: int| 0 <= i < data.len() ==> data[i].0@ != role,
    ensures
        with_role(data, role) == Seq::<Creator>::empty(),
    decreases data.len(),
{
    if data.len() > 0 {
        lemma_with_role_absent(data.drop_last(), role);
    }
}

/// The paragraph of creators of a single role: its description, the
/// creators and a full stop.
pub open spec fn single_role_html(desc: Seq<char>, cs: Seq<Creator>) -> Seq<char> {
    "<p class='info creators'>"@ + desc + " "@ + creators_list(cs) + ". "@ + "</p>"@
}

proof fn lemma_role_codes()
    ensures
        "by"@.len() == 2 && "by"@[0] == 'b',
        "text"@.len() == 4 && "text"@[0] == 't',
        "bild"@.len() == 4 && "bild"@[0] == 'b',
        "ink"@.len() == 3,
        "color"@.len() == 5 && "color"@[0] == 'c',
        "orig"@.len() == 4 && "orig"@[0] == 'o',
        "redax"@.len() == 5 && "redax"@[0] == 'r',
        "xlat"@.len() == 4 && "xlat"@[0] == 'x',
        "textning"@.len() == 8,
{
    reveal_strlit("by");
    reveal_strlit("text");
    reveal_strlit("bild");
    reveal_strlit("ink");
    reveal_strlit("color");
    reveal_strlit("orig");
    reveal_strlit("redax");
    reveal_strlit("xlat");
    reveal_strlit("textning");
}

proof fn lemma_table_codes_distinct(a: int, b: int)
    requires
        0 <= a < 9,
        0 <= b < 9,
        a != b,
    ensures
        role_table()[a].0 != role_table()[b].0,
{
    lemma_role_codes();
    let t = role_table();
    assert(t[a].0 != t[b].0 || t[a].0.len() != t[b].0.len());
}

proof fn lemma_roles_single(m: Map<Seq<char>, Seq<Creator>>, i: int, k: int)
    requires
        0 <= i < 9,
        0 <= k <= 9,
        m.dom() == set![role_table()[i].0],
    ensures
        roles_html(m, k) == if k > i {
            role_html(m, role_table()[i].0, role_table()[i].1)
        } else {
            Seq::<char>::empty()
        },
    decreases k,
{
    if k > 0 {
        lemma_roles_single(m, i, k - 1);
        if k - 1 != i {
            lemma_table_codes_distinct(k - 1, i);
            assert(!m.dom().contains(role_table()[k - 1].0));
        }
        if k - 1 < i {
            assert(roles_html(m, k) == Seq::<char>::empty() + Seq::<char>::empty());
        }
    }
}

proof fn lemma_single_role(m: Map<Seq<char>, Seq<Creator>>, i: int)
    requires
        0 <= i < 9,
        m.dom() == set![role_table()[i].0],
        m[role_table()[i].0].len() > 0,
    ensures
        creator_set_html(m) == single_role_html(role_table()[i].1, m[role_table()[i].0]),
{
    lemma_roles_single(m, i, 9);
    assert(m.dom().contains(role_table()[i].0));
    assert(m.dom() != Set::<Seq<char>>::empty());
}

/// Each role is shown with its own description: the creators of a set
/// with a single role are introduced by "Av" for `by`, "Text:" for
/// `text`, "Bild:" for `bild`, "Tush:" for `ink`, "Färgläggning:" for
/// `color`, "Efter en originalberättelse av:" for `orig`, "Redaktion:" for
/// `redax`, "Översättning:" for `xlat` and "Textsättning:" for `textning`.
pub proof fn lemma_role_descriptions(m: Map<Seq<char>, Seq<Creator>>, code: Seq<char>)
    requires
        m.dom() == set![code],
        m[code].len() > 0,
    ensures
        code == "by"@ ==> creator_set_html(m) == single_role_html("Av"@, m[code]),
        code == "text"@ ==> creator_set_html(m) == single_role_html("Text:"@, m[code]),
        code == "bild"@ ==> creator_set_html(m) == single_role_html("Bild:"@, m[code]),
        code == "ink"@ ==> creator_set_html(m) == single_role_html("Tush:"@, m[code]),
        code == "color"@ ==> creator_set_html(m) == single_role_html("Färgläggning:"@, m[code]),
        code == "orig"@ ==> creator_set_html(m) == single_role_html(
            "Efter en originalberättelse av:"@,
            m[code],
        ),
        code == "redax"@ ==> creator_set_html(m) == single_role_html("Redaktion:"@, m[code]),
        code == "xlat"@ ==> creator_set_html(m) == single_role_html("Översättning:"@, m[code]),
        code == "textning"@ ==> creator_set_html(m) == single_role_html("Textsättning:"@, m[code]),
{
    lemma_role_codes();
    let t = role_table();
    assert(t[0] == ("by"@, "Av"@) && t[1] == ("text"@, "Text:"@) && t[2] == ("bild"@, "Bild:"@));
    assert(t[3] == ("ink"@, "Tush:"@) && t[4] == ("color"@, "Färgläggning:"@));
    assert(t[5] == ("orig"@, "Efter en originalberättelse av:"@) && t[6] == ("redax"@, "Redaktion:"@));
    assert(t[7] == ("xlat"@, "Översättning:"@) && t[8] == ("textning"@, "Textsättning:"@));
    if code == "by"@ {
        lemma_single_role(m, 0);
    } else if code == "text"@ {
        lemma_single_role(m, 1);
    } else if code == "bild"@ {
        lemma_single_role(m, 2);
    } else if code == "ink"@ {
        lemma_single_role(m, 3);
    } else if code == "color"@ {
        lemma_single_role(m, 4);
    } else if code == "orig"@ {
        lemma_single_role(m, 5);
    } else if code == "redax"@ {
        lemma_single_role(m, 6);
    } else if code == "xlat"@ {
        lemma_single_role(m, 7);
    } else if code == "textning"@ {
        lemma_single_role(m, 8);
    }
}

/// Writers come before artists: with creators for `text` and for `bild`
/// (and no other role), the paragraph names the `text` creators first,
/// after "Text:", then the `bild` creators after "Bild:".
pub proof fn lemma_text_before_bild(m: Map<Seq<char>, Seq<Creator>>)
    requires
        m.dom() == set!["text"@, "bild"@],
        m["text"@].len() > 0,
        m["bild"@].len() > 0,
    ensures
        creator_set_html(m) == "<p class='info creators'>"@ + ("Text:"@ + " "@ + creators_list(
            m["text"@],
        ) + ". "@) + ("Bild:"@ + " "@ + creators_list(m["bild"@]) + ". "@) + "</p>"@,
{
    lemma_role_codes();
    assert(m.dom().contains("text"@));
    assert(m.dom() != Set::<Seq<char>>::empty());
    reveal_with_fuel(roles_html, 10);
    let t = role_table();
    assert forall|i: int| 0 <= i < 9 && t[i].0 != "text"@ && t[i].0 != "bild"@ implies role_html(
        m,
        t[i].0,
        t[i].1,
    ) == Seq::<char>::empty() by {
        assert(!m.dom().contains(t[i].0));
    }
}

/// Append `creators_list(cs@)` to `out`.
fn push_creators(out: &mut String, cs: &Vec<Creator>)
    requires
        cs@.len() > 0,
    ensures
        final(out)@ == old(out)@ + creators_list(cs@),
{
    let n = cs.len();
    cs[0].to_html(out);
    if n == 1 {
        return;
    }
    let ghost mid_start = out@;
    let mut i: usize = 1;
    assert(cs@.subrange(1, 1) == Seq::<Creator>::empty());
    while i + 1 < n
        invariant
            n == cs@.len(),
            1 <= i < n,
            out@ == mid_start + comma_list(cs@.subrange(1, i as int)),
        decreases n - i,
    {
        out.append(", ");
        cs[i].to_html(out);
        assert(cs@.subrange(1, i + 1).drop_last() == cs@.subrange(1, i as int));
        i += 1;
    }
    out.append(" och ");
    cs[n - 1].to_html(out);
}

/// The roles and their descriptions, in the order they are shown.
fn roles_in_order() -> (v: Vec<(&'static str, &'static str)>)
    ensures
        v@.len() == 9,
        forall|i: int| 0 <= i < 9 ==> (#[trigger] v@[i]).0@ == role_table()[i].0 && v@[i].1@ == role_table()[i].1,
{
    let v = vec![
        ("by", "Av"),
        ("text", "Text:"),
        ("bild", "Bild:"),
        ("ink", "Tush:"),
        ("color", "Färgläggning:"),
        ("orig", "Efter en originalberättelse av:"),
        ("redax", "Redaktion:"),
        ("xlat", "Översättning:"),
        ("textning", "Textsättning:"),
    ];
    v
}

impl CreatorSet {
    /// The index of the entry for `role`, if any.
    fn find_role(&self, role: &str) -> (r: Option<usize>)
        ensures
            r matches Some(i) ==> i < self.roles@.len() && self.roles@[i as int].0@ == role@
                && self@.contains_key(role@) && self@[role@] == self.roles@[i as int].1@,
            r is None ==> !self@.contains_key(role@),
    {
        proof {
            use_type_invariant(self);
        }
        let mut i: usize = 0;
        while i < self.roles.len()
            invariant
                i <= self.roles@.len(),
                forall|j: int| 0 <= j < i ==> self.roles@[j].0@ != role@,
                forall|a: int, b: int|
                    0 <= a < self.roles@.len() && 0 <= b < self.roles@.len() && a != b
                        ==> self.roles@[a].0@ != self.roles@[b].0@,
            decreases self.roles@.len() - i,
        {
            if str_eq(self.roles[i].0.as_str(), role) {
                proof {
                    let c = choose|j: int| 0 <= j < self.roles@.len() && self.roles@[j].0@ == role@;
                    assert(c == i);
                }
                return Some(i);
            }
            i += 1;
        }
        None
    }

    /// Append the paragraph of creators, role by role in the order of
    /// `role_table`, to `out` (nothing at all when there are no creators).
    pub fn to_html(&self, out: &mut String)
        ensures
            final(out)@ == old(out)@ + creator_set_html(self@),
    {
        if self.roles.len() == 0 {
            assert(self@.dom() =~= Set::<Seq<char>>::empty());
            return;
        }
        assert(self@.dom().contains(self.roles@[0].0@));
        let table = roles_in_order();
        out.append("<p class='info creators'>");
        let ghost start = out@;
        let mut k: usize = 0;
        while k < 9
            invariant
                k <= 9,
                table@.len() == 9,
                forall|i: int| 0 <= i < 9 ==> (#[trigger] table@[i]).0@ == role_table()[i].0 && table@[i].1@ == role_table()[i].1,
                out@ == start + roles_html(self@, k as int),
            decreases 9 - k,
        {
            let (code, desc) = table[k];
            assert(code@ == role_table()[k as int].0 && desc@ == role_table()[k as int].1);
            match self.find_role(code) {
                Some(i) => {
                    if self.roles[i].1.len() > 0 {
                        out.append(desc);
                        out.append(" ");
                        push_creators(out, &self.roles[i].1);
                        out.append(". ");
                    }
                },
                None => {},
            }
            k += 1;
        }
        out.append("</p>");
    }
}

/// A cover by a creator: the issue, and its placing in the reader's vote.
pub type Cover = (IssueRef, Option<i16>);

/// A cover with its issue as year and issue number.
pub open spec fn cover_view(c: Cover) -> ((int, (int, Seq<char>)), Option<i16>) {
    ((c.0.year as int, c.0.number@), c.1)
}

pub open spec fn covers_view(v: Seq<Cover>) -> Seq<((int, (int, Seq<char>)), Option<i16>)> {
    v.map_values(|c: Cover| cover_view(c))
}

/// Covers in the order of their issues: by year, then by number.
pub open spec fn cover_le(a: Cover, b: Cover) -> bool {
    ref_le((a.0.year as int, a.0.number@.0), (b.0.year as int, b.0.number@.0))
}

/// The number that orders issues by year and then by number.
pub open spec fn ref_key(year: int, number: int) -> int {
    (year + 32768) * 65536 + (number + 32768)
}

/// The covers of a creator: where there are many, the best few (by the
/// reader's vote) and all of them (in the order of the issues), else all
/// of them (in the order of the issues) as the best.
#[derive(Debug)]
pub struct CoverSet {
    pub best: Vec<Cover>,
    pub all: Vec<Cover>,
}

/// More covers than this makes many.
pub const MANY_COVERS: usize = 20;

/// How many of many covers are shown as the best.
pub const BEST_COVERS: usize = 15;

fn cover_key(c: &Cover) -> (k: i64)
    ensures
        k == ref_key(c.0.year as int, c.0.number@.0),
{
    proof {
        c.0.number.lemma_in_range();
    }
    (c.0.year as i64 + 32768) * 65536 + (c.0.number.first() as i64 + 32768)
}

proof fn lemma_ref_key_order(a: (int, int), b: (int, int))
    requires
        -32768 <= a.1 < 32768,
        -32768 <= b.1 < 32768,
    ensures
        ref_le(a, b) <==> ref_key(a.0, a.1) <= ref_key(b.0, b.1),
{
    if a.0 < b.0 {
        assert((a.0 + 32768) * 65536 + 65536 <= (b.0 + 32768) * 65536) by (nonlinear_arith)
            requires
                a.0 < b.0,
        ;
    } else if a.0 > b.0 {
        assert((b.0 + 32768) * 65536 + 65536 <= (a.0 + 32768) * 65536) by (nonlinear_arith)
            requires
                b.0 < a.0,
        ;
    }
}

/// Sort covers in the order of their issues, keeping the order of covers
/// of the same issue.
fn sort_covers(covers: Vec<Cover>) -> (r: Vec<Cover>)
    ensures
        is_stable_sort_by(covers@, r@, |a: Cover, b: Cover| cover_le(a, b)),
{
    let ghost input = covers@;
    let mut keyed: Vec<(i64, Cover)> = Vec::new();
    for c in it: covers
        invariant
            it.seq() == input,
            keyed@.len() == it.index(),
            forall|i: int|
                0 <= i < keyed@.len() ==> (#[trigger] keyed@[i]).1 == input[i] && keyed@[i].0
                    == ref_key(input[i].0.year as int, input[i].0.number@.0),
    {
        let k = cover_key(&c);
        keyed.push((k, c));
    }
    let ghost keyed_s = keyed@;
    proof {
        assert forall|i: int, j: int|
            0 <= i < keyed_s.len() && 0 <= j < keyed_s.len() implies (#[trigger] keyed_s[i]).0.key_le(
            (#[trigger] keyed_s[j]).0,
        ) == cover_le(input[i], input[j]) by {
            input[i].0.number.lemma_in_range();
            input[j].0.number.lemma_in_range();
            lemma_ref_key_order(
                (input[i].0.year as int, input[i].0.number@.0),
                (input[j].0.year as int, input[j].0.number@.0),
            );
        }
    }
    let sorted = stable_sort(keyed);
    let ghost sorted_s = sorted@;
    proof {
        lemma_strip_keys(input, keyed_s, sorted_s, |a: Cover, b: Cover| cover_le(a, b));
    }
    let mut out: Vec<Cover> = Vec::new();
    for e in it: sorted
        invariant
            it.seq() == sorted_s,
            out@ == sorted_s.map_values(|e: (i64, Cover)| e.1).take(it.index() as int),
    {
        let ghost k = it.index();
        out.push(e.1);
        assert(sorted_s.map_values(|e: (i64, Cover)| e.1).take(k + 1) == sorted_s.map_values(
            |e: (i64, Cover)| e.1,
        ).take(k).push(e.1));
    }
    let ghost all = sorted_s.map_values(|e: (i64, Cover)| e.1);
    assert(out@ == all.take(all.len() as int));
    assert(all.take(all.len() as int) == all);
    out
}

impl CoverSet {
    /// The covers of a creator, given in the order of their placing in
    /// the reader's vote (and then of their issues).
    pub fn from_covers(covers: Vec<Cover>) -> (r: CoverSet)
        ensures
            covers@.len() > MANY_COVERS ==> covers_view(r.best@) == covers_view(covers@).take(
                BEST_COVERS as int,
            ) && is_stable_sort_by(covers@, r.all@, |a: Cover, b: Cover| cover_le(a, b)),
            covers@.len() <= MANY_COVERS ==> is_stable_sort_by(
                covers@,
                r.best@,
                |a: Cover, b: Cover| cover_le(a, b),
            ) && r.all@.len() == 0,
    {
        if covers.len() > MANY_COVERS {
            let mut best: Vec<Cover> = Vec::new();
            let mut i: usize = 0;
            while i < BEST_COVERS
                invariant
                    i <= BEST_COVERS,
                    covers@.len() > MANY_COVERS,
                    covers_view(best@) == covers_view(covers@).take(i as int),
                decreases BEST_COVERS - i,
            {
                let c = &covers[i];
                let copy = (IssueRef { year: c.0.year, number: c.0.number.clone() }, c.1);
                assert(cover_view(copy) == cover_view(covers@[i as int]));
                assert(covers_view(best@.push(copy)) =~= covers_view(best@).push(cover_view(copy)));
                assert(covers_view(best@.push(copy)) =~= covers_view(covers@).take(i + 1));
                best.push(copy);
                i += 1;
            }
            CoverSet { best, all: sort_covers(covers) }
        } else {
            CoverSet { best: sort_covers(covers), all: Vec::new() }
        }
    }

    /// Whether there are no covers.
    pub fn is_empty(&self) -> (r: bool)
        ensures
            r == (self.best@.len() == 0),
    {
        self.best.len() == 0
    }

    /// Whether there are many covers (shown as the best and all).
    pub fn is_many(&self) -> (r: bool)
        ensures
            r == (self.all@.len() > 0),
    {
        self.all.len() > 0
    }

    /// The number of covers.
    pub fn len(&self) -> (r: usize)
        ensures
            r == if self.all@.len() == 0 {
                self.best@.len()
            } else {
                self.all@.len()
            },
    {
        if self.all.len() == 0 {
            self.best.len()
        } else {
            self.all.len()
        }
    }
}

} // verus!
