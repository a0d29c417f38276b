//! Reading the data files: whitespace in texts, the references and the
//! creators of an episode or article, and the extra data of creators.
use crate::element::{
    DataError, Elem, ElemV, Outcome, attr, attr_of, attr_v, child, child_of, child_text_of,
    child_text_v, elems_view, fold_steps, lemma_children_view, lemma_fold_all, lemma_fold_next,
    lemma_fold_stops, lemma_read_view, opt_view, req_text,
};
use crate::xml::{parse_xml, xml_root_of};
use crate::refkey::{RefKey, RefKeyView, key_ref, slugify, slugify_result};
use crate::text::{copy_str, is_ascii_ws, str_eq, string_of};
use vstd::prelude::*;

verus! {

/// The state of normalizing whitespace after some characters: the
/// characters kept so far, and whether the last one kept was a space (or
/// nothing is kept yet).
pub open spec fn space_fold(s: Seq<char>) -> (Seq<char>, bool)
    decreases s.len(),
{
    if s.len() == 0 {
        (Seq::empty(), true)
    } else {
        let (kept, space) = space_fold(s.drop_last());
        let c = s.last();
        if is_ascii_ws(c) {
            if space {
                (kept, true)
            } else {
                (kept.push(' '), true)
            }
        } else {
            (kept.push(c), false)
        }
    }
}

/// `s` with leading and trailing whitespace removed and each run of
/// whitespace inside it replaced by a single space.
pub open spec fn normalized(s: Seq<char>) -> Seq<char> {
    let (kept, space) = space_fold(s);
    if space && kept.len() > 0 {
        kept.drop_last()
    } else {
        kept
    }
}

/// Text with single spaces between words: no whitespace but spaces, and
/// each space has a character before it and after it, neither a space.
pub open spec fn is_normal(t: Seq<char>) -> bool {
    forall|i: int|
        #![trigger t[i]]
        0 <= i < t.len() && is_ascii_ws(t[i]) ==> t[i] == ' ' && 0 < i < t.len() - 1 && t[i - 1]
            != ' '
}

/// What normalizing keeps of a prefix: whitespace only as single spaces
/// after other characters, and the state says whether it ends in one (or
/// is empty).
proof fn lemma_fold_shape(s: Seq<char>)
    ensures
        forall|i: int|
            #![trigger space_fold(s).0[i]]
            0 <= i < space_fold(s).0.len() && is_ascii_ws(space_fold(s).0[i]) ==> space_fold(s).0[i]
                == ' ' && i > 0 && space_fold(s).0[i - 1] != ' ',
        space_fold(s).1 <==> (space_fold(s).0.len() == 0 || space_fold(s).0.last() == ' '),
        space_fold(s).0.len() > 0 && !space_fold(s).1 ==> !is_ascii_ws(space_fold(s).0.last()),
    decreases s.len(),
{
    if s.len() > 0 {
        lemma_fold_shape(s.drop_last());
        let (kept, space) = space_fold(s.drop_last());
        let c = s.last();
        let k2 = space_fold(s).0;
        if is_ascii_ws(c) {
            if !space {
                assert forall|i: int|
                    #![trigger k2[i]]
                    0 <= i < k2.len() && is_ascii_ws(k2[i]) implies k2[i] == ' ' && i > 0 && k2[i - 1]
                        != ' ' by {
                    if i < kept.len() {
                        assert(k2[i] == kept[i]);
                        if i > 0 {
                            assert(k2[i - 1] == kept[i - 1]);
                        }
                    } else {
                        assert(kept[kept.len() - 1] == kept.last());
                    }
                }
            }
        } else {
            assert forall|i: int|
                #![trigger k2[i]]
                0 <= i < k2.len() && is_ascii_ws(k2[i]) implies k2[i] == ' ' && i > 0 && k2[i - 1]
                    != ' ' by {
                if i < kept.len() {
                    assert(k2[i] == kept[i]);
                    if i > 0 {
                        assert(k2[i - 1] == kept[i - 1]);
                    }
                }
            }
        }
    }
}

/// Text that is normal is kept as it is, up to each position.
proof fn lemma_fold_normal(t: Seq<char>, n: int)
    requires
        is_normal(t),
        0 <= n <= t.len(),
    ensures
        space_fold(t.take(n)) == (t.take(n), n == 0 || t[n - 1] == ' '),
    decreases n,
{
    if n > 0 {
        lemma_fold_normal(t, n - 1);
        assert(t.take(n).drop_last() =~= t.take(n - 1));
        assert(t.take(n).last() == t[n - 1]);
        assert(t.take(n - 1).push(t[n - 1]) =~= t.take(n));
        if is_ascii_ws(t[n - 1]) {
            assert(t[n - 1] == ' ');
        }
    } else {
        assert(t.take(0) =~= Seq::<char>::empty());
    }
}

/// Normalizing whitespace gives normal text, and normalizing it again
/// changes nothing.
pub proof fn lemma_normalize_idempotent(s: Seq<char>)
    ensures
        is_normal(normalized(s)),
        normalized(normalized(s)) == normalized(s),
{
    lemma_fold_shape(s);
    let (kept, space) = space_fold(s);
    let t = normalized(s);
    if space && kept.len() > 0 {
        let l = kept.len() - 1;
        assert(is_ascii_ws(kept[l]));
        assert(kept[l] == kept.last());
        assert(l > 0 && kept[l - 1] != ' ');
        assert(!is_ascii_ws(kept[l - 1]));
        assert forall|i: int|
            #![trigger t[i]]
            0 <= i < t.len() && is_ascii_ws(t[i]) implies t[i] == ' ' && 0 < i < t.len() - 1 && t[i
                - 1] != ' ' by {
            assert(t[i] == kept[i]);
            assert(kept[i] == ' ' && i > 0 && kept[i - 1] != ' ');
            assert(t[i - 1] == kept[i - 1]);
            if i == t.len() - 1 {
                assert(i == l - 1);
            }
        }
    } else {
        assert forall|i: int|
            #![trigger t[i]]
            0 <= i < t.len() && is_ascii_ws(t[i]) implies t[i] == ' ' && 0 < i < t.len() - 1 && t[i
                - 1] != ' ' by {
            assert(kept[i] == ' ' && i > 0 && kept[i - 1] != ' ');
            if i == t.len() - 1 {
                assert(kept.last() == kept[i]);
            }
        }
    }
    lemma_fold_normal(t, t.len() as int);
    assert(t.take(t.len() as int) =~= t);
    if t.len() > 0 {
        let j = t.len() - 1;
        if t[j] == ' ' {
            assert(is_ascii_ws(t[j]));
        }
    }
}

/// `s` with leading and trailing whitespace removed and each run of
/// whitespace inside it replaced by a single space.
pub fn normalize_space(s: &str) -> (r: String)
    ensures
        r@ == normalized(s@),
{
    let mut buf: Vec<char> = Vec::new();
    let mut space = true;
    for ch in it: s.chars()
        invariant
            it.seq() == s@,
            (buf@, space) == space_fold(it.seq().take(it.index() as int)),
    {
        let ghost i = it.index();
        assert(s@.take(i + 1).drop_last() == s@.take(i));
        if ch == ' ' || ch == '\t' || ch == '\n' || ch == '\x0C' || ch == '\r' {
            if !space {
                buf.push(' ');
                space = true;
            }
        } else {
            space = false;
            buf.push(ch);
        }
    }
    assert(s@.take(s@.len() as int) == s@);
    if space {
        buf.pop();
    }
    string_of(&buf)
}

/// What a reference element denotes, or why it is no reference.
pub open spec fn ref_of(tag: Seq<char>, no: Option<Seq<char>>, text: Option<Seq<char>>) -> Result<
    RefKeyView,
    &'static str,
> {
    if tag == "fa"@ {
        match no {
            Some(n) => Ok(RefKeyView::Fa(n)),
            None => Err("Fa without no"),
        }
    } else if tag == "key"@ {
        match text {
            Some(t) => Ok(key_ref(t)),
            None => Err("Key without text"),
        }
    } else if tag == "who"@ {
        match text {
            Some(t) => Ok(RefKeyView::Who(t, slugify_result(t))),
            None => Err("Who without name"),
        }
    } else if tag == "serie"@ {
        match text {
            Some(t) => Ok(RefKeyView::Title(t, slugify_result(t))),
            None => Err("Serie without title"),
        }
    } else {
        Err("Unknown reference")
    }
}

/// The reference that the element `e` denotes.
pub open spec fn elem_ref(e: Elem) -> Result<RefKeyView, &'static str> {
    ref_of(e.name@, attr_of(e, "no"@), opt_view(e.text))
}

/// Reading the reference element `e` at position `i` of a `ref` element.
pub open spec fn ref_step(e: Elem, i: int) -> Outcome<RefKeyView> {
    match elem_ref(e) {
        Ok(k) => Outcome::Read(k),
        Err(message) => Outcome::Fail(DataError::BadRef { index: i as usize, message }),
    }
}

pub open spec fn ref_step_fn() -> spec_fn(Elem, int) -> Outcome<RefKeyView> {
    |e: Elem, i: int| ref_step(e, i)
}

/// The references of a `ref` element: its child elements, read in order.
pub open spec fn refs_of(parent: Elem) -> Outcome<Seq<RefKeyView>> {
    fold_steps(parent.children@, ref_step_fn())
}

pub open spec fn refs_view(v: Seq<RefKey>) -> Seq<RefKeyView> {
    v.map_values(|k: RefKey| k@)
}

pub open spec fn strings_view(v: Seq<String>) -> Seq<Seq<char>> {
    v.map_values(|s: String| s@)
}

/// Read one reference element.
pub fn parse_ref(e: &Elem) -> (r: Result<RefKey, &'static str>)
    ensures
        r matches Ok(k) ==> elem_ref(*e) == Ok::<RefKeyView, &'static str>(k@),
        r matches Err(m) ==> elem_ref(*e) == Err::<RefKeyView, &'static str>(m),
{
    let tag = e.name.as_str();
    if str_eq(tag, "fa") {
        match attr(e, "no") {
            Some(n) => Ok(RefKey::fa(n)),
            None => Err("Fa without no"),
        }
    } else if str_eq(tag, "key") {
        match &e.text {
            Some(t) => Ok(RefKey::key(t.as_str())),
            None => Err("Key without text"),
        }
    } else if str_eq(tag, "who") {
        match &e.text {
            Some(t) => Ok(RefKey::who(t.as_str())),
            None => Err("Who without name"),
        }
    } else if str_eq(tag, "serie") {
        match &e.text {
            Some(t) => Ok(RefKey::title(t.as_str())),
            None => Err("Serie without title"),
        }
    } else {
        Err("Unknown reference")
    }
}

/// Read the references of a `ref` element: all of them, or the error of
/// the first child element that is no reference.
pub fn parse_refs(parent: &Elem) -> (r: Result<Vec<RefKey>, DataError>)
    ensures
        match refs_of(*parent) {
            Outcome::Read(v) => r matches Ok(w) && refs_view(w@) == v,
            Outcome::Fail(x) => r matches Err(y) && y == x,
            Outcome::Halt(_) => false,
        },
{
    let ghost s = parent.children@;
    let mut out: Vec<RefKey> = Vec::new();
    let mut i: usize = 0;
    proof {
        lemma_fold_all(s, ref_step_fn());
        assert(refs_view(out@) =~= Seq::<RefKeyView>::empty());
    }
    while i < parent.children.len()
        invariant
            s == parent.children@,
            i <= s.len(),
            fold_steps(s.take(i as int), ref_step_fn()) == Outcome::Read(refs_view(out@)),
        decreases s.len() - i,
    {
        proof {
            lemma_fold_next(s, ref_step_fn(), i as int);
        }
        match parse_ref(&parent.children[i]) {
            Ok(k) => {
                assert(refs_view(out@.push(k)) =~= refs_view(out@).push(k@));
                out.push(k);
            },
            Err(message) => {
                proof {
                    lemma_fold_stops(s, ref_step_fn(), i + 1);
                }
                return Err(DataError::BadRef { index: i, message });
            },
        }
        i += 1;
    }
    proof {
        lemma_fold_all(s, ref_step_fn());
    }
    Ok(out)
}

/// Reading the name of one creator, from the element `e`.
pub open spec fn name_step(e: Elem, i: int) -> Outcome<Seq<char>> {
    match opt_view(e.text) {
        Some(t) => Outcome::Read(t),
        None => Outcome::Fail(DataError::MissingName),
    }
}

pub open spec fn name_step_fn() -> spec_fn(Elem, int) -> Outcome<Seq<char>> {
    |e: Elem, i: int| name_step(e, i)
}

/// The names of the creators that a `by` element gives: one in each
/// child element, or (where it has none) one in the element itself.
pub open spec fn creator_names_of(by: Elem) -> Outcome<Seq<Seq<char>>> {
    if by.children@.len() == 0 {
        match opt_view(by.text) {
            Some(t) => Outcome::Read(seq![t]),
            None => Outcome::Fail(DataError::MissingName),
        }
    } else {
        fold_steps(by.children@, name_step_fn())
    }
}

/// Read the names of the creators that a `by` element gives.
pub fn creator_names(by: &Elem) -> (r: Result<Vec<String>, DataError>)
    ensures
        match creator_names_of(*by) {
            Outcome::Read(v) => r matches Ok(w) && strings_view(w@) == v,
            Outcome::Fail(x) => r matches Err(y) && y == x,
            Outcome::Halt(_) => false,
        },
{
    if by.children.len() == 0 {
        return match &by.text {
            Some(t) => {
                let v = vec![copy_str(t.as_str())];
                assert(strings_view(v@) =~= seq![t@]);
                Ok(v)
            },
            None => Err(DataError::MissingName),
        };
    }
    let ghost s = by.children@;
    let mut out: Vec<String> = Vec::new();
    let mut i: usize = 0;
    proof {
        lemma_fold_all(s, name_step_fn());
        assert(strings_view(out@) =~= Seq::<Seq<char>>::empty());
    }
    while i < by.children.len()
        invariant
            s == by.children@,
            i <= s.len(),
            fold_steps(s.take(i as int), name_step_fn()) == Outcome::Read(strings_view(out@)),
        decreases s.len() - i,
    {
        proof {
            lemma_fold_next(s, name_step_fn(), i as int);
        }
        match &by.children[i].text {
            Some(t) => {
                let n = copy_str(t.as_str());
                assert(strings_view(out@.push(n)) =~= strings_view(out@).push(n@));
                out.push(n);
            },
            None => {
                proof {
                    lemma_fold_stops(s, name_step_fn(), i + 1);
                }
                return Err(DataError::MissingName);
            },
        }
        i += 1;
    }
    proof {
        lemma_fold_all(s, name_step_fn());
    }
    Ok(out)
}

/// The name of an episode, from the `episode` child element of `c`: its
/// normalized text, unless the element has a role (an original name).
pub open spec fn episode_name_of(c: Elem) -> Option<Seq<char>> {
    match child_of(c, "episode"@) {
        Some(e) => if attr_of(e, "role"@) is None {
            match opt_view(e.text) {
                Some(t) => Some(normalized(t)),
                None => None,
            }
        } else {
            None
        },
        None => None,
    }
}

/// The name of an episode, from the `episode` child element of `c`.
pub fn episode_name(c: &Elem) -> (r: Option<String>)
    ensures
        opt_view(r) == episode_name_of(*c),
{
    match child(c, "episode") {
        Some(e) => if attr(e, "role").is_none() {
            match &e.text {
                Some(t) => Some(normalize_space(t.as_str())),
                None => None,
            }
        } else {
            None
        },
        None => None,
    }
}

/// A creator as the file of extra person data gives it: a name, a slug
/// and other names that the creator is known by.
#[derive(Debug)]
pub struct Person {
    pub name: String,
    pub slug: String,
    pub aliases: Vec<String>,
}

/// The texts of the `alias` elements among `s`, in order (those without
/// text are passed over).
pub open spec fn aliases_in(s: Seq<Elem>) -> Seq<Seq<char>>
    decreases s.len(),
{
    if s.len() == 0 {
        Seq::empty()
    } else {
        let a = aliases_in(s.drop_last());
        let c = s.last();
        if c.name@ == "alias"@ && c.text is Some {
            a.push(c.text->0@)
        } else {
            a
        }
    }
}

/// What the element `e`, at position `i` of the person data file, says
/// of a creator: its name, its slug and its other names.
pub open spec fn person_of(e: Elem, i: int) -> Result<(Seq<char>, Seq<char>, Seq<Seq<char>>), DataError> {
    if e.name@ != "person"@ {
        Err(DataError::Unexpected(i as usize))
    } else {
        match child_text_of(e, "name"@) {
            None => Err(DataError::MissingText("name")),
            Some(name) => Ok(
                (
                    name,
                    match attr_of(e, "slug"@) {
                        Some(s) => s,
                        None => slugify_result(name),
                    },
                    aliases_in(e.children@),
                ),
            ),
        }
    }
}

/// Read the element `e`, at position `index` of the person data file.
pub fn read_person(e: &Elem, index: usize) -> (r: Result<Person, DataError>)
    ensures
        match person_of(*e, index as int) {
            Ok((name, slug, aliases)) => r matches Ok(p) && p.name@ == name && p.slug@ == slug
                && strings_view(p.aliases@) == aliases,
            Err(x) => r matches Err(y) && y == x,
        },
{
    if !str_eq(e.name.as_str(), "person") {
        return Err(DataError::Unexpected(index));
    }
    let name = req_text(e, "name")?;
    let slug = match attr(e, "slug") {
        Some(s) => copy_str(s),
        None => slugify(name),
    };
    let ghost s = e.children@;
    let mut aliases: Vec<String> = Vec::new();
    let mut i: usize = 0;
    assert(s.take(0) =~= Seq::<Elem>::empty());
    while i < e.children.len()
        invariant
            s == e.children@,
            i <= s.len(),
            strings_view(aliases@) == aliases_in(s.take(i as int)),
        decreases s.len() - i,
    {
        assert(s.take(i + 1).drop_last() =~= s.take(i as int));
        let c = &e.children[i];
        if str_eq(c.name.as_str(), "alias") {
            if let Some(t) = &c.text {
                let a = copy_str(t.as_str());
                assert(strings_view(aliases@.push(a)) =~= strings_view(aliases@).push(a@));
                aliases.push(a);
            }
        }
        i += 1;
    }
    assert(s.take(s.len() as int) =~= s);
    Ok(Person { name: copy_str(name), slug, aliases })
}

/// The texts of the `alias` elements among `s` (given as plain values),
/// in order; those without text are passed over.
pub open spec fn aliases_in_v(s: Seq<ElemV>) -> Seq<Seq<char>>
    decreases s.len(),
{
    if s.len() == 0 {
        Seq::empty()
    } else {
        let a = aliases_in_v(s.drop_last());
        let c = s.last();
        if c.name == "alias"@ && c.text is Some {
            a.push(c.text->0)
        } else {
            a
        }
    }
}

/// What the element `v` (as plain values), at position `i` of the person
/// data file, says of a creator: its name, its slug and its other names.
pub open spec fn person_v(v: ElemV, i: int) -> Result<(Seq<char>, Seq<char>, Seq<Seq<char>>), DataError> {
    if v.name != "person"@ {
        Err(DataError::Unexpected(i as usize))
    } else {
        match child_text_v(v, "name"@) {
            None => Err(DataError::MissingText("name")),
            Some(name) => Ok(
                (
                    name,
                    match attr_v(v, "slug"@) {
                        Some(s) => s,
                        None => slugify_result(name),
                    },
                    aliases_in_v(v.children),
                ),
            ),
        }
    }
}

proof fn lemma_aliases_view(s: Seq<Elem>)
    ensures
        aliases_in(s) == aliases_in_v(elems_view(s)),
    decreases s.len(),
{
    if s.len() > 0 {
        assert(elems_view(s).drop_last() =~= elems_view(s.drop_last()));
        lemma_children_view(s.last());
        lemma_aliases_view(s.drop_last());
    }
}

/// What an element says of a creator depends only on its plain value.
pub proof fn lemma_person_view(e: Elem, i: int)
    ensures
        person_of(e, i) == person_v(e@, i),
{
    lemma_children_view(e);
    lemma_read_view(e, "name"@);
    lemma_read_view(e, "slug"@);
    lemma_aliases_view(e.children@);
}

/// Reading the child elements `s` of the person data file in order, up
/// to the first that is no creator: the creators read, and the error
/// that stopped the reading, if any.
pub open spec fn persons_read(s: Seq<ElemV>) -> (Seq<(Seq<char>, Seq<char>, Seq<Seq<char>>)>, Option<DataError>)
    decreases s.len(),
{
    if s.len() == 0 {
        (Seq::empty(), None)
    } else {
        let (ps, stop) = persons_read(s.drop_last());
        if stop is Some {
            (ps, stop)
        } else {
            match person_v(s.last(), s.len() - 1) {
                Ok(p) => (ps.push(p), None),
                Err(x) => (ps, Some(x)),
            }
        }
    }
}

proof fn lemma_persons_stopped(s: Seq<ElemV>, i: int)
    requires
        0 <= i <= s.len(),
        persons_read(s.take(i)).1 is Some,
    ensures
        persons_read(s) == persons_read(s.take(i)),
    decreases s.len() - i,
{
    if i < s.len() {
        assert(s.take(i + 1).drop_last() =~= s.take(i));
        lemma_persons_stopped(s, i + 1);
    } else {
        assert(s.take(i) =~= s);
    }
}

/// A creator as plain values: name, slug and other names.
pub open spec fn person_view(p: Person) -> (Seq<char>, Seq<char>, Seq<Seq<char>>) {
    (p.name@, p.slug@, strings_view(p.aliases@))
}

/// The creators of the person data file, in order, and the error that
/// stopped the reading of them, if any (the creators before it are read).
pub struct PersonFile {
    pub persons: Vec<Person>,
    pub stop: Option<DataError>,
}

/// Read the text of the person data file: its root element's children
/// are `person` elements.
pub fn read_persons(text: &str) -> (r: Result<PersonFile, roxmltree::Error>)
    ensures
        r is Err <==> xml_root_of(text@) is None,
        r matches Ok(f) ==> xml_root_of(text@) matches Some(v) && (
            f.persons@.map_values(|p: Person| person_view(p)),
            f.stop,
        ) == persons_read(v.children),
{
    let root = match parse_xml(text) {
        Ok(root) => root,
        Err(e) => return Err(e),
    };
    proof {
        lemma_children_view(root);
    }
    let ghost s = root@.children;
    let mut persons: Vec<Person> = Vec::new();
    let mut i: usize = 0;
    assert(s.take(0) =~= Seq::<ElemV>::empty());
    while i < root.children.len()
        invariant
            xml_root_of(text@) == Some(root@),
            s == root@.children,
            s == elems_view(root.children@),
            i <= s.len(),
            s.len() == root.children@.len(),
            persons_read(s.take(i as int)) == (
                persons@.map_values(|p: Person| person_view(p)),
                None::<DataError>,
            ),
        decreases s.len() - i,
    {
        assert(s.take(i + 1).drop_last() =~= s.take(i as int));
        assert(s.take(i + 1).last() == root.children@[i as int]@);
        proof {
            lemma_person_view(root.children@[i as int], i as int);
        }
        match read_person(&root.children[i], i) {
            Ok(p) => {
                let ghost before = persons@;
                persons.push(p);
                assert(persons@.map_values(|p: Person| person_view(p)) =~= before.map_values(
                    |p: Person| person_view(p),
                ).push(person_view(p)));
            },
            Err(x) => {
                proof {
                    lemma_persons_stopped(s, i + 1);
                }
                return Ok(PersonFile { persons, stop: Some(x) });
            },
        }
        i += 1;
    }
    assert(s.take(i as int) =~= s);
    Ok(PersonFile { persons, stop: None })
}

} // verus!
