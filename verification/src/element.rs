//! Elements of the XML data files, as the readers see them: a name,
//! attributes, a leading text and child elements.
use crate::datafile::{normalize_space, normalized};
use crate::episode::{Date, iso_date_value, parse_iso_date, valid_date};
use crate::issue::{Nr, nr_value};
use crate::price::{Price, price_value};
use crate::text::{chars_of, parse_int, parse_int_spec, str_eq};
use vstd::prelude::*;

verus! {

/// An attribute: its namespace (if it has one), its local name and its
/// value.
#[derive(Debug)]
pub struct Attr {
    pub ns: Option<String>,
    pub name: String,
    pub value: String,
}

/// An element of a data file: its local name, its attributes in document
/// order, the text that is its first child (where its first child is
/// text) and its child elements in document order.
#[derive(Debug)]
pub struct Elem {
    pub name: String,
    pub attrs: Vec<Attr>,
    pub text: Option<String>,
    pub children: Vec<Elem>,
}

/// An attribute as plain values: namespace, local name and value.
pub struct AttrV {
    pub ns: Option<Seq<char>>,
    pub name: Seq<char>,
    pub value: Seq<char>,
}

/// An element as plain values: local name, attributes, leading text and
/// child elements.
pub struct ElemV {
    pub name: Seq<char>,
    pub attrs: Seq<AttrV>,
    pub text: Option<Seq<char>>,
    pub children: Seq<ElemV>,
}

impl View for Attr {
    type V = AttrV;

    open spec fn view(&self) -> AttrV {
        AttrV { ns: opt_view(self.ns), name: self.name@, value: self.value@ }
    }
}

/// The plain value of an element and everything in it.
pub open spec fn elem_view(e: Elem) -> ElemV
    decreases e,
{
    ElemV {
        name: e.name@,
        attrs: e.attrs@.map_values(|a: Attr| a@),
        text: opt_view(e.text),
        children: Seq::new(
            e.children@.len(),
            |i: int|
                if 0 <= i < e.children@.len() {
                    elem_view(e.children@[i])
                } else {
                    arbitrary()
                },
        ),
    }
}

impl View for Elem {
    type V = ElemV;

    open spec fn view(&self) -> ElemV {
        elem_view(*self)
    }
}

/// The plain values of a sequence of elements.
pub open spec fn elems_view(s: Seq<Elem>) -> Seq<ElemV> {
    s.map_values(|e: Elem| e@)
}

/// The children of an element, as plain values, are the plain values of
/// its children.
pub proof fn lemma_children_view(e: Elem)
    ensures
        e@.children == elems_view(e.children@),
        e@.name == e.name@,
        e@.text == opt_view(e.text),
{
    assert(e@.children =~= elems_view(e.children@));
}

/// Why an element of a data file could not be read.
#[derive(Debug, Clone, Copy, PartialEq, Eq)]
pub enum DataError {
    /// A required attribute is missing.
    MissingAttribute(&'static str),
    /// An attribute does not hold a value of its kind.
    BadAttribute(&'static str),
    /// A child element with text is required but missing.
    MissingText(&'static str),
    /// The text of a child element does not hold a value of its kind.
    BadText(&'static str),
    /// A creator is given without a name.
    MissingName,
    /// The reference at `index` of a `ref` element is no reference.
    BadRef { index: usize, message: &'static str },
    /// A `prevpub` element of an unknown kind.
    UnknownPrevpub,
    /// A `daystrip` element with neither dates nor strip numbers.
    UnknownDaystrip,
    /// The child element at this position is not expected there.
    Unexpected(usize),
}

pub open spec fn opt_view(o: Option<String>) -> Option<Seq<char>> {
    match o {
        Some(s) => Some(s@),
        None => None,
    }
}

/// The first element of `s` with the local name `name`.
pub open spec fn first_named(s: Seq<Elem>, name: Seq<char>) -> Option<Elem>
    decreases s.len(),
{
    if s.len() == 0 {
        None
    } else if s[0].name@ == name {
        Some(s[0])
    } else {
        first_named(s.skip(1), name)
    }
}

/// The first child element of `e` named `name`.
pub open spec fn child_of(e: Elem, name: Seq<char>) -> Option<Elem> {
    first_named(e.children@, name)
}

/// The leading text of an element, if there is one.
pub open spec fn text_in(e: Option<Elem>) -> Option<Seq<char>> {
    match e {
        Some(c) => opt_view(c.text),
        None => None,
    }
}

/// The leading text of the first child element of `e` named `name`.
pub open spec fn child_text_of(e: Elem, name: Seq<char>) -> Option<Seq<char>> {
    text_in(child_of(e, name))
}

/// The value of the first attribute in `s` with the local name `name`,
/// whatever its namespace.
pub open spec fn attr_named(s: Seq<Attr>, name: Seq<char>) -> Option<Seq<char>>
    decreases s.len(),
{
    if s.len() == 0 {
        None
    } else if s[0].name@ == name {
        Some(s[0].value@)
    } else {
        attr_named(s.skip(1), name)
    }
}

/// The value of the first attribute in `s` in namespace `ns` with the
/// local name `name`.
pub open spec fn attr_named_ns(s: Seq<Attr>, ns: Seq<char>, name: Seq<char>) -> Option<Seq<char>>
    decreases s.len(),
{
    if s.len() == 0 {
        None
    } else if opt_view(s[0].ns) == Some(ns) && s[0].name@ == name {
        Some(s[0].value@)
    } else {
        attr_named_ns(s.skip(1), ns, name)
    }
}

/// The value of the attribute `name` of `e` (in any namespace).
pub open spec fn attr_of(e: Elem, name: Seq<char>) -> Option<Seq<char>> {
    attr_named(e.attrs@, name)
}

/// The first element of `s`, as plain values, with the local name `name`.
pub open spec fn first_named_v(s: Seq<ElemV>, name: Seq<char>) -> Option<ElemV>
    decreases s.len(),
{
    if s.len() == 0 {
        None
    } else if s[0].name == name {
        Some(s[0])
    } else {
        first_named_v(s.skip(1), name)
    }
}

/// The value of the first attribute in `s`, as plain values, with the
/// local name `name`.
pub open spec fn attr_named_v(s: Seq<AttrV>, name: Seq<char>) -> Option<Seq<char>>
    decreases s.len(),
{
    if s.len() == 0 {
        None
    } else if s[0].name == name {
        Some(s[0].value)
    } else {
        attr_named_v(s.skip(1), name)
    }
}

/// The leading text of the first child element named `name` of the
/// element `v`, given as plain values.
pub open spec fn child_text_v(v: ElemV, name: Seq<char>) -> Option<Seq<char>> {
    match first_named_v(v.children, name) {
        Some(c) => c.text,
        None => None,
    }
}

/// The value of the attribute `name` of the element `v`, given as plain
/// values.
pub open spec fn attr_v(v: ElemV, name: Seq<char>) -> Option<Seq<char>> {
    attr_named_v(v.attrs, name)
}

proof fn lemma_first_named_view(s: Seq<Elem>, name: Seq<char>)
    ensures
        first_named(s, name) matches Some(c) ==> first_named_v(elems_view(s), name) == Some(c@),
        first_named(s, name) is None ==> first_named_v(elems_view(s), name) is None,
    decreases s.len(),
{
    if s.len() > 0 {
        assert(elems_view(s).skip(1) =~= elems_view(s.skip(1)));
        lemma_children_view(s[0]);
        lemma_first_named_view(s.skip(1), name);
    }
}

proof fn lemma_attr_named_view(s: Seq<Attr>, name: Seq<char>)
    ensures
        attr_named(s, name) == attr_named_v(s.map_values(|a: Attr| a@), name),
    decreases s.len(),
{
    if s.len() > 0 {
        assert(s.map_values(|a: Attr| a@).skip(1) =~= s.skip(1).map_values(|a: Attr| a@));
        lemma_attr_named_view(s.skip(1), name);
    }
}

/// Child texts and attributes of an element depend only on its plain
/// value.
pub proof fn lemma_read_view(e: Elem, name: Seq<char>)
    ensures
        child_text_of(e, name) == child_text_v(e@, name),
        attr_of(e, name) == attr_v(e@, name),
{
    lemma_children_view(e);
    lemma_first_named_view(e.children@, name);
    lemma_attr_named_view(e.attrs@, name);
    if let Some(c) = first_named(e.children@, name) {
        lemma_children_view(c);
    }
}

/// The first child element of `e` named `name`.
pub fn child<'a>(e: &'a Elem, name: &str) -> (r: Option<&'a Elem>)
    ensures
        r matches Some(c) ==> child_of(*e, name@) == Some(*c),
        r is None ==> child_of(*e, name@) is None,
{
    let mut i: usize = 0;
    assert(e.children@.skip(0) =~= e.children@);
    while i < e.children.len()
        invariant
            i <= e.children@.len(),
            first_named(e.children@, name@) == first_named(e.children@.skip(i as int), name@),
        decreases e.children@.len() - i,
    {
        let ghost rest = e.children@.skip(i as int);
        assert(rest[0] == e.children@[i as int]);
        if str_eq(e.children[i].name.as_str(), name) {
            return Some(&e.children[i]);
        }
        assert(rest.skip(1) =~= e.children@.skip(i + 1));
        i += 1;
    }
    assert(e.children@.skip(i as int) =~= Seq::<Elem>::empty());
    None
}

/// The leading text of the first child element of `e` named `name`.
pub fn child_text<'a>(e: &'a Elem, name: &str) -> (r: Option<&'a str>)
    ensures
        r matches Some(t) ==> child_text_of(*e, name@) == Some(t@),
        r is None ==> child_text_of(*e, name@) is None,
{
    match child(e, name) {
        Some(c) => match &c.text {
            Some(t) => Some(t.as_str()),
            None => None,
        },
        None => None,
    }
}

/// The value of the attribute `name` of `e`, in whatever namespace.
pub fn attr<'a>(e: &'a Elem, name: &str) -> (r: Option<&'a str>)
    ensures
        r matches Some(v) ==> attr_of(*e, name@) == Some(v@),
        r is None ==> attr_of(*e, name@) is None,
{
    let mut i: usize = 0;
    assert(e.attrs@.skip(0) =~= e.attrs@);
    while i < e.attrs.len()
        invariant
            i <= e.attrs@.len(),
            attr_named(e.attrs@, name@) == attr_named(e.attrs@.skip(i as int), name@),
        decreases e.attrs@.len() - i,
    {
        let ghost rest = e.attrs@.skip(i as int);
        assert(rest[0] == e.attrs@[i as int]);
        if str_eq(e.attrs[i].name.as_str(), name) {
            return Some(e.attrs[i].value.as_str());
        }
        assert(rest.skip(1) =~= e.attrs@.skip(i + 1));
        i += 1;
    }
    assert(e.attrs@.skip(i as int) =~= Seq::<Attr>::empty());
    None
}

/// The value of the attribute `name` in namespace `ns` of `e`.
pub fn attr_ns<'a>(e: &'a Elem, ns: &str, name: &str) -> (r: Option<&'a str>)
    ensures
        r matches Some(v) ==> attr_named_ns(e.attrs@, ns@, name@) == Some(v@),
        r is None ==> attr_named_ns(e.attrs@, ns@, name@) is None,
{
    let mut i: usize = 0;
    assert(e.attrs@.skip(0) =~= e.attrs@);
    while i < e.attrs.len()
        invariant
            i <= e.attrs@.len(),
            attr_named_ns(e.attrs@, ns@, name@) == attr_named_ns(
                e.attrs@.skip(i as int),
                ns@,
                name@,
            ),
        decreases e.attrs@.len() - i,
    {
        let ghost rest = e.attrs@.skip(i as int);
        assert(rest[0] == e.attrs@[i as int]);
        let a = &e.attrs[i];
        let in_ns = match &a.ns {
            Some(n) => str_eq(n.as_str(), ns),
            None => false,
        };
        if in_ns && str_eq(a.name.as_str(), name) {
            return Some(a.value.as_str());
        }
        assert(rest.skip(1) =~= e.attrs@.skip(i + 1));
        i += 1;
    }
    assert(e.attrs@.skip(i as int) =~= Seq::<Attr>::empty());
    None
}

/// The leading text of the child element `name` of `e`, which is
/// required.
pub fn req_text<'a>(e: &'a Elem, name: &'static str) -> (r: Result<&'a str, DataError>)
    ensures
        r matches Ok(t) ==> child_text_of(*e, name@) == Some(t@),
        r matches Err(err) ==> child_text_of(*e, name@) is None && err == DataError::MissingText(
            name,
        ),
{
    match child_text(e, name) {
        Some(t) => Ok(t),
        None => Err(DataError::MissingText(name)),
    }
}

/// What reading an element gives: a value, an error, or a halt, where
/// the data file breaks an assumption that the reader makes of it.
pub enum Outcome<T> {
    Read(T),
    Fail(DataError),
    Halt(&'static str),
}

/// Read the elements of `s` in order with `step` (which is given each
/// element and its position), up to the first that is not read.
pub open spec fn fold_steps<T>(s: Seq<Elem>, step: spec_fn(Elem, int) -> Outcome<T>) -> Outcome<
    Seq<T>,
>
    decreases s.len(),
{
    if s.len() == 0 {
        Outcome::Read(Seq::empty())
    } else {
        match fold_steps(s.drop_last(), step) {
            Outcome::Read(v) => match step(s.last(), s.len() - 1) {
                Outcome::Read(x) => Outcome::Read(v.push(x)),
                Outcome::Fail(e) => Outcome::Fail(e),
                Outcome::Halt(m) => Outcome::Halt(m),
            },
            Outcome::Fail(e) => Outcome::Fail(e),
            Outcome::Halt(m) => Outcome::Halt(m),
        }
    }
}

/// Once an element is not read, the elements after it change nothing.
pub proof fn lemma_fold_stops<T>(s: Seq<Elem>, step: spec_fn(Elem, int) -> Outcome<T>, n: int)
    requires
        0 <= n <= s.len(),
        !(fold_steps(s.take(n), step) is Read),
    ensures
        fold_steps(s, step) == fold_steps(s.take(n), step),
    decreases s.len() - n,
{
    if n < s.len() {
        assert(s.take(n + 1).drop_last() =~= s.take(n));
        lemma_fold_stops(s, step, n + 1);
    } else {
        assert(s.take(n) =~= s);
    }
}

/// Reading the first `n + 1` elements is reading the first `n` and then
/// the next.
pub proof fn lemma_fold_next<T>(s: Seq<Elem>, step: spec_fn(Elem, int) -> Outcome<T>, n: int)
    requires
        0 <= n < s.len(),
    ensures
        fold_steps(s.take(n + 1), step) == match fold_steps(s.take(n), step) {
            Outcome::Read(v) => match step(s[n], n) {
                Outcome::Read(x) => Outcome::Read(v.push(x)),
                Outcome::Fail(e) => Outcome::Fail(e),
                Outcome::Halt(m) => Outcome::Halt(m),
            },
            Outcome::Fail(e) => Outcome::Fail(e),
            Outcome::Halt(m) => Outcome::Halt(m),
        },
{
    assert(s.take(n + 1).drop_last() =~= s.take(n));
    assert(s.take(n + 1).last() == s[n]);
}

/// Where no element halts when read, reading them all does not halt.
pub proof fn lemma_fold_reads<T>(s: Seq<Elem>, step: spec_fn(Elem, int) -> Outcome<T>)
    requires
        forall|e: Elem, i: int| !(#[trigger] step(e, i) is Halt),
    ensures
        !(fold_steps(s, step) is Halt),
    decreases s.len(),
{
    if s.len() > 0 {
        lemma_fold_reads(s.drop_last(), step);
        assert(!(step(s.last(), s.len() - 1) is Halt));
    }
}

/// Reading all the elements of `s`.
pub proof fn lemma_fold_all<T>(s: Seq<Elem>, step: spec_fn(Elem, int) -> Outcome<T>)
    ensures
        fold_steps(s.take(s.len() as int), step) == fold_steps(s, step),
        fold_steps(s.take(0), step) == Outcome::<Seq<T>>::Read(Seq::empty()),
{
    assert(s.take(s.len() as int) =~= s);
    assert(s.take(0) =~= Seq::<Elem>::empty());
}

/// A kind of value that the data files write as text.
pub trait FromText: Sized + View {
    /// The value that the text `s` denotes, where it denotes one.
    spec fn text_value(s: Seq<char>) -> Option<Self::V>;

    /// Read a value from its text.
    fn from_text(s: &str) -> (r: Option<Self>)
        ensures
            r matches Some(v) ==> Self::text_value(s@) == Some(v@),
            r is None ==> Self::text_value(s@) is None,
    ;
}

impl FromText for i16 {
    /// A decimal `i16`, with the syntax of Rust's integer `FromStr`.
    open spec fn text_value(s: Seq<char>) -> Option<i16> {
        match parse_int_spec(s, i16::MIN as int, i16::MAX as int) {
            Some(x) => Some(x as i16),
            None => None,
        }
    }

    fn from_text(s: &str) -> (r: Option<i16>) {
        let v = chars_of(s);
        assert(v@.subrange(0, v@.len() as int) =~= s@);
        match parse_int(&v, 0, v.len(), i16::MIN as i64, i16::MAX as i64) {
            Some(x) => Some(x as i16),
            None => None,
        }
    }
}

impl FromText for i32 {
    /// A decimal `i32`, with the syntax of Rust's integer `FromStr`.
    open spec fn text_value(s: Seq<char>) -> Option<i32> {
        match parse_int_spec(s, i32::MIN as int, i32::MAX as int) {
            Some(x) => Some(x as i32),
            None => None,
        }
    }

    fn from_text(s: &str) -> (r: Option<i32>) {
        let v = chars_of(s);
        assert(v@.subrange(0, v@.len() as int) =~= s@);
        match parse_int(&v, 0, v.len(), i32::MIN as i64, i32::MAX as i64) {
            Some(x) => Some(x as i32),
            None => None,
        }
    }
}

impl FromText for Nr {
    /// An issue number such as `7` or `25-26`, kept with its text.
    open spec fn text_value(s: Seq<char>) -> Option<(int, Seq<char>)> {
        match nr_value(s) {
            Some(n) => Some((n, s)),
            None => None,
        }
    }

    fn from_text(s: &str) -> (r: Option<Nr>) {
        match Nr::parse(s) {
            Ok(n) => Some(n),
            Err(_) => None,
        }
    }
}

impl FromText for Price {
    /// A price such as `7.50`, in öre.
    open spec fn text_value(s: Seq<char>) -> Option<int> {
        price_value(s)
    }

    fn from_text(s: &str) -> (r: Option<Price>) {
        match Price::parse(s) {
            Ok(p) => Some(p),
            Err(_) => None,
        }
    }
}

impl FromText for Date {
    /// A date as `chrono` reads it, where that is a day of the calendar.
    open spec fn text_value(s: Seq<char>) -> Option<(int, int, int)> {
        match iso_date_value(s) {
            Some((y, m, d)) => if valid_date(y as int, m as int, d as int) {
                Some((y as int, m as int, d as int))
            } else {
                None
            },
            None => None,
        }
    }

    fn from_text(s: &str) -> (r: Option<Date>) {
        match parse_iso_date(s) {
            Some((y, m, d)) => Date::from_ymd(y, m, d),
            None => None,
        }
    }
}

/// The view of a value that may be missing.
pub open spec fn opt_value<T: View>(o: Option<T>) -> Option<T::V> {
    match o {
        Some(v) => Some(v@),
        None => None,
    }
}

/// The view of what a reader of an optional value gives.
pub open spec fn read_value<T: View>(r: Result<Option<T>, DataError>) -> Result<
    Option<T::V>,
    DataError,
> {
    match r {
        Ok(o) => Ok(opt_value(o)),
        Err(e) => Err(e),
    }
}

/// The view of what a reader of a required value gives.
pub open spec fn req_value<T: View>(r: Result<T, DataError>) -> Result<T::V, DataError> {
    match r {
        Ok(v) => Ok(v@),
        Err(e) => Err(e),
    }
}

/// The value of the attribute `name` of `e`: none where it is missing, an
/// error where its text denotes no value.
pub open spec fn attr_value<T: FromText>(e: Elem, name: &'static str) -> Result<
    Option<T::V>,
    DataError,
> {
    match attr_of(e, name@) {
        None => Ok(None),
        Some(s) => match T::text_value(s) {
            Some(v) => Ok(Some(v)),
            None => Err(DataError::BadAttribute(name)),
        },
    }
}

/// The value written as the text of the child element `name` of `e`:
/// none where there is no such text, an error where it denotes no value.
pub open spec fn text_value_of<T: FromText>(e: Elem, name: &'static str) -> Result<
    Option<T::V>,
    DataError,
> {
    match child_text_of(e, name@) {
        None => Ok(None),
        Some(s) => match T::text_value(s) {
            Some(v) => Ok(Some(v)),
            None => Err(DataError::BadText(name)),
        },
    }
}

/// The value written as the text of the child element `name` of `e`,
/// which is required.
pub open spec fn req_text_value<T: FromText>(e: Elem, name: &'static str) -> Result<
    T::V,
    DataError,
> {
    match child_text_of(e, name@) {
        None => Err(DataError::MissingText(name)),
        Some(s) => match T::text_value(s) {
            Some(v) => Ok(v),
            None => Err(DataError::BadText(name)),
        },
    }
}

/// Read the attribute `name` of `e` as a value of type `T`.
pub fn parse_attribute<T: FromText>(e: &Elem, name: &'static str) -> (r: Result<
    Option<T>,
    DataError,
>)
    ensures
        read_value(r) == attr_value::<T>(*e, name),
{
    match attr(e, name) {
        None => Ok(None),
        Some(s) => match T::from_text(s) {
            Some(v) => Ok(Some(v)),
            None => Err(DataError::BadAttribute(name)),
        },
    }
}

/// Read the text of the child element `name` of `e` as a value of type
/// `T`.
pub fn parse_text<T: FromText>(e: &Elem, name: &'static str) -> (r: Result<
    Option<T>,
    DataError,
>)
    ensures
        read_value(r) == text_value_of::<T>(*e, name),
{
    match child_text(e, name) {
        None => Ok(None),
        Some(s) => match T::from_text(s) {
            Some(v) => Ok(Some(v)),
            None => Err(DataError::BadText(name)),
        },
    }
}

/// Read the text of the child element `name` of `e`, which is required,
/// as a value of type `T`.
pub fn parse_req_text<T: FromText>(e: &Elem, name: &'static str) -> (r: Result<T, DataError>)
    ensures
        req_value(r) == req_text_value::<T>(*e, name),
{
    match child_text(e, name) {
        None => Err(DataError::MissingText(name)),
        Some(s) => match T::from_text(s) {
            Some(v) => Ok(v),
            None => Err(DataError::BadText(name)),
        },
    }
}

/// The normalized text of the child element `name` of `e`.
pub open spec fn text_norm_of(e: Elem, name: Seq<char>) -> Option<Seq<char>> {
    match child_text_of(e, name) {
        Some(t) => Some(normalized(t)),
        None => None,
    }
}

/// The text of the child element `name` of `e`, with its whitespace
/// normalized.
pub fn text_norm(e: &Elem, name: &str) -> (r: Option<String>)
    ensures
        opt_view(r) == text_norm_of(*e, name@),
{
    match child_text(e, name) {
        Some(t) => Some(normalize_space(t)),
        None => None,
    }
}

/// The placing in the reader's vote that `e` records in a `best` child
/// element.
pub open spec fn best_plac_of(e: Elem) -> Result<Option<i16>, DataError> {
    match child_of(e, "best"@) {
        Some(b) => attr_value::<i16>(b, "plac"),
        None => Ok(None),
    }
}

/// Read the `plac` attribute of the `best` child element of `e`.
pub fn best_plac(e: &Elem) -> (r: Result<Option<i16>, DataError>)
    ensures
        r == best_plac_of(*e),
{
    match child(e, "best") {
        Some(b) => parse_attribute::<i16>(b, "plac"),
        None => Ok(None),
    }
}

} // verus!
