//! Weighted clouds of titles, references and creators, and the ordinal
//! number of a year of the magazine.
use crate::sort::{SortKey, is_perm, seq_le, stable_sort, stable_sorted_by};
use crate::text::{int_chars, push_int};
use vstd::prelude::*;

verus! {

/// Something that can be shown in a cloud.
pub trait CloudItem: Sized {
    /// The text that orders items in a cloud.
    spec fn cloud_key(&self) -> Seq<char>;

    /// The html of an item with the count `n` and the weight `w`.
    spec fn cloud_html(&self, n: int, w: int) -> Seq<char>;

    fn sort_key(&self) -> (k: Vec<char>)
        ensures
            k@ == self.cloud_key(),
    ;

    fn write_item(&self, out: &mut String, n: i32, w: u8)
        ensures
            final(out)@ == old(out)@ + self.cloud_html(n as int, w as int),
    ;
}

/// Items with their counts and weights, in the order of their keys.
pub struct Cloud<T: CloudItem> {
    data: Vec<(T, i32, u8)>,
}

impl<T: CloudItem> View for Cloud<T> {
    type V = Seq<(T, i32, u8)>;

    closed spec fn view(&self) -> Seq<(T, i32, u8)> {
        self.data@
    }
}

/// The weight of the item at position `n` of `num` items ordered by
/// count, from 8 for the first down to 0 for the last ones.
pub open spec fn cloud_weight(n: int, num: int) -> int {
    (17 * (num - n) / num) / 2
}

/// The weights of a cloud of `num` items: each is from 0 to 8, the first
/// item gets 8, and an item is never lighter than one after it.
pub proof fn lemma_cloud_weights(num: int, n: int, m: int)
    requires
        0 <= n <= m < num,
    ensures
        0 <= cloud_weight(n, num) <= 8,
        cloud_weight(0, num) == 8,
        cloud_weight(m, num) <= cloud_weight(n, num),
{
    assert(17 * num / num == 17) by (nonlinear_arith)
        requires
            num > 0,
    ;
    assert(0 <= 17 * (num - n) / num <= 17) by (nonlinear_arith)
        requires
            0 <= n < num,
    ;
    assert(17 * (num - m) / num <= 17 * (num - n) / num) by (nonlinear_arith)
        requires
            0 <= n <= m < num,
    ;
}

/// `out` is the cloud made from `input` (items ordered by count): the
/// items with their counts and weights by position, reordered by `p`
/// so that their keys ascend, equal keys kept in count order.
pub open spec fn cloud_order<T: CloudItem>(
    input: Seq<(T, i32)>,
    out: Seq<(T, i32, u8)>,
    p: Seq<int>,
) -> bool {
    &&& is_perm(p, input.len() as int)
    &&& out.len() == input.len()
    &&& forall|i: int|
        0 <= i < out.len() ==> #[trigger] out[i] == (
            input[p[i]].0,
            input[p[i]].1,
            cloud_weight(p[i], input.len() as int) as u8,
        )
    &&& forall|i: int, j: int|
        #![trigger out[i], out[j]]
        0 <= i < j < out.len() ==> seq_le(out[i].0.cloud_key(), out[j].0.cloud_key()) && (seq_le(
            out[j].0.cloud_key(),
            out[i].0.cloud_key(),
        ) ==> p[i] < p[j])
}

/// A list of items separated by `, ` and ended by `.`, as clouds and
/// reference lists show them.
pub open spec fn listed<A>(s: Seq<A>, f: spec_fn(A) -> Seq<char>) -> Seq<char> {
    if s.len() == 0 {
        Seq::empty()
    } else {
        joined(s, f, s.len() - 1) + f(s.last()) + "."@
    }
}

/// The first `k` items of `s`, each followed by `, `.
pub open spec fn joined<A>(s: Seq<A>, f: spec_fn(A) -> Seq<char>, k: int) -> Seq<char>
    decreases k,
{
    if k <= 0 {
        Seq::empty()
    } else {
        joined(s, f, k - 1) + f(s[k - 1]) + ", "@
    }
}

impl<T: CloudItem> Cloud<T> {
    /// Make a cloud of items ordered by descending count: the first
    /// items get the largest weights, and the cloud orders them by key.
    pub fn from_ordered(data: Vec<(T, i32)>) -> (c: Self)
        requires
            data@.len() * 17 <= usize::MAX,
        ensures
            exists|p: Seq<int>| cloud_order(data@, c@, p),
    {
        let ghost input = data@;
        let num = data.len();
        let mut keyed: Vec<(Vec<char>, (T, i32, u8))> = Vec::new();
        for x in it: data
            invariant
                it.seq() == input,
                num == input.len(),
                num * 17 <= usize::MAX,
                keyed@.len() == it.index(),
                forall|i: int|
                    0 <= i < keyed@.len() ==> (#[trigger] keyed@[i]).0@ == input[i].0.cloud_key()
                        && keyed@[i].1 == (
                        input[i].0,
                        input[i].1,
                        cloud_weight(i, num as int) as u8,
                    ),
        {
            let n = keyed.len();
            assert(17 * (num - n) <= 17 * num) by (nonlinear_arith)
                requires
                    n <= num,
            ;
            let w = 17 * (num - n) / num / 2;
            assert(w <= 8) by (nonlinear_arith)
                requires
                    n < num,
                    w == (17 * (num - n) as int) / (num as int) / 2,
            ;
            let (item, count) = x;
            let k = item.sort_key();
            keyed.push((k, (item, count, w as u8)));
        }
        let ghost keyed_in = keyed@;
        let sorted = stable_sort(keyed);
        let ghost sorted_s = sorted@;
        let ghost p = choose|p: Seq<int>| stable_sorted_by(keyed_in, sorted_s, p);
        let mut out: Vec<(T, i32, u8)> = Vec::new();
        for y in it: sorted
            invariant
                it.seq() == sorted_s,
                stable_sorted_by(keyed_in, sorted_s, p),
                out@.len() == it.index(),
                forall|i: int| 0 <= i < out@.len() ==> #[trigger] out@[i] == sorted_s[i].1,
        {
            out.push(y.1);
        }
        proof {
            assert forall|i: int| 0 <= i < out@.len() implies #[trigger] out@[i] == (
                input[p[i]].0,
                input[p[i]].1,
                cloud_weight(p[i], input.len() as int) as u8,
            ) by {
                assert(sorted_s[i] == keyed_in[p[i]]);
            }
            assert forall|i: int, j: int|
                #![trigger out@[i], out@[j]]
                0 <= i < j < out@.len() implies seq_le(
                    out@[i].0.cloud_key(),
                    out@[j].0.cloud_key(),
                ) && (seq_le(out@[j].0.cloud_key(), out@[i].0.cloud_key()) ==> p[i] < p[j]) by {
                assert(sorted_s[i] == keyed_in[p[i]]);
                assert(sorted_s[j] == keyed_in[p[j]]);
                assert(sorted_s[i].0.key_le(sorted_s[j].0));
            }
            assert(cloud_order(input, out@, p));
        }
        let c = Cloud { data: out };
        assert(cloud_order(input, c@, p));
        c
    }

    /// Append the items of the cloud to `out`, separated by `, ` and
    /// ended by `.` (nothing for an empty cloud).
    pub fn to_html(&self, out: &mut String)
        ensures
            final(out)@ == old(out)@ + listed(
                self@,
                |e: (T, i32, u8)| e.0.cloud_html(e.1 as int, e.2 as int),
            ),
    {
        let ghost f = |e: (T, i32, u8)| e.0.cloud_html(e.1 as int, e.2 as int);
        let n = self.data.len();
        if n == 0 {
            return;
        }
        let mut i: usize = 0;
        while i + 1 < n
            invariant
                n == self.data@.len(),
                n > 0,
                i < n,
                out@ == old(out)@ + joined(self.data@, f, i as int),
                f == (|e: (T, i32, u8)| e.0.cloud_html(e.1 as int, e.2 as int)),
            decreases n - i,
        {
            let e = &self.data[i];
            e.0.write_item(out, e.1, e.2);
            out.append(", ");
            assert(f(self.data@[i as int]) == e.0.cloud_html(e.1 as int, e.2 as int));
            i += 1;
        }
        let e = &self.data[n - 1];
        e.0.write_item(out, e.1, e.2);
        out.append(".");
        assert(f(self.data@.last()) == e.0.cloud_html(e.1 as int, e.2 as int));
    }

    /// The number of items in the cloud.
    pub fn len(&self) -> (n: usize)
        ensures
            n == self@.len(),
    {
        self.data.len()
    }
}

/// The ordinal number of a year of the magazine: 1950 is the first.
pub struct YearNo(pub i16);

/// A Swedish ordinal: the number followed by `:a` for those that end in
/// a spoken "first" or "second", and `:e` for all others.
pub open spec fn ordinal_text(n: int) -> Seq<char> {
    int_chars(n) + if n == 1 || n == 2 || (n > 20 && (n % 10 == 1 || n % 10 == 2)) {
        ":a"@
    } else {
        ":e"@
    }
}

impl YearNo {
    /// The ordinal number of the magazine's year `year`.
    pub fn of(year: i16) -> (y: Self)
        requires
            year < i16::MAX,
            year + 1 - 1950 >= i16::MIN,
        ensures
            y.0 == year + 1 - 1950,
    {
        YearNo(year + 1 - 1950)
    }

    /// The ordinal as text, such as `1:a`, `3:e` or `72:a`.
    pub fn to_string(&self) -> (s: String)
        ensures
            s@ == ordinal_text(self.0 as int),
    {
        let n = self.0;
        let mut out = String::new();
        push_int(&mut out, n as i64);
        if n == 1 || n == 2 || (n > 20 && (n % 10 == 1 || n % 10 == 2)) {
            out.append(":a");
        } else {
            out.append(":e");
        }
        out
    }
}

} // verus!
