//! Stable sorting of keyed items, as `slice::sort_by` does with a total
//! order on the keys: the result is ordered by key, and items with equal
//! keys keep their order.
use vstd::prelude::*;

verus! {

/// Keys with a total preorder.
pub trait SortKey: Sized {
    /// `self` sorts before or together with `other`.
    spec fn key_le(self, other: Self) -> bool;

    proof fn lemma_key_total(a: Self, b: Self)
        ensures
            a.key_le(b) || b.key_le(a),
    ;

    proof fn lemma_key_trans(a: Self, b: Self, c: Self)
        requires
            a.key_le(b),
            b.key_le(c),
        ensures
            a.key_le(c),
    ;

    fn le(&self, other: &Self) -> (r: bool)
        ensures
            r == self.key_le(*other),
    ;
}

/// Character sequences in lexicographic order of their code points, which
/// is how `str` and `String` compare.
pub open spec fn seq_le(a: Seq<char>, b: Seq<char>) -> bool
    decreases a.len(),
{
    if a.len() == 0 {
        true
    } else if b.len() == 0 {
        false
    } else if a[0] != b[0] {
        a[0] < b[0]
    } else {
        seq_le(a.skip(1), b.skip(1))
    }
}

pub proof fn lemma_seq_le_total(a: Seq<char>, b: Seq<char>)
    ensures
        seq_le(a, b) || seq_le(b, a),
    decreases a.len(),
{
    if a.len() > 0 && b.len() > 0 {
        if a[0] == b[0] {
            lemma_seq_le_total(a.skip(1), b.skip(1));
        } else {
        }
    }
}

pub proof fn lemma_seq_le_trans(a: Seq<char>, b: Seq<char>, c: Seq<char>)
    requires
        seq_le(a, b),
        seq_le(b, c),
    ensures
        seq_le(a, c),
    decreases a.len(),
{
    if a.len() > 0 && b.len() > 0 && c.len() > 0 && a[0] == b[0] && b[0] == c[0] {
        lemma_seq_le_trans(a.skip(1), b.skip(1), c.skip(1));
    }
}

pub proof fn lemma_seq_le_refl(a: Seq<char>)
    ensures
        seq_le(a, a),
    decreases a.len(),
{
    if a.len() > 0 {
        lemma_seq_le_refl(a.skip(1));
    }
}

pub proof fn lemma_seq_le_antisym(a: Seq<char>, b: Seq<char>)
    requires
        seq_le(a, b),
        seq_le(b, a),
    ensures
        a == b,
    decreases a.len(),
{
    if a.len() > 0 && b.len() > 0 {
        lemma_seq_le_antisym(a.skip(1), b.skip(1));
        assert(a =~= seq![a[0]] + a.skip(1));
        assert(b =~= seq![b[0]] + b.skip(1));
    }
}

/// Compare two character vectors as `str` does.
pub fn chars_le(a: &Vec<char>, b: &Vec<char>) -> (r: bool)
    ensures
        r == seq_le(a@, b@),
{
    let mut i: usize = 0;
    assert(a@.skip(0) == a@ && b@.skip(0) == b@);
    while i < a.len() && i < b.len() && a[i] == b[i]
        invariant
            i <= a.len(),
            i <= b.len(),
            forall|j: int| 0 <= j < i ==> a@[j] == b@[j],
            seq_le(a@, b@) == seq_le(a@.skip(i as int), b@.skip(i as int)),
        decreases a.len() - i,
    {
        assert(a@.skip(i as int).skip(1) == a@.skip(i + 1));
        assert(b@.skip(i as int).skip(1) == b@.skip(i + 1));
        i += 1;
    }
    if i == a.len() {
        true
    } else if i == b.len() {
        false
    } else {
        a[i] < b[i]
    }
}

impl SortKey for Vec<char> {
    open spec fn key_le(self, other: Self) -> bool {
        seq_le(self@, other@)
    }

    proof fn lemma_key_total(a: Self, b: Self) {
        lemma_seq_le_total(a@, b@);
    }

    proof fn lemma_key_trans(a: Self, b: Self, c: Self) {
        lemma_seq_le_trans(a@, b@, c@);
    }

    fn le(&self, other: &Self) -> (r: bool) {
        chars_le(self, other)
    }
}

impl SortKey for i64 {
    open spec fn key_le(self, other: Self) -> bool {
        self <= other
    }

    proof fn lemma_key_total(a: Self, b: Self) {
    }

    proof fn lemma_key_trans(a: Self, b: Self, c: Self) {
    }

    fn le(&self, other: &Self) -> (r: bool) {
        *self <= *other
    }
}

/// `p` maps positions `0..n` one to one onto `0..n`.
pub open spec fn is_perm(p: Seq<int>, n: int) -> bool {
    &&& p.len() == n
    &&& forall|i: int| 0 <= i < n ==> 0 <= #[trigger] p[i] < n
    &&& forall|i: int, j: int| 0 <= i < n && 0 <= j < n && i != j ==> p[i] != p[j]
}

/// A permutation of `0..n` takes every value: each `k` in `0..n` is `p[m]`
/// for some `m` in `0..n`.
pub proof fn lemma_perm_onto(p: Seq<int>, n: int, k: int)
    requires
        is_perm(p, n),
        0 <= k < n,
    ensures
        exists|m: int| 0 <= m < n && p[m] == k,
{
    let x = vstd::set_lib::set_int_range(0, n);
    let f = |m: int| p[m];
    let y = x.map(f);
    vstd::set_lib::lemma_int_range(0, n);
    assert(vstd::relations::injective_on(f, x));
    vstd::set_lib::lemma_map_size(x, y, f);
    assert(y.subset_of(x)) by {
        assert forall|v: int| y.contains(v) implies x.contains(v) by {
            let m = choose|m: int| x.contains(m) && f(m) == v;
        }
    }
    vstd::set_lib::lemma_subset_equality(y, x);
    assert(x.contains(k));
    assert(y.contains(k));
    let m = choose|m: int| x.contains(m) && f(m) == k;
    assert(0 <= m < n && p[m] == k);
}

/// `out` is `input` reordered by `p` (position `i` of `out` holds item
/// `p[i]` of `input`), ordered by key, with equal keys in input order.
pub open spec fn stable_sorted_by<K: SortKey, T>(
    input: Seq<(K, T)>,
    out: Seq<(K, T)>,
    p: Seq<int>,
) -> bool {
    &&& is_perm(p, input.len() as int)
    &&& out.len() == input.len()
    &&& forall|i: int| 0 <= i < out.len() ==> #[trigger] out[i] == input[p[i]]
    &&& forall|i: int, j: int|
        #![trigger out[i], out[j]]
        0 <= i < j < out.len() ==> out[i].0.key_le(out[j].0) && (out[j].0.key_le(out[i].0)
            ==> p[i] < p[j])
}

/// `out` is the stable sort of `input` by key.
pub open spec fn is_stable_sort<K: SortKey, T>(input: Seq<(K, T)>, out: Seq<(K, T)>) -> bool {
    exists|p: Seq<int>| stable_sorted_by(input, out, p)
}

/// Sort `items` by key, keeping items with equal keys in their order.
pub fn stable_sort<K: SortKey, T>(items: Vec<(K, T)>) -> (r: Vec<(K, T)>)
    ensures
        is_stable_sort(items@, r@),
{
    let ghost input = items@;
    let mut r: Vec<(K, T)> = Vec::new();
    let ghost mut p: Seq<int> = Seq::empty();
    for x in it: items
        invariant
            it.seq() == input,
            r@.len() == it.index(),
            p.len() == it.index(),
            forall|i: int| 0 <= i < p.len() ==> 0 <= #[trigger] p[i] < it.index(),
            forall|i: int, j: int| 0 <= i < p.len() && 0 <= j < p.len() && i != j ==> p[i] != p[j],
            forall|i: int| 0 <= i < r@.len() ==> #[trigger] r@[i] == input[p[i]],
            forall|i: int, j: int|
                #![trigger r@[i], r@[j]]
                0 <= i < j < r@.len() ==> r@[i].0.key_le(r@[j].0) && (r@[j].0.key_le(r@[i].0)
                    ==> p[i] < p[j]),
    {
        let ghost k = it.index();
        let mut pos: usize = 0;
        while pos < r.len() && r[pos].0.le(&x.0)
            invariant
                pos <= r@.len(),
                forall|j: int| 0 <= j < pos ==> (#[trigger] r@[j]).0.key_le(x.0),
            decreases r@.len() - pos,
        {
            pos += 1;
        }
        proof {
            // Every item from `pos` on sorts strictly after `x`.
            assert forall|j: int| pos <= j < r@.len() implies x.0.key_le(
                (#[trigger] r@[j]).0,
            ) && !(r@[j].0.key_le(x.0)) by {
                K::lemma_key_total(r@[pos as int].0, x.0);
                if j > pos {
                    assert(r@[pos as int].0.key_le(r@[j].0));
                    K::lemma_key_trans(x.0, r@[pos as int].0, r@[j].0);
                    if r@[j].0.key_le(x.0) {
                        K::lemma_key_trans(r@[pos as int].0, r@[j].0, x.0);
                    }
                }
            }
        }
        let ghost old_r = r@;
        let ghost old_p = p;
        r.insert(pos, x);
        proof {
            p = old_p.insert(pos as int, k);
            assert forall|i: int| 0 <= i < r@.len() implies #[trigger] r@[i] == input[p[i]] by {
                if i < pos {
                    assert(r@[i] == old_r[i]);
                } else if i > pos {
                    assert(r@[i] == old_r[i - 1]);
                }
            }
            assert forall|i: int, j: int|
                #![trigger r@[i], r@[j]]
                0 <= i < j < r@.len() implies r@[i].0.key_le(r@[j].0) && (r@[j].0.key_le(
                    r@[i].0,
                ) ==> p[i] < p[j]) by {
                if j < pos {
                    assert(r@[i] == old_r[i] && r@[j] == old_r[j]);
                    assert(old_r[i] == old_r[i] && old_r[j] == old_r[j]);
                } else if j == pos {
                    assert(r@[i] == old_r[i]);
                    assert(old_r[i].0.key_le(x.0));
                } else if i == pos {
                    assert(r@[j] == old_r[j - 1]);
                    assert(x.0.key_le(old_r[j - 1].0));
                } else if i < pos {
                    assert(r@[i] == old_r[i] && r@[j] == old_r[j - 1]);
                    assert(old_r[i] == old_r[i] && old_r[j - 1] == old_r[j - 1]);
                } else {
                    assert(r@[i] == old_r[i - 1] && r@[j] == old_r[j - 1]);
                    assert(old_r[i - 1] == old_r[i - 1] && old_r[j - 1] == old_r[j - 1]);
                }
            }
        }
    }
    proof {
        assert(stable_sorted_by(input, r@, p));
    }
    r
}

/// `out` is `input` reordered by `p`, ordered by `le`, with items that
/// `le` puts together in input order.
pub open spec fn sorted_by<A>(input: Seq<A>, out: Seq<A>, le: spec_fn(A, A) -> bool, p: Seq<int>) -> bool {
    &&& is_perm(p, input.len() as int)
    &&& out.len() == input.len()
    &&& forall|i: int| 0 <= i < out.len() ==> #[trigger] out[i] == input[p[i]]
    &&& forall|i: int, j: int|
        #![trigger out[i], out[j]]
        0 <= i < j < out.len() ==> le(out[i], out[j]) && (le(out[j], out[i]) ==> p[i] < p[j])
}

/// `out` is the stable sort of `input` by `le`.
pub open spec fn is_stable_sort_by<A>(input: Seq<A>, out: Seq<A>, le: spec_fn(A, A) -> bool) -> bool {
    exists|p: Seq<int>| sorted_by(input, out, le, p)
}

/// Sorting items paired with their keys sorts the items by their keys.
pub proof fn lemma_strip_keys<K: SortKey, A>(
    input: Seq<A>,
    keyed: Seq<(K, A)>,
    sorted: Seq<(K, A)>,
    le: spec_fn(A, A) -> bool,
)
    requires
        keyed.len() == input.len(),
        forall|i: int| 0 <= i < keyed.len() ==> (#[trigger] keyed[i]).1 == input[i],
        forall|i: int, j: int|
            0 <= i < keyed.len() && 0 <= j < keyed.len() ==> (#[trigger] keyed[i]).0.key_le(
                (#[trigger] keyed[j]).0,
            ) == le(input[i], input[j]),
        is_stable_sort(keyed, sorted),
    ensures
        is_stable_sort_by(input, sorted.map_values(|e: (K, A)| e.1), le),
{
    let p = choose|p: Seq<int>| stable_sorted_by(keyed, sorted, p);
    let out = sorted.map_values(|e: (K, A)| e.1);
    assert forall|i: int| 0 <= i < out.len() implies #[trigger] out[i] == input[p[i]] by {
        assert(sorted[i] == keyed[p[i]]);
    }
    assert forall|i: int, j: int|
        #![trigger out[i], out[j]]
        0 <= i < j < out.len() implies le(out[i], out[j]) && (le(out[j], out[i]) ==> p[i] < p[j]) by {
        assert(sorted[i] == keyed[p[i]]);
        assert(sorted[j] == keyed[p[j]]);
        assert(keyed[p[i]].0.key_le(keyed[p[j]].0) == le(input[p[i]], input[p[j]]));
        assert(keyed[p[j]].0.key_le(keyed[p[i]].0) == le(input[p[j]], input[p[i]]));
    }
    assert(sorted_by(input, out, le, p));
}

} // verus!
