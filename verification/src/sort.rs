//! A stable sort over a total preorder on keys.

use vstd::prelude::*;

use crate::text::lemma_filter_push;

verus! {

/// A total preorder on values, decided by comparing their keys.
pub trait KeyOrder: Sized {
    /// Whether the key of `self` comes no later than the key of `other`.
    spec fn key_le(self, other: Self) -> bool;

    /// Executable form of `key_le`.
    fn le(&self, other: &Self) -> (r: bool)
        ensures
            r == self.key_le(*other),
    ;

    /// Any two keys are ordered one way or the other.
    proof fn lemma_key_total(a: Self, b: Self)
        ensures
            a.key_le(b) || b.key_le(a),
    ;

    /// The order is transitive.
    proof fn lemma_key_trans(a: Self, b: Self, c: Self)
        requires
            a.key_le(b),
            b.key_le(c),
        ensures
            a.key_le(c),
    ;
}

/// Two values whose keys are ordered both ways.
pub open spec fn same_key<T: KeyOrder>(a: T, b: T) -> bool {
    a.key_le(b) && b.key_le(a)
}

/// The values with the same key as `y`.
pub open spec fn key_class<T: KeyOrder>(y: T) -> spec_fn(T) -> bool {
    |z: T| same_key(z, y)
}

/// Keys never decrease along `s`.
pub open spec fn sorted_by_key<T: KeyOrder>(s: Seq<T>) -> bool {
    forall|i: int, j: int| 0 <= i < j < s.len() ==> (#[trigger] s[i]).key_le(#[trigger] s[j])
}

/// `out` holds the values of `inp`, and the values that share a key keep
/// the order they had in `inp`.
pub open spec fn stable_permutation<T: KeyOrder>(out: Seq<T>, inp: Seq<T>) -> bool {
    &&& out.len() == inp.len()
    &&& forall|y: T| #[trigger] out.filter(key_class(y)) == inp.filter(key_class(y))
}

/// Filtering a sequence of which nothing passes leaves nothing.
pub proof fn lemma_filter_none<A>(s: Seq<A>, f: spec_fn(A) -> bool)
    requires
        forall|k: int| 0 <= k < s.len() ==> !f(#[trigger] s[k]),
    ensures
        s.filter(f) == Seq::<A>::empty(),
    decreases s.len(),
{
    reveal(Seq::filter);
    if s.len() > 0 {
        lemma_filter_none(s.drop_last(), f);
    }
}

/// Inserting `x` after every key no later than its own, and before every
/// later key, keeps the order and appends `x` to its key's class.
proof fn lemma_insert<T: KeyOrder>(out: Seq<T>, p: int, x: T)
    requires
        0 <= p <= out.len(),
        sorted_by_key(out),
        forall|k: int| 0 <= k < p ==> (#[trigger] out[k]).key_le(x),
        forall|k: int| p <= k < out.len() ==> !(#[trigger] out[k]).key_le(x),
    ensures
        sorted_by_key(out.insert(p, x)),
        forall|y: T|
            #[trigger] out.insert(p, x).filter(key_class(y)) == (if same_key(x, y) {
                out.filter(key_class(y)).push(x)
            } else {
                out.filter(key_class(y))
            }),
{
    let n = out.insert(p, x);
    assert forall|i: int, j: int| 0 <= i < j < n.len() implies (#[trigger] n[i]).key_le(
        #[trigger] n[j],
    ) by {
        if j < p {
            assert(n[i] == out[i] && n[j] == out[j]);
        } else if j == p {
            assert(n[i] == out[i]);
        } else if i < p {
            assert(n[i] == out[i] && n[j] == out[j - 1]);
            T::lemma_key_total(out[j - 1], x);
            T::lemma_key_trans(out[i], x, out[j - 1]);
        } else if i == p {
            assert(n[j] == out[j - 1]);
            T::lemma_key_total(out[j - 1], x);
        } else {
            assert(n[i] == out[i - 1] && n[j] == out[j - 1]);
        }
    }
    assert forall|y: T| #[trigger]
        out.insert(p, x).filter(key_class(y)) == (if same_key(x, y) {
            out.filter(key_class(y)).push(x)
        } else {
            out.filter(key_class(y))
        }) by {
        let f = key_class(y);
        let a = out.take(p);
        let b = out.skip(p);
        assert(out =~= a + b);
        assert(n =~= a + seq![x] + b);
        Seq::filter_distributes_over_add(a + seq![x], b, f);
        Seq::filter_distributes_over_add(a, seq![x], f);
        Seq::filter_distributes_over_add(a, b, f);
        lemma_filter_push(Seq::<T>::empty(), x, f);
        assert(Seq::<T>::empty().push(x) =~= seq![x]);
        assert(Seq::<T>::empty().filter(f) =~= Seq::<T>::empty()) by {
            reveal(Seq::filter);
        }
        if same_key(x, y) {
            assert forall|k: int| 0 <= k < b.len() implies !f(#[trigger] b[k]) by {
                assert(b[k] == out[p + k]);
                if same_key(b[k], y) {
                    T::lemma_key_trans(b[k], y, x);
                }
            }
            lemma_filter_none(b, f);
            assert(a.filter(f) + seq![x] =~= a.filter(f).push(x));
            assert(a.filter(f) + Seq::<T>::empty() =~= a.filter(f));
        } else {
            assert(a.filter(f) + Seq::<T>::empty() =~= a.filter(f));
        }
    }
}

/// Sorts `v` by key, keeping values with equal keys in their given order
/// (`slice::sort_by`).
pub fn stable_sort<T: KeyOrder>(v: Vec<T>) -> (r: Vec<T>)
    ensures
        sorted_by_key(r@),
        stable_permutation(r@, v@),
{
    let ghost orig = v@;
    let mut rest = v;
    let mut out: Vec<T> = Vec::new();
    let ghost mut i: int = 0;
    assert(orig.take(0) =~= Seq::<T>::empty());
    assert(out@ =~= Seq::<T>::empty());
    assert(orig.skip(0) =~= orig);
    while rest.len() > 0
        invariant
            0 <= i <= orig.len(),
            rest@ == orig.skip(i),
            out@.len() == i,
            sorted_by_key(out@),
            forall|y: T| #[trigger] out@.filter(key_class(y)) == orig.take(i).filter(key_class(y)),
        decreases rest.len(),
    {
        let x = rest.remove(0);
        assert(x == orig[i]);
        let mut p: usize = 0;
        while p < out.len() && out[p].le(&x)
            invariant
                p <= out.len(),
                forall|k: int| 0 <= k < p ==> (#[trigger] out@[k]).key_le(x),
            decreases out.len() - p,
        {
            p += 1;
        }
        assert forall|k: int| p <= k < out@.len() implies !(#[trigger] out@[k]).key_le(x) by {
            if out@[k].key_le(x) {
                T::lemma_key_trans(out@[p as int], out@[k], x);
            }
        }
        proof {
            lemma_insert(out@, p as int, x);
            assert forall|y: T| #[trigger]
                orig.take(i + 1).filter(key_class(y)) == (if same_key(x, y) {
                    orig.take(i).filter(key_class(y)).push(x)
                } else {
                    orig.take(i).filter(key_class(y))
                }) by {
                assert(orig.take(i + 1) =~= orig.take(i).push(x));
                lemma_filter_push(orig.take(i), x, key_class(y));
            }
        }
        let ghost before = out@;
        out.insert(p, x);
        assert(out@ == before.insert(p as int, x));
        assert forall|y: T| #[trigger]
            out@.filter(key_class(y)) == orig.take(i + 1).filter(key_class(y)) by {
            assert(out@.filter(key_class(y)) == before.insert(p as int, x).filter(key_class(y)));
        }
        proof {
            i = i + 1;
        }
        assert(rest@ =~= orig.skip(i));
    }
    assert(orig.take(i) =~= orig);
    out
}

} // verus!
