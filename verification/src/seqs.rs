//! Facts about sequences that the store's proofs share.
use vstd::prelude::*;

verus! {

/// The elements of the first `n` places of `s` whose flag is set, in order.
pub open spec fn picked<A>(s: Seq<A>, flags: Seq<bool>, n: nat) -> Seq<A>
    decreases n,
{
    if n == 0 {
        Seq::empty()
    } else if flags[n - 1] {
        picked(s, flags, (n - 1) as nat).push(s[n - 1])
    } else {
        picked(s, flags, (n - 1) as nat)
    }
}

/// Filtering one more element: the filter of a prefix grows by the next
/// element exactly when that element passes.
pub proof fn lemma_filter_step<A>(s: Seq<A>, p: spec_fn(A) -> bool, i: int)
    requires
        0 <= i < s.len(),
    ensures
        s.take(i + 1).filter(p) == if p(s[i]) {
            s.take(i).filter(p).push(s[i])
        } else {
            s.take(i).filter(p)
        },
{
    reveal(Seq::filter);
    assert(s.take(i + 1).drop_last() =~= s.take(i));
}

/// A filter that rejects exactly the element at `k` removes that element.
pub proof fn lemma_filter_drops_one<A>(s: Seq<A>, p: spec_fn(A) -> bool, k: int)
    requires
        0 <= k < s.len(),
        !p(s[k]),
        forall|i: int| 0 <= i < s.len() && i != k ==> p(#[trigger] s[i]),
    ensures
        s.filter(p) == s.remove(k),
    decreases s.len(),
{
    reveal(Seq::filter);
    if k == s.len() - 1 {
        lemma_filter_keeps_all(s.drop_last(), p);
    } else {
        lemma_filter_drops_one(s.drop_last(), p, k);
    }
}

/// A filter that every element passes changes nothing.
pub proof fn lemma_filter_keeps_all<A>(s: Seq<A>, p: spec_fn(A) -> bool)
    requires
        forall|i: int| 0 <= i < s.len() ==> p(#[trigger] s[i]),
    ensures
        s.filter(p) == s,
    decreases s.len(),
{
    reveal(Seq::filter);
    if s.len() > 0 {
        lemma_filter_keeps_all(s.drop_last(), p);
    }
}

/// Picking by flags that record a predicate on the mapped elements is
/// filtering the mapped sequence by that predicate.
pub proof fn lemma_picked_is_filter<A, B>(
    s: Seq<A>,
    flags: Seq<bool>,
    f: spec_fn(A) -> B,
    p: spec_fn(B) -> bool,
    n: nat,
)
    requires
        n <= s.len(),
        n <= flags.len(),
        forall|i: int| 0 <= i < n ==> flags[i] == p(f(#[trigger] s[i])),
    ensures
        picked(s, flags, n).map_values(f) == s.map_values(f).take(n as int).filter(p),
    decreases n,
{
    let mapped = s.map_values(f);
    if n > 0 {
        lemma_picked_is_filter(s, flags, f, p, (n - 1) as nat);
        lemma_filter_step(mapped, p, n - 1);
    }
}

/// Where in `s` the element at place `a` of `s.filter(p)` stands.
pub open spec fn origin<A>(s: Seq<A>, p: spec_fn(A) -> bool, a: int) -> int
    decreases s.len(),
{
    if s.len() == 0 {
        0
    } else if p(s.last()) && a == s.drop_last().filter(p).len() {
        s.len() - 1
    } else {
        origin(s.drop_last(), p, a)
    }
}

/// Each element of a filtered sequence is the element of the sequence at its
/// origin, passes the filter, and origins grow with places.
pub proof fn lemma_filter_origin<A>(s: Seq<A>, p: spec_fn(A) -> bool)
    ensures
        forall|a: int|
            0 <= a < s.filter(p).len() ==> 0 <= #[trigger] origin(s, p, a) < s.len() && s[origin(
                s,
                p,
                a,
            )] == s.filter(p)[a] && p(s.filter(p)[a]),
        forall|a: int, b: int|
            0 <= a < b < s.filter(p).len() ==> #[trigger] origin(s, p, a) < #[trigger] origin(
                s,
                p,
                b,
            ),
    decreases s.len(),
{
    reveal(Seq::filter);
    if s.len() > 0 {
        let rest = s.drop_last();
        lemma_filter_origin(rest, p);
        let inner = rest.filter(p);
        assert forall|a: int| 0 <= a < s.filter(p).len() implies 0 <= #[trigger] origin(s, p, a)
            < s.len() && s[origin(s, p, a)] == s.filter(p)[a] && p(s.filter(p)[a]) by {
            if a < inner.len() {
                assert(origin(s, p, a) == origin(rest, p, a));
            }
        }
        assert forall|a: int, b: int| 0 <= a < b < s.filter(p).len() implies #[trigger] origin(
            s,
            p,
            a,
        ) < #[trigger] origin(s, p, b) by {
            assert(origin(s, p, a) == origin(rest, p, a));
            if b < inner.len() {
                assert(origin(s, p, b) == origin(rest, p, b));
            }
        }
    }
}

/// Every element of `s` that passes the filter stands somewhere in the
/// filtered sequence.
pub proof fn lemma_filter_has<A>(s: Seq<A>, p: spec_fn(A) -> bool, i: int) -> (a: int)
    requires
        0 <= i < s.len(),
        p(s[i]),
    ensures
        0 <= a < s.filter(p).len(),
        s.filter(p)[a] == s[i],
    decreases s.len(),
{
    reveal(Seq::filter);
    if i == s.len() - 1 {
        s.drop_last().filter(p).len() as int
    } else {
        lemma_filter_has(s.drop_last(), p, i)
    }
}

/// The filter of a prefix is a prefix of the filter.
pub proof fn lemma_filter_prefix<A>(s: Seq<A>, p: spec_fn(A) -> bool, i: int)
    requires
        0 <= i <= s.len(),
    ensures
        s.take(i).filter(p).len() <= s.filter(p).len(),
        s.filter(p).take(s.take(i).filter(p).len() as int) == s.take(i).filter(p),
{
    assert(s =~= s.take(i) + s.skip(i));
}

/// If every element that passes `p` also passes `q`, except perhaps the one
/// at place `k`, then among the first `n` elements at most one more passes
/// `p` than passes `q`, and no more once `k` is not among them.
pub proof fn lemma_filter_len_but_one<A>(
    s: Seq<A>,
    p: spec_fn(A) -> bool,
    q: spec_fn(A) -> bool,
    k: int,
    n: int,
)
    requires
        0 <= n <= s.len(),
        forall|i: int| 0 <= i < s.len() && i != k && p(#[trigger] s[i]) ==> q(s[i]),
    ensures
        s.take(n).filter(p).len() <= s.take(n).filter(q).len() + (if 0 <= k < n {
            1int
        } else {
            0int
        }),
    decreases n,
{
    if n > 0 {
        lemma_filter_len_but_one(s, p, q, k, n - 1);
        lemma_filter_step(s, p, n - 1);
        lemma_filter_step(s, q, n - 1);
    }
}

/// If every element that passes `p` passes `a` or `b`, then no more elements
/// pass `p` than pass `a` and `b` taken together.
pub proof fn lemma_filter_len_union<A>(
    s: Seq<A>,
    p: spec_fn(A) -> bool,
    a: spec_fn(A) -> bool,
    b: spec_fn(A) -> bool,
)
    requires
        forall|i: int| 0 <= i < s.len() && p(#[trigger] s[i]) ==> a(s[i]) || b(s[i]),
    ensures
        s.filter(p).len() <= s.filter(a).len() + s.filter(b).len(),
    decreases s.len(),
{
    reveal(Seq::filter);
    if s.len() > 0 {
        let rest = s.drop_last();
        lemma_filter_len_union(rest, p, a, b);
    }
}

/// If every element that passes both `p` and `q` passes `r`, then filtering
/// by `p` and then by `q` leaves no more elements than filtering by `r`.
pub proof fn lemma_filter_twice_len<A>(
    s: Seq<A>,
    p: spec_fn(A) -> bool,
    q: spec_fn(A) -> bool,
    r: spec_fn(A) -> bool,
)
    requires
        forall|i: int| 0 <= i < s.len() && p(#[trigger] s[i]) && q(s[i]) ==> r(s[i]),
    ensures
        s.filter(p).filter(q).len() <= s.filter(r).len(),
    decreases s.len(),
{
    reveal(Seq::filter);
    if s.len() > 0 {
        let rest = s.drop_last();
        lemma_filter_twice_len(rest, p, q, r);
        if p(s.last()) {
            let inner = rest.filter(p);
            assert(inner.push(s.last()).drop_last() =~= inner);
        }
    }
}

/// Keeps the elements of `v` whose flag is set, in order.
pub(crate) fn retain_flagged<T>(v: Vec<T>, flags: &Vec<bool>) -> (kept: Vec<T>)
    requires
        flags.len() == v.len(),
    ensures
        kept@ == picked(v@, flags@, v.len() as nat),
{
    let ghost all = v@;
    let mut kept: Vec<T> = Vec::new();
    let mut at: usize = 0;
    for item in it: v
        invariant
            at == it.index(),
            it.seq() == all,
            flags.len() == all.len(),
            kept@ == picked(all, flags@, at as nat),
    {
        if flags[at] {
            kept.push(item);
        }
        at += 1;
    }
    kept
}

} // verus!
