//! Selections: the places of a list at which a condition holds, in order.
//!
//! Many results of the library are selections. Saying so in these terms says at once
//! that nothing is left out, that nothing is added, that nothing stands twice and that
//! the order is kept.

use vstd::prelude::*;

verus! {

/// `at` lists exactly the places below `n` at which `keep` holds, each once and in order.
pub open spec fn is_selection(at: Seq<int>, n: nat, keep: spec_fn(int) -> bool) -> bool {
    &&& forall|i: int| 0 <= i < at.len() ==> 0 <= #[trigger] at[i] < n && keep(at[i])
    &&& forall|i: int, j: int| 0 <= i < j < at.len() ==> #[trigger] at[i] < #[trigger] at[j]
    &&& forall|k: int| 0 <= k < n && #[trigger] keep(k) ==> at.contains(k)
}

/// `out` holds what stands at the places `at`.
pub open spec fn holds_at<A>(out: Seq<A>, at: Seq<int>, value: spec_fn(int) -> A) -> bool {
    &&& out.len() == at.len()
    &&& forall|i: int| 0 <= i < out.len() ==> #[trigger] out[i] == value(at[i])
}

/// `out` holds, in order, the values at exactly those places below `n` at which `keep`
/// holds.
pub open spec fn selects<A>(
    out: Seq<A>,
    n: nat,
    keep: spec_fn(int) -> bool,
    value: spec_fn(int) -> A,
) -> bool {
    exists|at: Seq<int>| #[trigger] is_selection(at, n, keep) && holds_at(out, at, value)
}

/// Nothing is selected from nothing.
pub proof fn selects_from_none<A>(keep: spec_fn(int) -> bool, value: spec_fn(int) -> A)
    ensures
        selects(Seq::<A>::empty(), 0, keep, value),
{
    let at = Seq::<int>::empty();
    assert(is_selection(at, 0, keep));
    assert(holds_at(Seq::<A>::empty(), at, value));
}

/// A selection from one more place.
pub proof fn selects_one_more<A>(
    before: Seq<A>,
    out: Seq<A>,
    n: nat,
    keep: spec_fn(int) -> bool,
    value: spec_fn(int) -> A,
)
    requires
        selects(before, n, keep, value),
        out == (if keep(n as int) {
            before.push(value(n as int))
        } else {
            before
        }),
    ensures
        selects(out, n + 1, keep, value),
{
    let at = choose|at: Seq<int>|
        #[trigger] is_selection(at, n, keep) && holds_at(before, at, value);
    let now = if keep(n as int) {
        at.push(n as int)
    } else {
        at
    };
    assert forall|k: int| 0 <= k < n + 1 && #[trigger] keep(k) implies now.contains(k) by {
        if k < n {
            assert(at.contains(k));
            let i = choose|i: int| 0 <= i < at.len() && at[i] == k;
            assert(now[i] == k);
        } else {
            assert(now[at.len() as int] == k);
        }
    }
    assert(is_selection(now, n + 1, keep));
    assert(holds_at(out, now, value));
}

/// Two selections by the same condition of the same values are the same.
pub proof fn law_selection_is_unique<A>(
    a: Seq<A>,
    b: Seq<A>,
    n: nat,
    keep: spec_fn(int) -> bool,
    value: spec_fn(int) -> A,
)
    requires
        selects(a, n, keep, value),
        selects(b, n, keep, value),
    ensures
        a == b,
{
    let s = choose|at: Seq<int>| #[trigger] is_selection(at, n, keep) && holds_at(a, at, value);
    let t = choose|at: Seq<int>| #[trigger] is_selection(at, n, keep) && holds_at(b, at, value);
    places_are_unique(s, t, n, keep);
    assert(a =~= b);
}

proof fn places_are_unique(s: Seq<int>, t: Seq<int>, n: nat, keep: spec_fn(int) -> bool)
    requires
        is_selection(s, n, keep),
        is_selection(t, n, keep),
    ensures
        s == t,
    decreases s.len(),
{
    if s.len() == 0 {
        if t.len() > 0 {
            assert(keep(t[0]));
            assert(s.contains(t[0]));
        }
        assert(s =~= t);
    } else {
        let m = s.last();
        assert(s[s.len() - 1] == m);
        assert(keep(m));
        assert(t.contains(m));
        let j = choose|j: int| 0 <= j < t.len() && t[j] == m;
        if j < t.len() - 1 {
            let x = t[t.len() - 1];
            assert(t[j] < x);
            assert(keep(x));
            assert(s.contains(x));
            let i = choose|i: int| 0 <= i < s.len() && s[i] == x;
            if i < s.len() - 1 {
                assert(s[i] < s[s.len() - 1]);
            }
        }
        assert(t.last() == m);
        let below = |k: int| keep(k) && k < m;
        let a = s.drop_last();
        let b = t.drop_last();
        last_dropped(s, n, keep, below);
        last_dropped(t, n, keep, below);
        places_are_unique(a, b, n, below);
        assert(s =~= a.push(m));
        assert(t =~= b.push(m));
    }
}

proof fn last_dropped(s: Seq<int>, n: nat, keep: spec_fn(int) -> bool, below: spec_fn(int) -> bool)
    requires
        s.len() > 0,
        is_selection(s, n, keep),
        forall|k: int| #[trigger] below(k) == (keep(k) && k < s.last()),
    ensures
        is_selection(s.drop_last(), n, below),
{
    let a = s.drop_last();
    assert forall|i: int| 0 <= i < a.len() implies 0 <= #[trigger] a[i] < n && below(a[i]) by {
        assert(a[i] == s[i]);
        assert(s[i] < s[s.len() - 1]);
    }
    assert forall|i: int, j: int| 0 <= i < j < a.len() implies #[trigger] a[i] < #[trigger] a[j] by {
        assert(a[i] == s[i] && a[j] == s[j]);
    }
    assert forall|k: int| 0 <= k < n && #[trigger] below(k) implies a.contains(k) by {
        assert(keep(k));
        assert(s.contains(k));
        let i = choose|i: int| 0 <= i < s.len() && s[i] == k;
        assert(a[i] == k);
    }
}

}
