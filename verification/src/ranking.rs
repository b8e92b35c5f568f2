//! Picking the greatest of a sequence of optional values, the earliest one
//! where several are equally great.

use vstd::prelude::*;

verus! {

/// `lt` is irreflexive, transitive and total.
pub open spec fn strict_total_order<T>(lt: spec_fn(T, T) -> bool) -> bool {
    &&& forall|a: T| !#[trigger] lt(a, a)
    &&& forall|a: T, b: T, c: T| #[trigger] lt(a, b) && #[trigger] lt(b, c) ==> lt(a, c)
    &&& forall|a: T, b: T| a == b || #[trigger] lt(a, b) || lt(b, a)
}

/// Position `i` holds a value that no value of `s` exceeds and that every
/// value before it falls short of.
pub open spec fn is_first_greatest<T>(s: Seq<Option<T>>, lt: spec_fn(T, T) -> bool, i: int) -> bool {
    &&& 0 <= i < s.len()
    &&& s[i] is Some
    &&& forall|k: int| 0 <= k < s.len() && (#[trigger] s[k]) is Some ==> !lt(s[i]->0, s[k]->0)
    &&& forall|k: int| 0 <= k < i && (#[trigger] s[k]) is Some ==> lt(s[k]->0, s[i]->0)
}

/// The position that a left-to-right scan keeps when a later value replaces
/// the kept one only if it is strictly greater.
pub open spec fn first_greatest<T>(s: Seq<Option<T>>, lt: spec_fn(T, T) -> bool) -> Option<int>
    decreases s.len(),
{
    if s.len() == 0 {
        None
    } else {
        match (first_greatest(s.drop_last(), lt), s.last()) {
            (None, None) => None,
            (None, Some(_)) => Some(s.len() - 1),
            (Some(i), None) => Some(i),
            (Some(i), Some(v)) => if lt(s[i]->0, v) {
                Some(s.len() - 1)
            } else {
                Some(i)
            },
        }
    }
}

/// The value at `first_greatest`.
pub open spec fn greatest<T>(s: Seq<Option<T>>, lt: spec_fn(T, T) -> bool) -> Option<T> {
    match first_greatest(s, lt) {
        Some(i) => s[i],
        None => None,
    }
}

/// The scan finds nothing exactly when the sequence holds no value;
/// otherwise it finds the first greatest position.
pub proof fn lemma_first_greatest<T>(s: Seq<Option<T>>, lt: spec_fn(T, T) -> bool)
    requires
        strict_total_order(lt),
    ensures
        match first_greatest(s, lt) {
            Some(i) => is_first_greatest(s, lt, i),
            None => forall|k: int| 0 <= k < s.len() ==> (#[trigger] s[k]) is None,
        },
    decreases s.len(),
{
    if s.len() > 0 {
        let p = s.drop_last();
        lemma_first_greatest(p, lt);
        assert(forall|k: int| 0 <= k < p.len() ==> p[k] == s[k]);
        match (first_greatest(p, lt), s.last()) {
            (None, None) => {
                assert forall|k: int| 0 <= k < s.len() implies (#[trigger] s[k]) is None by {
                    if k < p.len() {
                        assert(p[k] is None);
                    }
                }
            },
            (None, Some(_)) => {
                let i = s.len() - 1;
                assert forall|k: int| 0 <= k < s.len() && (#[trigger] s[k]) is Some implies !lt(
                    s[i]->0,
                    s[k]->0,
                ) by {
                    if k < p.len() {
                        assert(p[k] is None);
                    }
                }
                assert forall|k: int| 0 <= k < i && (#[trigger] s[k]) is Some implies lt(
                    s[k]->0,
                    s[i]->0,
                ) by {
                    assert(p[k] is None);
                }
            },
            (Some(i), None) => {
                assert forall|k: int| 0 <= k < s.len() && (#[trigger] s[k]) is Some implies !lt(
                    s[i]->0,
                    s[k]->0,
                ) by {
                    assert(p[k] is Some);
                }
                assert forall|k: int| 0 <= k < i && (#[trigger] s[k]) is Some implies lt(
                    s[k]->0,
                    s[i]->0,
                ) by {
                    assert(p[k] is Some);
                }
            },
            (Some(i), Some(v)) => {
                if lt(s[i]->0, v) {
                    let j = s.len() - 1;
                    assert forall|k: int| 0 <= k < s.len() && (#[trigger] s[k]) is Some implies !lt(
                        s[j]->0,
                        s[k]->0,
                    ) by {
                        if k < p.len() {
                            assert(p[k] is Some);
                            assert(!lt(p[i]->0, p[k]->0));
                        }
                    }
                    assert forall|k: int| 0 <= k < j && (#[trigger] s[k]) is Some implies lt(
                        s[k]->0,
                        s[j]->0,
                    ) by {
                        assert(p[k] is Some);
                        assert(!lt(p[i]->0, p[k]->0));
                    }
                } else {
                    assert forall|k: int| 0 <= k < s.len() && (#[trigger] s[k]) is Some implies !lt(
                        s[i]->0,
                        s[k]->0,
                    ) by {
                        if k < p.len() {
                            assert(p[k] is Some);
                        }
                    }
                    assert forall|k: int| 0 <= k < i && (#[trigger] s[k]) is Some implies lt(
                        s[k]->0,
                        s[i]->0,
                    ) by {
                        assert(p[k] is Some);
                    }
                }
            },
        }
    }
}

/// One more element at the end: how the scan's result moves.
pub proof fn lemma_first_greatest_push<T>(s: Seq<Option<T>>, lt: spec_fn(T, T) -> bool, n: int)
    requires
        0 <= n < s.len(),
    ensures
        first_greatest(s.take(n + 1), lt) == match (first_greatest(s.take(n), lt), s[n]) {
            (None, None) => None,
            (None, Some(_)) => Some(n),
            (Some(i), None) => Some(i),
            (Some(i), Some(v)) => if lt(s[i]->0, v) {
                Some(n)
            } else {
                Some(i)
            },
        },
        first_greatest(s.take(n), lt) matches Some(i) ==> 0 <= i < n && s[i] is Some,
{
    let t = s.take(n + 1);
    assert(t.drop_last() =~= s.take(n));
    assert(t.last() == s[n]);
    lemma_first_greatest_in_range(s.take(n), lt);
    if first_greatest(s.take(n), lt) is Some {
        let i = first_greatest(s.take(n), lt)->0;
        assert(s.take(n)[i] == s[i]);
        assert(t[i] == s[i]);
    }
}

/// The scan's result is a position of the sequence that holds a value.
pub proof fn lemma_first_greatest_in_range<T>(s: Seq<Option<T>>, lt: spec_fn(T, T) -> bool)
    ensures
        first_greatest(s, lt) matches Some(i) ==> 0 <= i < s.len() && s[i] is Some,
        first_greatest(s, lt) is None ==> forall|k: int| 0 <= k < s.len() ==> (#[trigger] s[k]) is None,
    decreases s.len(),
{
    if s.len() > 0 {
        let p = s.drop_last();
        lemma_first_greatest_in_range(p, lt);
        if first_greatest(s, lt) is None {
            assert forall|k: int| 0 <= k < s.len() implies (#[trigger] s[k]) is None by {
                if k < p.len() {
                    assert(p[k] is None);
                }
            }
        } else if first_greatest(p, lt) is Some {
            let i = first_greatest(p, lt)->0;
            assert(p[i] == s[i]);
        }
    }
}

} // verus!
