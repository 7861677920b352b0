use vstd::prelude::*;

verus! {

/// The index of the first element of `s` satisfying `f`, or -1 when none
/// does. Store lookups return the first matching document, so this is the
/// canonical reading of every filtered find, update and delete.
pub open spec fn first_match_idx<T>(s: Seq<T>, f: spec_fn(T) -> bool) -> int
    decreases s.len(),
{
    if s.len() == 0 {
        -1
    } else if f(s[0]) {
        0
    } else {
        let rest = first_match_idx(s.drop_first(), f);
        if rest == -1 {
            -1
        } else {
            rest + 1
        }
    }
}

/// The first element of `s` satisfying `f`, if any.
pub open spec fn first_match<T>(s: Seq<T>, f: spec_fn(T) -> bool) -> Option<T> {
    if first_match_idx(s, f) >= 0 {
        Some(s[first_match_idx(s, f)])
    } else {
        None
    }
}

/// What the first-match index means: it is -1 exactly when nothing matches,
/// and otherwise points at a matching element before which nothing matches.
pub proof fn lemma_first_match_props<T>(s: Seq<T>, f: spec_fn(T) -> bool)
    ensures
        -1 <= first_match_idx(s, f) < s.len(),
        first_match_idx(s, f) == -1 <==> (forall|i: int| 0 <= i < s.len() ==> !f(#[trigger] s[i])),
        first_match_idx(s, f) >= 0 ==> 0 <= first_match_idx(s, f) < s.len() && f(
            s[first_match_idx(s, f)],
        ) && (forall|i: int| 0 <= i < first_match_idx(s, f) ==> !f(#[trigger] s[i])),
    decreases s.len(),
{
    if s.len() == 0 {
    } else if f(s[0]) {
        assert(!(forall|i: int| 0 <= i < s.len() ==> !f(#[trigger] s[i])));
    } else {
        let rest = s.drop_first();
        lemma_first_match_props(rest, f);
        assert(forall|j: int| 0 <= j < rest.len() ==> #[trigger] rest[j] == s[j + 1]);
        let k = first_match_idx(s, f);
        if first_match_idx(rest, f) == -1 {
            assert(k == -1);
            assert forall|i: int| 0 <= i < s.len() implies !f(#[trigger] s[i]) by {
                if i > 0 {
                    assert(rest[i - 1] == s[i]);
                }
            }
        } else {
            assert(k == first_match_idx(rest, f) + 1);
            assert(s[k] == rest[k - 1]);
            assert forall|i: int| 0 <= i < k implies !f(#[trigger] s[i]) by {
                if i > 0 {
                    assert(rest[i - 1] == s[i]);
                }
            }
            assert(!(forall|i: int| 0 <= i < s.len() ==> !f(#[trigger] s[i])));
        }
    }
}

/// A matching element before which nothing matches pins the first-match
/// index down to its position.
pub proof fn lemma_first_match_at<T>(s: Seq<T>, f: spec_fn(T) -> bool, i: int)
    requires
        0 <= i < s.len(),
        f(s[i]),
        forall|j: int| 0 <= j < i ==> !f(#[trigger] s[j]),
    ensures
        first_match_idx(s, f) == i,
    decreases s.len(),
{
    if i > 0 {
        let rest = s.drop_first();
        assert(forall|j: int| 0 <= j < rest.len() ==> #[trigger] rest[j] == s[j + 1]);
        assert forall|j: int| 0 <= j < i - 1 implies !f(#[trigger] rest[j]) by {
            assert(rest[j] == s[j + 1]);
        }
        assert(rest[i - 1] == s[i]);
        lemma_first_match_at(rest, f, i - 1);
    }
}

/// Two sequences of equal length on which `f` agrees pointwise have the same
/// first-match index.
pub proof fn lemma_first_match_equiv<T>(s1: Seq<T>, s2: Seq<T>, f: spec_fn(T) -> bool)
    requires
        s1.len() == s2.len(),
        forall|i: int| 0 <= i < s1.len() ==> f(#[trigger] s1[i]) == f(#[trigger] s2[i]),
    ensures
        first_match_idx(s1, f) == first_match_idx(s2, f),
{
    lemma_first_match_props(s1, f);
    lemma_first_match_props(s2, f);
    let i1 = first_match_idx(s1, f);
    let i2 = first_match_idx(s2, f);
    if i1 >= 0 {
        assert forall|j: int| 0 <= j < i1 implies !f(#[trigger] s2[j]) by {
            assert(f(s2[j]) == f(s1[j]));
        }
        assert(f(s2[i1]) == f(s1[i1]));
        lemma_first_match_at(s2, f, i1);
    } else if i2 >= 0 {
        assert forall|j: int| 0 <= j < i2 implies !f(#[trigger] s1[j]) by {
            assert(f(s1[j]) == f(s2[j]));
        }
        assert(f(s1[i2]) == f(s2[i2]));
        lemma_first_match_at(s1, f, i2);
    }
}

/// How pushing an element moves the first-match index: an existing match is
/// unaffected, and otherwise the new element is found exactly when it
/// matches.
pub proof fn lemma_first_match_push<T>(s: Seq<T>, f: spec_fn(T) -> bool, v: T)
    ensures
        first_match_idx(s.push(v), f) == (if first_match_idx(s, f) >= 0 {
            first_match_idx(s, f)
        } else if f(v) {
            s.len() as int
        } else {
            -1
        }),
{
    lemma_first_match_props(s, f);
    let i = first_match_idx(s, f);
    let sp = s.push(v);
    assert(forall|j: int| 0 <= j < s.len() ==> #[trigger] sp[j] == s[j]);
    assert(sp[s.len() as int] == v);
    if i >= 0 {
        assert forall|j: int| 0 <= j < i implies !f(#[trigger] sp[j]) by {
            assert(sp[j] == s[j]);
        }
        assert(f(sp[i]));
        lemma_first_match_at(sp, f, i);
    } else if f(v) {
        assert forall|j: int| 0 <= j < s.len() implies !f(#[trigger] sp[j]) by {
            assert(sp[j] == s[j]);
            assert(!f(s[j]));
        }
        lemma_first_match_at(sp, f, s.len() as int);
    } else {
        lemma_first_match_props(sp, f);
        assert forall|j: int| 0 <= j < sp.len() implies !f(#[trigger] sp[j]) by {
            if j < s.len() {
                assert(sp[j] == s[j]);
                assert(!f(s[j]));
            } else {
                assert(sp[j] == v);
            }
        }
    }
}

/// An update at a position where the result of `f` is unchanged leaves the
/// first-match index unchanged; if that position is the first match, the
/// found element becomes the updated one.
pub proof fn lemma_first_match_update<T>(s: Seq<T>, f: spec_fn(T) -> bool, k: int, v: T)
    requires
        0 <= k < s.len(),
        f(v) == f(s[k]),
    ensures
        first_match_idx(s.update(k, v), f) == first_match_idx(s, f),
        first_match(s.update(k, v), f) == (if first_match_idx(s, f) == k {
            Some(v)
        } else {
            first_match(s, f)
        }),
{
    let s2 = s.update(k, v);
    assert forall|i: int| 0 <= i < s.len() implies f(#[trigger] s[i]) == f(#[trigger] s2[i]) by {
        if i != k {
            assert(s2[i] == s[i]);
        }
    }
    lemma_first_match_equiv(s, s2, f);
    lemma_first_match_props(s, f);
    let i = first_match_idx(s, f);
    if i >= 0 && i != k {
        assert(s2[i] == s[i]);
    }
}

} // verus!
