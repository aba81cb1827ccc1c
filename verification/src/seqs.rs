//! Facts about sequences.
use vstd::prelude::*;

verus! {

/// What a sequence holds after one more element.
pub proof fn contains_push<T>(s: Seq<T>, x: T)
    ensures
        forall|n: T| #[trigger] s.push(x).contains(n) <==> s.contains(n) || n == x,
        s.no_duplicates() && !s.contains(x) ==> s.push(x).no_duplicates(),
{
    let t = s.push(x);
    assert(t[s.len() as int] == x);
    assert forall|n: T| #[trigger] t.contains(n) <==> s.contains(n) || n == x by {
        if s.contains(n) {
            let i = choose|i: int| 0 <= i < s.len() && s[i] == n;
            assert(t[i] == n);
        }
        if t.contains(n) {
            let i = choose|i: int| 0 <= i < t.len() && t[i] == n;
            if i < s.len() {
                assert(s[i] == n);
            }
        }
    }
    if s.no_duplicates() && !s.contains(x) {
        assert forall|i: int, j: int| 0 <= i < t.len() && 0 <= j < t.len() && i != j implies t[i]
            != t[j] by {
            if i < s.len() && j < s.len() {
                assert(s[i] == t[i] && s[j] == t[j]);
            } else if i < s.len() {
                assert(s[i] == t[i]);
            } else {
                assert(s[j] == t[j]);
            }
        }
    }
}

/// What a sequence holds without its last element.
pub proof fn contains_drop_last<T>(s: Seq<T>)
    requires
        s.len() > 0,
    ensures
        forall|n: T| #[trigger] s.contains(n) <==> s.drop_last().contains(n) || n == s.last(),
        s.no_duplicates() ==> s.drop_last().no_duplicates() && !s.drop_last().contains(s.last()),
{
    let front = s.drop_last();
    assert(s =~= front.push(s.last()));
    contains_push(front, s.last());
    if s.no_duplicates() {
        if front.contains(s.last()) {
            let i = choose|i: int| 0 <= i < front.len() && front[i] == s.last();
            assert(s[i] == s[s.len() - 1]);
        }
    }
}

/// The start of a sequence that holds nothing twice holds nothing twice.
pub proof fn no_duplicates_take<T>(s: Seq<T>, n: int)
    requires
        0 <= n <= s.len(),
        s.no_duplicates(),
    ensures
        s.take(n).no_duplicates(),
{
    assert forall|i: int, j: int| 0 <= i < n && 0 <= j < n && i != j implies s.take(n)[i]
        != s.take(n)[j] by {
        assert(s[i] == s.take(n)[i] && s[j] == s.take(n)[j]);
    }
}

/// What two sequences hold, one after the other.
pub proof fn contains_add<T>(s: Seq<T>, t: Seq<T>)
    ensures
        forall|n: T| #[trigger] (s + t).contains(n) <==> s.contains(n) || t.contains(n),
{
    let u = s + t;
    assert forall|n: T| #[trigger] u.contains(n) <==> s.contains(n) || t.contains(n) by {
        if s.contains(n) {
            let i = choose|i: int| 0 <= i < s.len() && s[i] == n;
            assert(u[i] == n);
        }
        if t.contains(n) {
            let i = choose|i: int| 0 <= i < t.len() && t[i] == n;
            assert(u[s.len() + i] == n);
        }
        if u.contains(n) {
            let i = choose|i: int| 0 <= i < u.len() && u[i] == n;
            if i < s.len() {
                assert(s[i] == n);
            } else {
                assert(t[i - s.len()] == n);
            }
        }
    }
}

/// What a sequence holds after an element has been put in.
pub proof fn contains_insert<T>(s: Seq<T>, at: int, x: T)
    requires
        0 <= at <= s.len(),
    ensures
        forall|n: T| #[trigger] s.insert(at, x).contains(n) <==> s.contains(n) || n == x,
        s.no_duplicates() && !s.contains(x) ==> s.insert(at, x).no_duplicates(),
{
    let t = s.insert(at, x);
    assert(t[at] == x);
    assert forall|n: T| #[trigger] t.contains(n) <==> s.contains(n) || n == x by {
        if s.contains(n) {
            let i = choose|i: int| 0 <= i < s.len() && s[i] == n;
            assert(t[if i < at { i } else { i + 1 }] == n);
        }
        if t.contains(n) {
            let i = choose|i: int| 0 <= i < t.len() && t[i] == n;
            if i != at {
                assert(s[if i < at { i } else { i - 1 }] == n);
            }
        }
    }
    if s.no_duplicates() && !s.contains(x) {
        assert forall|i: int, j: int| 0 <= i < t.len() && 0 <= j < t.len() && i != j implies t[i]
            != t[j] by {
            let a = if i < at { i } else { i - 1 };
            let b = if j < at { j } else { j - 1 };
            if i != at {
                assert(t[i] == s[a]);
            }
            if j != at {
                assert(t[j] == s[b]);
            }
        }
    }
}

} // verus!
