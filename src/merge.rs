//! Union of lists without duplicates, and of keyed lists where the first
//! binding of a key wins.
use vstd::prelude::*;

verus! {

/// `child` followed by each element of `parent`, in order, that is not
/// already present.
pub open spec fn merge<A>(child: Seq<A>, parent: Seq<A>) -> Seq<A>
    decreases parent.len(),
{
    if parent.len() == 0 {
        child
    } else {
        let m = merge(child, parent.drop_last());
        if m.contains(parent.last()) {
            m
        } else {
            m.push(parent.last())
        }
    }
}

/// A list inherited from an optional parent list: merged when both are set,
/// taken whole from the parent when only the parent's is set.
pub open spec fn opt_merge<A>(child: Option<Seq<A>>, parent: Option<Seq<A>>) -> Option<Seq<A>> {
    match child {
        Some(c) => Some(match parent {
            Some(p) => merge(c, p),
            None => c,
        }),
        None => parent,
    }
}

/// Whether some entry of `s` has the key `k`.
pub open spec fn has_key<V>(s: Seq<(Seq<char>, V)>, k: Seq<char>) -> bool {
    exists|j: int| 0 <= j < s.len() && (#[trigger] s[j]).0 == k
}

/// `child` followed by each entry of `parent`, in order, whose key is not
/// already bound.
pub open spec fn merge_keyed<V>(child: Seq<(Seq<char>, V)>, parent: Seq<(Seq<char>, V)>) -> Seq<(Seq<char>, V)>
    decreases parent.len(),
{
    if parent.len() == 0 {
        child
    } else {
        let m = merge_keyed(child, parent.drop_last());
        if has_key(m, parent.last().0) {
            m
        } else {
            m.push(parent.last())
        }
    }
}

proof fn lemma_push_contains<A>(s: Seq<A>, a: A, b: A)
    requires
        s.contains(b),
    ensures
        s.push(a).contains(b),
{
    let j = choose|j: int| 0 <= j < s.len() && s[j] == b;
    assert(s.push(a)[j] == b);
}

/// Every element of the child and of the parent is in the merged list.
pub proof fn lemma_merge_covers<A>(child: Seq<A>, parent: Seq<A>)
    ensures
        forall|x: A| child.contains(x) ==> merge(child, parent).contains(x),
        forall|x: A| parent.contains(x) ==> merge(child, parent).contains(x),
    decreases parent.len(),
{
    if parent.len() > 0 {
        let rest = parent.drop_last();
        lemma_merge_covers(child, rest);
        let m = merge(child, rest);
        let last = parent.last();
        if !m.contains(last) {
            assert(m.push(last)[m.len() as int] == last);
            assert forall|x: A| m.contains(x) implies m.push(last).contains(x) by {
                lemma_push_contains(m, last, x);
            }
        }
        assert forall|x: A| parent.contains(x) implies merge(child, parent).contains(x) by {
            let j = choose|j: int| 0 <= j < parent.len() && parent[j] == x;
            if j < parent.len() - 1 {
                assert(rest[j] == x);
                assert(rest.contains(x));
                assert(m.contains(x));
                if !m.contains(last) {
                    lemma_push_contains(m, last, x);
                }
            } else {
                assert(x == last);
                if !m.contains(last) {
                    assert(m.push(last)[m.len() as int] == last);
                }
            }
        }
    }
}

/// Merging in elements that are all present already changes nothing.
pub proof fn lemma_merge_present<A>(child: Seq<A>, parent: Seq<A>)
    requires
        forall|x: A| parent.contains(x) ==> child.contains(x),
    ensures
        merge(child, parent) == child,
    decreases parent.len(),
{
    if parent.len() > 0 {
        let rest = parent.drop_last();
        assert forall|x: A| rest.contains(x) implies child.contains(x) by {
            let j = choose|j: int| 0 <= j < rest.len() && rest[j] == x;
            assert(parent[j] == x);
        }
        lemma_merge_present(child, rest);
        assert(parent[parent.len() - 1] == parent.last());
    }
}

/// Inheriting twice from the same parent list gives what inheriting once gives.
pub proof fn lemma_merge_idempotent<A>(child: Seq<A>, parent: Seq<A>)
    ensures
        merge(merge(child, parent), parent) == merge(child, parent),
{
    lemma_merge_covers(child, parent);
    lemma_merge_present(merge(child, parent), parent);
}

/// The same, for lists that may be unset on either side.
pub proof fn lemma_opt_merge_idempotent<A>(child: Option<Seq<A>>, parent: Option<Seq<A>>)
    ensures
        opt_merge(opt_merge(child, parent), parent) == opt_merge(child, parent),
{
    match (child, parent) {
        (Some(c), Some(p)) => lemma_merge_idempotent(c, p),
        (None, Some(p)) => {
            lemma_merge_covers(p, p);
            lemma_merge_present(p, p);
        },
        _ => {},
    }
}

proof fn lemma_push_has_key<V>(s: Seq<(Seq<char>, V)>, e: (Seq<char>, V), k: Seq<char>)
    requires
        has_key(s, k),
    ensures
        has_key(s.push(e), k),
{
    let j = choose|j: int| 0 <= j < s.len() && (#[trigger] s[j]).0 == k;
    assert(s.push(e)[j] == s[j]);
}

/// Every key of the child and of the parent is bound in the merged list.
pub proof fn lemma_merge_keyed_covers<V>(child: Seq<(Seq<char>, V)>, parent: Seq<(Seq<char>, V)>)
    ensures
        forall|k: Seq<char>| has_key(child, k) ==> has_key(merge_keyed(child, parent), k),
        forall|k: Seq<char>| has_key(parent, k) ==> has_key(merge_keyed(child, parent), k),
    decreases parent.len(),
{
    if parent.len() > 0 {
        let rest = parent.drop_last();
        lemma_merge_keyed_covers(child, rest);
        let m = merge_keyed(child, rest);
        let last = parent.last();
        if !has_key(m, last.0) {
            assert(m.push(last)[m.len() as int] == last);
            assert forall|k: Seq<char>| has_key(m, k) implies has_key(m.push(last), k) by {
                lemma_push_has_key(m, last, k);
            }
        }
        assert forall|k: Seq<char>| has_key(parent, k) implies has_key(merge_keyed(child, parent), k) by {
            let j = choose|j: int| 0 <= j < parent.len() && (#[trigger] parent[j]).0 == k;
            if j < parent.len() - 1 {
                assert(rest[j] == parent[j]);
                assert(has_key(rest, k));
                assert(has_key(m, k));
                if !has_key(m, last.0) {
                    lemma_push_has_key(m, last, k);
                }
            } else {
                assert(k == last.0);
                if !has_key(m, last.0) {
                    assert(m.push(last)[m.len() as int] == last);
                    assert(has_key(m.push(last), k));
                } else {
                    assert(has_key(m, k));
                }
            }
        }
    }
}

/// Merging in entries whose keys are all bound already changes nothing.
pub proof fn lemma_merge_keyed_present<V>(child: Seq<(Seq<char>, V)>, parent: Seq<(Seq<char>, V)>)
    requires
        forall|k: Seq<char>| has_key(parent, k) ==> has_key(child, k),
    ensures
        merge_keyed(child, parent) == child,
    decreases parent.len(),
{
    if parent.len() > 0 {
        let rest = parent.drop_last();
        assert forall|k: Seq<char>| has_key(rest, k) implies has_key(child, k) by {
            let j = choose|j: int| 0 <= j < rest.len() && (#[trigger] rest[j]).0 == k;
            assert(parent[j] == rest[j]);
        }
        lemma_merge_keyed_present(child, rest);
        assert(parent[parent.len() - 1] == parent.last());
    }
}

/// Inheriting keyed entries twice from the same parent gives what inheriting once gives.
pub proof fn lemma_merge_keyed_idempotent<V>(child: Seq<(Seq<char>, V)>, parent: Seq<(Seq<char>, V)>)
    ensures
        merge_keyed(merge_keyed(child, parent), parent) == merge_keyed(child, parent),
{
    lemma_merge_keyed_covers(child, parent);
    lemma_merge_keyed_present(merge_keyed(child, parent), parent);
}

} // verus!
