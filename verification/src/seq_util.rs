//! Sequence helpers shared by the index structures.
use vstd::prelude::*;

verus! {

/// `s` with every occurrence of `x` removed, order kept.
pub open spec fn without<A>(s: Seq<A>, x: A) -> Seq<A>
    decreases s.len(),
{
    if s.len() == 0 {
        s
    } else {
        let rest = without(s.drop_last(), x);
        if s.last() == x {
            rest
        } else {
            rest.push(s.last())
        }
    }
}

/// Removing every occurrence of `x` leaves none.
pub proof fn lemma_without_excludes<A>(s: Seq<A>, x: A)
    ensures
        !without(s, x).contains(x),
        forall|y: A| y != x ==> (without(s, x).contains(y) <==> s.contains(y)),
    decreases s.len(),
{
    if s.len() > 0 {
        let front = s.drop_last();
        lemma_without_excludes(front, x);
        let rest = without(front, x);
        assert forall|y: A| y != x implies (without(s, x).contains(y) <==> s.contains(y)) by {
            assert(rest.contains(y) <==> front.contains(y));
            if s.contains(y) {
                let k = choose|k: int| 0 <= k < s.len() && s[k] == y;
                if k < s.len() - 1 {
                    assert(front[k] == y);
                    assert(front.contains(y));
                    assert(rest.contains(y));
                    let k3 = choose|k3: int| 0 <= k3 < rest.len() && rest[k3] == y;
                    if s.last() != x {
                        assert(rest.push(s.last())[k3] == y);
                    }
                } else {
                    assert(s.last() == y);
                    assert(rest.push(s.last())[rest.len() as int] == y);
                }
            }
            if without(s, x).contains(y) {
                let k = choose|k: int| 0 <= k < without(s, x).len() && without(s, x)[k] == y;
                if s.last() != x && k == rest.len() {
                    assert(s[s.len() - 1] == y);
                } else {
                    if s.last() != x {
                        assert(rest.push(s.last())[k] == rest[k]);
                    }
                    assert(rest[k] == y);
                    assert(rest.contains(y));
                    assert(front.contains(y));
                    let k2 = choose|k2: int| 0 <= k2 < front.len() && front[k2] == y;
                    assert(s[k2] == y);
                }
            }
        }
        if s.last() != x {
            assert forall|k: int| 0 <= k < rest.push(s.last()).len() implies rest.push(s.last())[k] != x by {
                if k < rest.len() {
                    assert(rest.push(s.last())[k] == rest[k]);
                }
            }
        }
    }
}

/// Removing an element that does not occur changes nothing.
pub proof fn lemma_without_absent<A>(s: Seq<A>, x: A)
    requires
        !s.contains(x),
    ensures
        without(s, x) == s,
    decreases s.len(),
{
    if s.len() > 0 {
        let front = s.drop_last();
        assert(!front.contains(x)) by {
            if front.contains(x) {
                let k = choose|k: int| 0 <= k < front.len() && front[k] == x;
                assert(s[k] == x);
            }
        }
        lemma_without_absent(front, x);
        assert(s.last() != x) by {
            assert(s[s.len() - 1] == s.last());
        }
        assert(front.push(s.last()) =~= s);
    }
}

/// Removing every occurrence of `x` keeps a duplicate-free sequence duplicate-free.
pub proof fn lemma_without_no_duplicates<A>(s: Seq<A>, x: A)
    requires
        s.no_duplicates(),
    ensures
        without(s, x).no_duplicates(),
    decreases s.len(),
{
    if s.len() > 0 {
        let front = s.drop_last();
        assert(front.no_duplicates()) by {
            assert forall|i: int, j: int| 0 <= i < front.len() && 0 <= j < front.len() && i != j implies front[i]
                != front[j] by {
                assert(front[i] == s[i] && front[j] == s[j]);
            }
        }
        lemma_without_no_duplicates(front, x);
        lemma_without_excludes(front, x);
        let rest = without(front, x);
        if s.last() != x {
            assert(!front.contains(s.last())) by {
                if front.contains(s.last()) {
                    let k = choose|k: int| 0 <= k < front.len() && front[k] == s.last();
                    assert(s[k] == s[s.len() - 1]);
                }
            }
            assert(!rest.contains(s.last()));
            let r2 = rest.push(s.last());
            assert forall|i: int, j: int| 0 <= i < r2.len() && 0 <= j < r2.len() && i != j implies r2[i] != r2[j] by {
                if i < rest.len() && j < rest.len() {
                    assert(r2[i] == rest[i] && r2[j] == rest[j]);
                } else if i < rest.len() {
                    assert(r2[i] == rest[i]);
                    assert(rest.contains(rest[i]));
                } else if j < rest.len() {
                    assert(r2[j] == rest[j]);
                    assert(rest.contains(rest[j]));
                }
            }
        }
    }
}

} // verus!
