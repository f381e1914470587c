//! Maps whose keys are scoped by a leading id, such as the columns of tables.
use crate::ordered::{OrdMap, OrdSet, Ordered, Record};
use vstd::prelude::*;

verus! {

/// The rest of the keys that lead with `first`.
pub open spec fn scope<B, V>(m: Map<(u64, B), V>, first: u64) -> Set<B> {
    Set::new(|b: B| m.contains_key((first, b)))
}

/// The map without the keys that lead with `first`.
pub open spec fn minus_scope<B, V>(m: Map<(u64, B), V>, first: u64) -> Map<(u64, B), V> {
    m.remove_keys(Set::new(|k: (u64, B)| k.0 == first))
}

impl<B: Ordered, V: Record> OrdMap<(u64, B), V> {
    /// The rest of the keys that lead with `first`, in ascending order.
    pub fn in_scope(&self, first: u64) -> (rest: OrdSet<B>)
        ensures
            rest@ == scope(self@, first),
    {
        let keys = self.keys();
        let ghost q = keys.deep_view();
        let mut rest: OrdSet<B> = OrdSet::new();
        let mut i: usize = 0;
        while i < keys.len()
            invariant
                i <= keys@.len(),
                q == keys.deep_view(),
                forall|b: B::V| #[trigger]
                    rest@.contains(b) <==> exists|j: int|
                        0 <= j < i && #[trigger] q[j] == (first, b),
            decreases keys.len() - i,
        {
            let ghost before = rest@;
            if keys[i].0 == first {
                rest.insert(keys[i].1.dup());
            }
            proof {
                assert forall|b: B::V| #[trigger] rest@.contains(b) <==> exists|j: int|
                    0 <= j < i + 1 && #[trigger] q[j] == (first, b) by {
                    if rest@.contains(b) {
                        if before.contains(b) {
                            let j = choose|j: int| 0 <= j < i && #[trigger] q[j] == (first, b);
                            assert(q[j] == (first, b));
                        } else {
                            assert(q[i as int] == (first, b));
                        }
                    }
                    if exists|j: int| 0 <= j < i + 1 && #[trigger] q[j] == (first, b) {
                        let j = choose|j: int| 0 <= j < i + 1 && #[trigger] q[j] == (first, b);
                        if j < i {
                            assert(before.contains(b));
                        }
                    }
                }
            }
            i = i + 1;
        }
        proof {
            assert forall|b: B::V| #[trigger] rest@.contains(b) <==> scope(self@, first).contains(
                b,
            ) by {
                if rest@.contains(b) {
                    let j = choose|j: int| 0 <= j < i && #[trigger] q[j] == (first, b);
                    assert(q.to_set().contains(q[j]));
                }
                if self@.contains_key((first, b)) {
                    assert(q.to_set().contains((first, b)));
                    let j = choose|j: int| 0 <= j < q.len() && q[j] == (first, b);
                    assert(q[j] == (first, b));
                }
            }
            assert(rest@ =~= scope(self@, first));
        }
        rest
    }

    /// Removes every key that leads with `first`.
    pub fn remove_scope(&mut self, first: u64)
        ensures
            final(self)@ == minus_scope(old(self)@, first),
    {
        let rest = self.in_scope(first);
        let items = rest.items();
        let ghost q = items.deep_view();
        let mut i: usize = 0;
        while i < items.len()
            invariant
                i <= items@.len(),
                q == items.deep_view(),
                q.to_set() == scope(old(self)@, first),
                forall|k: (u64, B::V)| #[trigger]
                    self@.contains_key(k) <==> old(self)@.contains_key(k) && !(k.0 == first
                        && q.take(i as int).contains(k.1)),
                forall|k: (u64, B::V)| #[trigger]
                    self@.contains_key(k) ==> self@[k] == old(self)@[k],
            decreases items.len() - i,
        {
            let ghost before = self@;
            let _ = self.remove(&(first, items[i].dup()));
            proof {
                let x = q[i as int];
                assert(q.take(i + 1) =~= q.take(i as int).push(x));
                assert forall|k: (u64, B::V)| #[trigger] self@.contains_key(k) <==> old(
                    self,
                )@.contains_key(k) && !(k.0 == first && q.take(i + 1).contains(k.1)) by {
                    assert(before.contains_key(k) <==> old(self)@.contains_key(k) && !(k.0 == first
                        && q.take(i as int).contains(k.1)));
                    let t = q.take(i as int);
                    if t.push(x).contains(k.1) && k.1 != x {
                        let j = choose|j: int| 0 <= j < t.push(x).len() && t.push(x)[j] == k.1;
                        assert(t[j] == k.1);
                    }
                    if t.contains(k.1) {
                        let j = choose|j: int| 0 <= j < t.len() && t[j] == k.1;
                        assert(t.push(x)[j] == k.1);
                    }
                    assert(t.push(x)[t.len() as int] == x);
                }
            }
            i = i + 1;
        }
        proof {
            assert(q.take(q.len() as int) =~= q);
            assert forall|k: (u64, B::V)| #[trigger] self@.contains_key(k) <==> minus_scope(
                old(self)@,
                first,
            ).contains_key(k) by {
                if k.0 == first && old(self)@.contains_key(k) {
                    assert(k == (first, k.1));
                    assert(q.to_set().contains(k.1));
                }
            }
            assert(self@ =~= minus_scope(old(self)@, first));
        }
    }
}

/// The largest of a set of numbers, zero if there is none.
pub open spec fn largest(s: Set<u64>) -> int {
    if s == Set::<u64>::empty() {
        0
    } else {
        choose|n: int| #[trigger] is_largest(s, n)
    }
}

pub open spec fn is_largest(s: Set<u64>, n: int) -> bool {
    0 <= n <= u64::MAX && s.contains(n as u64) && forall|x: u64| #[trigger] s.contains(x) ==> x <= n
}

/// The largest element, zero if there is none.
pub fn largest_of(s: &OrdSet<u64>) -> (n: u64)
    ensures
        n == largest(s@),
        s@ != Set::<u64>::empty() ==> is_largest(s@, n as int),
{
    let items = s.items();
    let ghost q = items.deep_view();
    if items.len() == 0 {
        assert(s@ =~= Set::<u64>::empty());
        return 0;
    }
    let n: u64 = items[items.len() - 1];
    proof {
        let last = q.len() - 1;
        assert(q.to_set().contains(q[last]));
        assert forall|x: u64| #[trigger] s@.contains(x) implies x <= n by {
            assert(q.to_set().contains(x));
            let j = choose|j: int| 0 <= j < q.len() && q[j] == x;
            if j < last {
                assert(q[j] < q[last]);
            }
        }
        assert(is_largest(s@, n as int));
        let m = choose|m: int| #[trigger] is_largest(s@, m);
        assert(s@.contains(m as u64));
        assert(s@.contains(n));
    }
    n
}

} // verus!
