//! Ordered sets and maps over values with a mathematical model.
//!
//! A [`Record`] is a value that can be copied and compared by its model. An
//! [`Ordered`] record also has a strict total order on models. [`OrdSet`] and
//! [`OrdMap`] keep their contents in ascending order; they are modelled by a
//! mathematical set and map.
use crate::text::chars_of;
use vstd::prelude::*;

verus! {

/// A value that is copied and compared by its model.
pub trait Record: DeepView + Sized {
    /// A copy with the same model.
    fn dup(&self) -> (r: Self)
        ensures
            r.deep_view() == self.deep_view(),
    ;

    /// Whether both have the same model.
    fn same(&self, other: &Self) -> (b: bool)
        ensures
            b == (self.deep_view() == other.deep_view()),
    ;
}

/// Where one value stands with respect to another.
#[derive(Clone, Copy, PartialEq, Eq, Structural, Debug)]
pub enum Order {
    Below,
    Same,
    Above,
}

/// A record whose models are strictly and totally ordered.
pub trait Ordered: Record {
    spec fn below(a: Self::V, b: Self::V) -> bool;

    proof fn below_is_strict(a: Self::V, b: Self::V)
        ensures
            !(Self::below(a, b) && Self::below(b, a)),
            !Self::below(a, a),
    ;

    proof fn below_chains(a: Self::V, b: Self::V, c: Self::V)
        requires
            Self::below(a, b),
            Self::below(b, c),
        ensures
            Self::below(a, c),
    ;

    proof fn below_is_total(a: Self::V, b: Self::V)
        ensures
            a == b || Self::below(a, b) || Self::below(b, a),
    ;

    fn order(&self, other: &Self) -> (o: Order)
        ensures
            match o {
                Order::Below => Self::below(self.deep_view(), other.deep_view()),
                Order::Same => self.deep_view() == other.deep_view(),
                Order::Above => Self::below(other.deep_view(), self.deep_view()),
            },
    ;
}

// ---------------------------------------------------------------------------
// Records of plain values
// ---------------------------------------------------------------------------

impl Record for u64 {
    fn dup(&self) -> (r: Self) {
        *self
    }

    fn same(&self, other: &Self) -> (b: bool) {
        *self == *other
    }
}

impl Record for i64 {
    fn dup(&self) -> (r: Self) {
        *self
    }

    fn same(&self, other: &Self) -> (b: bool) {
        *self == *other
    }
}

impl Record for bool {
    fn dup(&self) -> (r: Self) {
        *self
    }

    fn same(&self, other: &Self) -> (b: bool) {
        *self == *other
    }
}

impl Record for u8 {
    fn dup(&self) -> (r: Self) {
        *self
    }

    fn same(&self, other: &Self) -> (b: bool) {
        *self == *other
    }
}

impl Record for String {
    fn dup(&self) -> (r: Self) {
        self.clone()
    }

    fn same(&self, other: &Self) -> (b: bool) {
        *self == *other
    }
}

impl<T: Record> Record for Option<T> {
    fn dup(&self) -> (r: Self) {
        match self {
            Some(value) => Some(value.dup()),
            None => None,
        }
    }

    fn same(&self, other: &Self) -> (b: bool) {
        match (self, other) {
            (Some(a), Some(b)) => a.same(b),
            (None, None) => true,
            _ => false,
        }
    }
}

impl<A: Record, B: Record> Record for (A, B) {
    fn dup(&self) -> (r: Self) {
        (self.0.dup(), self.1.dup())
    }

    fn same(&self, other: &Self) -> (b: bool) {
        self.0.same(&other.0) && self.1.same(&other.1)
    }
}

impl<T: Record> Record for Vec<T> {
    fn dup(&self) -> (r: Self) {
        let mut copy: Vec<T> = Vec::new();
        let mut i: usize = 0;
        while i < self.len()
            invariant
                i <= self@.len(),
                copy@.len() == i,
                forall|j: int| 0 <= j < i ==> (#[trigger] copy@[j]).deep_view() == self@[j].deep_view(),
            decreases self.len() - i,
        {
            copy.push(self[i].dup());
            i = i + 1;
        }
        assert(copy.deep_view() =~= self.deep_view());
        copy
    }

    fn same(&self, other: &Self) -> (b: bool) {
        if self.len() != other.len() {
            assert(self.deep_view().len() != other.deep_view().len());
            return false;
        }
        let mut i: usize = 0;
        while i < self.len()
            invariant
                i <= self@.len(),
                self@.len() == other@.len(),
                forall|j: int|
                    0 <= j < i ==> (#[trigger] self@[j]).deep_view() == other@[j].deep_view(),
            decreases self.len() - i,
        {
            if !self[i].same(&other[i]) {
                assert(self.deep_view()[i as int] != other.deep_view()[i as int]);
                return false;
            }
            i = i + 1;
        }
        assert(self.deep_view() =~= other.deep_view());
        true
    }
}

impl Ordered for u64 {
    open spec fn below(a: u64, b: u64) -> bool {
        a < b
    }

    proof fn below_is_strict(a: u64, b: u64) {
    }

    proof fn below_chains(a: u64, b: u64, c: u64) {
    }

    proof fn below_is_total(a: u64, b: u64) {
    }

    fn order(&self, other: &Self) -> (o: Order) {
        if *self < *other {
            Order::Below
        } else if *self == *other {
            Order::Same
        } else {
            Order::Above
        }
    }
}

/// Code-point order: the first difference decides, and a proper prefix comes
/// first.
pub open spec fn text_below(a: Seq<char>, b: Seq<char>) -> bool
    decreases a.len(),
{
    if b.len() == 0 {
        false
    } else if a.len() == 0 {
        true
    } else {
        a[0] < b[0] || (a[0] == b[0] && text_below(a.skip(1), b.skip(1)))
    }
}

proof fn text_below_strict(a: Seq<char>, b: Seq<char>)
    ensures
        !(text_below(a, b) && text_below(b, a)),
    decreases a.len(),
{
    if a.len() > 0 && b.len() > 0 {
        text_below_strict(a.skip(1), b.skip(1));
    }
}

proof fn text_below_chains(a: Seq<char>, b: Seq<char>, c: Seq<char>)
    requires
        text_below(a, b),
        text_below(b, c),
    ensures
        text_below(a, c),
    decreases a.len(),
{
    if a.len() > 0 && a[0] == b[0] && b[0] == c[0] {
        text_below_chains(a.skip(1), b.skip(1), c.skip(1));
    }
}

proof fn text_below_total(a: Seq<char>, b: Seq<char>)
    ensures
        a == b || text_below(a, b) || text_below(b, a),
    decreases a.len(),
{
    if a.len() > 0 && b.len() > 0 {
        text_below_total(a.skip(1), b.skip(1));
        if a[0] == b[0] && a.skip(1) == b.skip(1) {
            assert(a =~= seq![a[0]] + a.skip(1));
            assert(b =~= seq![b[0]] + b.skip(1));
        }
    } else if a.len() == 0 && b.len() == 0 {
        assert(a =~= b);
    }
}

/// A common prefix does not decide the order.
proof fn text_below_past_prefix(a: Seq<char>, b: Seq<char>, n: int)
    requires
        0 <= n <= a.len(),
        n <= b.len(),
        a.take(n) == b.take(n),
    ensures
        text_below(a, b) == text_below(a.skip(n), b.skip(n)),
    decreases n,
{
    if n == 0 {
        assert(a.skip(0) =~= a);
        assert(b.skip(0) =~= b);
    } else {
        assert(a.take(n)[0] == a[0] && b.take(n)[0] == b[0]);
        assert(a.skip(1).take(n - 1) =~= a.take(n).skip(1));
        assert(b.skip(1).take(n - 1) =~= b.take(n).skip(1));
        text_below_past_prefix(a.skip(1), b.skip(1), n - 1);
        assert(a.skip(1).skip(n - 1) =~= a.skip(n));
        assert(b.skip(1).skip(n - 1) =~= b.skip(n));
    }
}

impl Ordered for String {
    open spec fn below(a: Seq<char>, b: Seq<char>) -> bool {
        text_below(a, b)
    }

    proof fn below_is_strict(a: Seq<char>, b: Seq<char>) {
        text_below_strict(a, b);
        text_below_strict(a, a);
    }

    proof fn below_chains(a: Seq<char>, b: Seq<char>, c: Seq<char>) {
        text_below_chains(a, b, c);
    }

    proof fn below_is_total(a: Seq<char>, b: Seq<char>) {
        text_below_total(a, b);
    }

    fn order(&self, other: &Self) -> (o: Order) {
        let a = chars_of(self.as_str());
        let b = chars_of(other.as_str());
        let mut i: usize = 0;
        while i < a.len() && i < b.len() && a[i] == b[i]
            invariant
                i <= a@.len(),
                i <= b@.len(),
                a@.take(i as int) == b@.take(i as int),
            decreases a.len() - i,
        {
            assert(a@.take(i + 1) =~= a@.take(i as int).push(a@[i as int]));
            assert(b@.take(i + 1) =~= b@.take(i as int).push(b@[i as int]));
            i = i + 1;
        }
        proof {
            text_below_past_prefix(a@, b@, i as int);
            text_below_past_prefix(b@, a@, i as int);
        }
        if i == a.len() {
            if i == b.len() {
                assert(a@.take(i as int) =~= a@);
                assert(b@.take(i as int) =~= b@);
                Order::Same
            } else {
                Order::Below
            }
        } else if i == b.len() {
            Order::Above
        } else if a[i] < b[i] {
            Order::Below
        } else {
            Order::Above
        }
    }
}

impl<A: Ordered, B: Ordered> Ordered for (A, B) {
    open spec fn below(a: (A::V, B::V), b: (A::V, B::V)) -> bool {
        A::below(a.0, b.0) || (a.0 == b.0 && B::below(a.1, b.1))
    }

    proof fn below_is_strict(a: (A::V, B::V), b: (A::V, B::V)) {
        A::below_is_strict(a.0, b.0);
        B::below_is_strict(a.1, b.1);
    }

    proof fn below_chains(a: (A::V, B::V), b: (A::V, B::V), c: (A::V, B::V)) {
        if A::below(a.0, b.0) && A::below(b.0, c.0) {
            A::below_chains(a.0, b.0, c.0);
        }
        if B::below(a.1, b.1) && B::below(b.1, c.1) {
            B::below_chains(a.1, b.1, c.1);
        }
    }

    proof fn below_is_total(a: (A::V, B::V), b: (A::V, B::V)) {
        A::below_is_total(a.0, b.0);
        B::below_is_total(a.1, b.1);
    }

    fn order(&self, other: &Self) -> (o: Order) {
        match self.0.order(&other.0) {
            Order::Same => self.1.order(&other.1),
            decided => decided,
        }
    }
}

// ---------------------------------------------------------------------------
// Ascending sequences
// ---------------------------------------------------------------------------

/// Strictly ascending, hence without repetition.
pub open spec fn ascends<T: Ordered>(s: Seq<T::V>) -> bool {
    forall|i: int, j: int| 0 <= i < j < s.len() ==> T::below(#[trigger] s[i], #[trigger] s[j])
}

/// The elements of a finite set in ascending order.
pub open spec fn ascending<T: Ordered>(s: Set<T::V>) -> Seq<T::V> {
    choose|q: Seq<T::V>| ascends::<T>(q) && q.to_set() == s
}

/// A set has one ascending enumeration.
pub proof fn ascending_is_unique<T: Ordered>(s: Seq<T::V>)
    requires
        ascends::<T>(s),
    ensures
        ascending::<T>(s.to_set()) == s,
{
    let q = ascending::<T>(s.to_set());
    assert(ascends::<T>(s) && s.to_set() == s.to_set());
    assert(ascends::<T>(q) && q.to_set() == s.to_set());
    same_elements_same_order::<T>(s, q, 0);
    same_elements_same_order::<T>(q, s, 0);
    assert(s.len() == q.len());
    assert forall|i: int| 0 <= i < s.len() implies q[i] == s[i] by {
        same_elements_same_order::<T>(s, q, i);
    }
    assert(q =~= s);
}

/// Position by position, two ascending enumerations of one set agree.
proof fn same_elements_same_order<T: Ordered>(s: Seq<T::V>, q: Seq<T::V>, i: int)
    requires
        ascends::<T>(s),
        ascends::<T>(q),
        s.to_set() == q.to_set(),
        0 <= i,
    ensures
        i < s.len() ==> i < q.len() && s[i] == q[i],
        i == 0 ==> s.len() <= q.len(),
    decreases s.len() - i,
{
    if i < s.len() {
        agree_up_to::<T>(s, q, i);
        agree_up_to::<T>(s, q, s.len() - 1);
    }
}

proof fn agree_up_to<T: Ordered>(s: Seq<T::V>, q: Seq<T::V>, i: int)
    requires
        ascends::<T>(s),
        ascends::<T>(q),
        s.to_set() == q.to_set(),
        0 <= i < s.len(),
    ensures
        i < q.len(),
        s[i] == q[i],
    decreases i,
{
    assert(s.to_set().contains(s[i]));
    assert(q.to_set().contains(s[i]));
    let j = choose|j: int| 0 <= j < q.len() && q[j] == s[i];
    if i > 0 {
        agree_up_to::<T>(s, q, i - 1);
    }
    if j < i {
        agree_up_to::<T>(s, q, j);
        assert(T::below(s[j], s[i]));
        T::below_is_strict(s[i], s[i]);
    }
    if j > i {
        assert(q.to_set().contains(q[i]));
        assert(s.to_set().contains(q[i]));
        let k = choose|k: int| 0 <= k < s.len() && s[k] == q[i];
        assert(T::below(q[i], q[j]));
        T::below_is_strict(q[i], q[j]);
        if k > i {
            assert(T::below(s[i], s[k]));
        } else if k < i {
            agree_up_to::<T>(s, q, k);
            assert(T::below(q[k], q[i]));
            T::below_is_strict(q[i], q[i]);
        }
    }
}

proof fn greatest<T: Ordered>(s: Set<T::V>) -> (m: T::V)
    requires
        s.finite(),
        s.len() > 0,
    ensures
        s.contains(m),
        forall|x: T::V| #[trigger] s.contains(x) ==> x == m || T::below(x, m),
    decreases s.len(),
{
    let a = s.choose();
    let rest = s.remove(a);
    if rest.len() == 0 {
        assert forall|x: T::V| #[trigger] s.contains(x) implies x == a by {
            if x != a {
                assert(rest.contains(x));
            }
        }
        a
    } else {
        let m = greatest::<T>(rest);
        T::below_is_total(a, m);
        if a == m || T::below(a, m) {
            assert forall|x: T::V| #[trigger] s.contains(x) implies x == m || T::below(x, m) by {
                assert(x == a || rest.contains(x));
            }
            m
        } else {
            assert forall|x: T::V| #[trigger] s.contains(x) implies x == a || T::below(x, a) by {
                if x != a {
                    assert(rest.contains(x));
                    if x != m {
                        T::below_chains(x, m, a);
                    }
                }
            }
            a
        }
    }
}

/// Every finite set has an ascending enumeration.
pub proof fn finite_sets_ascend<T: Ordered>(s: Set<T::V>)
    requires
        s.finite(),
    ensures
        ascends::<T>(ascending::<T>(s)),
        ascending::<T>(s).to_set() == s,
    decreases s.len(),
{
    if s.len() == 0 {
        let q = Seq::<T::V>::empty();
        assert(s =~= Set::empty());
        assert(q.to_set() =~= s);
        assert(ascends::<T>(q));
    } else {
        let m = greatest::<T>(s);
        let rest = s.remove(m);
        finite_sets_ascend::<T>(rest);
        let q = ascending::<T>(rest);
        let t = q.push(m);
        pushed_elements(q, m);
        assert(t.to_set() =~= s);
        assert forall|i: int, j: int| 0 <= i < j < t.len() implies T::below(
            #[trigger] t[i],
            #[trigger] t[j],
        ) by {
            if j < q.len() {
                assert(t[i] == q[i] && t[j] == q[j]);
            } else {
                assert(t[i] == q[i]);
                assert(q.to_set().contains(q[i]));
                assert(rest.contains(q[i]));
                assert(s.contains(q[i]));
            }
        }
        assert(ascends::<T>(t));
    }
}

/// Pushing an element adds it to the set of elements.
pub proof fn pushed_elements<A>(s: Seq<A>, x: A)
    ensures
        s.push(x).to_set() == s.to_set().insert(x),
{
    let t = s.push(x);
    assert forall|y: A| #[trigger] t.to_set().contains(y) <==> s.to_set().insert(x).contains(y) by {
        if s.contains(y) {
            let i = choose|i: int| 0 <= i < s.len() && s[i] == y;
            assert(t[i] == y);
        }
        assert(t[s.len() as int] == x);
    }
    assert(t.to_set() =~= s.to_set().insert(x));
}

// ---------------------------------------------------------------------------
// Sets
// ---------------------------------------------------------------------------

/// A finite set kept in ascending order.
#[derive(Debug, PartialEq, Eq)]
pub struct OrdSet<T: Ordered> {
    items: Vec<T>,
}

impl<T: Ordered> View for OrdSet<T> {
    type V = Set<T::V>;

    closed spec fn view(&self) -> Set<T::V> {
        self.items.deep_view().to_set()
    }
}

impl<T: Ordered> DeepView for OrdSet<T> {
    type V = Set<T::V>;

    open spec fn deep_view(&self) -> Set<T::V> {
        self.view()
    }
}

impl<T: Ordered> OrdSet<T> {
    #[verifier::type_invariant]
    spec fn in_order(self) -> bool {
        ascends::<T>(self.items.deep_view())
    }

    pub fn new() -> (s: Self)
        ensures
            s@ == Set::<T::V>::empty(),
    {
        let s = OrdSet { items: Vec::new() };
        assert(s@ =~= Set::<T::V>::empty());
        s
    }

    /// The elements in ascending order.
    pub fn items(&self) -> (items: &Vec<T>)
        ensures
            ascends::<T>(items.deep_view()),
            items.deep_view().to_set() == self@,
            items.deep_view() == ascending::<T>(self@),
            self@.finite(),
    {
        proof {
            use_type_invariant(self);
            ascending_is_unique::<T>(self.items.deep_view());
        }
        &self.items
    }

    pub fn is_empty(&self) -> (empty: bool)
        ensures
            empty == (self@ == Set::<T::V>::empty()),
    {
        let empty = self.items.len() == 0;
        proof {
            let s = self.items.deep_view();
            if empty {
                assert(self@ =~= Set::<T::V>::empty());
            } else {
                assert(self@.contains(s[0]));
            }
        }
        empty
    }

    /// The position of the first element that is not below `item`.
    fn rank(&self, item: &T) -> (at: usize)
        ensures
            at <= self.items@.len(),
            forall|i: int|
                0 <= i < at ==> T::below(#[trigger] self.items.deep_view()[i], item.deep_view()),
            forall|i: int|
                at <= i < self.items@.len() ==> (#[trigger] self.items.deep_view()[i]
                    == item.deep_view() || T::below(item.deep_view(), self.items.deep_view()[i])),
            at < self.items@.len() && self.items.deep_view()[at as int] != item.deep_view()
                ==> !self@.contains(item.deep_view()),
            at == self.items@.len() ==> !self@.contains(item.deep_view()),
    {
        proof {
            use_type_invariant(self);
        }
        let ghost s = self.items.deep_view();
        let ghost x = item.deep_view();
        let mut at: usize = 0;
        while at < self.items.len()
            invariant
                s == self.items.deep_view(),
                x == item.deep_view(),
                ascends::<T>(s),
                at <= self.items@.len(),
                forall|i: int| 0 <= i < at ==> T::below(#[trigger] s[i], x),
            ensures
                at <= self.items@.len(),
                forall|i: int| 0 <= i < at ==> T::below(#[trigger] s[i], x),
                at < self.items@.len() ==> (s[at as int] == x || T::below(x, s[at as int])),
            decreases self.items.len() - at,
        {
            match self.items[at].order(item) {
                Order::Below => {
                    at = at + 1;
                },
                _ => {
                    break;
                },
            }
        }
        proof {
            assert forall|i: int| at <= i < s.len() implies (#[trigger] s[i] == x || T::below(x, s[i])) by {
                if i > at {
                    assert(T::below(s[at as int], s[i]));
                    if s[at as int] != x {
                        T::below_chains(x, s[at as int], s[i]);
                    }
                }
            }
            assert forall|i: int| 0 <= i < s.len() && #[trigger] s[i] == x implies i == at by {
                T::below_is_strict(x, x);
                if i > at {
                    assert(T::below(s[at as int], s[i]));
                    T::below_is_strict(s[at as int], s[i]);
                }
            }
        }
        at
    }

    pub fn contains(&self, item: &T) -> (found: bool)
        ensures
            found == self@.contains(item.deep_view()),
    {
        let at = self.rank(item);
        let ghost s = self.items.deep_view();
        if at < self.items.len() {
            let found = self.items[at].same(item);
            assert(found ==> s[at as int] == item.deep_view());
            found
        } else {
            false
        }
    }

    pub fn insert(&mut self, item: T)
        ensures
            final(self)@ == old(self)@.insert(item.deep_view()),
    {
        let at = self.rank(&item);
        let ghost s = self.items.deep_view();
        let ghost x = item.deep_view();
        proof {
            use_type_invariant(&*self);
        }
        if at < self.items.len() && self.items[at].same(&item) {
            assert(s[at as int] == x);
            assert(self@.insert(x) =~= self@);
            return;
        }
        let mut items: Vec<T> = Vec::new();
        std::mem::swap(&mut items, &mut self.items);
        items.insert(at, item);
        proof {
            let t = items.deep_view();
            assert(t =~= s.insert(at as int, x));
            assert forall|i: int, j: int| 0 <= i < j < t.len() implies T::below(
                #[trigger] t[i],
                #[trigger] t[j],
            ) by {
                let a = if i < at { i } else { i - 1 };
                let b = if j < at { j } else { j - 1 };
                if i != at && j != at {
                    assert(t[i] == s[a] && t[j] == s[b]);
                } else if j == at {
                    assert(t[i] == s[a]);
                } else {
                    assert(t[j] == s[b]);
                }
            }
            assert(t.to_set() =~= s.to_set().insert(x)) by {
                assert forall|y: T::V| #[trigger] t.to_set().contains(y) <==> s.to_set().insert(x).contains(y) by {
                    if t.contains(y) {
                        let i = choose|i: int| 0 <= i < t.len() && t[i] == y;
                        if i < at {
                            assert(s[i] == y);
                        } else if i > at {
                            assert(s[i - 1] == y);
                        }
                    }
                    if s.contains(y) {
                        let i = choose|i: int| 0 <= i < s.len() && s[i] == y;
                        if i < at {
                            assert(t[i] == y);
                        } else {
                            assert(t[i + 1] == y);
                        }
                    }
                    assert(t[at as int] == x);
                }
            }
        }
        self.items = items;
    }

    pub fn clear(&mut self)
        ensures
            final(self)@ == Set::<T::V>::empty(),
    {
        self.items = Vec::new();
        assert(self@ =~= Set::<T::V>::empty());
    }
}

impl<T: Ordered> Clone for OrdSet<T> {
    fn clone(&self) -> (r: Self)
        ensures
            r@ == self@,
    {
        self.dup()
    }
}

impl<T: Ordered> Record for OrdSet<T> {
    fn dup(&self) -> (r: Self) {
        let items = self.items().dup();
        OrdSet { items }
    }

    fn same(&self, other: &Self) -> (b: bool) {
        let a = self.items();
        let b = other.items();
        a.same(b)
    }
}

// ---------------------------------------------------------------------------
// Maps
// ---------------------------------------------------------------------------

/// The keys of a sequence of entries.
pub open spec fn keys_of<A, B>(entries: Seq<(A, B)>) -> Seq<A> {
    Seq::new(entries.len(), |i: int| entries[i].0)
}

/// The map that a sequence of entries with distinct keys describes.
pub open spec fn map_of<A, B>(entries: Seq<(A, B)>) -> Map<A, B> {
    Map::new(
        |k: A| keys_of(entries).contains(k),
        |k: A| entries[choose|i: int| 0 <= i < entries.len() && entries[i].0 == k].1,
    )
}

/// A finite map kept in ascending order of its keys.
#[derive(Debug, PartialEq, Eq)]
pub struct OrdMap<K: Ordered, V: Record> {
    entries: Vec<(K, V)>,
}

impl<K: Ordered, V: Record> View for OrdMap<K, V> {
    type V = Map<K::V, V::V>;

    closed spec fn view(&self) -> Map<K::V, V::V> {
        map_of(self.entries.deep_view())
    }
}

impl<K: Ordered, V: Record> DeepView for OrdMap<K, V> {
    type V = Map<K::V, V::V>;

    open spec fn deep_view(&self) -> Map<K::V, V::V> {
        self.view()
    }
}

proof fn entry_of<K: Ordered, V: Record>(e: Seq<(K::V, V::V)>, i: int)
    requires
        ascends::<K>(keys_of(e)),
        0 <= i < e.len(),
    ensures
        map_of(e).contains_key(e[i].0),
        map_of(e)[e[i].0] == e[i].1,
{
    let k = e[i].0;
    assert(keys_of(e)[i] == k);
    let j = choose|j: int| 0 <= j < e.len() && e[j].0 == k;
    assert(keys_of(e)[j] == k);
    K::below_is_strict(k, k);
    if i < j {
        assert(K::below(keys_of(e)[i], keys_of(e)[j]));
    } else if j < i {
        assert(K::below(keys_of(e)[j], keys_of(e)[i]));
    }
}

proof fn key_position<A, B>(e: Seq<(A, B)>, k: A) -> (i: int)
    requires
        map_of(e).contains_key(k),
    ensures
        0 <= i < e.len(),
        e[i].0 == k,
{
    let i = choose|i: int| 0 <= i < keys_of(e).len() && keys_of(e)[i] == k;
    i
}

/// Two ascending sequences of entries that describe one map are equal.
proof fn same_map_same_entries<K: Ordered, V: Record>(a: Seq<(K::V, V::V)>, b: Seq<(K::V, V::V)>)
    requires
        ascends::<K>(keys_of(a)),
        ascends::<K>(keys_of(b)),
        map_of(a) == map_of(b),
    ensures
        a == b,
{
    assert(keys_of(a).to_set() =~= map_of(a).dom());
    assert(keys_of(b).to_set() =~= map_of(b).dom());
    ascending_is_unique::<K>(keys_of(a));
    ascending_is_unique::<K>(keys_of(b));
    assert(keys_of(a) == keys_of(b));
    assert(keys_of(a).len() == a.len() && keys_of(b).len() == b.len());
    assert forall|i: int| 0 <= i < a.len() implies a[i] == b[i] by {
        entry_of::<K, V>(a, i);
        entry_of::<K, V>(b, i);
        assert(keys_of(a)[i] == keys_of(b)[i]);
    }
    assert(a =~= b);
}

impl<K: Ordered, V: Record> OrdMap<K, V> {
    #[verifier::type_invariant]
    spec fn in_order(self) -> bool {
        ascends::<K>(keys_of(self.entries.deep_view()))
    }

    pub fn new() -> (m: Self)
        ensures
            m@ == Map::<K::V, V::V>::empty(),
    {
        let m = OrdMap { entries: Vec::new() };
        assert(m@ =~= Map::<K::V, V::V>::empty());
        m
    }

    pub fn is_empty(&self) -> (empty: bool)
        ensures
            empty == (self@ == Map::<K::V, V::V>::empty()),
    {
        let empty = self.entries.len() == 0;
        proof {
            use_type_invariant(self);
            let e = self.entries.deep_view();
            if empty {
                assert(self@ =~= Map::<K::V, V::V>::empty());
            } else {
                entry_of::<K, V>(e, 0);
                assert(self@.contains_key(e[0].0));
            }
        }
        empty
    }

    /// The number of keys.
    pub fn len(&self) -> (n: usize)
        ensures
            n == self@.dom().len(),
            self@.dom().finite(),
    {
        proof {
            use_type_invariant(self);
            let keys = keys_of(self.entries.deep_view());
            assert(keys.to_set() =~= self@.dom());
            assert(keys.no_duplicates()) by {
                assert forall|i: int, j: int| 0 <= i < keys.len() && 0 <= j < keys.len() && i != j
                    implies keys[i] != keys[j] by {
                    K::below_is_strict(keys[i], keys[j]);
                    if i < j {
                        assert(K::below(keys[i], keys[j]));
                    } else {
                        assert(K::below(keys[j], keys[i]));
                    }
                }
            }
            keys.unique_seq_to_set();
        }
        self.entries.len()
    }

    /// The keys in ascending order.
    pub fn keys(&self) -> (keys: Vec<K>)
        ensures
            ascends::<K>(keys.deep_view()),
            keys.deep_view().to_set() == self@.dom(),
            keys.deep_view() == ascending::<K>(self@.dom()),
            self@.dom().finite(),
    {
        proof {
            use_type_invariant(self);
        }
        let mut keys: Vec<K> = Vec::new();
        let mut i: usize = 0;
        while i < self.entries.len()
            invariant
                i <= self.entries@.len(),
                keys@.len() == i,
                forall|j: int|
                    0 <= j < i ==> (#[trigger] keys@[j]).deep_view() == self.entries@[j].0.deep_view(),
            decreases self.entries.len() - i,
        {
            keys.push(self.entries[i].0.dup());
            i = i + 1;
        }
        proof {
            let e = self.entries.deep_view();
            assert(keys.deep_view() =~= keys_of(e));
            assert(keys_of(e).to_set() =~= self@.dom());
            ascending_is_unique::<K>(keys_of(e));
        }
        keys
    }

    /// The position of the first key that is not below `key`.
    fn rank(&self, key: &K) -> (at: usize)
        ensures
            at <= self.entries@.len(),
            ({
                let keys = keys_of(self.entries.deep_view());
                let k = key.deep_view();
                &&& forall|i: int| 0 <= i < at ==> K::below(#[trigger] keys[i], k)
                &&& forall|i: int|
                    at <= i < keys.len() ==> (#[trigger] keys[i] == k || K::below(k, keys[i]))
                &&& self@.contains_key(k) ==> at < keys.len() && keys[at as int] == k
                    && self@[k] == self.entries.deep_view()[at as int].1
                &&& !self@.contains_key(k) && at < keys.len() ==> keys[at as int] != k
            }),
    {
        proof {
            use_type_invariant(self);
        }
        let ghost e = self.entries.deep_view();
        let ghost keys = keys_of(e);
        let ghost k = key.deep_view();
        let mut at: usize = 0;
        while at < self.entries.len()
            invariant
                e == self.entries.deep_view(),
                keys == keys_of(e),
                k == key.deep_view(),
                ascends::<K>(keys),
                at <= self.entries@.len(),
                forall|i: int| 0 <= i < at ==> K::below(#[trigger] keys[i], k),
            ensures
                at <= self.entries@.len(),
                forall|i: int| 0 <= i < at ==> K::below(#[trigger] keys[i], k),
                at < self.entries@.len() ==> (keys[at as int] == k || K::below(k, keys[at as int])),
            decreases self.entries.len() - at,
        {
            match self.entries[at].0.order(key) {
                Order::Below => {
                    at = at + 1;
                },
                _ => {
                    break;
                },
            }
        }
        proof {
            assert forall|i: int| at <= i < keys.len() implies (#[trigger] keys[i] == k || K::below(
                k,
                keys[i],
            )) by {
                if i > at {
                    assert(K::below(keys[at as int], keys[i]));
                    if keys[at as int] != k {
                        K::below_chains(k, keys[at as int], keys[i]);
                    }
                }
            }
            if self@.contains_key(k) {
                let i = key_position(e, k);
                assert(keys[i] == k);
                K::below_is_strict(k, k);
                if i > at {
                    assert(K::below(keys[at as int], keys[i]));
                    K::below_is_strict(keys[at as int], k);
                }
                assert(i == at);
                entry_of::<K, V>(e, i);
            } else if at < keys.len() && keys[at as int] == k {
                entry_of::<K, V>(e, at as int);
            }
        }
        at
    }

    pub fn get(&self, key: &K) -> (value: Option<&V>)
        ensures
            match value {
                Some(v) => self@.contains_key(key.deep_view()) && v.deep_view()
                    == self@[key.deep_view()],
                None => !self@.contains_key(key.deep_view()),
            },
    {
        let at = self.rank(key);
        let ghost e = self.entries.deep_view();
        if at < self.entries.len() && self.entries[at].0.same(key) {
            assert(e[at as int].0 == key.deep_view());
            assert(keys_of(e)[at as int] == key.deep_view());
            Some(&self.entries[at].1)
        } else {
            None
        }
    }

    pub fn contains_key(&self, key: &K) -> (found: bool)
        ensures
            found == self@.contains_key(key.deep_view()),
    {
        self.get(key).is_some()
    }

    pub fn insert(&mut self, key: K, value: V)
        ensures
            final(self)@ == old(self)@.insert(key.deep_view(), value.deep_view()),
    {
        let at = self.rank(&key);
        let ghost e = self.entries.deep_view();
        let ghost k = key.deep_view();
        let ghost v = value.deep_view();
        proof {
            use_type_invariant(&*self);
        }
        let mut entries: Vec<(K, V)> = Vec::new();
        std::mem::swap(&mut entries, &mut self.entries);
        if at < entries.len() && entries[at].0.same(&key) {
            assert(e[at as int].0 == k);
            entries.set(at, (key, value));
            proof {
                let t = entries.deep_view();
                assert(t =~= e.update(at as int, (k, v)));
                assert(keys_of(t) =~= keys_of(e));
                self.describes_insert(e, t, k, v, at as int);
            }
        } else {
            entries.insert(at, (key, value));
            proof {
                let t = entries.deep_view();
                assert(t =~= e.insert(at as int, (k, v)));
                let s = keys_of(e);
                let q = keys_of(t);
                assert forall|i: int, j: int| 0 <= i < j < q.len() implies K::below(
                    #[trigger] q[i],
                    #[trigger] q[j],
                ) by {
                    let a = if i < at { i } else { i - 1 };
                    let b = if j < at { j } else { j - 1 };
                    if i != at && j != at {
                        assert(q[i] == s[a] && q[j] == s[b]);
                    } else if j == at {
                        assert(q[i] == s[a]);
                    } else {
                        assert(q[j] == s[b]);
                    }
                }
                self.describes_insert(e, t, k, v, at as int);
            }
        }
        self.entries = entries;
    }

    proof fn describes_insert(&self, e: Seq<(K::V, V::V)>, t: Seq<(K::V, V::V)>, k: K::V, v: V::V, at: int)
        requires
            ascends::<K>(keys_of(e)),
            ascends::<K>(keys_of(t)),
            0 <= at < t.len(),
            t[at] == (k, v),
            ({
                ||| at <= e.len() && t == e.insert(at, (k, v))
                ||| at < e.len() && e[at].0 == k && t == e.update(at, (k, v))
            }),
        ensures
            map_of(t) == map_of(e).insert(k, v),
    {
        let m = map_of(t);
        let n = map_of(e).insert(k, v);
        entry_of::<K, V>(t, at);
        assert forall|x: K::V| #[trigger] m.contains_key(x) <==> n.contains_key(x) by {
            if m.contains_key(x) {
                let i = key_position(t, x);
                if i != at {
                    let j = if t.len() == e.len() || i < at { i } else { i - 1 };
                    assert(e[j] == t[i]);
                    entry_of::<K, V>(e, j);
                }
            }
            if n.contains_key(x) && x != k {
                let i = key_position(e, x);
                let j = if t.len() == e.len() || i < at { i } else { i + 1 };
                assert(e[i] == t[j]);
                entry_of::<K, V>(t, j);
            }
        }
        assert forall|x: K::V| m.contains_key(x) implies #[trigger] m[x] == n[x] by {
            if x != k {
                let i = key_position(t, x);
                let j = if t.len() == e.len() || i < at { i } else { i - 1 };
                assert(e[j] == t[i]);
                entry_of::<K, V>(e, j);
                entry_of::<K, V>(t, i);
            }
        }
        assert(m =~= n);
    }

    pub fn remove(&mut self, key: &K) -> (value: Option<V>)
        ensures
            final(self)@ == old(self)@.remove(key.deep_view()),
            match value {
                Some(v) => old(self)@.contains_key(key.deep_view()) && v.deep_view()
                    == old(self)@[key.deep_view()],
                None => !old(self)@.contains_key(key.deep_view()),
            },
    {
        let at = self.rank(key);
        let ghost e = self.entries.deep_view();
        let ghost k = key.deep_view();
        proof {
            use_type_invariant(&*self);
        }
        if at < self.entries.len() && self.entries[at].0.same(key) {
            assert(e[at as int].0 == k);
            assert(keys_of(e)[at as int] == k);
            let mut entries: Vec<(K, V)> = Vec::new();
            std::mem::swap(&mut entries, &mut self.entries);
            let (_, value) = entries.remove(at);
            proof {
                let t = entries.deep_view();
                assert(t =~= e.remove(at as int));
                let s = keys_of(e);
                let q = keys_of(t);
                assert forall|i: int, j: int| 0 <= i < j < q.len() implies K::below(
                    #[trigger] q[i],
                    #[trigger] q[j],
                ) by {
                    let a = if i < at { i } else { i + 1 };
                    let b = if j < at { j } else { j + 1 };
                    assert(q[i] == s[a] && q[j] == s[b]);
                }
                let m = map_of(t);
                let n = map_of(e).remove(k);
                assert forall|x: K::V| #[trigger] m.contains_key(x) <==> n.contains_key(x) by {
                    if m.contains_key(x) {
                        let i = key_position(t, x);
                        let j = if i < at { i } else { i + 1 };
                        assert(e[j] == t[i]);
                        entry_of::<K, V>(e, j);
                        assert(s[j] == x);
                        K::below_is_strict(k, k);
                        if j < at {
                            assert(K::below(s[j], s[at as int]));
                        } else {
                            assert(K::below(s[at as int], s[j]));
                        }
                    }
                    if n.contains_key(x) {
                        let i = key_position(e, x);
                        let j = if i < at { i } else { i - 1 };
                        assert(e[i] == t[j]);
                        entry_of::<K, V>(t, j);
                    }
                }
                assert forall|x: K::V| m.contains_key(x) implies #[trigger] m[x] == n[x] by {
                    let i = key_position(t, x);
                    let j = if i < at { i } else { i + 1 };
                    assert(e[j] == t[i]);
                    entry_of::<K, V>(e, j);
                    entry_of::<K, V>(t, i);
                }
                assert(m =~= n);
            }
            self.entries = entries;
            Some(value)
        } else {
            assert(self@.remove(k) =~= self@);
            None
        }
    }
}

/// The keys of the entries that satisfy `p`.
pub open spec fn selected<A, B>(m: Map<A, B>, p: spec_fn(A, B) -> bool) -> Set<A> {
    Set::new(|k: A| m.contains_key(k) && p(k, m[k]))
}

impl<K: Ordered, V: Record> OrdMap<K, V> {
    /// The keys of the entries on which `test` answers yes.
    pub fn select<F: Fn(&K, &V) -> bool>(
        &self,
        test: F,
        Ghost(p): Ghost<spec_fn(K::V, V::V) -> bool>,
    ) -> (keys: OrdSet<K>)
        requires
            forall|k: &K, v: &V| #[trigger] test.requires((k, v)),
            forall|k: &K, v: &V, b: bool| #[trigger]
                test.ensures((k, v), b) ==> b == p(k.deep_view(), v.deep_view()),
        ensures
            keys@ == selected(self@, p),
    {
        proof {
            use_type_invariant(self);
        }
        let ghost e = self.entries.deep_view();
        let mut keys: OrdSet<K> = OrdSet::new();
        let mut i: usize = 0;
        while i < self.entries.len()
            invariant
                i <= self.entries@.len(),
                e == self.entries.deep_view(),
                ascends::<K>(keys_of(e)),
                forall|k: &K, v: &V| #[trigger] test.requires((k, v)),
                forall|k: &K, v: &V, b: bool| #[trigger]
                    test.ensures((k, v), b) ==> b == p(k.deep_view(), v.deep_view()),
                forall|k: K::V| #[trigger]
                    keys@.contains(k) <==> exists|j: int|
                        0 <= j < i && #[trigger] e[j].0 == k && p(k, e[j].1),
            decreases self.entries.len() - i,
        {
            let ghost before = keys@;
            let entry = &self.entries[i];
            if test(&entry.0, &entry.1) {
                keys.insert(entry.0.dup());
            }
            proof {
                assert(e[i as int] == (entry.0.deep_view(), entry.1.deep_view()));
                assert forall|k: K::V| #[trigger] keys@.contains(k) <==> exists|j: int|
                    0 <= j < i + 1 && #[trigger] e[j].0 == k && p(k, e[j].1) by {
                    if keys@.contains(k) {
                        if before.contains(k) {
                            let j = choose|j: int|
                                0 <= j < i && #[trigger] e[j].0 == k && p(k, e[j].1);
                            assert(e[j].0 == k);
                        } else {
                            assert(e[i as int].0 == k);
                        }
                    }
                    if exists|j: int| 0 <= j < i + 1 && #[trigger] e[j].0 == k && p(k, e[j].1) {
                        let j = choose|j: int|
                            0 <= j < i + 1 && #[trigger] e[j].0 == k && p(k, e[j].1);
                        if j < i {
                            assert(before.contains(k));
                        }
                    }
                }
            }
            i = i + 1;
        }
        proof {
            assert forall|k: K::V| #[trigger] keys@.contains(k) <==> selected(self@, p).contains(
                k,
            ) by {
                if keys@.contains(k) {
                    let j = choose|j: int| 0 <= j < i && #[trigger] e[j].0 == k && p(k, e[j].1);
                    entry_of::<K, V>(e, j);
                }
                if self@.contains_key(k) && p(k, self@[k]) {
                    let j = key_position(e, k);
                    entry_of::<K, V>(e, j);
                    assert(e[j].0 == k);
                }
            }
            assert(keys@ =~= selected(self@, p));
        }
        keys
    }
}

impl<K: Ordered, V: Record> Clone for OrdMap<K, V> {
    fn clone(&self) -> (r: Self)
        ensures
            r@ == self@,
    {
        self.dup()
    }
}

impl<K: Ordered, V: Record> Record for OrdMap<K, V> {
    fn dup(&self) -> (r: Self) {
        proof {
            use_type_invariant(self);
        }
        let entries = self.entries.dup();
        OrdMap { entries }
    }

    fn same(&self, other: &Self) -> (b: bool) {
        proof {
            use_type_invariant(self);
            use_type_invariant(other);
            if self@ == other@ {
                same_map_same_entries::<K, V>(self.entries.deep_view(), other.entries.deep_view());
            }
        }
        self.entries.same(&other.entries)
    }
}

} // verus!
