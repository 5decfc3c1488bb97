//! Ordered sets of identities, kept as strictly increasing lists.

use vstd::prelude::*;

verus! {

/// Whether `s` is strictly increasing.
pub open spec fn increasing(s: Seq<u64>) -> bool {
    forall|i: int, j: int| 0 <= i < j < s.len() ==> s[i] < s[j]
}

/// `s` with `x` put in its place, unless it is there already.
pub open spec fn with_id(s: Seq<u64>, x: u64) -> Seq<u64>
    decreases s.len(),
{
    if s.len() == 0 {
        seq![x]
    } else if s.last() < x {
        s.push(x)
    } else if s.last() == x {
        s
    } else {
        with_id(s.drop_last(), x).push(s.last())
    }
}

/// The union of `s` and `t`, taking the ids of `t` one by one.
pub open spec fn with_ids(s: Seq<u64>, t: Seq<u64>) -> Seq<u64>
    decreases t.len(),
{
    if t.len() == 0 {
        s
    } else {
        with_id(with_ids(s, t.drop_last()), t.last())
    }
}

/// Adding an id keeps the order and adds exactly that id.
pub proof fn lemma_with_id(s: Seq<u64>, x: u64)
    requires
        increasing(s),
    ensures
        increasing(with_id(s, x)),
        with_id(s, x).to_set() =~= s.to_set().insert(x),
        with_id(s, x).len() <= s.len() + 1,
    decreases s.len(),
{
    broadcast use vstd::seq_lib::group_to_multiset_ensures;
    let r = with_id(s, x);
    if s.len() == 0 {
        assert(r[0] == x);
        assert(r.contains(x));
    } else if s.last() < x {
        assert(r[r.len() - 1] == x);
        assert forall|y: u64| #[trigger] s.to_set().insert(x).contains(y) implies r.contains(y) by {
            if y != x {
                let i = choose|i: int| 0 <= i < s.len() && s[i] == y;
                assert(r[i] == y);
            }
        }
        assert forall|y: u64| r.contains(y) implies #[trigger] s.to_set().insert(x).contains(y) by {
            let i = choose|i: int| 0 <= i < r.len() && r[i] == y;
            if i < s.len() {
                assert(s[i] == y);
            }
        }
    } else if s.last() == x {
        assert(s[s.len() - 1] == x);
        assert(s.contains(x));
    } else {
        let p = s.drop_last();
        assert(increasing(p));
        lemma_with_id(p, x);
        let q = with_id(p, x);
        assert forall|i: int| 0 <= i < q.len() implies q[i] < s.last() by {
            assert(q.to_set().contains(q[i]));
            if q[i] != x {
                assert(p.to_set().contains(q[i]));
                let j = choose|j: int| 0 <= j < p.len() && p[j] == q[i];
                assert(s[j] == q[i]);
            }
        }
        assert(r[q.len() as int] == s.last());
        assert forall|y: u64| #[trigger] s.to_set().insert(x).contains(y) implies r.contains(y) by {
            if y == x || p.contains(y) {
                assert(q.to_set().contains(y));
                let i = choose|i: int| 0 <= i < q.len() && q[i] == y;
                assert(r[i] == y);
            } else {
                let i = choose|i: int| 0 <= i < s.len() && s[i] == y;
                if i < p.len() {
                    assert(p[i] == y);
                }
                assert(y == s.last());
            }
        }
        assert forall|y: u64| r.contains(y) implies #[trigger] s.to_set().insert(x).contains(y) by {
            let i = choose|i: int| 0 <= i < r.len() && r[i] == y;
            if i < q.len() {
                assert(q.to_set().contains(y));
                if y != x {
                    let j = choose|j: int| 0 <= j < p.len() && p[j] == y;
                    assert(s[j] == y);
                }
            } else {
                assert(s[s.len() - 1] == y);
            }
        }
    }
}

/// The union keeps the order and holds exactly the ids of both sides.
pub proof fn lemma_with_ids(s: Seq<u64>, t: Seq<u64>)
    requires
        increasing(s),
    ensures
        increasing(with_ids(s, t)),
        with_ids(s, t).to_set() =~= s.to_set().union(t.to_set()),
    decreases t.len(),
{
    if t.len() == 0 {
        assert(t.to_set() =~= Set::empty());
    } else {
        let p = t.drop_last();
        lemma_with_ids(s, p);
        lemma_with_id(with_ids(s, p), t.last());
        assert forall|y: u64| t.to_set().contains(y) <==> #[trigger] p.to_set().insert(t.last()).contains(y) by {
            if t.contains(y) {
                let i = choose|i: int| 0 <= i < t.len() && t[i] == y;
                if i < p.len() {
                    assert(p[i] == y);
                }
            }
            if p.contains(y) {
                let i = choose|i: int| 0 <= i < p.len() && p[i] == y;
                assert(t[i] == y);
            }
            assert(t[t.len() - 1] == t.last());
        }
        assert(t.to_set() =~= p.to_set().insert(t.last()));
    }
}

/// A set of identities.
pub struct IdSet {
    ids: Vec<u64>,
}

impl View for IdSet {
    type V = Seq<u64>;

    closed spec fn view(&self) -> Seq<u64> {
        self.ids@
    }
}

impl IdSet {
    /// The empty set.
    pub fn new() -> (r: IdSet)
        ensures
            r@ == Seq::<u64>::empty(),
    {
        IdSet { ids: Vec::new() }
    }

    /// The set that holds `x` alone.
    pub fn single(x: u64) -> (r: IdSet)
        ensures
            r@ == seq![x],
    {
        let mut ids: Vec<u64> = Vec::new();
        ids.push(x);
        assert(ids@ =~= seq![x]);
        IdSet { ids }
    }

    /// The number of ids.
    pub fn len(&self) -> (r: usize)
        ensures
            r == self@.len(),
    {
        self.ids.len()
    }

    /// A copy of the set.
    pub fn copy(&self) -> (r: IdSet)
        ensures
            r@ == self@,
    {
        IdSet { ids: copy_ids(&self.ids) }
    }

    /// Add `x`.
    pub fn insert(&mut self, x: u64)
        ensures
            final(self)@ == with_id(old(self)@, x),
    {
        let mut tail: Vec<u64> = Vec::new();
        let ghost whole = self.ids@;
        while self.ids.len() > 0 && self.ids[self.ids.len() - 1] > x
            invariant
                with_id(whole, x) =~= with_id(self.ids@, x) + tail@.reverse(),
            decreases self.ids.len(),
        {
            let ghost before = self.ids@;
            let ghost tail_before = tail@;
            if let Some(y) = self.ids.pop() {
                tail.push(y);
                proof {
                    assert(before.drop_last() =~= self.ids@);
                    assert(tail@.reverse() =~= seq![y] + tail_before.reverse());
                    assert(with_id(before, x) =~= with_id(self.ids@, x).push(y));
                }
            }
        }
        let n: usize = self.ids.len();
        if n == 0 || self.ids[n - 1] < x {
            self.ids.push(x);
        }
        assert(with_id(whole, x) =~= self.ids@ + tail@.reverse());
        while tail.len() > 0
            invariant
                with_id(whole, x) =~= self.ids@ + tail@.reverse(),
            decreases tail.len(),
        {
            let ghost before = tail@;
            let ghost ids_before = self.ids@;
            if let Some(y) = tail.pop() {
                self.ids.push(y);
                proof {
                    assert(before.reverse() =~= seq![y] + tail@.reverse());
                    assert(self.ids@ + tail@.reverse() =~= ids_before + before.reverse());
                }
            }
        }
        assert(tail@.reverse() =~= Seq::<u64>::empty());
        assert(self.ids@ =~= with_id(whole, x));
    }

    /// Add every id of `other`.
    pub fn insert_all(&mut self, other: &IdSet)
        ensures
            final(self)@ == with_ids(old(self)@, other@),
    {
        let mut i: usize = 0;
        while i < other.ids.len()
            invariant
                i <= other.ids@.len(),
                self@ == with_ids(old(self)@, other@.take(i as int)),
            decreases other.ids.len() - i,
        {
            self.insert(other.ids[i]);
            proof {
                assert(other@.take(i + 1).drop_last() =~= other@.take(i as int));
            }
            i = i + 1;
        }
        assert(other@.take(i as int) =~= other@);
    }

    /// Whether the two sets share an id.
    pub fn meets(&self, other: &IdSet) -> (r: bool)
        ensures
            r == ids_meet(self@, other@),
    {
        let mut i: usize = 0;
        while i < self.ids.len()
            invariant
                i <= self.ids@.len(),
                forall|k: int| 0 <= k < i ==> !other@.contains(#[trigger] self@[k]),
            decreases self.ids.len() - i,
        {
            if contains_id(&other.ids, self.ids[i]) {
                assert(self@.contains(self@[i as int]));
                return true;
            }
            i = i + 1;
        }
        false
    }

    /// The ids as a list.
    pub fn to_list(&self) -> (r: Vec<u64>)
        ensures
            r@ == self@,
    {
        copy_ids(&self.ids)
    }
}

/// Whether two id lists share an element.
pub open spec fn ids_meet(a: Seq<u64>, b: Seq<u64>) -> bool {
    exists|x: u64| #[trigger] a.contains(x) && b.contains(x)
}

/// Whether `x` is in the list.
pub fn contains_id(ids: &Vec<u64>, x: u64) -> (r: bool)
    ensures
        r == ids@.contains(x),
{
    let mut i: usize = 0;
    while i < ids.len()
        invariant
            i <= ids@.len(),
            forall|k: int| 0 <= k < i ==> ids@[k] != x,
        decreases ids.len() - i,
    {
        if ids[i] == x {
            assert(ids@[i as int] == x);
            return true;
        }
        i = i + 1;
    }
    false
}

/// A copy of an id list.
pub fn copy_ids(ids: &Vec<u64>) -> (r: Vec<u64>)
    ensures
        r@ == ids@,
{
    let mut out: Vec<u64> = Vec::new();
    let mut i: usize = 0;
    while i < ids.len()
        invariant
            i <= ids@.len(),
            out@ =~= ids@.take(i as int),
        decreases ids.len() - i,
    {
        out.push(ids[i]);
        i = i + 1;
    }
    assert(ids@.take(i as int) =~= ids@);
    out
}

/// Append a copy of `more` to `ids`.
pub fn extend_ids(ids: &mut Vec<u64>, more: &Vec<u64>)
    ensures
        final(ids)@ == old(ids)@ + more@,
{
    let mut i: usize = 0;
    while i < more.len()
        invariant
            i <= more@.len(),
            ids@ =~= old(ids)@ + more@.take(i as int),
        decreases more.len() - i,
    {
        ids.push(more[i]);
        i = i + 1;
    }
    assert(more@.take(i as int) =~= more@);
}

} // verus!
