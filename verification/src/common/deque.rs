//! An ordered queue of cache entries in which each entry is reached again
//! through the handle that `push_back` gave out for it.

use vstd::prelude::*;

verus! {

/// The queue that a node belongs to.
#[derive(Clone, Copy, Debug, PartialEq, Eq, Structural)]
pub enum CacheRegion {
    Window,
    MainProbation,
    MainProtected,
    WriteOrder,
}

/// The handle of a node in a `Deque`: the region of the queue that holds it,
/// the id that queue gave it, and the place where the queue keeps it.
#[derive(Clone, Copy, Debug, PartialEq, Eq, Structural)]
pub struct DeqNode {
    pub region: CacheRegion,
    pub id: u64,
    pub slot: usize,
}

/// Whether some entry of `s` carries the id `id`.
pub open spec fn has_id<T>(s: Seq<(u64, T)>, id: u64) -> bool {
    exists|i: int| 0 <= i < s.len() && #[trigger] s[i].0 == id
}

/// The position of the entry with id `id` in `s` (meaningful where `has_id(s, id)`).
pub open spec fn id_index<T>(s: Seq<(u64, T)>, id: u64) -> int {
    choose|i: int| 0 <= i < s.len() && #[trigger] s[i].0 == id
}

/// No id occurs twice in `s`.
pub open spec fn ids_unique<T>(s: Seq<(u64, T)>) -> bool {
    forall|i: int, j: int| 0 <= i < s.len() && 0 <= j < s.len() && i != j ==> #[trigger] s[i].0 != #[trigger] s[j].0
}

/// `s` with the entry of id `id` taken out of its place and appended at the end.
pub open spec fn moved_to_back<T>(s: Seq<(u64, T)>, id: u64) -> Seq<(u64, T)> {
    s.remove(id_index(s, id)).push(s[id_index(s, id)])
}

/// `s` without the entry of id `id`.
pub open spec fn unlinked<T>(s: Seq<(u64, T)>, id: u64) -> Seq<(u64, T)> {
    s.remove(id_index(s, id))
}

/// The entry of a present id is found at its position.
pub proof fn lemma_id_index<T>(s: Seq<(u64, T)>, id: u64)
    requires
        has_id(s, id),
    ensures
        0 <= id_index(s, id) < s.len(),
        s[id_index(s, id)].0 == id,
{
}

/// Unlinking the node that was just pushed gives back the queue as it was
/// before the push.
pub proof fn lemma_unlink_after_push<T>(s: Seq<(u64, T)>, id: u64, e: T)
    requires
        !has_id(s, id),
    ensures
        unlinked(s.push((id, e)), id) == s,
{
    let t = s.push((id, e));
    assert(t[s.len() as int].0 == id);
    let k = id_index(t, id);
    if k < s.len() {
        assert(s[k].0 == id);
    }
    assert(k == s.len());
    assert(t.remove(k) =~= s);
}

/// Unlinking a node takes out exactly that node: the queue is one shorter, the
/// id is gone, every other id stays, and no id occurs twice.
pub proof fn lemma_unlinked<T>(s: Seq<(u64, T)>, id: u64)
    requires
        ids_unique(s),
        has_id(s, id),
    ensures
        unlinked(s, id).len() == s.len() - 1,
        !has_id(unlinked(s, id), id),
        forall|j: u64| j != id ==> (has_id(unlinked(s, id), j) <==> has_id(s, j)),
        ids_unique(unlinked(s, id)),
{
    let k = id_index(s, id);
    let r = unlinked(s, id);
    assert(0 <= k < s.len() && s[k].0 == id);
    assert forall|i: int| 0 <= i < r.len() implies #[trigger] r[i].0 != id by {
        if i < k {
            assert(r[i] == s[i]);
        } else {
            assert(r[i] == s[i + 1]);
        }
    }
    assert forall|j: u64| j != id implies (has_id(r, j) <==> has_id(s, j)) by {
        if has_id(s, j) {
            let m = choose|m: int| 0 <= m < s.len() && #[trigger] s[m].0 == j;
            if m < k {
                assert(r[m].0 == j);
            } else {
                assert(m != k);
                assert(r[m - 1].0 == j);
            }
        }
        if has_id(r, j) {
            let m = choose|m: int| 0 <= m < r.len() && #[trigger] r[m].0 == j;
            if m < k {
                assert(s[m].0 == j);
            } else {
                assert(s[m + 1].0 == j);
            }
        }
    }
    assert forall|a: int, b: int| 0 <= a < r.len() && 0 <= b < r.len() && a != b implies #[trigger] r[a].0
        != #[trigger] r[b].0 by {
        let a2 = if a < k { a } else { a + 1 };
        let b2 = if b < k { b } else { b + 1 };
        assert(r[a] == s[a2]);
        assert(r[b] == s[b2]);
    }
}

/// Moving a node to the back keeps the same entries: it is the last entry
/// afterwards, the others keep their order in front of it, and no id occurs twice.
pub proof fn lemma_moved_to_back<T>(s: Seq<(u64, T)>, id: u64)
    requires
        ids_unique(s),
        has_id(s, id),
    ensures
        moved_to_back(s, id).len() == s.len(),
        moved_to_back(s, id).last() == s[id_index(s, id)],
        moved_to_back(s, id).last().0 == id,
        moved_to_back(s, id).drop_last() == unlinked(s, id),
        moved_to_back(s, id).to_multiset() == s.to_multiset(),
        ids_unique(moved_to_back(s, id)),
{
    let k = id_index(s, id);
    let r = moved_to_back(s, id);
    lemma_unlinked(s, id);
    assert(r.drop_last() =~= unlinked(s, id));
    s.remove(k).to_multiset_ensures();
    s.to_multiset_ensures();
    assert(s.remove(k).to_multiset() == s.to_multiset().remove(s[k]));
    assert(s.to_multiset().contains(s[k]));
    assert(r.to_multiset() =~= s.to_multiset());
    assert forall|a: int, b: int| 0 <= a < r.len() && 0 <= b < r.len() && a != b implies #[trigger] r[a].0
        != #[trigger] r[b].0 by {
        let u = unlinked(s, id);
        if a < u.len() && b < u.len() {
            assert(r[a] == u[a] && r[b] == u[b]);
        } else if a < u.len() {
            assert(r[a] == u[a]);
            assert(!has_id(u, id));
        } else {
            assert(r[b] == u[b]);
            assert(!has_id(u, id));
        }
    }
}

/// Moving the back node to the back again changes nothing.
pub proof fn lemma_move_to_back_idempotent<T>(s: Seq<(u64, T)>, id: u64)
    requires
        ids_unique(s),
        has_id(s, id),
    ensures
        moved_to_back(moved_to_back(s, id), id) == moved_to_back(s, id),
{
    let r = moved_to_back(s, id);
    lemma_moved_to_back(s, id);
    let n = r.len() - 1;
    assert(r[n].0 == id);
    let k = id_index(r, id);
    if k != n {
        assert(r[k].0 == id);
    }
    assert(k == n);
    assert(r.remove(n).push(r[n]) =~= r);
}

/// A node stored in a queue: its id, its neighbours and its element.
struct Slot<T> {
    id: u64,
    prev: Option<usize>,
    next: Option<usize>,
    element: T,
}

/// A queue of the entries of one cache region, front to back. Each entry carries
/// the id under which it was pushed; ids are never given out twice. The nodes
/// live in a vector of slots and are linked to their neighbours by slot
/// index, so that a node can be unlinked or moved through its handle in
/// constant time. Slots that were freed are reused.
pub struct Deque<T> {
    region: CacheRegion,
    slots: Vec<Option<Slot<T>>>,
    free: Vec<usize>,
    head: Option<usize>,
    tail: Option<usize>,
    len: usize,
    next_id: u64,
    order: Ghost<Seq<usize>>,
}

impl<T> View for Deque<T> {
    type V = Seq<(u64, T)>;

    closed spec fn view(&self) -> Seq<(u64, T)> {
        Seq::new(
            self.order@.len(),
            |i: int| (self.slot(self.order@[i] as int).id, self.slot(self.order@[i] as int).element),
        )
    }
}

impl<T> Deque<T> {
    /// Whether slot `s` holds a node.
    spec fn occupied(&self, s: int) -> bool {
        0 <= s < self.slots@.len() && self.slots@[s] is Some
    }

    /// The node in slot `s`.
    spec fn slot(&self, s: int) -> Slot<T> {
        self.slots@[s]->0
    }

    /// The slot before position `i`, if any.
    spec fn prev_of(&self, i: int) -> Option<usize> {
        if i == 0 {
            None
        } else {
            Some(self.order@[i - 1])
        }
    }

    /// The slot after position `i`, if any.
    spec fn next_of(&self, i: int) -> Option<usize> {
        if i + 1 >= self.order@.len() {
            None
        } else {
            Some(self.order@[i + 1])
        }
    }

    /// The node at position `i` is stored and linked to its neighbours.
    spec fn linked(&self, i: int) -> bool {
        &&& self.occupied(self.order@[i] as int)
        &&& self.slot(self.order@[i] as int).prev == self.prev_of(i)
        &&& self.slot(self.order@[i] as int).next == self.next_of(i)
    }

    /// Well-formedness: the nodes are linked in queue order, each slot holds at
    /// most one node of the queue, freed slots are empty, no id occurs twice,
    /// and every id was given out before.
    pub closed spec fn wf(&self) -> bool {
        &&& forall|i: int| 0 <= i < self.order@.len() ==> #[trigger] self.linked(i)
        &&& forall|i: int, j: int|
            0 <= i < self.order@.len() && 0 <= j < self.order@.len() && i != j ==> #[trigger] self.order@[i]
                != #[trigger] self.order@[j]
        &&& forall|s: usize| #[trigger] self.occupied(s as int) ==> self.order@.contains(s)
        &&& forall|j: int|
            0 <= j < self.free@.len() ==> #[trigger] self.free@[j] < self.slots@.len() && !self.occupied(
                self.free@[j] as int,
            )
        &&& forall|i: int, j: int|
            0 <= i < self.free@.len() && 0 <= j < self.free@.len() && i != j ==> #[trigger] self.free@[i]
                != #[trigger] self.free@[j]
        &&& self.len == self.order@.len()
        &&& self.head == (if self.order@.len() == 0 { None } else { Some(self.order@[0]) })
        &&& self.tail == (if self.order@.len() == 0 { None } else { Some(self.order@.last()) })
        &&& ids_unique(self@)
        &&& forall|i: int| 0 <= i < self@.len() ==> #[trigger] self@[i].0 < self.next_id
    }

    /// The region of the queue.
    pub closed spec fn spec_region(&self) -> CacheRegion {
        self.region
    }

    /// The id that the next `push_back` gives out.
    pub closed spec fn spec_next_id(&self) -> u64 {
        self.next_id
    }

    /// Whether `node` is a node of this queue: its region is the queue's and its
    /// slot holds the node of its id.
    pub closed spec fn spec_contains(&self, node: DeqNode) -> bool {
        &&& node.region == self.region
        &&& self.occupied(node.slot as int)
        &&& self.slot(node.slot as int).id == node.id
    }

    /// Facts that hold of every well-formed queue: no id occurs twice and every
    /// id was given out before.
    pub proof fn lemma_wf(&self)
        requires
            self.wf(),
        ensures
            ids_unique(self@),
            forall|i: int| 0 <= i < self@.len() ==> #[trigger] self@[i].0 < self.spec_next_id(),
    {
    }

    /// A node of the queue has the queue's region.
    pub proof fn lemma_contains_region(&self, node: DeqNode)
        ensures
            self.spec_contains(node) ==> node.region == self.spec_region(),
    {
    }

    /// A node of a well-formed queue is found there under its id.
    pub proof fn lemma_contains(&self, node: DeqNode)
        requires
            self.wf(),
            self.spec_contains(node),
        ensures
            has_id(self@, node.id),
    {
        self.lemma_position(node);
    }

    /// The position of a node of the queue.
    proof fn lemma_position(&self, node: DeqNode) -> (k: int)
        requires
            self.wf(),
            self.spec_contains(node),
        ensures
            0 <= k < self.order@.len(),
            self.order@[k] == node.slot,
            self@[k].0 == node.id,
            has_id(self@, node.id),
            k == id_index(self@, node.id),
    {
        assert(self.occupied(node.slot as int));
        let k = choose|k: int| 0 <= k < self.order@.len() && self.order@[k] == node.slot;
        assert(self@[k].0 == node.id);
        let k2 = id_index(self@, node.id);
        assert(0 <= k2 < self@.len() && self@[k2].0 == node.id);
        assert(k2 == k);
        k
    }

    /// An empty queue for `region`.
    pub fn new(region: CacheRegion) -> (d: Deque<T>)
        ensures
            d.wf(),
            d@ == Seq::<(u64, T)>::empty(),
            d.spec_region() == region,
            d.spec_next_id() == 0,
    {
        let d = Deque {
            region,
            slots: Vec::new(),
            free: Vec::new(),
            head: None,
            tail: None,
            len: 0,
            next_id: 0,
            order: Ghost(Seq::empty()),
        };
        assert(d@ =~= Seq::<(u64, T)>::empty());
        d
    }

    /// The region of the queue.
    #[verifier::when_used_as_spec(spec_region)]
    pub fn region(&self) -> (r: CacheRegion)
        ensures
            r == self.spec_region(),
    {
        self.region
    }

    /// Number of entries in the queue.
    pub fn len(&self) -> (r: usize)
        requires
            self.wf(),
        ensures
            r == self@.len(),
    {
        self.len
    }

    /// Whether the queue is empty.
    pub fn is_empty(&self) -> (r: bool)
        requires
            self.wf(),
        ensures
            r == (self@.len() == 0),
    {
        self.len == 0
    }

    /// Whether `node` is a node of this queue.
    pub fn contains(&self, node: &DeqNode) -> (r: bool)
        requires
            self.wf(),
        ensures
            r == self.spec_contains(*node),
    {
        if node.region != self.region || node.slot >= self.slots.len() {
            return false;
        }
        match &self.slots[node.slot] {
            Some(s) => s.id == node.id,
            None => false,
        }
    }

    /// The element at the front of the queue, if any.
    pub fn peek_front(&self) -> (r: Option<&T>)
        requires
            self.wf(),
        ensures
            self@.len() == 0 ==> r is None,
            self@.len() > 0 ==> (r matches Some(e) && *e == self@[0].1),
    {
        match self.head {
            None => None,
            Some(h) => {
                assert(self.linked(0));
                match &self.slots[h] {
                    Some(s) => Some(&s.element),
                    None => None,
                }
            },
        }
    }

    /// Points slot `s` forward to `next`.
    fn set_next(slots: &mut Vec<Option<Slot<T>>>, s: usize, next: Option<usize>)
        requires
            s < old(slots)@.len(),
            old(slots)@[s as int] is Some,
        ensures
            final(slots)@ == old(slots)@.update(s as int, Some(Slot { next, ..old(slots)@[s as int]->0 })),
    {
        let mut tmp: Option<Slot<T>> = None;
        slots.set_and_swap(s, &mut tmp);
        let mut node = tmp.unwrap();
        node.next = next;
        slots.set(s, Some(node));
    }

    /// Points slot `s` back to `prev`.
    fn set_prev(slots: &mut Vec<Option<Slot<T>>>, s: usize, prev: Option<usize>)
        requires
            s < old(slots)@.len(),
            old(slots)@[s as int] is Some,
        ensures
            final(slots)@ == old(slots)@.update(s as int, Some(Slot { prev, ..old(slots)@[s as int]->0 })),
    {
        let mut tmp: Option<Slot<T>> = None;
        slots.set_and_swap(s, &mut tmp);
        let mut node = tmp.unwrap();
        node.prev = prev;
        slots.set(s, Some(node));
    }

    /// Stores `element` under `id` in the empty slot `s` and links it at the back.
    fn attach_back(&mut self, s: usize, id: u64, element: T)
        requires
            old(self).wf(),
            s < old(self).slots@.len(),
            !old(self).occupied(s as int),
            !old(self).free@.contains(s),
            !has_id(old(self)@, id),
            id < old(self).next_id,
            old(self)@.len() < usize::MAX,
        ensures
            final(self).wf(),
            final(self)@ == old(self)@.push((id, element)),
            final(self).region == old(self).region,
            final(self).next_id == old(self).next_id,
            final(self).spec_contains(DeqNode { region: old(self).region, id, slot: s }),
            forall|m: DeqNode| m.slot != s ==> (#[trigger] final(self).spec_contains(m) <==> old(self).spec_contains(m)),
            final(self).free == old(self).free,
            final(self).slots@.len() == old(self).slots@.len(),
    {
        let ghost old_self = *self;
        let ghost old_order = self.order@;
        let ghost n: int = old_order.len() as int;
        assert(!old_order.contains(s)) by {
            if old_order.contains(s) {
                let i = choose|i: int| 0 <= i < n && old_order[i] == s;
                assert(old_self.linked(i));
            }
        }
        let prev = self.tail;
        self.slots.set(s, Some(Slot { id, prev, next: None, element }));
        match self.tail {
            Some(t) => {
                assert(old_self.linked(n - 1));
                Self::set_next(&mut self.slots, t, Some(s));
            },
            None => {
                self.head = Some(s);
            },
        }
        self.tail = Some(s);
        self.len = self.len + 1;
        self.order = Ghost(old_order.push(s));
        proof {
            let new_order = self.order@;
            assert(new_order[n] == s);
            assert forall|i: int| 0 <= i < new_order.len() implies #[trigger] self.linked(i) by {
                if i < n {
                    assert(old_self.linked(i));
                    assert(new_order[i] == old_order[i]);
                    assert(old_order[i] != s);
                }
            }
            assert forall|i: int, j: int|
                0 <= i < new_order.len() && 0 <= j < new_order.len() && i != j implies #[trigger] new_order[i]
                    != #[trigger] new_order[j] by {
                if i < n && j < n {
                    assert(old_order[i] != old_order[j]);
                } else if i < n {
                    assert(old_order.contains(old_order[i]));
                } else {
                    assert(old_order.contains(old_order[j]));
                }
            }
            assert forall|x: usize| #[trigger] self.occupied(x as int) implies new_order.contains(x) by {
                if x == s {
                    assert(new_order[n] == s);
                } else {
                    assert(old_self.occupied(x as int));
                    let i = choose|i: int| 0 <= i < n && old_order[i] == x;
                    assert(new_order[i] == x);
                }
            }
            assert forall|j: int| 0 <= j < self.free@.len() implies #[trigger] self.free@[j] < self.slots@.len()
                && !self.occupied(self.free@[j] as int) by {
                assert(old_self.free@[j] != s);
            }
            assert(self@ =~= old_self@.push((id, element))) by {
                assert forall|i: int| 0 <= i < n implies self@[i] == old_self@[i] by {
                    assert(old_self.linked(i));
                    assert(old_order[i] != s);
                }
            }
            assert forall|i: int, j: int|
                0 <= i < self@.len() && 0 <= j < self@.len() && i != j implies #[trigger] self@[i].0
                    != #[trigger] self@[j].0 by {
                if i < n && j < n {
                    assert(self@[i] == old_self@[i]);
                    assert(self@[j] == old_self@[j]);
                } else if i < n {
                    assert(self@[i] == old_self@[i]);
                } else {
                    assert(self@[j] == old_self@[j]);
                }
            }
            assert forall|m: DeqNode| m.slot != s implies (#[trigger] self.spec_contains(m) <==> old_self.spec_contains(m)) by {
                if n > 0 {
                    assert(old_self.linked(n - 1));
                }
            }
        }
    }

    /// Takes the node of `node` out of its slot and out of the queue order; the
    /// slot is left empty and is not yet put on the free list.
    fn detach(&mut self, node: &DeqNode) -> (sl: Slot<T>)
        requires
            old(self).wf(),
            old(self).spec_contains(*node),
        ensures
            final(self).wf(),
            final(self)@ == unlinked(old(self)@, node.id),
            sl.id == node.id,
            sl.element == old(self)@[id_index(old(self)@, node.id)].1,
            final(self).region == old(self).region,
            final(self).next_id == old(self).next_id,
            final(self).free == old(self).free,
            final(self).slots@.len() == old(self).slots@.len(),
            !final(self).occupied(node.slot as int),
            !final(self).free@.contains(node.slot),
            node.slot < final(self).slots@.len(),
            forall|m: DeqNode| m.slot != node.slot ==> (#[trigger] final(self).spec_contains(m) <==> old(self).spec_contains(m)),
    {
        let ghost old_self = *self;
        let ghost old_order = self.order@;
        let ghost n: int = old_order.len() as int;
        let ghost k = old_self.lemma_position(*node);
        let s = node.slot;
        assert(old_self.linked(k));
        let mut tmp: Option<Slot<T>> = None;
        self.slots.set_and_swap(s, &mut tmp);
        let sl = tmp.unwrap();
        match sl.prev {
            Some(p) => {
                assert(old_self.linked(k - 1));
                assert(old_order[k - 1] != s);
                Self::set_next(&mut self.slots, p, sl.next);
            },
            None => {
                self.head = sl.next;
            },
        }
        match sl.next {
            Some(nx) => {
                assert(old_self.linked(k + 1));
                assert(old_order[k + 1] != s);
                Self::set_prev(&mut self.slots, nx, sl.prev);
            },
            None => {
                self.tail = sl.prev;
            },
        }
        self.len = self.len - 1;
        self.order = Ghost(old_order.remove(k));
        proof {
            let new_order = self.order@;
            assert forall|i: int| 0 <= i < new_order.len() implies #[trigger] self.linked(i) by {
                let oi = if i < k { i } else { i + 1 };
                assert(new_order[i] == old_order[oi]);
                assert(old_self.linked(oi));
                assert(old_order[oi] != s);
                if k > 0 {
                    assert(old_order[k - 1] != s);
                }
                if k + 1 < n {
                    assert(old_order[k + 1] != s);
                }
                if i > 0 {
                    let pi = if i - 1 < k { i - 1 } else { i };
                    assert(new_order[i - 1] == old_order[pi]);
                }
                if i + 1 < new_order.len() {
                    let ni = if i + 1 < k { i + 1 } else { i + 2 };
                    assert(new_order[i + 1] == old_order[ni]);
                }
                if k > 0 && k + 1 < n {
                    assert(old_order[k - 1] != old_order[k + 1]);
                }
            }
            assert forall|i: int, j: int|
                0 <= i < new_order.len() && 0 <= j < new_order.len() && i != j implies #[trigger] new_order[i]
                    != #[trigger] new_order[j] by {
                let oi = if i < k { i } else { i + 1 };
                let oj = if j < k { j } else { j + 1 };
                assert(new_order[i] == old_order[oi]);
                assert(new_order[j] == old_order[oj]);
            }
            assert forall|x: usize| #[trigger] self.occupied(x as int) implies new_order.contains(x) by {
                assert(x != s);
                assert(old_order[k] == s);
                assert(old_self.occupied(x as int));
                let i = choose|i: int| 0 <= i < n && old_order[i] == x;
                assert(i != k);
                if i < k {
                    assert(new_order[i] == x);
                } else {
                    assert(new_order[i - 1] == x);
                }
            }
            assert forall|j: int| 0 <= j < self.free@.len() implies #[trigger] self.free@[j] < self.slots@.len()
                && !self.occupied(self.free@[j] as int) by {
                assert(!old_self.occupied(old_self.free@[j] as int));
                assert(old_self.free@[j] != s);
                if k > 0 {
                    assert(old_self.occupied(old_order[k - 1] as int));
                }
                if k + 1 < n {
                    assert(old_self.occupied(old_order[k + 1] as int));
                }
            }
            assert(self@ =~= old_self@.remove(k)) by {
                assert forall|i: int| 0 <= i < new_order.len() implies self@[i] == old_self@.remove(k)[i] by {
                    let oi = if i < k { i } else { i + 1 };
                    assert(new_order[i] == old_order[oi]);
                    assert(old_self.linked(oi));
                    assert(old_order[oi] != s);
                }
            }
            lemma_unlinked(old_self@, node.id);
            assert(!old_self.free@.contains(s)) by {
                if old_self.free@.contains(s) {
                    let j = choose|j: int| 0 <= j < old_self.free@.len() && old_self.free@[j] == s;
                    assert(!old_self.occupied(old_self.free@[j] as int));
                }
            }
            assert forall|i: int| 0 <= i < self@.len() implies #[trigger] self@[i].0 < self.next_id by {
                let oi = if i < k { i } else { i + 1 };
                assert(self@[i] == old_self@[oi]);
            }
            assert forall|m: DeqNode| m.slot != node.slot implies (#[trigger] self.spec_contains(m) <==> old_self.spec_contains(m)) by {
                if k > 0 {
                    assert(old_self.linked(k - 1));
                }
                if k + 1 < n {
                    assert(old_self.linked(k + 1));
                }
            }
        }
        sl
    }

    /// Appends `element` at the back of the queue and returns the handle of its
    /// node, which carries an id that the queue has not given out before.
    pub fn push_back(&mut self, element: T) -> (node: DeqNode)
        requires
            old(self).wf(),
            old(self).spec_next_id() < u64::MAX,
            old(self)@.len() < usize::MAX,
        ensures
            final(self).wf(),
            node.region == old(self).spec_region(),
            node.id == old(self).spec_next_id(),
            !has_id(old(self)@, node.id),
            final(self)@ == old(self)@.push((node.id, element)),
            final(self).spec_contains(node),
            final(self).spec_region() == old(self).spec_region(),
            final(self).spec_next_id() == old(self).spec_next_id() + 1,
            forall|m: DeqNode| m != node ==> (#[trigger] final(self).spec_contains(m) <==> old(self).spec_contains(m)),
    {
        let ghost old_self = *self;
        let id = self.next_id;
        self.next_id = id + 1;
        assert(!has_id(old_self@, id)) by {
            if has_id(old_self@, id) {
                let i = choose|i: int| 0 <= i < old_self@.len() && old_self@[i].0 == id;
            }
        }
        let s: usize = match self.free.pop() {
            Some(f) => {
                proof {
                    let m = old_self.free@.len() - 1;
                    assert(old_self.free@[m] == f);
                    assert forall|j: int| 0 <= j < self.free@.len() implies #[trigger] self.free@[j] != f by {
                        assert(old_self.free@[j] == self.free@[j]);
                    }
                }
                f
            },
            None => {
                self.slots.push(None);
                self.slots.len() - 1
            },
        };
        proof {
            assert(!self.free@.contains(s)) by {
                if self.free@.contains(s) {
                    let j = choose|j: int| 0 <= j < self.free@.len() && self.free@[j] == s;
                }
            }
            assert forall|i: int| 0 <= i < self.order@.len() implies #[trigger] self.linked(i) by {
                assert(old_self.linked(i));
            }
            assert forall|x: usize| #[trigger] self.occupied(x as int) implies self.order@.contains(x) by {
                assert(old_self.occupied(x as int));
            }
            assert forall|j: int| 0 <= j < self.free@.len() implies #[trigger] self.free@[j] < self.slots@.len()
                && !self.occupied(self.free@[j] as int) by {
                assert(old_self.free@[j] == self.free@[j]);
            }
            assert forall|i: int, j: int|
                0 <= i < self.free@.len() && 0 <= j < self.free@.len() && i != j implies #[trigger] self.free@[i]
                    != #[trigger] self.free@[j] by {
                assert(old_self.free@[i] == self.free@[i]);
                assert(old_self.free@[j] == self.free@[j]);
            }
            assert(self@ =~= old_self@) by {
                assert forall|i: int| 0 <= i < self@.len() implies self@[i] == old_self@[i] by {
                    assert(old_self.linked(i));
                }
            }
        }
        let ghost mid = *self;
        self.attach_back(s, id, element);
        let node = DeqNode { region: self.region, id, slot: s };
        proof {
            assert forall|m: DeqNode| m != node implies (#[trigger] self.spec_contains(m) <==> old_self.spec_contains(m)) by {
                assert(mid.spec_contains(m) == old_self.spec_contains(m));
                if m.slot == s {
                    assert(!mid.occupied(s as int));
                    assert(!old_self.spec_contains(m));
                }
            }
        }
        node
    }

    /// Moves the entry of `node` to the back of the queue, keeping the order of
    /// the others; the handle stays valid.
    pub fn move_to_back(&mut self, node: &DeqNode)
        requires
            old(self).wf(),
            old(self).spec_contains(*node),
        ensures
            final(self).wf(),
            final(self)@ == moved_to_back(old(self)@, node.id),
            final(self)@.len() == old(self)@.len(),
            final(self).spec_contains(*node),
            forall|m: DeqNode| #[trigger] final(self).spec_contains(m) <==> old(self).spec_contains(m),
            final(self).spec_region() == old(self).spec_region(),
            final(self).spec_next_id() == old(self).spec_next_id(),
    {
        let ghost old_self = *self;
        proof {
            old_self.lemma_position(*node);
            lemma_unlinked(old_self@, node.id);
        }
        let sl = self.detach(node);
        let ghost mid = *self;
        self.attach_back(node.slot, sl.id, sl.element);
        proof {
            assert forall|m: DeqNode| #[trigger] self.spec_contains(m) <==> old_self.spec_contains(m) by {
                if m.slot != node.slot {
                    assert(mid.spec_contains(m) == old_self.spec_contains(m));
                }
            }
        }
    }

    /// Takes the entry of `node` out of the queue and returns its element,
    /// keeping the order of the others.
    pub fn unlink(&mut self, node: &DeqNode) -> (element: T)
        requires
            old(self).wf(),
            old(self).spec_contains(*node),
        ensures
            final(self).wf(),
            has_id(old(self)@, node.id),
            element == old(self)@[id_index(old(self)@, node.id)].1,
            final(self)@ == unlinked(old(self)@, node.id),
            final(self)@.len() == old(self)@.len() - 1,
            !final(self).spec_contains(*node),
            forall|m: DeqNode| m != *node ==> (#[trigger] final(self).spec_contains(m) <==> old(self).spec_contains(m)),
            final(self).spec_region() == old(self).spec_region(),
            final(self).spec_next_id() == old(self).spec_next_id(),
    {
        let ghost old_self = *self;
        proof {
            self.lemma_position(*node);
        }
        let sl = self.detach(node);
        let ghost before = *self;
        self.free.push(node.slot);
        proof {
            assert forall|i: int| 0 <= i < self.order@.len() implies #[trigger] self.linked(i) by {
                assert(before.linked(i));
            }
            assert forall|x: usize| #[trigger] self.occupied(x as int) implies self.order@.contains(x) by {
                assert(before.occupied(x as int));
            }
            assert forall|j: int| 0 <= j < self.free@.len() implies #[trigger] self.free@[j] < self.slots@.len()
                && !self.occupied(self.free@[j] as int) by {
                if j < before.free@.len() {
                    assert(self.free@[j] == before.free@[j]);
                }
            }
            assert forall|i: int, j: int|
                0 <= i < self.free@.len() && 0 <= j < self.free@.len() && i != j implies #[trigger] self.free@[i]
                    != #[trigger] self.free@[j] by {
                let m = before.free@.len();
                if i < m && j < m {
                    assert(self.free@[i] == before.free@[i]);
                    assert(self.free@[j] == before.free@[j]);
                } else if i < m {
                    assert(self.free@[i] == before.free@[i]);
                    assert(before.free@.contains(before.free@[i]));
                } else {
                    assert(self.free@[j] == before.free@[j]);
                    assert(before.free@.contains(before.free@[j]));
                }
            }
            assert(self@ =~= before@);
            assert forall|m: DeqNode| m != *node implies (#[trigger] self.spec_contains(m) <==> old_self.spec_contains(m)) by {
                assert(self.spec_contains(m) == before.spec_contains(m));
                if m.slot != node.slot {
                    assert(before.spec_contains(m) == old_self.spec_contains(m));
                } else {
                    assert(!before.occupied(m.slot as int));
                }
            }
        }
        sl.element
    }

    /// Takes the entry at the front of the queue out and returns its element,
    /// if there is one.
    pub fn pop_front(&mut self) -> (r: Option<T>)
        requires
            old(self).wf(),
        ensures
            final(self).wf(),
            final(self).spec_region() == old(self).spec_region(),
            final(self).spec_next_id() == old(self).spec_next_id(),
            old(self)@.len() == 0 ==> (r is None && final(self)@ == old(self)@),
            old(self)@.len() > 0 ==> (r == Some(old(self)@[0].1) && final(self)@ == old(self)@.drop_first()),
    {
        match self.head {
            None => None,
            Some(h) => {
                proof {
                    assert(self.linked(0));
                }
                let id = match &self.slots[h] {
                    Some(sl) => sl.id,
                    None => 0,
                };
                let node = DeqNode { region: self.region, id, slot: h };
                let ghost old_self = *self;
                proof {
                    let k = old_self.lemma_position(node);
                    assert(k == 0) by {
                        if k != 0 {
                            assert(old_self.order@[k] != old_self.order@[0]);
                        }
                    }
                }
                let e = self.unlink(&node);
                proof {
                    assert(old_self@.remove(0) =~= old_self@.drop_first());
                }
                Some(e)
            },
        }
    }
}

} // verus!
