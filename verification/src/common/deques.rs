//! The queues of a cache: three access-order queues, one per region of the
//! main space, and one write-order queue.

use vstd::prelude::*;
use crate::common::deque::{has_id, moved_to_back, unlinked, CacheRegion, DeqNode, Deque};
use crate::common::entry::{KeyDate, KeyHashDate, ValueEntry};

verus! {

/// The access-order queues (`window`, `probation`, `protected`) and the
/// write-order queue of a cache.
pub struct Deques<K> {
    pub window: Deque<KeyHashDate<K>>,
    pub probation: Deque<KeyHashDate<K>>,
    pub protected: Deque<KeyHashDate<K>>,
    pub write_order: Deque<KeyDate<K>>,
}

impl<K> Default for Deques<K> {
    fn default() -> (d: Self)
        ensures
            d.wf(),
            d.window@.len() == 0,
            d.probation@.len() == 0,
            d.protected@.len() == 0,
            d.write_order@.len() == 0,
            d.window.spec_next_id() == 0,
            d.probation.spec_next_id() == 0,
            d.protected.spec_next_id() == 0,
            d.write_order.spec_next_id() == 0,
    {
        Deques {
            window: Deque::new(CacheRegion::Window),
            probation: Deque::new(CacheRegion::MainProbation),
            protected: Deque::new(CacheRegion::MainProtected),
            write_order: Deque::new(CacheRegion::WriteOrder),
        }
    }
}

/// Whether `region` is the region of an access-order queue.
pub open spec fn is_ao_region(region: CacheRegion) -> bool {
    region != CacheRegion::WriteOrder
}

impl<K> Deques<K> {
    /// Each queue is well formed and belongs to its own region.
    pub open spec fn wf(&self) -> bool {
        &&& self.window.wf()
        &&& self.window.spec_region() == CacheRegion::Window
        &&& self.probation.wf()
        &&& self.probation.spec_region() == CacheRegion::MainProbation
        &&& self.protected.wf()
        &&& self.protected.spec_region() == CacheRegion::MainProtected
        &&& self.write_order.wf()
        &&& self.write_order.spec_region() == CacheRegion::WriteOrder
    }

    /// A node belongs to at most one of the queues: the one of its own region.
    pub proof fn lemma_node_in_one_queue(&self, node: DeqNode)
        requires
            self.wf(),
        ensures
            self.window.spec_contains(node) ==> node.region == CacheRegion::Window,
            self.probation.spec_contains(node) ==> node.region == CacheRegion::MainProbation,
            self.protected.spec_contains(node) ==> node.region == CacheRegion::MainProtected,
            self.write_order.spec_contains(node) ==> node.region == CacheRegion::WriteOrder,
            is_ao_region(node.region) && self.ao_deque(node.region).spec_contains(node) ==> !self.write_order.spec_contains(node),
    {
        self.window.lemma_contains_region(node);
        self.probation.lemma_contains_region(node);
        self.protected.lemma_contains_region(node);
        self.write_order.lemma_contains_region(node);
    }

    /// The access-order queue of `region` (meaningful for an access-order region).
    pub open spec fn ao_deque(&self, region: CacheRegion) -> Deque<KeyHashDate<K>> {
        match region {
            CacheRegion::Window => self.window,
            CacheRegion::MainProbation => self.probation,
            _ => self.protected,
        }
    }

    /// `other` has the queues of `self`, but for the access-order queue of `region`.
    pub open spec fn same_but_ao(&self, other: &Self, region: CacheRegion) -> bool {
        &&& forall|r: CacheRegion|
            is_ao_region(r) && r != region ==> #[trigger] other.ao_deque(r) == self.ao_deque(r)
        &&& other.write_order == self.write_order
    }

    /// `other` has the access-order queues of `self`.
    pub open spec fn same_ao(&self, other: &Self) -> bool {
        &&& other.window == self.window
        &&& other.probation == self.probation
        &&& other.protected == self.protected
    }

    /// Appends `kh` to the access-order queue of `region` and records the new
    /// node in `entry`.
    pub fn push_back_ao<V>(&mut self, region: CacheRegion, kh: KeyHashDate<K>, entry: &mut ValueEntry<K, V>)
        requires
            old(self).wf(),
            is_ao_region(region),
            old(self).ao_deque(region).spec_next_id() < u64::MAX,
            old(self).ao_deque(region)@.len() < usize::MAX,
        ensures
            final(self).wf(),
            final(entry).spec_access_order_q_node() matches Some(node) && {
                &&& node.region == region
                &&& node.id == old(self).ao_deque(region).spec_next_id()
                &&& !has_id(old(self).ao_deque(region)@, node.id)
                &&& final(self).ao_deque(region).spec_contains(node)
                &&& final(self).ao_deque(region)@ == old(self).ao_deque(region)@.push((node.id, kh))
                &&& final(self).ao_deque(region).spec_next_id() == node.id + 1
                &&& forall|m: DeqNode| m != node ==> (#[trigger] final(self).ao_deque(region).spec_contains(m)
                    <==> old(self).ao_deque(region).spec_contains(m))
            },
            old(self).same_but_ao(&*final(self), region),
            final(entry).spec_write_order_q_node() == old(entry).spec_write_order_q_node(),
            final(entry).spec_value() == old(entry).spec_value(),
    {
        let node = if region == CacheRegion::Window {
            self.window.push_back(kh)
        } else if region == CacheRegion::MainProbation {
            self.probation.push_back(kh)
        } else {
            self.protected.push_back(kh)
        };
        entry.set_access_order_q_node(Some(node));
    }

    /// Appends `kd` to the write-order queue and records the new node in `entry`.
    pub fn push_back_wo<V>(&mut self, kd: KeyDate<K>, entry: &mut ValueEntry<K, V>)
        requires
            old(self).wf(),
            old(self).write_order.spec_next_id() < u64::MAX,
            old(self).write_order@.len() < usize::MAX,
        ensures
            final(self).wf(),
            final(entry).spec_write_order_q_node() matches Some(node) && {
                &&& node.region == CacheRegion::WriteOrder
                &&& node.id == old(self).write_order.spec_next_id()
                &&& !has_id(old(self).write_order@, node.id)
                &&& final(self).write_order.spec_contains(node)
                &&& final(self).write_order@ == old(self).write_order@.push((node.id, kd))
                &&& final(self).write_order.spec_next_id() == node.id + 1
                &&& forall|m: DeqNode| m != node ==> (#[trigger] final(self).write_order.spec_contains(m)
                    <==> old(self).write_order.spec_contains(m))
            },
            old(self).same_ao(&*final(self)),
            final(entry).spec_access_order_q_node() == old(entry).spec_access_order_q_node(),
            final(entry).spec_value() == old(entry).spec_value(),
    {
        let node = self.write_order.push_back(kd);
        entry.set_write_order_q_node(Some(node));
    }

    /// Moves the access-order node of `entry` to the back of its queue, where the
    /// entry has one and that queue holds it; otherwise changes nothing.
    pub fn move_to_back_ao<V>(&mut self, entry: &ValueEntry<K, V>)
        requires
            old(self).wf(),
        ensures
            final(self).wf(),
            match entry.spec_access_order_q_node() {
                Some(n) => if is_ao_region(n.region) && old(self).ao_deque(n.region).spec_contains(n) {
                    &&& final(self).ao_deque(n.region)@ == moved_to_back(old(self).ao_deque(n.region)@, n.id)
                    &&& final(self).ao_deque(n.region)@.len() == old(self).ao_deque(n.region)@.len()
                    &&& forall|m: DeqNode| #[trigger] final(self).ao_deque(n.region).spec_contains(m)
                        <==> old(self).ao_deque(n.region).spec_contains(m)
                    &&& final(self).ao_deque(n.region).spec_next_id() == old(self).ao_deque(n.region).spec_next_id()
                    &&& old(self).same_but_ao(&*final(self), n.region)
                } else {
                    *final(self) == *old(self)
                },
                None => *final(self) == *old(self),
            },
    {
        if let Some(node) = entry.access_order_q_node() {
            if node.region == CacheRegion::Window && self.window.contains(&node) {
                self.window.move_to_back(&node);
            } else if node.region == CacheRegion::MainProbation && self.probation.contains(&node) {
                self.probation.move_to_back(&node);
            } else if node.region == CacheRegion::MainProtected && self.protected.contains(&node) {
                self.protected.move_to_back(&node);
            }
        }
    }

    /// Moves the write-order node of `entry` to the back of the write-order queue,
    /// where the entry has one and the queue holds it; otherwise changes nothing.
    pub fn move_to_back_wo<V>(&mut self, entry: &ValueEntry<K, V>)
        requires
            old(self).wf(),
            entry.spec_write_order_q_node() matches Some(n) ==> n.region == CacheRegion::WriteOrder,
        ensures
            final(self).wf(),
            match entry.spec_write_order_q_node() {
                Some(n) => if old(self).write_order.spec_contains(n) {
                    &&& final(self).write_order@ == moved_to_back(old(self).write_order@, n.id)
                    &&& final(self).write_order@.len() == old(self).write_order@.len()
                    &&& forall|m: DeqNode| #[trigger] final(self).write_order.spec_contains(m)
                        <==> old(self).write_order.spec_contains(m)
                    &&& final(self).write_order.spec_next_id() == old(self).write_order.spec_next_id()
                    &&& old(self).same_ao(&*final(self))
                } else {
                    *final(self) == *old(self)
                },
                None => *final(self) == *old(self),
            },
    {
        if let Some(node) = entry.write_order_q_node() {
            if self.write_order.contains(&node) {
                self.write_order.move_to_back(&node);
            }
        }
    }

    /// Takes the access-order node out of `entry` and unlinks it from its queue.
    pub fn unlink_ao<V>(&mut self, entry: &mut ValueEntry<K, V>)
        requires
            old(self).wf(),
            old(entry).spec_access_order_q_node() matches Some(n) ==> is_ao_region(n.region)
                && old(self).ao_deque(n.region).spec_contains(n),
        ensures
            final(self).wf(),
            final(entry).spec_access_order_q_node() is None,
            final(entry).spec_write_order_q_node() == old(entry).spec_write_order_q_node(),
            final(entry).spec_value() == old(entry).spec_value(),
            match old(entry).spec_access_order_q_node() {
                Some(n) => {
                    &&& final(self).ao_deque(n.region)@ == unlinked(old(self).ao_deque(n.region)@, n.id)
                    &&& final(self).ao_deque(n.region)@.len() == old(self).ao_deque(n.region)@.len() - 1
                    &&& !final(self).ao_deque(n.region).spec_contains(n)
                    &&& forall|m: DeqNode| m != n ==> (#[trigger] final(self).ao_deque(n.region).spec_contains(m)
                        <==> old(self).ao_deque(n.region).spec_contains(m))
                    &&& final(self).ao_deque(n.region).spec_next_id() == old(self).ao_deque(n.region).spec_next_id()
                    &&& old(self).same_but_ao(&*final(self), n.region)
                },
                None => *final(self) == *old(self),
            },
    {
        if let Some(node) = entry.take_access_order_q_node() {
            self.unlink_node_ao(node);
        }
    }

    /// Takes the access-order node out of `entry` and unlinks it from `deq`.
    pub fn unlink_ao_from_deque<V>(deq_name: &str, deq: &mut Deque<KeyHashDate<K>>, entry: &mut ValueEntry<K, V>)
        requires
            old(deq).wf(),
            old(entry).spec_access_order_q_node() matches Some(n) ==> old(deq).spec_contains(n),
        ensures
            final(deq).wf(),
            final(deq).spec_region() == old(deq).spec_region(),
            final(deq).spec_next_id() == old(deq).spec_next_id(),
            final(entry).spec_access_order_q_node() is None,
            final(entry).spec_write_order_q_node() == old(entry).spec_write_order_q_node(),
            final(entry).spec_value() == old(entry).spec_value(),
            match old(entry).spec_access_order_q_node() {
                Some(n) => {
                    &&& final(deq)@ == unlinked(old(deq)@, n.id)
                    &&& final(deq)@.len() == old(deq)@.len() - 1
                    &&& !final(deq).spec_contains(n)
                    &&& forall|m: DeqNode| m != n ==> (#[trigger] final(deq).spec_contains(m) <==> old(deq).spec_contains(m))
                },
                None => *final(deq) == *old(deq),
            },
    {
        if let Some(node) = entry.take_access_order_q_node() {
            Self::unlink_node_ao_from_deque(deq_name, deq, node);
        }
    }

    /// Takes the write-order node out of `entry` and unlinks it from `deq`.
    pub fn unlink_wo<V>(deq: &mut Deque<KeyDate<K>>, entry: &mut ValueEntry<K, V>)
        requires
            old(deq).wf(),
            old(entry).spec_write_order_q_node() matches Some(n) ==> n.region == CacheRegion::WriteOrder
                && old(deq).spec_contains(n),
        ensures
            final(deq).wf(),
            final(deq).spec_region() == old(deq).spec_region(),
            final(deq).spec_next_id() == old(deq).spec_next_id(),
            final(entry).spec_write_order_q_node() is None,
            final(entry).spec_access_order_q_node() == old(entry).spec_access_order_q_node(),
            final(entry).spec_value() == old(entry).spec_value(),
            match old(entry).spec_write_order_q_node() {
                Some(n) => {
                    &&& final(deq)@ == unlinked(old(deq)@, n.id)
                    &&& final(deq)@.len() == old(deq)@.len() - 1
                    &&& !final(deq).spec_contains(n)
                    &&& forall|m: DeqNode| m != n ==> (#[trigger] final(deq).spec_contains(m) <==> old(deq).spec_contains(m))
                },
                None => *final(deq) == *old(deq),
            },
    {
        if let Some(node) = entry.take_write_order_q_node() {
            Self::unlink_node_wo(deq, node);
        }
    }

    /// Unlinks `node` from the access-order queue of its region.
    pub fn unlink_node_ao(&mut self, node: DeqNode)
        requires
            old(self).wf(),
            is_ao_region(node.region),
            old(self).ao_deque(node.region).spec_contains(node),
        ensures
            final(self).wf(),
            final(self).ao_deque(node.region)@ == unlinked(old(self).ao_deque(node.region)@, node.id),
            final(self).ao_deque(node.region)@.len() == old(self).ao_deque(node.region)@.len() - 1,
            !final(self).ao_deque(node.region).spec_contains(node),
            forall|m: DeqNode| m != node ==> (#[trigger] final(self).ao_deque(node.region).spec_contains(m)
                <==> old(self).ao_deque(node.region).spec_contains(m)),
            final(self).ao_deque(node.region).spec_next_id() == old(self).ao_deque(node.region).spec_next_id(),
            old(self).same_but_ao(&*final(self), node.region),
    {
        if node.region == CacheRegion::Window {
            Self::unlink_node_ao_from_deque("window", &mut self.window, node);
        } else if node.region == CacheRegion::MainProbation {
            Self::unlink_node_ao_from_deque("probation", &mut self.probation, node);
        } else {
            Self::unlink_node_ao_from_deque("protected", &mut self.protected, node);
        }
    }

    /// Unlinks `node` from `deq`, which holds it; `deq_name` names the queue.
    pub fn unlink_node_ao_from_deque(deq_name: &str, deq: &mut Deque<KeyHashDate<K>>, node: DeqNode)
        requires
            old(deq).wf(),
            old(deq).spec_contains(node),
        ensures
            final(deq).wf(),
            final(deq)@ == unlinked(old(deq)@, node.id),
            final(deq)@.len() == old(deq)@.len() - 1,
            !final(deq).spec_contains(node),
            forall|m: DeqNode| m != node ==> (#[trigger] final(deq).spec_contains(m) <==> old(deq).spec_contains(m)),
            final(deq).spec_region() == old(deq).spec_region(),
            final(deq).spec_next_id() == old(deq).spec_next_id(),
    {
        let _element = deq.unlink(&node);
    }

    /// Unlinks `node`, a write-order node, from `deq`, which holds it.
    pub fn unlink_node_wo(deq: &mut Deque<KeyDate<K>>, node: DeqNode)
        requires
            old(deq).wf(),
            node.region == CacheRegion::WriteOrder,
            old(deq).spec_contains(node),
        ensures
            final(deq).wf(),
            final(deq)@ == unlinked(old(deq)@, node.id),
            final(deq)@.len() == old(deq)@.len() - 1,
            !final(deq).spec_contains(node),
            forall|m: DeqNode| m != node ==> (#[trigger] final(deq).spec_contains(m) <==> old(deq).spec_contains(m)),
            final(deq).spec_region() == old(deq).spec_region(),
            final(deq).spec_next_id() == old(deq).spec_next_id(),
    {
        let _element = deq.unlink(&node);
    }
}

} // verus!
