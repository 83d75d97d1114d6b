//! What the queues hold for a cached entry, and the entry's links into them.

use vstd::prelude::*;
use std::marker::PhantomData;
use std::sync::Arc;
use crate::common::deque::DeqNode;

verus! {

/// The element of an access-order queue: the key and its hash.
pub struct KeyHashDate<K> {
    pub key: Arc<K>,
    pub hash: u64,
}

/// The element of the write-order queue: the key.
pub struct KeyDate<K> {
    pub key: Arc<K>,
}

/// A cached value together with the handles of its nodes in the access-order
/// and write-order queues, if it has them.
pub struct ValueEntry<K, V> {
    value: V,
    access_order_q_node: Option<DeqNode>,
    write_order_q_node: Option<DeqNode>,
    key_type: PhantomData<K>,
}

impl<K, V> ValueEntry<K, V> {
    /// The cached value.
    pub closed spec fn spec_value(&self) -> V {
        self.value
    }

    /// The handle of the entry's node in an access-order queue.
    pub closed spec fn spec_access_order_q_node(&self) -> Option<DeqNode> {
        self.access_order_q_node
    }

    /// The handle of the entry's node in the write-order queue.
    pub closed spec fn spec_write_order_q_node(&self) -> Option<DeqNode> {
        self.write_order_q_node
    }

    /// An entry for `value` that is in no queue yet.
    pub fn new(value: V) -> (e: ValueEntry<K, V>)
        ensures
            e.spec_value() == value,
            e.spec_access_order_q_node() is None,
            e.spec_write_order_q_node() is None,
    {
        ValueEntry { value, access_order_q_node: None, write_order_q_node: None, key_type: PhantomData }
    }

    /// The cached value.
    pub fn value(&self) -> (r: &V)
        ensures
            *r == self.spec_value(),
    {
        &self.value
    }

    /// The handle of the entry's node in an access-order queue.
    #[verifier::when_used_as_spec(spec_access_order_q_node)]
    pub fn access_order_q_node(&self) -> (r: Option<DeqNode>)
        ensures
            r == self.spec_access_order_q_node(),
    {
        self.access_order_q_node
    }

    /// Records `node` as the entry's access-order node.
    pub fn set_access_order_q_node(&mut self, node: Option<DeqNode>)
        ensures
            final(self).spec_access_order_q_node() == node,
            final(self).spec_write_order_q_node() == old(self).spec_write_order_q_node(),
            final(self).spec_value() == old(self).spec_value(),
    {
        self.access_order_q_node = node;
    }

    /// Returns the entry's access-order node and clears it.
    pub fn take_access_order_q_node(&mut self) -> (r: Option<DeqNode>)
        ensures
            r == old(self).spec_access_order_q_node(),
            final(self).spec_access_order_q_node() is None,
            final(self).spec_write_order_q_node() == old(self).spec_write_order_q_node(),
            final(self).spec_value() == old(self).spec_value(),
    {
        let r = self.access_order_q_node;
        self.access_order_q_node = None;
        r
    }

    /// The handle of the entry's node in the write-order queue.
    #[verifier::when_used_as_spec(spec_write_order_q_node)]
    pub fn write_order_q_node(&self) -> (r: Option<DeqNode>)
        ensures
            r == self.spec_write_order_q_node(),
    {
        self.write_order_q_node
    }

    /// Records `node` as the entry's write-order node.
    pub fn set_write_order_q_node(&mut self, node: Option<DeqNode>)
        ensures
            final(self).spec_write_order_q_node() == node,
            final(self).spec_access_order_q_node() == old(self).spec_access_order_q_node(),
            final(self).spec_value() == old(self).spec_value(),
    {
        self.write_order_q_node = node;
    }

    /// Returns the entry's write-order node and clears it.
    pub fn take_write_order_q_node(&mut self) -> (r: Option<DeqNode>)
        ensures
            r == old(self).spec_write_order_q_node(),
            final(self).spec_write_order_q_node() is None,
            final(self).spec_access_order_q_node() == old(self).spec_access_order_q_node(),
            final(self).spec_value() == old(self).spec_value(),
    {
        let r = self.write_order_q_node;
        self.write_order_q_node = None;
        r
    }
}

} // verus!
