//! Query identifiers and the messages exchanged with resource factories,
//! and the binding that connects a factory to its queues.

use vstd::prelude::*;
use crate::ids::next_number;
use std::sync::Arc;
use crossbeam_queue::ArrayQueue;
use crate::resources::ResourceHeader;
use crate::resources::resource::{ResourceID, ResourceType};

verus! {

/// Identifier of a load or free query.
#[derive(Debug, Clone, Copy, PartialEq, Eq, Structural, Hash)]
pub struct QueryID(usize);

impl QueryID {
    /// The number of the query.
    pub closed spec fn spec_value(&self) -> usize {
        self.0
    }

    pub fn new(value: usize) -> (r: QueryID)
        ensures
            r.spec_value() == value,
    {
        QueryID(value)
    }

    pub fn value(&self) -> (r: usize)
        ensures
            r == self.spec_value(),
    {
        self.0
    }
}

/// Hands out query identifiers in increasing order, wrapping around after
/// the largest one.
#[derive(Debug)]
pub struct QueryIdSource {
    next: usize,
}

impl QueryIdSource {
    /// The number of the next identifier.
    pub closed spec fn spec_next(&self) -> usize {
        self.next
    }

    pub fn new() -> (r: QueryIdSource)
        ensures
            r.spec_next() == 0,
    {
        QueryIdSource { next: 0 }
    }

    /// The next identifier.
    pub fn next_id(&mut self) -> (r: QueryID)
        ensures
            r.spec_value() == old(self).spec_next(),
            final(self).spec_next() == next_number(old(self).spec_next()),
    {
        let id = self.next;
        self.next = self.next.wrapping_add(1);
        QueryID(id)
    }
}

/// Requests to a factory.
#[derive(Debug)]
pub enum InMessage {
    /// Parse the raw bytes of a resource.
    Load(QueryID, ResourceID, Vec<u8>, ResourceHeader),
    /// Release a loaded resource.
    Free(QueryID, ResourceID),
}

/// Answers from a factory; a loaded resource is given by its address.
#[derive(Debug)]
pub enum OutMessage {
    Loaded(QueryID, ResourceID, usize),
    Freed(QueryID, ResourceID),
}

struct FactoryBindingInner {
    resource_type: ResourceType,
    in_queue: Arc<ArrayQueue<InMessage>>,
    out_queue: Arc<ArrayQueue<OutMessage>>,
}

/// The two queues connecting a factory of one resource type to its owner.
pub struct FactoryBinding(Arc<FactoryBindingInner>);

impl Clone for FactoryBinding {
    /// Another handle to the same binding.
    fn clone(&self) -> (r: FactoryBinding)
        ensures
            r == *self,
    {
        FactoryBinding(Arc::clone(&self.0))
    }
}

impl FactoryBinding {
    /// The resource type the factory serves.
    pub closed spec fn spec_resource_type(&self) -> ResourceType {
        self.0.resource_type
    }

    pub fn new(
        resource_type: ResourceType,
        in_queue: Arc<ArrayQueue<InMessage>>,
        out_queue: Arc<ArrayQueue<OutMessage>>,
    ) -> (r: FactoryBinding)
        ensures
            r.spec_resource_type() == resource_type,
            r.spec_in_queue() == in_queue,
            r.spec_out_queue() == out_queue,
    {
        FactoryBinding(Arc::new(FactoryBindingInner { resource_type, in_queue, out_queue }))
    }

    pub fn resource_type(&self) -> (r: ResourceType)
        ensures
            r == self.spec_resource_type(),
    {
        self.0.resource_type
    }

    /// The queue of requests to the factory.
    pub closed spec fn spec_in_queue(&self) -> Arc<ArrayQueue<InMessage>> {
        self.0.in_queue
    }

    /// The queue of answers from the factory.
    pub closed spec fn spec_out_queue(&self) -> Arc<ArrayQueue<OutMessage>> {
        self.0.out_queue
    }

    /// The queue of requests to the factory.
    pub fn in_queue(&self) -> (r: Arc<ArrayQueue<InMessage>>)
        ensures
            r == self.spec_in_queue(),
    {
        Arc::clone(&self.0.in_queue)
    }

    /// The queue of answers from the factory.
    pub fn out_queue(&self) -> (r: Arc<ArrayQueue<OutMessage>>)
        ensures
            r == self.spec_out_queue(),
    {
        Arc::clone(&self.0.out_queue)
    }
}

} // verus!
