//! Query identifiers, the messages exchanged with asset factories, and the
//! binding that connects a factory to the hub.

use vstd::prelude::*;
use crate::ids::next_number;
use std::sync::Arc;
use crossbeam_queue::ArrayQueue;
use crate::assets::{AssetID, AssetType};
use crate::assets::metadata::AssetHeader;

verus! {

/// Declares std's `TypeId` to the verifier, opaque: it is only carried.
#[verifier::external_type_specification]
#[verifier::external_body]
pub struct ExTypeId(std::any::TypeId);

/// Identifier of a load or free query.
#[derive(Debug, Clone, Copy, PartialEq, Eq, Structural, Hash)]
pub struct AssetQueryID(usize);

impl AssetQueryID {
    /// The number of the query.
    pub closed spec fn spec_value(&self) -> usize {
        self.0
    }

    pub fn new(value: usize) -> (r: AssetQueryID)
        ensures
            r.spec_value() == value,
    {
        AssetQueryID(value)
    }

    pub fn value(&self) -> (r: usize)
        ensures
            r == self.spec_value(),
    {
        self.0
    }
}

/// Hands out query identifiers in increasing order, wrapping around after
/// the largest one.
#[derive(Debug)]
pub struct AssetQueryIdSource {
    next: usize,
}

impl AssetQueryIdSource {
    /// The number of the next identifier.
    pub closed spec fn spec_next(&self) -> usize {
        self.next
    }

    pub fn new() -> (r: AssetQueryIdSource)
        ensures
            r.spec_next() == 0,
    {
        AssetQueryIdSource { next: 0 }
    }

    /// The next identifier.
    pub fn next_id(&mut self) -> (r: AssetQueryID)
        ensures
            r.spec_value() == old(self).spec_next(),
            final(self).spec_next() == next_number(old(self).spec_next()),
    {
        let id = self.next;
        self.next = self.next.wrapping_add(1);
        AssetQueryID(id)
    }
}

/// Where a loaded asset lives: its Rust type and its address.
#[derive(Debug, Clone, Copy, PartialEq, Eq, Hash)]
pub struct AssetHandle {
    pub type_id: std::any::TypeId,
    pub address: usize,
}

/// Requests from the hub to a factory.
#[derive(Debug)]
pub enum InMessage {
    /// Parse the raw bytes of an asset.
    Load(AssetQueryID, AssetID, AssetHeader, Vec<u8>),
    /// Release a loaded asset.
    Free(AssetQueryID, AssetID),
}

/// Answers from a factory to the hub.
#[derive(Debug)]
pub enum OutMessage {
    Loaded(AssetQueryID, AssetID, AssetHandle),
    Failed(AssetQueryID, AssetID, String),
    Freed(AssetQueryID, AssetID),
}

/// What a factory found when it carried out a request.
#[derive(Debug)]
pub enum FactoryOutcome {
    /// The raw bytes were parsed; the asset lives at this handle.
    Parsed(AssetHandle),
    /// Parsing failed, for this reason.
    ParseFailed(String),
    /// The stored asset was released.
    Released,
    /// No asset is stored under the identifier to free.
    NotStored,
}

/// The factory's answer to the hub for query `qid` on asset `id`, given
/// what carrying out the request gave: a parsed asset is reported loaded,
/// a parse failure failed, a release freed; freeing an asset that is not
/// stored is not answered.
pub fn factory_answer(qid: AssetQueryID, id: AssetID, outcome: FactoryOutcome) -> (r: Option<OutMessage>)
    ensures
        outcome matches FactoryOutcome::Parsed(h) ==> r == Some(OutMessage::Loaded(qid, id, h)),
        outcome matches FactoryOutcome::ParseFailed(e) ==> r == Some(OutMessage::Failed(qid, id, e)),
        outcome is Released ==> r == Some(OutMessage::Freed(qid, id)),
        outcome is NotStored ==> r is None,
{
    match outcome {
        FactoryOutcome::Parsed(handle) => Some(OutMessage::Loaded(qid, id, handle)),
        FactoryOutcome::ParseFailed(e) => Some(OutMessage::Failed(qid, id, e)),
        FactoryOutcome::Released => Some(OutMessage::Freed(qid, id)),
        FactoryOutcome::NotStored => None,
    }
}

struct FactoryBindingInner {
    asset_type: AssetType,
    in_queue: Arc<ArrayQueue<InMessage>>,
    out_queue: Arc<ArrayQueue<OutMessage>>,
}

/// The two queues connecting the hub and the factory of one asset type.
pub struct FactoryBinding(Arc<FactoryBindingInner>);

impl Clone for FactoryBinding {
    /// Another handle to the same binding.
    fn clone(&self) -> (r: FactoryBinding)
        ensures
            r == *self,
    {
        FactoryBinding(Arc::clone(&self.0))
    }
}

impl FactoryBinding {
    /// The asset type the factory serves.
    pub closed spec fn spec_asset_type(&self) -> AssetType {
        self.0.asset_type
    }

    pub fn new(
        asset_type: AssetType,
        in_queue: Arc<ArrayQueue<InMessage>>,
        out_queue: Arc<ArrayQueue<OutMessage>>,
    ) -> (r: FactoryBinding)
        ensures
            r.spec_asset_type() == asset_type,
            r.spec_in_queue() == in_queue,
            r.spec_out_queue() == out_queue,
    {
        FactoryBinding(Arc::new(FactoryBindingInner { asset_type, in_queue, out_queue }))
    }

    pub fn asset_type(&self) -> (r: AssetType)
        ensures
            r == self.spec_asset_type(),
    {
        self.0.asset_type
    }

    /// The queue of requests to the factory.
    pub closed spec fn spec_in_queue(&self) -> Arc<ArrayQueue<InMessage>> {
        self.0.in_queue
    }

    /// The queue of answers from the factory.
    pub closed spec fn spec_out_queue(&self) -> Arc<ArrayQueue<OutMessage>> {
        self.0.out_queue
    }

    /// The queue of requests to the factory.
    pub fn in_queue(&self) -> (r: Arc<ArrayQueue<InMessage>>)
        ensures
            r == self.spec_in_queue(),
    {
        Arc::clone(&self.0.in_queue)
    }

    /// The queue of answers from the factory.
    pub fn out_queue(&self) -> (r: Arc<ArrayQueue<OutMessage>>)
        ensures
            r == self.spec_out_queue(),
    {
        Arc::clone(&self.0.out_queue)
    }
}

} // verus!
