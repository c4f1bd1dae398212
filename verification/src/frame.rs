//! The state of one invocation frame: the resources it knows, and the
//! buckets and references that are live in it.

use crate::decimal::Decimal;
use crate::error::RuntimeError;
use crate::resource::{Holding, ResourceDef};
use crate::types::{Address, BID, RID};
use vstd::prelude::*;

verus! {

/// A live bucket: its handle and what it holds.
#[derive(Debug, Clone, Copy, PartialEq, Eq, Structural)]
pub struct BucketState {
    pub id: BID,
    pub holding: Holding,
}

/// A live reference: its handle and the bucket it was borrowed from.
#[derive(Debug, Clone, Copy, PartialEq, Eq, Structural)]
pub struct Reference {
    pub id: RID,
    pub bucket: BID,
}

/// A resource definition under its address.
#[derive(Debug)]
pub struct ResourceEntry {
    pub address: Address,
    pub def: ResourceDef,
}

/// What a bucket adds to the total of `resource`.
pub open spec fn part(b: BucketState, resource: Address) -> int {
    if b.holding.resource == resource {
        b.holding.amount@
    } else {
        0
    }
}

/// The total amount of `resource` in a sequence of buckets.
pub open spec fn sum_of(buckets: Seq<BucketState>, resource: Address) -> int
    decreases buckets.len(),
{
    if buckets.len() == 0 {
        0
    } else {
        sum_of(buckets.drop_last(), resource) + part(buckets.last(), resource)
    }
}

/// A bucket added at the end adds its part to the total.
pub proof fn lemma_sum_push(s: Seq<BucketState>, b: BucketState, resource: Address)
    ensures
        sum_of(s.push(b), resource) == sum_of(s, resource) + part(b, resource),
{
    assert(s.push(b).drop_last() =~= s);
}

/// Replacing a bucket changes the total by the difference of the parts.
pub proof fn lemma_sum_update(s: Seq<BucketState>, i: int, b: BucketState, resource: Address)
    requires
        0 <= i < s.len(),
    ensures
        sum_of(s.update(i, b), resource) == sum_of(s, resource) - part(s[i], resource) + part(
            b,
            resource,
        ),
    decreases s.len(),
{
    if i == s.len() - 1 {
        assert(s.update(i, b).drop_last() =~= s.drop_last());
    } else {
        assert(s.update(i, b).drop_last() =~= s.drop_last().update(i, b));
        lemma_sum_update(s.drop_last(), i, b, resource);
    }
}

/// Removing a bucket takes its part from the total.
pub proof fn lemma_sum_remove(s: Seq<BucketState>, i: int, resource: Address)
    requires
        0 <= i < s.len(),
    ensures
        sum_of(s.remove(i), resource) == sum_of(s, resource) - part(s[i], resource),
    decreases s.len(),
{
    if i == s.len() - 1 {
        assert(s.remove(i) =~= s.drop_last());
    } else {
        assert(s.remove(i).drop_last() =~= s.drop_last().remove(i));
        assert(s.remove(i).last() == s.last());
        lemma_sum_remove(s.drop_last(), i, resource);
    }
}

/// The mathematical state of a frame.
pub ghost struct FrameState {
    pub resources: Seq<ResourceEntry>,
    pub buckets: Seq<BucketState>,
    pub borrows: Seq<Reference>,
    pub next_bid: u32,
    pub next_rid: u32,
}

impl FrameState {
    /// Whether a bucket with this handle is live.
    pub open spec fn has_bucket(self, id: BID) -> bool {
        exists|i: int| 0 <= i < self.buckets.len() && (#[trigger] self.buckets[i]).id == id
    }

    /// The place of the live bucket with this handle.
    pub open spec fn bucket_index(self, id: BID) -> int {
        choose|i: int| 0 <= i < self.buckets.len() && (#[trigger] self.buckets[i]).id == id
    }

    /// What the live bucket with this handle holds.
    pub open spec fn holding(self, id: BID) -> Holding {
        self.buckets[self.bucket_index(id)].holding
    }

    /// Whether a reference with this handle is live.
    pub open spec fn has_reference(self, id: RID) -> bool {
        exists|i: int| 0 <= i < self.borrows.len() && (#[trigger] self.borrows[i]).id == id
    }

    /// The place of the live reference with this handle.
    pub open spec fn reference_index(self, id: RID) -> int {
        choose|i: int| 0 <= i < self.borrows.len() && (#[trigger] self.borrows[i]).id == id
    }

    /// The bucket that the live reference with this handle was borrowed from.
    pub open spec fn referent(self, id: RID) -> BID {
        self.borrows[self.reference_index(id)].bucket
    }

    /// Whether a resource is defined under this address.
    pub open spec fn has_resource(self, address: Address) -> bool {
        exists|i: int|
            0 <= i < self.resources.len() && (#[trigger] self.resources[i]).address == address
    }

    /// The place of the resource defined under this address.
    pub open spec fn resource_index(self, address: Address) -> int {
        choose|i: int|
            0 <= i < self.resources.len() && (#[trigger] self.resources[i]).address == address
    }

    /// The definition of the resource under this address.
    pub open spec fn resource(self, address: Address) -> ResourceDef {
        self.resources[self.resource_index(address)].def
    }

    /// The total amount of `resource` that the live buckets hold.
    pub open spec fn total(self, resource: Address) -> int {
        sum_of(self.buckets, resource)
    }

    /// The handles of the live buckets, in the order in which they came.
    pub open spec fn bucket_ids(self) -> Seq<BID> {
        Seq::new(self.buckets.len(), |i: int| self.buckets[i].id)
    }

    /// The handles of the live borrows, in the order in which they came.
    pub open spec fn reference_ids(self) -> Seq<RID> {
        Seq::new(self.borrows.len(), |i: int| self.borrows[i].id)
    }

    /// The invariant of a frame: no handle and no address occurs twice,
    /// every live handle is below the next one to be given out, and every
    /// holding and definition is valid.
    pub open spec fn wf(self) -> bool {
        &&& forall|i: int, j: int|
            0 <= i < j < self.buckets.len() ==> (#[trigger] self.buckets[i]).id != (
            #[trigger] self.buckets[j]).id
        &&& forall|i: int|
            0 <= i < self.buckets.len() ==> (#[trigger] self.buckets[i]).id.0 < self.next_bid
                && self.buckets[i].holding.wf()
        &&& forall|i: int, j: int|
            0 <= i < j < self.borrows.len() ==> (#[trigger] self.borrows[i]).id != (
            #[trigger] self.borrows[j]).id
        &&& forall|i: int|
            0 <= i < self.borrows.len() ==> (#[trigger] self.borrows[i]).id.0
                < self.next_rid
        &&& forall|i: int, j: int|
            0 <= i < j < self.resources.len() ==> (#[trigger] self.resources[i]).address != (
            #[trigger] self.resources[j]).address
        &&& forall|i: int|
            0 <= i < self.resources.len() ==> (#[trigger] self.resources[i]).def.wf()
    }

    /// Whether the frame's buckets hold, of every defined resource, no more
    /// than was supplied of it. A frame whose buckets all came from mints
    /// and from holdings within the supply is backed, and every call keeps
    /// it so.
    pub open spec fn backed(self) -> bool {
        forall|i: int|
            0 <= i < self.resources.len() ==> sum_of(
                self.buckets,
                (#[trigger] self.resources[i]).address,
            ) <= self.resources[i].def.total_supply@
    }

    /// The state with one more bucket, under the next free handle.
    pub open spec fn with_bucket(self, holding: Holding) -> FrameState {
        FrameState {
            buckets: self.buckets.push(BucketState { id: BID(self.next_bid), holding }),
            next_bid: (self.next_bid + 1) as u32,
            ..self
        }
    }

    /// The state with the holding of one live bucket replaced.
    pub open spec fn with_holding(self, id: BID, holding: Holding) -> FrameState {
        FrameState {
            buckets: self.buckets.update(self.bucket_index(id), BucketState { id, holding }),
            ..self
        }
    }

    /// The state without one live bucket.
    pub open spec fn without_bucket(self, id: BID) -> FrameState {
        FrameState { buckets: self.buckets.remove(self.bucket_index(id)), ..self }
    }

    /// The state with one more reference, under the next free handle.
    pub open spec fn with_reference(self, bucket: BID) -> FrameState {
        FrameState {
            borrows: self.borrows.push(Reference { id: RID(self.next_rid), bucket }),
            next_rid: (self.next_rid + 1) as u32,
            ..self
        }
    }

    /// The state without one live reference.
    pub open spec fn without_reference(self, id: RID) -> FrameState {
        FrameState { borrows: self.borrows.remove(self.reference_index(id)), ..self }
    }

    /// The state with one more resource defined.
    pub open spec fn with_resource(self, entry: ResourceEntry) -> FrameState {
        FrameState { resources: self.resources.push(entry), ..self }
    }

    /// The state with the total supply of one defined resource replaced.
    pub open spec fn with_supply(self, address: Address, supply: Decimal) -> FrameState {
        let i = self.resource_index(address);
        FrameState {
            resources: self.resources.update(
                i,
                ResourceEntry {
                    address,
                    def: ResourceDef { total_supply: supply, ..self.resources[i].def },
                },
            ),
            ..self
        }
    }

    /// What closing the frame reports: nothing where no bucket and no
    /// reference is live, otherwise every live handle.
    pub open spec fn leaks(self) -> Option<(Seq<BID>, Seq<RID>)> {
        if self.buckets.len() == 0 && self.borrows.len() == 0 {
            None
        } else {
            Some((self.bucket_ids(), self.reference_ids()))
        }
    }
}

/// One invocation frame.
#[derive(Debug)]
pub struct Frame {
    resources: Vec<ResourceEntry>,
    buckets: Vec<BucketState>,
    borrows: Vec<Reference>,
    next_bid: u32,
    next_rid: u32,
}

impl View for Frame {
    type V = FrameState;

    closed spec fn view(&self) -> FrameState {
        FrameState {
            resources: self.resources@,
            buckets: self.buckets@,
            borrows: self.borrows@,
            next_bid: self.next_bid,
            next_rid: self.next_rid,
        }
    }
}

impl Frame {
    /// A frame with no resource, no bucket and no reference.
    pub fn new() -> (frame: Frame)
        ensures
            frame@.wf(),
            frame@.resources.len() == 0,
            frame@.buckets.len() == 0,
            frame@.borrows.len() == 0,
            frame@.next_bid == 0,
            frame@.next_rid == 0,
            frame@.backed(),
    {
        Frame {
            resources: Vec::new(),
            buckets: Vec::new(),
            borrows: Vec::new(),
            next_bid: 0,
            next_rid: 0,
        }
    }

    /// Whether another bucket handle can be given out.
    pub fn has_free_bucket_handle(&self) -> (r: bool)
        ensures
            r == (self@.next_bid < u32::MAX),
    {
        self.next_bid < u32::MAX
    }

    /// Whether another reference handle can be given out.
    pub fn has_free_reference_handle(&self) -> (r: bool)
        ensures
            r == (self@.next_rid < u32::MAX),
    {
        self.next_rid < u32::MAX
    }

    /// The place of the live bucket with this handle, if there is one.
    pub fn find_bucket(&self, id: BID) -> (r: Option<usize>)
        requires
            self@.wf(),
        ensures
            match r {
                Some(i) => self@.has_bucket(id) && i == self@.bucket_index(id) && i
                    < self@.buckets.len(),
                None => !self@.has_bucket(id),
            },
    {
        let mut i: usize = 0;
        while i < self.buckets.len()
            invariant
                self@.wf(),
                i <= self.buckets.len(),
                forall|j: int| 0 <= j < i ==> (#[trigger] self.buckets@[j]).id != id,
            decreases self.buckets.len() - i,
        {
            if self.buckets[i].id == id {
                assert(self@.buckets[i as int].id == id);
                return Some(i);
            }
            i = i + 1;
        }
        None
    }

    /// The place of the live reference with this handle, if there is one.
    pub fn find_reference(&self, id: RID) -> (r: Option<usize>)
        requires
            self@.wf(),
        ensures
            match r {
                Some(i) => self@.has_reference(id) && i == self@.reference_index(id) && i
                    < self@.borrows.len(),
                None => !self@.has_reference(id),
            },
    {
        let mut i: usize = 0;
        while i < self.borrows.len()
            invariant
                self@.wf(),
                i <= self.borrows.len(),
                forall|j: int| 0 <= j < i ==> (#[trigger] self.borrows@[j]).id != id,
            decreases self.borrows.len() - i,
        {
            if self.borrows[i].id == id {
                assert(self@.borrows[i as int].id == id);
                return Some(i);
            }
            i = i + 1;
        }
        None
    }

    /// The place of the resource defined under this address, if there is one.
    pub fn find_resource(&self, address: Address) -> (r: Option<usize>)
        requires
            self@.wf(),
        ensures
            match r {
                Some(i) => self@.has_resource(address) && i == self@.resource_index(address) && i
                    < self@.resources.len(),
                None => !self@.has_resource(address),
            },
    {
        let mut i: usize = 0;
        while i < self.resources.len()
            invariant
                self@.wf(),
                i <= self.resources.len(),
                forall|j: int| 0 <= j < i ==> (#[trigger] self.resources@[j]).address != address,
            decreases self.resources.len() - i,
        {
            if self.resources[i].address == address {
                assert(self@.resources[i as int].address == address);
                return Some(i);
            }
            i = i + 1;
        }
        None
    }

    /// The bucket at a place.
    pub fn bucket_at(&self, i: usize) -> (b: BucketState)
        requires
            i < self@.buckets.len(),
        ensures
            b == self@.buckets[i as int],
    {
        self.buckets[i]
    }

    /// The reference at a place.
    pub fn reference_at(&self, i: usize) -> (r: Reference)
        requires
            i < self@.borrows.len(),
        ensures
            r == self@.borrows[i as int],
    {
        self.borrows[i]
    }

    /// The resource definition at a place.
    pub fn resource_at(&self, i: usize) -> (def: &ResourceDef)
        requires
            i < self@.resources.len(),
        ensures
            *def == self@.resources[i as int].def,
    {
        &self.resources[i].def
    }

    /// Defines a resource under an address that has none yet.
    pub fn define_resource(&mut self, address: Address, def: ResourceDef) -> (r: Result<
        (),
        RuntimeError,
    >)
        requires
            old(self)@.wf(),
            def.wf(),
        ensures
            final(self)@.wf(),
            match r {
                Ok(()) => !old(self)@.has_resource(address) && final(self)@ == old(
                    self,
                )@.with_resource(ResourceEntry { address, def }),
                Err(e) => old(self)@.has_resource(address) && e
                    == RuntimeError::ResourceAlreadyExists(address) && final(self)@ == old(self)@,
            },
            old(self)@.backed() && old(self)@.total(address) <= def.total_supply@ ==> final(self)@.backed(),
    {
        proof {
            if old(self)@.backed() && old(self)@.total(address) <= def.total_supply@ {
                crate::laws::lemma_define_keeps_backing(
                    old(self)@,
                    ResourceEntry { address, def },
                );
            }
        }
        match self.find_resource(address) {
            Some(_) => Err(RuntimeError::ResourceAlreadyExists(address)),
            None => {
                self.resources.push(ResourceEntry { address, def });
                assert(self@.borrows == old(self)@.borrows);
                assert(self@.buckets == old(self)@.buckets);
                Ok(())
            },
        }
    }

    /// Puts a holding into a new bucket and returns its handle.
    pub(crate) fn add_bucket(&mut self, holding: Holding) -> (id: BID)
        requires
            old(self)@.wf(),
            old(self)@.next_bid < u32::MAX,
            holding.wf(),
        ensures
            final(self)@.wf(),
            final(self)@ == old(self)@.with_bucket(holding),
            id == BID(old(self)@.next_bid),
            !old(self)@.has_bucket(id),
    {
        let id = BID(self.next_bid);
        self.buckets.push(BucketState { id, holding });
        self.next_bid = self.next_bid + 1;
        assert(self@.borrows == old(self)@.borrows);
        assert(self@.resources == old(self)@.resources);
        id
    }

    /// Replaces what the bucket at a place holds.
    pub(crate) fn set_holding(&mut self, i: usize, holding: Holding)
        requires
            old(self)@.wf(),
            i < old(self)@.buckets.len(),
            holding.wf(),
        ensures
            final(self)@.wf(),
            final(self)@ == old(self)@.with_holding(old(self)@.buckets[i as int].id, holding),
            final(self)@.buckets == old(self)@.buckets.update(
                i as int,
                BucketState { id: old(self)@.buckets[i as int].id, holding },
            ),
    {
        let id = self.buckets[i].id;
        assert(old(self)@.bucket_index(id) == i);
        self.buckets.set(i, BucketState { id, holding });
        assert(self@.borrows == old(self)@.borrows);
        assert(self@.resources == old(self)@.resources);
    }

    /// Takes the bucket at a place out of the frame.
    pub(crate) fn remove_bucket(&mut self, i: usize) -> (b: BucketState)
        requires
            old(self)@.wf(),
            i < old(self)@.buckets.len(),
        ensures
            final(self)@.wf(),
            b == old(self)@.buckets[i as int],
            final(self)@ == old(self)@.without_bucket(b.id),
            final(self)@.buckets == old(self)@.buckets.remove(i as int),
            !final(self)@.has_bucket(b.id),
    {
        assert(old(self)@.bucket_index(self.buckets@[i as int].id) == i);
        let b = self.buckets.remove(i);
        assert(self@.borrows == old(self)@.borrows);
        assert(self@.resources == old(self)@.resources);
        b
    }

    /// Records a new reference to a bucket and returns its handle.
    pub(crate) fn add_reference(&mut self, bucket: BID) -> (id: RID)
        requires
            old(self)@.wf(),
            old(self)@.next_rid < u32::MAX,
        ensures
            final(self)@.wf(),
            final(self)@ == old(self)@.with_reference(bucket),
            id == RID(old(self)@.next_rid),
    {
        let id = RID(self.next_rid);
        self.borrows.push(Reference { id, bucket });
        self.next_rid = self.next_rid + 1;
        assert(self@.buckets == old(self)@.buckets);
        assert(self@.resources == old(self)@.resources);
        assert(self@.borrows == old(self)@.borrows.push(Reference { id, bucket }));
        id
    }

    /// Takes the reference at a place out of the frame.
    pub(crate) fn remove_reference(&mut self, i: usize) -> (r: Reference)
        requires
            old(self)@.wf(),
            i < old(self)@.borrows.len(),
        ensures
            final(self)@.wf(),
            r == old(self)@.borrows[i as int],
            final(self)@ == old(self)@.without_reference(r.id),
            !final(self)@.has_reference(r.id),
    {
        assert(old(self)@.reference_index(self.borrows@[i as int].id) == i);
        let r = self.borrows.remove(i);
        assert(self@.buckets == old(self)@.buckets);
        assert(self@.resources == old(self)@.resources);
        r
    }

    /// Replaces the total supply of the resource at a place.
    pub(crate) fn set_supply(&mut self, i: usize, supply: Decimal)
        requires
            old(self)@.wf(),
            i < old(self)@.resources.len(),
            supply@ >= 0,
        ensures
            final(self)@.wf(),
            final(self)@ == old(self)@.with_supply(old(self)@.resources[i as int].address, supply),
    {
        assert(old(self)@.resource_index(self.resources@[i as int].address) == i);
        let mut fresh: Vec<ResourceEntry> = Vec::new();
        std::mem::swap(&mut fresh, &mut self.resources);
        let mut entry = fresh.remove(i);
        entry.def.total_supply = supply;
        fresh.insert(i, entry);
        assert(fresh@ =~= old(self)@.resources.update(i as int, entry));
        self.resources = fresh;
        assert(self@.buckets == old(self)@.buckets);
        assert(self@.borrows == old(self)@.borrows);
    }

    /// Audits the frame as it closes: fails with every live handle where a
    /// bucket or a reference was left behind.
    pub fn close(&self) -> (r: Result<(), RuntimeError>)
        ensures
            match r {
                Ok(()) => self@.leaks() is None,
                Err(RuntimeError::ResourceLeak(bids, rids)) => self@.leaks() == Some(
                    (bids@, rids@),
                ),
                Err(_) => false,
            },
    {
        if self.buckets.len() == 0 && self.borrows.len() == 0 {
            return Ok(());
        }
        let mut bids: Vec<BID> = Vec::new();
        let mut i: usize = 0;
        while i < self.buckets.len()
            invariant
                i <= self.buckets.len(),
                bids@.len() == i,
                forall|j: int| 0 <= j < i ==> bids@[j] == self.buckets@[j].id,
            decreases self.buckets.len() - i,
        {
            bids.push(self.buckets[i].id);
            i = i + 1;
        }
        let mut rids: Vec<RID> = Vec::new();
        let mut k: usize = 0;
        while k < self.borrows.len()
            invariant
                k <= self.borrows.len(),
                rids@.len() == k,
                forall|j: int| 0 <= j < k ==> rids@[j] == self.borrows@[j].id,
            decreases self.borrows.len() - k,
        {
            rids.push(self.borrows[k].id);
            k = k + 1;
        }
        assert(bids@ =~= self@.bucket_ids());
        assert(rids@ =~= self@.reference_ids());
        Err(RuntimeError::ResourceLeak(bids, rids))
    }
}

} // verus!
