//! The writes of one transaction: held back while the transaction runs,
//! and put into the store all together or not at all.

use crate::component::Component;
use crate::error::RuntimeError;
use crate::resource::{ResourceDef, Vault};
use crate::store::{def_view, NonFungible, NonFungibleKey, Package, StoreState, SubstateStore};
use crate::types::{Address, Mid, Vid};
use vstd::prelude::*;

verus! {

/// One write to the store.
#[derive(Debug)]
pub enum Write {
    ResourceDef(Address, ResourceDef),
    Package(Address, Package),
    Component(Address, Component),
    LazyMapEntry(Address, Mid, Vec<u8>, Vec<u8>),
    Vault(Address, Vid, Vault),
    NonFungible(Address, NonFungibleKey, NonFungible),
}

/// The store after one write.
pub open spec fn after(s: StoreState, w: Write) -> StoreState {
    match w {
        Write::ResourceDef(address, def) => StoreState {
            resource_defs: s.resource_defs.insert(address, def_view(def)),
            ..s
        },
        Write::Package(address, package) => StoreState {
            packages: s.packages.insert(address, package.code@),
            ..s
        },
        Write::Component(address, component) => StoreState {
            components: s.components.insert(address, component@),
            ..s
        },
        Write::LazyMapEntry(address, mid, key, value) => StoreState {
            lazy_map_entries: s.lazy_map_entries.insert((address, mid, key@), value@),
            ..s
        },
        Write::Vault(address, vid, vault) => StoreState {
            vaults: s.vaults.insert((address, vid), vault),
            ..s
        },
        Write::NonFungible(address, key, unit) => StoreState {
            non_fungibles: s.non_fungibles.insert(
                (address, key),
                (unit.immutable_data@, unit.mutable_data@),
            ),
            ..s
        },
    }
}

/// The store after a sequence of writes, the first one first.
pub open spec fn after_all(s: StoreState, writes: Seq<Write>) -> StoreState
    decreases writes.len(),
{
    if writes.len() == 0 {
        s
    } else {
        after_all(after(s, writes[0]), writes.subrange(1, writes.len() as int))
    }
}

/// The store after a transaction: with every write where the transaction
/// succeeded, untouched where it failed.
pub open spec fn settled(s: StoreState, writes: Seq<Write>, succeeded: bool) -> StoreState {
    if succeeded {
        after_all(s, writes)
    } else {
        s
    }
}

/// The writes that a transaction has made so far.
#[derive(Debug)]
pub struct WriteBuffer {
    writes: Vec<Write>,
}

impl WriteBuffer {
    /// The writes held back, in the order in which they were made.
    pub closed spec fn pending(&self) -> Seq<Write> {
        self.writes@
    }

    /// A buffer with no write in it.
    pub fn new() -> (buffer: WriteBuffer)
        ensures
            buffer.pending() == Seq::<Write>::empty(),
    {
        WriteBuffer { writes: Vec::new() }
    }

    /// The number of writes held back.
    pub fn len(&self) -> (n: usize)
        ensures
            n == self.pending().len(),
    {
        self.writes.len()
    }

    /// Holds a write back.
    pub fn record(&mut self, write: Write)
        ensures
            final(self).pending() == old(self).pending().push(write),
    {
        self.writes.push(write);
    }

    /// Puts every write into the store, in the order in which they were
    /// made.
    pub fn commit<S: SubstateStore>(self, store: &mut S)
        ensures
            final(store).state() == after_all(old(store).state(), self.pending()),
    {
        let mut writes = self.writes;
        while writes.len() > 0
            invariant
                after_all(old(store).state(), self.pending()) == after_all(store.state(), writes@),
            decreases writes.len(),
        {
            let ghost before = writes@;
            let write = writes.remove(0);
            assert(writes@ =~= before.subrange(1, before.len() as int));
            assert(write == before[0]);
            match write {
                Write::ResourceDef(address, def) => store.put_resource_def(address, def),
                Write::Package(address, package) => store.put_package(address, package),
                Write::Component(address, component) => store.put_component(address, component),
                Write::LazyMapEntry(address, mid, key, value) => store.put_lazy_map_entry(
                    address,
                    mid,
                    key,
                    value,
                ),
                Write::Vault(address, vid, vault) => store.put_vault(address, vid, vault),
                Write::NonFungible(address, key, unit) => store.put_non_fungible(
                    address,
                    &key,
                    unit,
                ),
            }
        }
    }

    /// Ends the transaction: commits every write where it succeeded, and
    /// drops them all where it failed. The outcome is handed on as it came.
    pub fn settle<S: SubstateStore>(self, store: &mut S, outcome: Result<(), RuntimeError>) -> (r:
        Result<(), RuntimeError>)
        ensures
            r == outcome,
            final(store).state() == settled(old(store).state(), self.pending(), outcome is Ok),
    {
        if outcome.is_ok() {
            self.commit(store);
        }
        outcome
    }
}

/// A failed transaction leaves the store as it was, whatever it wrote.
pub proof fn lemma_failure_changes_nothing(s: StoreState, writes: Seq<Write>)
    ensures
        settled(s, writes, false) == s,
{
}

/// Writes do not touch the epoch or the nonce.
pub proof fn lemma_writes_keep_counters(s: StoreState, writes: Seq<Write>)
    ensures
        after_all(s, writes).epoch == s.epoch,
        after_all(s, writes).nonce == s.nonce,
    decreases writes.len(),
{
    if writes.len() > 0 {
        lemma_writes_keep_counters(after(s, writes[0]), writes.subrange(1, writes.len() as int));
    }
}

} // verus!
