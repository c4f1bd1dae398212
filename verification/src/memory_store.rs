//! A substate store that keeps everything in memory.

use crate::component::Component;
use crate::resource::{ResourceDef, Vault};
use crate::store::{
    def_view, lazy_map_of, NonFungible, NonFungibleKey, Package, QueryableSubstateStore, StoreState,
    SubstateStore,
};
use crate::types::{Address, Mid, Vid, H256};
use vstd::prelude::*;

verus! {

/// The key of a stored object: the address it belongs to, and for a child
/// object its handle and, in a lazy map, its key.
#[derive(Debug)]
pub struct StoreKey {
    pub address: Address,
    pub hash: H256,
    pub index: u32,
    pub bytes: Vec<u8>,
}

impl View for StoreKey {
    type V = (Address, H256, u32, Seq<u8>);

    open spec fn view(&self) -> (Address, H256, u32, Seq<u8>) {
        (self.address, self.hash, self.index, self.bytes@)
    }
}

/// The key of a top-level object.
pub open spec fn top_key(address: Address) -> (Address, H256, u32, Seq<u8>) {
    (address, H256(0, 0), 0u32, Seq::empty())
}

/// The key of a child object of a component, with or without a key of
/// its own.
pub open spec fn child_key(address: Address, hash: H256, index: u32, bytes: Seq<u8>) -> (
    Address,
    H256,
    u32,
    Seq<u8>,
) {
    (address, hash, index, bytes)
}

/// The key of a unit of a non-fungible resource.
pub open spec fn unit_key(address: Address, id: NonFungibleKey) -> (Address, H256, u32, Seq<u8>) {
    (address, H256(0, id.0), 0u32, Seq::empty())
}

/// Whether two byte strings are the same.
pub fn same_bytes(a: &Vec<u8>, b: &Vec<u8>) -> (r: bool)
    ensures
        r == (a@ == b@),
{
    if a.len() != b.len() {
        return false;
    }
    let mut i: usize = 0;
    while i < a.len()
        invariant
            i <= a.len(),
            a.len() == b.len(),
            forall|j: int| 0 <= j < i ==> a@[j] == b@[j],
        decreases a.len() - i,
    {
        if a[i] != b[i] {
            return false;
        }
        i = i + 1;
    }
    assert(a@ =~= b@);
    true
}

impl StoreKey {
    /// The key of a top-level object.
    pub fn top(address: Address) -> (k: StoreKey)
        ensures
            k@ == top_key(address),
    {
        StoreKey { address, hash: H256(0, 0), index: 0, bytes: Vec::new() }
    }

    /// The key of a child object.
    pub fn child(address: Address, hash: H256, index: u32, bytes: Vec<u8>) -> (k: StoreKey)
        ensures
            k@ == child_key(address, hash, index, bytes@),
    {
        StoreKey { address, hash, index, bytes }
    }

    /// The key of a unit of a non-fungible resource.
    pub fn unit(address: Address, id: NonFungibleKey) -> (k: StoreKey)
        ensures
            k@ == unit_key(address, id),
    {
        StoreKey { address, hash: H256(0, id.0), index: 0, bytes: Vec::new() }
    }

    /// Whether two keys are the same.
    pub fn same(&self, other: &StoreKey) -> (r: bool)
        ensures
            r == (self@ == other@),
    {
        self.address == other.address && self.hash == other.hash && self.index == other.index
            && same_bytes(&self.bytes, &other.bytes)
    }
}

/// Whether a key is among the keys of a list of entries.
pub fn has_key(entries: &Vec<(Vec<u8>, Vec<u8>)>, key: &Vec<u8>) -> (r: bool)
    ensures
        r == exists|x: int| 0 <= x < entries@.len() && (#[trigger] entries@[x]).0@ == key@,
{
    let mut i: usize = 0;
    while i < entries.len()
        invariant
            i <= entries.len(),
            forall|x: int| 0 <= x < i ==> (#[trigger] entries@[x]).0@ != key@,
        decreases entries.len() - i,
    {
        if same_bytes(&entries[i].0, key) {
            return true;
        }
        i = i + 1;
    }
    false
}

/// A key that was written holds what its last write put there.
pub proof fn lemma_last_write_counts<V>(entries: Seq<(StoreKey, V)>, i: int)
    requires
        0 <= i < entries.len(),
        forall|j: int| i < j < entries.len() ==> (#[trigger] entries[j]).0@ != entries[i].0@,
    ensures
        written(entries).contains_key(entries[i].0@),
        written(entries)[entries[i].0@] == entries[i].1,
    decreases entries.len(),
{
    if i < entries.len() - 1 {
        let shorter = entries.drop_last();
        assert(entries.last().0@ != entries[i].0@);
        assert forall|j: int| i < j < shorter.len() implies (#[trigger] shorter[j]).0@
            != shorter[i].0@ by {
            assert(shorter[j] == entries[j]);
        }
        lemma_last_write_counts(shorter, i);
    }
}

/// A key that holds something was written.
pub proof fn lemma_held_was_written<V>(
    entries: Seq<(StoreKey, V)>,
    key: (Address, H256, u32, Seq<u8>),
)
    requires
        written(entries).contains_key(key),
    ensures
        exists|i: int| 0 <= i < entries.len() && (#[trigger] entries[i]).0@ == key,
    decreases entries.len(),
{
    if entries.len() > 0 {
        if entries.last().0@ == key {
            assert(entries[entries.len() - 1].0@ == key);
        } else {
            lemma_held_was_written(entries.drop_last(), key);
            let i = choose|i: int|
                0 <= i < entries.drop_last().len() && (#[trigger] entries.drop_last()[i]).0@ == key;
            assert(entries[i].0@ == key);
        }
    }
}

/// The mapping that a sequence of writes leaves: each write puts its value
/// under its key, over what was there.
pub open spec fn written<V>(entries: Seq<(StoreKey, V)>) -> Map<(Address, H256, u32, Seq<u8>), V>
    decreases entries.len(),
{
    if entries.len() == 0 {
        Map::empty()
    } else {
        written(entries.drop_last()).insert(entries.last().0@, entries.last().1)
    }
}

/// A table of stored objects of one kind.
#[derive(Debug)]
pub struct Table<V> {
    entries: Vec<(StoreKey, V)>,
}

impl<V> Table<V> {
    /// What the table holds under each key.
    pub closed spec fn map(&self) -> Map<(Address, H256, u32, Seq<u8>), V> {
        written(self.entries@)
    }

    /// An empty table.
    pub fn new() -> (t: Table<V>)
        ensures
            t.map() == Map::<(Address, H256, u32, Seq<u8>), V>::empty(),
    {
        Table { entries: Vec::new() }
    }

    /// The object under a key, if there is one.
    pub fn get(&self, key: &StoreKey) -> (r: Option<&V>)
        ensures
            r is Some == self.map().contains_key(key@),
            r matches Some(v) ==> *v == self.map()[key@],
    {
        let mut i: usize = self.entries.len();
        assert(self.entries@.subrange(0, i as int) =~= self.entries@);
        while i > 0
            invariant
                i <= self.entries.len(),
                written(self.entries@).contains_key(key@) == written(
                    self.entries@.subrange(0, i as int),
                ).contains_key(key@),
                written(self.entries@).contains_key(key@) ==> written(self.entries@)[key@]
                    == written(self.entries@.subrange(0, i as int))[key@],
            decreases i,
        {
            let ghost prefix = self.entries@.subrange(0, i as int);
            assert(prefix.drop_last() =~= self.entries@.subrange(0, i - 1));
            assert(prefix.last() == self.entries@[i - 1]);
            i = i - 1;
            if self.entries[i].0.same(key) {
                return Some(&self.entries[i].1);
            }
        }
        None
    }

    /// Puts an object under a key, over what was there.
    pub fn put(&mut self, key: StoreKey, value: V)
        ensures
            final(self).map() == old(self).map().insert(key@, value),
    {
        self.entries.push((key, value));
        assert(self.entries@.drop_last() =~= old(self).entries@);
    }
}

/// A substate store in memory.
#[derive(Debug)]
pub struct MemoryStore {
    resource_defs: Table<ResourceDef>,
    packages: Table<Package>,
    components: Table<Component>,
    lazy_map_entries: Table<Vec<u8>>,
    vaults: Table<Vault>,
    non_fungibles: Table<NonFungible>,
    epoch: u64,
    nonce: u64,
}

impl MemoryStore {
    /// A store that holds nothing, at epoch and nonce zero.
    pub fn new() -> (store: MemoryStore)
        ensures
            store.state().resource_defs =~= Map::empty(),
            store.state().packages =~= Map::empty(),
            store.state().components =~= Map::empty(),
            store.state().lazy_map_entries =~= Map::empty(),
            store.state().vaults =~= Map::empty(),
            store.state().non_fungibles =~= Map::empty(),
            store.state().epoch == 0,
            store.state().nonce == 0,
    {
        MemoryStore {
            resource_defs: Table::new(),
            packages: Table::new(),
            components: Table::new(),
            lazy_map_entries: Table::new(),
            vaults: Table::new(),
            non_fungibles: Table::new(),
            epoch: 0,
            nonce: 0,
        }
    }
}

impl SubstateStore for MemoryStore {
    closed spec fn state(&self) -> StoreState {
        StoreState {
            resource_defs: Map::new(
                |a: Address| self.resource_defs.map().contains_key(top_key(a)),
                |a: Address| def_view(self.resource_defs.map()[top_key(a)]),
            ),
            packages: Map::new(
                |a: Address| self.packages.map().contains_key(top_key(a)),
                |a: Address| self.packages.map()[top_key(a)].code@,
            ),
            components: Map::new(
                |a: Address| self.components.map().contains_key(top_key(a)),
                |a: Address| self.components.map()[top_key(a)]@,
            ),
            lazy_map_entries: Map::new(
                |k: (Address, Mid, Seq<u8>)|
                    self.lazy_map_entries.map().contains_key(child_key(k.0, k.1.0, k.1.1, k.2)),
                |k: (Address, Mid, Seq<u8>)|
                    self.lazy_map_entries.map()[child_key(k.0, k.1.0, k.1.1, k.2)]@,
            ),
            vaults: Map::new(
                |k: (Address, Vid)|
                    self.vaults.map().contains_key(child_key(k.0, k.1.0, k.1.1, Seq::empty())),
                |k: (Address, Vid)| self.vaults.map()[child_key(k.0, k.1.0, k.1.1, Seq::empty())],
            ),
            non_fungibles: Map::new(
                |k: (Address, NonFungibleKey)|
                    self.non_fungibles.map().contains_key(unit_key(k.0, k.1)),
                |k: (Address, NonFungibleKey)|
                    (
                        self.non_fungibles.map()[unit_key(k.0, k.1)].immutable_data@,
                        self.non_fungibles.map()[unit_key(k.0, k.1)].mutable_data@,
                    ),
            ),
            epoch: self.epoch,
            nonce: self.nonce,
        }
    }

    fn get_resource_def(&self, address: Address) -> (r: Option<&ResourceDef>) {
        self.resource_defs.get(&StoreKey::top(address))
    }

    fn put_resource_def(&mut self, address: Address, resource_def: ResourceDef) {
        let ghost view = def_view(resource_def);
        self.resource_defs.put(StoreKey::top(address), resource_def);
        assert(self.state().resource_defs =~= old(self).state().resource_defs.insert(
            address,
            view,
        ));
    }

    fn get_package(&self, address: Address) -> (r: Option<&Package>) {
        self.packages.get(&StoreKey::top(address))
    }

    fn put_package(&mut self, address: Address, package: Package) {
        let ghost code = package.code@;
        self.packages.put(StoreKey::top(address), package);
        assert(self.state().packages =~= old(self).state().packages.insert(address, code));
    }

    fn get_component(&self, address: Address) -> (r: Option<&Component>) {
        self.components.get(&StoreKey::top(address))
    }

    fn put_component(&mut self, address: Address, component: Component) {
        let ghost view = component@;
        self.components.put(StoreKey::top(address), component);
        assert(self.state().components =~= old(self).state().components.insert(address, view));
    }

    fn get_lazy_map_entry(&self, component_address: &Address, mid: &Mid, key: &[u8]) -> (r: Option<
        Vec<u8>,
    >) {
        let k = StoreKey::child(*component_address, mid.0, mid.1, vstd::slice::slice_to_vec(key));
        match self.lazy_map_entries.get(&k) {
            None => None,
            Some(v) => Some(vstd::slice::slice_to_vec(v.as_slice())),
        }
    }

    fn put_lazy_map_entry(
        &mut self,
        component_address: Address,
        mid: Mid,
        key: Vec<u8>,
        value: Vec<u8>,
    ) {
        let ghost k = key@;
        let ghost v = value@;
        self.lazy_map_entries.put(StoreKey::child(component_address, mid.0, mid.1, key), value);
        assert(self.state().lazy_map_entries =~= old(self).state().lazy_map_entries.insert(
            (component_address, mid, k),
            v,
        ));
    }

    fn get_vault(&self, component_address: &Address, vid: &Vid) -> (r: Option<Vault>) {
        match self.vaults.get(&StoreKey::child(*component_address, vid.0, vid.1, Vec::new())) {
            None => None,
            Some(v) => Some(*v),
        }
    }

    fn put_vault(&mut self, component_address: Address, vid: Vid, vault: Vault) {
        self.vaults.put(StoreKey::child(component_address, vid.0, vid.1, Vec::new()), vault);
        assert(self.state().vaults =~= old(self).state().vaults.insert(
            (component_address, vid),
            vault,
        ));
    }

    fn get_non_fungible(&self, resource_address: Address, id: &NonFungibleKey) -> (r: Option<
        &NonFungible,
    >) {
        self.non_fungibles.get(&StoreKey::unit(resource_address, *id))
    }

    fn put_non_fungible(
        &mut self,
        resource_address: Address,
        id: &NonFungibleKey,
        non_fungible: NonFungible,
    ) {
        let ghost view = (non_fungible.immutable_data@, non_fungible.mutable_data@);
        self.non_fungibles.put(StoreKey::unit(resource_address, *id), non_fungible);
        assert(self.state().non_fungibles =~= old(self).state().non_fungibles.insert(
            (resource_address, *id),
            view,
        ));
    }

    fn get_epoch(&self) -> (epoch: u64) {
        self.epoch
    }

    fn set_epoch(&mut self, epoch: u64) {
        self.epoch = epoch;
    }

    fn get_nonce(&self) -> (nonce: u64) {
        self.nonce
    }

    fn increase_nonce(&mut self) {
        self.nonce = self.nonce + 1;
    }
}

impl QueryableSubstateStore for MemoryStore {
    fn get_lazy_map_entries(&self, component_address: &Address, mid: &Mid) -> (entries: Vec<
        (Vec<u8>, Vec<u8>),
    >) {
        let log = &self.lazy_map_entries.entries;
        let ghost all = written(log@);
        let ghost a = *component_address;
        let ghost m = *mid;
        let mut out: Vec<(Vec<u8>, Vec<u8>)> = Vec::new();
        let mut i: usize = log.len();
        while i > 0
            invariant
                i <= log.len(),
                log == &self.lazy_map_entries.entries,
                all == written(log@),
                a == *component_address,
                m == *mid,
                forall|x: int|
                    0 <= x < out@.len() ==> all.contains_key(
                        child_key(a, m.0, m.1, (#[trigger] out@[x]).0@),
                    ) && all[child_key(a, m.0, m.1, out@[x].0@)]@ == out@[x].1@,
                forall|j: int|
                    i <= j < log@.len() && (#[trigger] log@[j]).0.address == a && log@[j].0.hash
                        == m.0 && log@[j].0.index == m.1 ==> exists|x: int|
                        0 <= x < out@.len() && (#[trigger] out@[x]).0@ == log@[j].0.bytes@,
                forall|x: int, y: int|
                    0 <= x < y < out@.len() ==> (#[trigger] out@[x]).0@ != (#[trigger] out@[y]).0@,
            decreases i,
        {
            i = i - 1;
            let key = &log[i].0;
            let ghost before = out@;
            if key.address == *component_address && key.hash == mid.0 && key.index == mid.1
                && !has_key(&out, &key.bytes) {
                proof {
                    assert forall|j: int| i < j < log@.len() implies (#[trigger] log@[j]).0@
                        != log@[i as int].0@ by {
                        if log@[j].0@ == log@[i as int].0@ {
                            let x = choose|x: int|
                                0 <= x < out@.len() && (#[trigger] out@[x]).0@
                                    == log@[j].0.bytes@;
                            assert(out@[x].0@ == key.bytes@);
                        }
                    }
                    lemma_last_write_counts(log@, i as int);
                }
                let k = vstd::slice::slice_to_vec(key.bytes.as_slice());
                let v = vstd::slice::slice_to_vec(log[i].1.as_slice());
                out.push((k, v));
                assert(forall|x: int| 0 <= x < before.len() ==> out@[x] == before[x]);
                assert(out@[before.len() as int].0@ == key.bytes@);
            }
            assert forall|j: int|
                i <= j < log@.len() && (#[trigger] log@[j]).0.address == a && log@[j].0.hash == m.0
                    && log@[j].0.index == m.1 implies exists|x: int|
                0 <= x < out@.len() && (#[trigger] out@[x]).0@ == log@[j].0.bytes@ by {
                if j == i {
                    if before.len() == out@.len() {
                        let x = choose|x: int|
                            0 <= x < before.len() && (#[trigger] before[x]).0@ == key.bytes@;
                        assert(out@[x].0@ == log@[j].0.bytes@);
                    } else {
                        assert(out@[before.len() as int].0@ == log@[j].0.bytes@);
                    }
                } else {
                    let x = choose|x: int|
                        0 <= x < before.len() && (#[trigger] before[x]).0@ == log@[j].0.bytes@;
                    assert(out@[x].0@ == log@[j].0.bytes@);
                }
            }
        }
        proof {
            assert forall|k: Seq<u8>|
                lazy_map_of(self.state(), *component_address, *mid).contains_key(
                    k,
                ) implies exists|x: int|
                0 <= x < out@.len() && (#[trigger] out@[x]).0@ == k by {
                let full = child_key(a, m.0, m.1, k);
                lemma_held_was_written(log@, full);
                let j = choose|j: int| 0 <= j < log@.len() && (#[trigger] log@[j]).0@ == full;
                assert(log@[j].0.address == a && log@[j].0.bytes@ == k);
            }
        }
        out
    }
}

} // verus!
