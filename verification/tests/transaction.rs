use radix_engine::bucket::Bucket;
use radix_engine::decimal::Decimal;
use radix_engine::error::RuntimeError;
use radix_engine::memory_store::MemoryStore;
use radix_engine::resource::{Holding, ResourceType, Vault};
use radix_engine::store::{Package, SubstateStore};
use radix_engine::transaction::{Write, WriteBuffer};
use radix_engine::types::{Address, Mid, Vid, BID, H256};

fn vault(amount: i128) -> Vault {
    Vault::new(Holding {
        resource: Address::resource_def(1),
        resource_type: ResourceType::Fungible { divisibility: 18 },
        amount: Decimal(amount),
    })
}

fn buffer() -> WriteBuffer {
    let mut buffer = WriteBuffer::new();
    buffer.record(Write::Package(Address::package(9), Package::new(vec![1])));
    buffer.record(Write::Vault(
        Address::component(2),
        Vid(H256(0, 1), 0),
        vault(5),
    ));
    buffer.record(Write::Package(Address::package(9), Package::new(vec![2])));
    buffer.record(Write::LazyMapEntry(
        Address::component(2),
        Mid(H256(0, 1), 1),
        vec![7],
        vec![8],
    ));
    buffer
}

#[test]
fn successful_transaction_commits_every_write_in_order() {
    let mut store = MemoryStore::new();
    store.set_epoch(3);
    let buffer = buffer();
    assert_eq!(buffer.len(), 4);
    assert!(buffer.settle(&mut store, Ok(())).is_ok());
    assert_eq!(store.get_package(Address::package(9)).unwrap().code, vec![2]);
    assert_eq!(
        store.get_vault(&Address::component(2), &Vid(H256(0, 1), 0)),
        Some(vault(5))
    );
    assert_eq!(
        store.get_lazy_map_entry(&Address::component(2), &Mid(H256(0, 1), 1), &[7]),
        Some(vec![8])
    );
    assert_eq!(store.get_epoch(), 3);
}

#[test]
fn failed_transaction_commits_nothing() {
    let mut store = MemoryStore::new();
    store.put_package(Address::package(9), Package::new(vec![0]));
    let outcome = buffer().settle(&mut store, Err(RuntimeError::BucketNotFound));
    assert!(matches!(outcome, Err(RuntimeError::BucketNotFound)));
    assert_eq!(store.get_package(Address::package(9)).unwrap().code, vec![0]);
    assert_eq!(
        store.get_vault(&Address::component(2), &Vid(H256(0, 1), 0)),
        None
    );
    assert_eq!(
        store.get_lazy_map_entry(&Address::component(2), &Mid(H256(0, 1), 1), &[7]),
        None
    );
}

#[test]
fn commit_of_an_empty_buffer_changes_nothing() {
    let mut store = MemoryStore::new();
    WriteBuffer::new().commit(&mut store);
    assert!(store.get_package(Address::package(9)).is_none());
}

#[test]
fn handles_convert_both_ways() {
    let bucket = Bucket::from(BID(7));
    assert_eq!(bucket.bid(), BID(7));
    assert_eq!(BID::from(bucket), BID(7));
}
