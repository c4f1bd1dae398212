use radix_engine::codec::decode;
use radix_engine::decimal::Decimal;
use radix_engine::describe::Type;
use radix_engine::memory_store::MemoryStore;
use radix_engine::resource::{ResourceType, Vault};
use radix_engine::store::{
    NonFungible, NonFungibleKey, Package, QueryableSubstateStore, SubstateStore, XRD_MAX_SUPPLY,
};
use radix_engine::types::{Address, Mid, Vid, H256};

const UNIT: i128 = 1_000_000_000_000_000_000;

#[test]
fn genesis_addresses() {
    assert_eq!(radix_engine::store::system_package_address(), Address::package(1));
    assert_eq!(radix_engine::store::account_package_address(), Address::package(2));
    assert_eq!(radix_engine::store::system_component_address(), Address::component(3));
    assert_eq!(radix_engine::store::radix_token_address(), Address::resource_def(4));
    assert_eq!(radix_engine::store::ecdsa_token_address(), Address::resource_def(5));
}

#[test]
fn empty_store_holds_nothing() {
    let store = MemoryStore::new();
    assert!(store.get_package(Address::package(1)).is_none());
    assert!(store.get_resource_def(Address::resource_def(4)).is_none());
    assert!(store.get_component(Address::component(3)).is_none());
    assert!(store
        .get_vault(&Address::component(3), &Vid(H256(0, 0), 0))
        .is_none());
    assert_eq!(store.get_epoch(), 0);
    assert_eq!(store.get_nonce(), 0);
}

#[test]
fn bootstrap_seeds_the_genesis_state() {
    let mut store = MemoryStore::new();
    store.bootstrap(vec![1, 2, 3], vec![4, 5]);
    assert_eq!(
        store.get_package(Address::package(1)).unwrap().code,
        vec![1, 2, 3]
    );
    assert_eq!(
        store.get_package(Address::package(2)).unwrap().code,
        vec![4, 5]
    );
    let xrd = store.get_resource_def(Address::resource_def(4)).unwrap();
    assert_eq!(xrd.resource_type, ResourceType::Fungible { divisibility: 18 });
    assert_eq!(xrd.total_supply, Decimal(24_000_000_000_000 * UNIT));
    assert_eq!(XRD_MAX_SUPPLY, 24_000_000_000_000);
    assert_eq!(xrd.flags, 0);
    assert!(xrd.authorities.is_empty());
    assert_eq!(xrd.metadata.len(), 4);
    assert_eq!(xrd.metadata[0], ("symbol".to_owned(), "XRD".to_owned()));
    assert_eq!(xrd.metadata[1], ("name".to_owned(), "Radix".to_owned()));
    assert_eq!(xrd.metadata[2].0, "description");
    assert_eq!(
        xrd.metadata[3],
        ("url".to_owned(), "https://tokens.radixdlt.com".to_owned())
    );
    let ecdsa = store.get_resource_def(Address::resource_def(5)).unwrap();
    assert_eq!(ecdsa.resource_type, ResourceType::NonFungible);
    assert_eq!(ecdsa.total_supply, Decimal(0));
    assert!(ecdsa.metadata.is_empty());
    let vault = store
        .get_vault(&Address::component(3), &Vid(H256(0, 0), 0))
        .unwrap();
    assert_eq!(vault.holding.resource, Address::resource_def(4));
    assert_eq!(vault.holding.amount, Decimal(24_000_000_000_000 * UNIT));
    let system = store.get_component(Address::component(3)).unwrap();
    assert_eq!(system.package_id(), Address::package(1));
    assert_eq!(system.blueprint_name(), "System");
    assert!(system.authorization().rules.is_empty());
    let mut expected = vec![0x23u8, 2, 0x80];
    expected.extend_from_slice(&[0u8; 32]);
    expected.push(0x09);
    expected.extend_from_slice(&[0u8; 4]);
    assert_eq!(system.state(), &expected[..]);
    let schema = Type::Tuple {
        elements: vec![Type::H256, Type::U32],
    };
    assert_eq!(decode(&schema, system.state()).unwrap().len(), 2);
}

#[test]
fn bootstrap_twice_is_bootstrap_once() {
    let mut once = MemoryStore::new();
    once.bootstrap(vec![1], vec![2]);
    let mut twice = MemoryStore::new();
    twice.bootstrap(vec![1], vec![2]);
    twice.bootstrap(vec![9, 9], vec![8, 8]);
    assert_eq!(
        twice.get_package(Address::package(1)).unwrap().code,
        once.get_package(Address::package(1)).unwrap().code
    );
    assert_eq!(
        twice.get_package(Address::package(2)).unwrap().code,
        vec![2]
    );
    assert_eq!(
        twice
            .get_resource_def(Address::resource_def(4))
            .unwrap()
            .total_supply,
        Decimal(24_000_000_000_000 * UNIT)
    );
    assert_eq!(
        twice.get_vault(&Address::component(3), &Vid(H256(0, 0), 0)),
        once.get_vault(&Address::component(3), &Vid(H256(0, 0), 0))
    );
    assert_eq!(
        twice.get_component(Address::component(3)).unwrap().state(),
        once.get_component(Address::component(3)).unwrap().state()
    );
}

#[test]
fn bootstrap_leaves_a_seeded_store_alone() {
    let mut store = MemoryStore::new();
    store.put_package(Address::package(1), Package::new(vec![7]));
    store.bootstrap(vec![1], vec![2]);
    assert_eq!(store.get_package(Address::package(1)).unwrap().code, vec![7]);
    assert!(store.get_package(Address::package(2)).is_none());
    assert!(store.get_resource_def(Address::resource_def(4)).is_none());
    assert!(store.get_component(Address::component(3)).is_none());
}

#[test]
fn later_writes_replace_earlier_ones() {
    let mut store = MemoryStore::new();
    let a = Address::package(40);
    store.put_package(a, Package::new(vec![1]));
    store.put_package(Address::package(41), Package::new(vec![2]));
    store.put_package(a, Package::new(vec![3]));
    assert_eq!(store.get_package(a).unwrap().code, vec![3]);
    assert_eq!(
        store.get_package(Address::package(41)).unwrap().code,
        vec![2]
    );
    assert!(store.get_package(Address::component(40)).is_none());
}

#[test]
fn child_objects_are_keyed_by_owner_and_handle() {
    let mut store = MemoryStore::new();
    let owner = Address::component(1);
    let other = Address::component(2);
    let mid = Mid(H256(1, 2), 3);
    store.put_lazy_map_entry(owner, mid, vec![1, 2], vec![9]);
    store.put_lazy_map_entry(owner, mid, vec![1], vec![8]);
    assert_eq!(store.get_lazy_map_entry(&owner, &mid, &[1, 2]), Some(vec![9]));
    assert_eq!(store.get_lazy_map_entry(&owner, &mid, &[1]), Some(vec![8]));
    assert_eq!(store.get_lazy_map_entry(&owner, &mid, &[2]), None);
    assert_eq!(store.get_lazy_map_entry(&other, &mid, &[1]), None);
    assert_eq!(
        store.get_lazy_map_entry(&owner, &Mid(H256(1, 2), 4), &[1]),
        None
    );
    let vid = Vid(H256(5, 6), 7);
    let token = Address::resource_def(1);
    let vault = Vault::new(radix_engine::resource::Holding {
        resource: token,
        resource_type: ResourceType::NonFungible,
        amount: Decimal(UNIT),
    });
    store.put_vault(owner, vid, vault);
    assert_eq!(store.get_vault(&owner, &vid), Some(vault));
    assert_eq!(store.get_vault(&other, &vid), None);
    let key = NonFungibleKey(77);
    store.put_non_fungible(
        token,
        &key,
        NonFungible {
            immutable_data: vec![1],
            mutable_data: vec![2],
        },
    );
    assert_eq!(
        store.get_non_fungible(token, &key).unwrap().mutable_data,
        vec![2]
    );
    assert!(store.get_non_fungible(token, &NonFungibleKey(78)).is_none());
}

#[test]
fn epoch_and_nonce_move_alone() {
    let mut store = MemoryStore::new();
    store.set_epoch(12);
    store.increase_nonce();
    store.increase_nonce();
    assert_eq!(store.get_epoch(), 12);
    assert_eq!(store.get_nonce(), 2);
    assert!(store.get_package(Address::package(1)).is_none());
}

#[test]
fn lazy_map_is_listed_whole_and_each_key_once() {
    let mut store = MemoryStore::new();
    let owner = Address::component(1);
    let mid = Mid(H256(1, 2), 3);
    assert!(store.get_lazy_map_entries(&owner, &mid).is_empty());
    store.put_lazy_map_entry(owner, mid, vec![1], vec![10]);
    store.put_lazy_map_entry(owner, mid, vec![2], vec![20]);
    store.put_lazy_map_entry(owner, Mid(H256(1, 2), 4), vec![3], vec![30]);
    store.put_lazy_map_entry(Address::component(2), mid, vec![4], vec![40]);
    store.put_lazy_map_entry(owner, mid, vec![1], vec![11]);
    let mut entries = store.get_lazy_map_entries(&owner, &mid);
    entries.sort();
    assert_eq!(entries, vec![(vec![1], vec![11]), (vec![2], vec![20])]);
    assert_eq!(
        store.get_lazy_map_entries(&Address::component(2), &mid),
        vec![(vec![4], vec![40])]
    );
}

#[test]
fn seeded_native_token_cannot_be_minted() {
    let mut store = MemoryStore::new();
    store.bootstrap(vec![1], vec![2]);
    let mut frame = radix_engine::frame::Frame::new();
    let xrd = radix_engine::store::radix_token_address();
    radix_engine::store::load_resource(&mut frame, &store, xrd).unwrap();
    assert!(matches!(
        radix_engine::store::load_resource(&mut frame, &store, xrd),
        Err(radix_engine::error::RuntimeError::ResourceAlreadyExists(_))
    ));
    assert!(matches!(
        radix_engine::store::load_resource(&mut frame, &store, Address::resource_def(99)),
        Err(radix_engine::error::RuntimeError::ResourceNotFound(_))
    ));
    let k = frame.find_resource(xrd).unwrap();
    assert_eq!(frame.resource_at(k).metadata.len(), 4);
    assert_eq!(
        frame.resource_at(k).metadata[0],
        ("symbol".to_owned(), "XRD".to_owned())
    );
    assert!(matches!(
        radix_engine::bucket::mint(&mut frame, xrd, Decimal(UNIT), None),
        Err(radix_engine::error::RuntimeError::FixedResourceMintNotAllowed)
    ));
    assert_eq!(
        frame.resource_at(k).total_supply,
        Decimal(24_000_000_000_000 * UNIT)
    );
    assert_eq!(
        store
            .get_resource_def(xrd)
            .unwrap()
            .total_supply,
        Decimal(24_000_000_000_000 * UNIT)
    );
}

#[test]
fn invalid_stored_definition_is_not_loaded() {
    let mut store = MemoryStore::new();
    let a = Address::resource_def(50);
    store.put_resource_def(
        a,
        radix_engine::resource::ResourceDef {
            resource_type: ResourceType::Fungible { divisibility: 19 },
            metadata: Vec::new(),
            flags: 0,
            authorities: Vec::new(),
            total_supply: Decimal(0),
        },
    );
    let mut frame = radix_engine::frame::Frame::new();
    assert!(matches!(
        radix_engine::store::load_resource(&mut frame, &store, a),
        Err(radix_engine::error::RuntimeError::InvalidData(
            radix_engine::error::DecodeError::InvalidDefinition
        ))
    ));
    assert!(frame.find_resource(a).is_none());
}
