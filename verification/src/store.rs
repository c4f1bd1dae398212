//! The substate store: the durable mapping from addresses to the objects
//! of the ledger, and the seeding of its first state.

use crate::codec::{encode, encoded, Field};
use crate::component::{Component, ComponentAuthorization, ComponentView};
use crate::decimal::{lemma_pow10_scale, Decimal, ONE};
use crate::error::{DecodeError, RuntimeError};
use crate::frame::{Frame, FrameState, ResourceEntry};
use crate::resource::{Authority, Holding, ResourceDef, ResourceType, Vault};
use crate::types::{Address, AddressKind, Mid, Vid, H256};
use vstd::bytes::{spec_u128_to_le_bytes, spec_u32_to_le_bytes, u128_to_le_bytes, u32_to_le_bytes};
use vstd::prelude::*;

verus! {

/// The largest supply of the native token, in whole tokens.
pub const XRD_MAX_SUPPLY: u64 = 24_000_000_000_000;

/// The address of the system package.
pub open spec fn system_package() -> Address {
    Address { kind: AddressKind::Package, id: 1 }
}

/// The address of the account package.
pub open spec fn account_package() -> Address {
    Address { kind: AddressKind::Package, id: 2 }
}

/// The address of the system component.
pub open spec fn system_component() -> Address {
    Address { kind: AddressKind::Component, id: 3 }
}

/// The address of the native token.
pub open spec fn radix_token() -> Address {
    Address { kind: AddressKind::ResourceDef, id: 4 }
}

/// The address of the resource that stands for signatures.
pub open spec fn ecdsa_token() -> Address {
    Address { kind: AddressKind::ResourceDef, id: 5 }
}

/// The handle of the vault that holds the native token's first supply.
pub open spec fn xrd_vault_id() -> Vid {
    Vid(H256(0, 0), 0)
}

/// The address of the system package.
pub fn system_package_address() -> (a: Address)
    ensures
        a == system_package(),
{
    Address::package(1)
}

/// The address of the account package.
pub fn account_package_address() -> (a: Address)
    ensures
        a == account_package(),
{
    Address::package(2)
}

/// The address of the system component.
pub fn system_component_address() -> (a: Address)
    ensures
        a == system_component(),
{
    Address::component(3)
}

/// The address of the native token.
pub fn radix_token_address() -> (a: Address)
    ensures
        a == radix_token(),
{
    Address::resource_def(4)
}

/// The address of the resource that stands for signatures.
pub fn ecdsa_token_address() -> (a: Address)
    ensures
        a == ecdsa_token(),
{
    Address::resource_def(5)
}

/// The code of a package.
#[derive(Debug)]
pub struct Package {
    pub code: Vec<u8>,
}

impl Package {
    /// A package with the given code.
    pub fn new(code: Vec<u8>) -> (p: Package)
        ensures
            p.code@ == code@,
    {
        Package { code }
    }
}

/// The key of one unit of a non-fungible resource.
#[derive(Debug, Clone, Copy, PartialEq, Eq, Structural, Hash)]
pub struct NonFungibleKey(pub u128);

/// The data that one unit of a non-fungible resource carries.
#[derive(Debug)]
pub struct NonFungible {
    pub immutable_data: Vec<u8>,
    pub mutable_data: Vec<u8>,
}

/// The mathematical value of a [`ResourceDef`].
pub ghost struct ResourceDefView {
    pub resource_type: ResourceType,
    pub metadata: Seq<(Seq<char>, Seq<char>)>,
    pub flags: u16,
    pub authorities: Seq<Authority>,
    pub total_supply: int,
}

/// The value of a resource definition.
pub open spec fn def_view(def: ResourceDef) -> ResourceDefView {
    ResourceDefView {
        resource_type: def.resource_type,
        metadata: Seq::new(def.metadata@.len(), |i: int| (def.metadata@[i].0@, def.metadata@[i].1@)),
        flags: def.flags,
        authorities: def.authorities@,
        total_supply: def.total_supply@,
    }
}

/// The mathematical state of a store.
pub ghost struct StoreState {
    pub resource_defs: Map<Address, ResourceDefView>,
    pub packages: Map<Address, Seq<u8>>,
    pub components: Map<Address, ComponentView>,
    pub lazy_map_entries: Map<(Address, Mid, Seq<u8>), Seq<u8>>,
    pub vaults: Map<(Address, Vid), Vault>,
    pub non_fungibles: Map<(Address, NonFungibleKey), (Seq<u8>, Seq<u8>)>,
    pub epoch: u64,
    pub nonce: u64,
}

/// The fields that encode a vault handle: its hash, low half first, and
/// its index.
pub open spec fn vid_fields(vid: Vid) -> Seq<(u8, Seq<u8>)> {
    seq![
        (0x80u8, spec_u128_to_le_bytes(vid.0.1) + spec_u128_to_le_bytes(vid.0.0)),
        (0x09u8, spec_u32_to_le_bytes(vid.1)),
    ]
}

/// The metadata of the native token.
pub open spec fn xrd_metadata() -> Seq<(Seq<char>, Seq<char>)> {
    seq![
        ("symbol"@, "XRD"@),
        ("name"@, "Radix"@),
        (
            "description"@,
            "The Radix Public Network's native token, used to pay the network's required transaction fees and to secure the network through staking to its validator nodes."@,
        ),
        ("url"@, "https://tokens.radixdlt.com"@),
    ]
}

/// The definition of the native token: fungible to eighteen places, with
/// a fixed supply that is all there from the start.
pub open spec fn xrd_definition() -> ResourceDefView {
    ResourceDefView {
        resource_type: ResourceType::Fungible { divisibility: 18 },
        metadata: xrd_metadata(),
        flags: 0,
        authorities: Seq::empty(),
        total_supply: XRD_MAX_SUPPLY * ONE,
    }
}

/// The definition of the signature resource: non-fungible, with no supply.
pub open spec fn ecdsa_definition() -> ResourceDefView {
    ResourceDefView {
        resource_type: ResourceType::NonFungible,
        metadata: Seq::empty(),
        flags: 0,
        authorities: Seq::empty(),
        total_supply: 0,
    }
}

/// The vault of the system component: the whole supply of the native
/// token.
pub open spec fn xrd_vault() -> Vault {
    Vault {
        holding: Holding {
            resource: radix_token(),
            resource_type: ResourceType::Fungible { divisibility: 18 },
            amount: Decimal((XRD_MAX_SUPPLY * ONE) as i128),
        },
    }
}

/// The system component: no method of it is open to outside callers, and
/// its state is the handle of its vault.
pub open spec fn system_component_value() -> ComponentView {
    ComponentView {
        package_id: system_package(),
        blueprint_name: "System"@,
        rules: Seq::empty(),
        state: encoded(vid_fields(xrd_vault_id())),
    }
}

/// The store after seeding: unchanged where the system package is there
/// already; otherwise with the two packages, the two resources, the system
/// component and its vault put in.
pub open spec fn seeded(s: StoreState, system_code: Seq<u8>, account_code: Seq<u8>) -> StoreState {
    if s.packages.contains_key(system_package()) {
        s
    } else {
        StoreState {
            packages: s.packages.insert(system_package(), system_code).insert(
                account_package(),
                account_code,
            ),
            resource_defs: s.resource_defs.insert(radix_token(), xrd_definition()).insert(
                ecdsa_token(),
                ecdsa_definition(),
            ),
            vaults: s.vaults.insert((system_component(), xrd_vault_id()), xrd_vault()),
            components: s.components.insert(system_component(), system_component_value()),
            ..s
        }
    }
}

/// Seeding is idempotent: to seed a store that was seeded already, with
/// whatever code, changes nothing, so no second supply of the native token
/// comes to be.
pub proof fn lemma_seeding_is_idempotent(
    s: StoreState,
    system_code: Seq<u8>,
    account_code: Seq<u8>,
    other_system_code: Seq<u8>,
    other_account_code: Seq<u8>,
)
    ensures
        seeded(seeded(s, system_code, account_code), other_system_code, other_account_code)
            == seeded(s, system_code, account_code),
        seeded(s, system_code, account_code).packages.contains_key(system_package()),
{
}

/// Whether the value of a resource definition is that of a valid one: a
/// valid kind, a supply that is not negative, no metadata key twice and no
/// badge twice.
pub open spec fn valid_view(v: ResourceDefView) -> bool {
    &&& v.resource_type.wf()
    &&& v.total_supply >= 0
    &&& forall|i: int, j: int|
        0 <= i < j < v.metadata.len() ==> (#[trigger] v.metadata[i]).0 != (
        #[trigger] v.metadata[j]).0
    &&& crate::resource::distinct_badges(v.authorities)
}

/// A definition is valid exactly when its value is.
pub proof fn lemma_valid_view(def: ResourceDef)
    ensures
        def.wf() == valid_view(def_view(def)),
{
    let v = def_view(def);
    if def.wf() {
        assert forall|i: int, j: int| 0 <= i < j < v.metadata.len() implies (
        #[trigger] v.metadata[i]).0 != (#[trigger] v.metadata[j]).0 by {
            assert(def.metadata@[i].0@ != def.metadata@[j].0@);
        }
    }
    if valid_view(v) {
        assert forall|i: int, j: int| 0 <= i < j < def.metadata@.len() implies (
        #[trigger] def.metadata@[i]).0@ != (#[trigger] def.metadata@[j]).0@ by {
            assert(v.metadata[i].0 != v.metadata[j].0);
        }
    }
}

/// Why the definition of a resource cannot be taken from a store into a
/// frame, if it cannot.
pub open spec fn load_error(frame: FrameState, store: StoreState, address: Address) -> Option<
    RuntimeError,
> {
    if !store.resource_defs.contains_key(address) {
        Some(RuntimeError::ResourceNotFound(address))
    } else if !valid_view(store.resource_defs[address]) {
        Some(RuntimeError::InvalidData(DecodeError::InvalidDefinition))
    } else if frame.has_resource(address) {
        Some(RuntimeError::ResourceAlreadyExists(address))
    } else {
        None
    }
}

/// Takes the definition of a resource from a store into a frame, so that
/// the frame's calls go by it.
///
/// Fails, and changes nothing, where the store has no definition under the
/// address (`ResourceNotFound`), the stored definition is not valid
/// (`InvalidData`), or the frame has one under the address already
/// (`ResourceAlreadyExists`). Otherwise the frame has one definition more,
/// the last, under the address and with the value that the store holds.
pub fn load_resource<S: SubstateStore>(frame: &mut Frame, store: &S, address: Address) -> (r:
    Result<(), RuntimeError>)
    requires
        old(frame)@.wf(),
    ensures
        final(frame)@.wf(),
        match r {
            Ok(()) => {
                let def = final(frame)@.resources.last().def;
                &&& load_error(old(frame)@, store.state(), address) is None
                &&& def_view(def) == store.state().resource_defs[address]
                &&& final(frame)@ == old(frame)@.with_resource(ResourceEntry { address, def })
            },
            Err(e) => load_error(old(frame)@, store.state(), address) == Some(e) && final(frame)@
                == old(frame)@,
        },
{
    match store.get_resource_def(address) {
        None => Err(RuntimeError::ResourceNotFound(address)),
        Some(stored) => {
            proof {
                lemma_valid_view(*stored);
            }
            if !stored.is_valid() {
                return Err(RuntimeError::InvalidData(DecodeError::InvalidDefinition));
            }
            let def = stored.duplicate();
            assert(def_view(def).metadata =~= def_view(*stored).metadata);
            assert(def_view(def) == def_view(*stored));
            proof {
                lemma_valid_view(def);
            }
            frame.define_resource(address, def)
        },
    }
}

/// The native token has a fixed supply: whatever definition has the value
/// that seeding puts into the store, it is valid, it is not mintable, and
/// its supply is the whole supply of the native token.
pub proof fn lemma_native_token_is_fixed(def: ResourceDef)
    requires
        def_view(def) == xrd_definition(),
    ensures
        !def.has_flag(crate::resource::MINTABLE),
        def.total_supply@ == XRD_MAX_SUPPLY * ONE,
        def.authorities@.len() == 0,
{
    assert(0u16 & 1u16 != 1u16) by (bit_vector);
}

/// In a frame that goes by the seeded definition of the native token,
/// every mint of the native token is refused as a mint of a fixed supply,
/// whatever badge is presented.
pub proof fn lemma_native_token_cannot_be_minted(
    s: FrameState,
    amount: Decimal,
    auth: Option<crate::types::RID>,
)
    requires
        s.has_resource(radix_token()),
        def_view(s.resource(radix_token())) == xrd_definition(),
    ensures
        crate::bucket::mint_result(s, radix_token(), amount, auth) == Err::<
            FrameState,
            RuntimeError,
        >(RuntimeError::FixedResourceMintNotAllowed),
{
    lemma_native_token_is_fixed(s.resource(radix_token()));
}

/// Encodes a vault handle as the fields of a state blob.
pub fn encode_vid(vid: Vid) -> (fields: Vec<Field>)
    ensures
        fields@.len() == 2,
        crate::codec::views(fields@) == vid_fields(vid),
{
    let mut hash = u128_to_le_bytes(vid.0.1);
    let mut high = u128_to_le_bytes(vid.0.0);
    hash.append(&mut high);
    let index = u32_to_le_bytes(vid.1);
    let mut fields: Vec<Field> = Vec::new();
    fields.push(Field { tag: 0x80u8, payload: hash });
    fields.push(Field { tag: 0x09u8, payload: index });
    assert(crate::codec::views(fields@) =~= vid_fields(vid));
    fields
}

/// A store of every object of the ledger. Objects are created and
/// replaced, never deleted.
pub trait SubstateStore {
    /// What the store holds.
    spec fn state(&self) -> StoreState;

    /// The resource definition under an address.
    fn get_resource_def(&self, address: Address) -> (r: Option<&ResourceDef>)
        ensures
            r is Some == self.state().resource_defs.contains_key(address),
            r matches Some(def) ==> def_view(*def) == self.state().resource_defs[address],
    ;

    /// Puts a resource definition under an address.
    fn put_resource_def(&mut self, address: Address, resource_def: ResourceDef)
        ensures
            final(self).state() == (StoreState {
                resource_defs: old(self).state().resource_defs.insert(
                    address,
                    def_view(resource_def),
                ),
                ..old(self).state()
            }),
    ;

    /// The package under an address.
    fn get_package(&self, address: Address) -> (r: Option<&Package>)
        ensures
            r is Some == self.state().packages.contains_key(address),
            r matches Some(p) ==> p.code@ == self.state().packages[address],
    ;

    /// Puts a package under an address.
    fn put_package(&mut self, address: Address, package: Package)
        ensures
            final(self).state() == (StoreState {
                packages: old(self).state().packages.insert(address, package.code@),
                ..old(self).state()
            }),
    ;

    /// The component under an address.
    fn get_component(&self, address: Address) -> (r: Option<&Component>)
        ensures
            r is Some == self.state().components.contains_key(address),
            r matches Some(c) ==> c@ == self.state().components[address],
    ;

    /// Puts a component under an address.
    fn put_component(&mut self, address: Address, component: Component)
        ensures
            final(self).state() == (StoreState {
                components: old(self).state().components.insert(address, component@),
                ..old(self).state()
            }),
    ;

    /// The value under a key of a lazy map of a component.
    fn get_lazy_map_entry(&self, component_address: &Address, mid: &Mid, key: &[u8]) -> (r: Option<
        Vec<u8>,
    >)
        ensures
            r is Some == self.state().lazy_map_entries.contains_key(
                (*component_address, *mid, key@),
            ),
            r matches Some(v) ==> v@ == self.state().lazy_map_entries[(
                *component_address,
                *mid,
                key@,
            )],
    ;

    /// Puts a value under a key of a lazy map of a component.
    fn put_lazy_map_entry(
        &mut self,
        component_address: Address,
        mid: Mid,
        key: Vec<u8>,
        value: Vec<u8>,
    )
        ensures
            final(self).state() == (StoreState {
                lazy_map_entries: old(self).state().lazy_map_entries.insert(
                    (component_address, mid, key@),
                    value@,
                ),
                ..old(self).state()
            }),
    ;

    /// The vault of a component under a handle.
    fn get_vault(&self, component_address: &Address, vid: &Vid) -> (r: Option<Vault>)
        ensures
            r == (if self.state().vaults.contains_key((*component_address, *vid)) {
                Some(self.state().vaults[(*component_address, *vid)])
            } else {
                None
            }),
    ;

    /// Puts a vault of a component under a handle.
    fn put_vault(&mut self, component_address: Address, vid: Vid, vault: Vault)
        ensures
            final(self).state() == (StoreState {
                vaults: old(self).state().vaults.insert((component_address, vid), vault),
                ..old(self).state()
            }),
    ;

    /// The unit of a non-fungible resource under a key.
    fn get_non_fungible(&self, resource_address: Address, id: &NonFungibleKey) -> (r: Option<
        &NonFungible,
    >)
        ensures
            r is Some == self.state().non_fungibles.contains_key((resource_address, *id)),
            r matches Some(n) ==> (n.immutable_data@, n.mutable_data@)
                == self.state().non_fungibles[(resource_address, *id)],
    ;

    /// Puts a unit of a non-fungible resource under a key.
    fn put_non_fungible(
        &mut self,
        resource_address: Address,
        id: &NonFungibleKey,
        non_fungible: NonFungible,
    )
        ensures
            final(self).state() == (StoreState {
                non_fungibles: old(self).state().non_fungibles.insert(
                    (resource_address, *id),
                    (non_fungible.immutable_data@, non_fungible.mutable_data@),
                ),
                ..old(self).state()
            }),
    ;

    /// The current epoch.
    fn get_epoch(&self) -> (epoch: u64)
        ensures
            epoch == self.state().epoch,
    ;

    /// Sets the current epoch; nothing else changes.
    fn set_epoch(&mut self, epoch: u64)
        ensures
            final(self).state() == (StoreState { epoch, ..old(self).state() }),
    ;

    /// The nonce from which fresh addresses are derived.
    fn get_nonce(&self) -> (nonce: u64)
        ensures
            nonce == self.state().nonce,
    ;

    /// Moves the nonce on by one; nothing else changes.
    fn increase_nonce(&mut self)
        requires
            old(self).state().nonce < u64::MAX,
        ensures
            final(self).state() == (StoreState {
                nonce: (old(self).state().nonce + 1) as u64,
                ..old(self).state()
            }),
    ;

    /// Seeds the store with its first state, unless it was seeded before.
    ///
    /// A store that holds the system package is left as it is. Any other
    /// store receives the system and account packages with the given code,
    /// the native token with its whole supply, the signature resource, and
    /// the system component with the vault that holds that supply.
    fn bootstrap(&mut self, system_code: Vec<u8>, account_code: Vec<u8>)
        ensures
            final(self).state() == seeded(old(self).state(), system_code@, account_code@),
    {
        if self.get_package(system_package_address()).is_none() {
            self.put_package(system_package_address(), Package::new(system_code));
            self.put_package(account_package_address(), Package::new(account_code));

            let mut metadata: Vec<(String, String)> = Vec::new();
            metadata.push(("symbol".to_owned(), "XRD".to_owned()));
            metadata.push(("name".to_owned(), "Radix".to_owned()));
            metadata.push(
                (
                    "description".to_owned(),
                    "The Radix Public Network's native token, used to pay the network's required transaction fees and to secure the network through staking to its validator nodes.".to_owned(),
                ),
            );
            metadata.push(("url".to_owned(), "https://tokens.radixdlt.com".to_owned()));
            let supply = Decimal::from_integer(XRD_MAX_SUPPLY);
            proof {
                lemma_pow10_scale();
            }
            let xrd = ResourceDef {
                resource_type: ResourceType::Fungible { divisibility: 18 },
                metadata,
                flags: 0,
                authorities: Vec::new(),
                total_supply: supply,
            };
            assert(def_view(xrd).metadata =~= xrd_metadata());
            assert(def_view(xrd) == xrd_definition());
            self.put_resource_def(radix_token_address(), xrd);

            let ecdsa = ResourceDef {
                resource_type: ResourceType::NonFungible,
                metadata: Vec::new(),
                flags: 0,
                authorities: Vec::new(),
                total_supply: Decimal::zero(),
            };
            assert(def_view(ecdsa).metadata =~= Seq::empty());
            assert(def_view(ecdsa) == ecdsa_definition());
            self.put_resource_def(ecdsa_token_address(), ecdsa);

            let vid = Vid(H256(0, 0), 0);
            self.put_vault(
                system_component_address(),
                vid,
                Vault::new(
                    Holding {
                        resource: radix_token_address(),
                        resource_type: ResourceType::Fungible { divisibility: 18 },
                        amount: supply,
                    },
                ),
            );
            let fields = encode_vid(vid);
            let state = encode(&fields);
            self.put_component(
                system_component_address(),
                Component::new(
                    system_package_address(),
                    "System".to_owned(),
                    ComponentAuthorization { rules: Vec::new() },
                    state,
                ),
            );
        }
    }
}

/// What the store holds in one lazy map of one component: each key of
/// the map with its value.
pub open spec fn lazy_map_of(s: StoreState, component_address: Address, mid: Mid) -> Map<
    Seq<u8>,
    Seq<u8>,
> {
    Map::new(
        |k: Seq<u8>| s.lazy_map_entries.contains_key((component_address, mid, k)),
        |k: Seq<u8>| s.lazy_map_entries[(component_address, mid, k)],
    )
}

/// A store whose lazy maps can be listed whole. This is for tools that
/// inspect a store from outside; nothing that runs inside a transaction
/// lists a lazy map.
pub trait QueryableSubstateStore: SubstateStore {
    /// Every entry that the store holds in a lazy map of a component, each
    /// once, in no stated order.
    fn get_lazy_map_entries(&self, component_address: &Address, mid: &Mid) -> (entries: Vec<
        (Vec<u8>, Vec<u8>),
    >)
        ensures
            forall|i: int|
                0 <= i < entries@.len() ==> lazy_map_of(
                    self.state(),
                    *component_address,
                    *mid,
                ).contains_key((#[trigger] entries@[i]).0@) && lazy_map_of(
                    self.state(),
                    *component_address,
                    *mid,
                )[entries@[i].0@] == entries@[i].1@,
            forall|k: Seq<u8>|
                lazy_map_of(self.state(), *component_address, *mid).contains_key(k) ==> exists|
                    i: int,
                |
                    0 <= i < entries@.len() && (#[trigger] entries@[i]).0@ == k,
            forall|i: int, j: int|
                0 <= i < j < entries@.len() ==> (#[trigger] entries@[i]).0@ != (
                #[trigger] entries@[j]).0@,
    ;
}

} // verus!
