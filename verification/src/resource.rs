//! Resource definitions and the quantities of value that containers hold.

use crate::decimal::{Decimal, SCALE};
use crate::error::BucketError;
use crate::types::Address;
use vstd::prelude::*;

verus! {

/// Flag: new supply may be minted by the holder of a badge.
pub const MINTABLE: u16 = 1;

/// Flag: supply may be burned by the holder of a badge.
pub const BURNABLE: u16 = 2;

/// Flag: anyone who holds the resource may burn it.
pub const FREELY_BURNABLE: u16 = 4;

/// Flag: the resource may be moved without restriction.
pub const FREELY_TRANSFERABLE: u16 = 8;

/// Permission: the badge authorizes minting.
pub const MAY_MINT: u16 = 1;

/// Permission: the badge authorizes burning.
pub const MAY_BURN: u16 = 2;

/// The kind of a resource.
#[derive(Debug, Clone, Copy, PartialEq, Eq, Structural)]
pub enum ResourceType {
    /// Interchangeable units, divisible down to 10^-divisibility.
    Fungible { divisibility: u8 },
    /// Distinct units, which are held and moved whole.
    NonFungible,
}

impl ResourceType {
    /// The number of decimal places in which amounts of the resource may
    /// differ; zero for a resource that moves in whole units only.
    pub open spec fn places(self) -> u8 {
        match self {
            ResourceType::Fungible { divisibility } => divisibility,
            ResourceType::NonFungible => 0,
        }
    }

    /// A resource type is valid when its divisibility is at most eighteen.
    pub open spec fn wf(self) -> bool {
        self.places() <= SCALE
    }

    /// The number of decimal places in which amounts may differ.
    pub fn divisibility(&self) -> (d: u8)
        ensures
            d == self.places(),
    {
        match self {
            ResourceType::Fungible { divisibility } => *divisibility,
            ResourceType::NonFungible => 0,
        }
    }

    /// Whether the divisibility is one that amounts can express.
    pub fn is_valid(&self) -> (r: bool)
        ensures
            r == self.wf(),
    {
        self.divisibility() <= SCALE
    }
}

/// A badge resource and what presenting it permits.
#[derive(Debug, Clone, Copy, PartialEq, Eq, Structural)]
pub struct Authority {
    pub badge: Address,
    pub permissions: u16,
}

/// Whether some entry of `authorities` grants every bit of `permission` to
/// the holder of `badge`.
pub open spec fn grants(authorities: Seq<Authority>, badge: Address, permission: u16) -> bool {
    exists|i: int|
        0 <= i < authorities.len() && (#[trigger] authorities[i]).badge == badge
            && authorities[i].permissions & permission == permission
}

/// Whether no key occurs twice in a list of metadata, so that the list
/// is a mapping from keys to values.
pub open spec fn distinct_keys(metadata: Seq<(String, String)>) -> bool {
    forall|i: int, j: int|
        0 <= i < j < metadata.len() ==> (#[trigger] metadata[i]).0@ != (#[trigger] metadata[j]).0@
}

/// Whether no badge occurs twice in a list of authorities, so that the
/// list is a mapping from badges to permissions.
pub open spec fn distinct_badges(authorities: Seq<Authority>) -> bool {
    forall|i: int, j: int|
        0 <= i < j < authorities.len() ==> (#[trigger] authorities[i]).badge != (
        #[trigger] authorities[j]).badge
}

/// Whether no key occurs twice in a list of metadata.
pub fn keys_are_distinct(metadata: &Vec<(String, String)>) -> (r: bool)
    ensures
        r == distinct_keys(metadata@),
{
    let mut j: usize = 0;
    while j < metadata.len()
        invariant
            j <= metadata.len(),
            forall|a: int, b: int|
                0 <= a < b < j ==> (#[trigger] metadata@[a]).0@ != (#[trigger] metadata@[b]).0@,
        decreases metadata.len() - j,
    {
        let mut i: usize = 0;
        while i < j
            invariant
                i <= j < metadata.len(),
                forall|a: int| 0 <= a < i ==> (#[trigger] metadata@[a]).0@ != metadata@[j as int].0@,
            decreases j - i,
        {
            if metadata[i].0 == metadata[j].0 {
                assert(metadata@[i as int].0@ == metadata@[j as int].0@);
                return false;
            }
            i = i + 1;
        }
        j = j + 1;
    }
    true
}

/// Whether no badge occurs twice in a list of authorities.
pub fn badges_are_distinct(authorities: &Vec<Authority>) -> (r: bool)
    ensures
        r == distinct_badges(authorities@),
{
    let mut j: usize = 0;
    while j < authorities.len()
        invariant
            j <= authorities.len(),
            forall|a: int, b: int|
                0 <= a < b < j ==> (#[trigger] authorities@[a]).badge != (
                #[trigger] authorities@[b]).badge,
        decreases authorities.len() - j,
    {
        let mut i: usize = 0;
        while i < j
            invariant
                i <= j < authorities.len(),
                forall|a: int|
                    0 <= a < i ==> (#[trigger] authorities@[a]).badge != authorities@[j as int].badge,
            decreases j - i,
        {
            if authorities[i].badge == authorities[j].badge {
                assert(authorities@[i as int].badge == authorities@[j as int].badge);
                return false;
            }
            i = i + 1;
        }
        j = j + 1;
    }
    true
}

/// The definition of one resource: its kind, its descriptive metadata, the
/// rules on its supply, and the supply itself. The metadata and the
/// authorities are mappings, held as lists in which no key occurs twice.
#[derive(Debug)]
pub struct ResourceDef {
    pub resource_type: ResourceType,
    pub metadata: Vec<(String, String)>,
    pub flags: u16,
    pub authorities: Vec<Authority>,
    pub total_supply: Decimal,
}

impl ResourceDef {
    /// A definition is valid when its kind is, its supply is not negative,
    /// no metadata key occurs twice and no badge occurs twice.
    pub open spec fn wf(self) -> bool {
        &&& self.resource_type.wf()
        &&& self.total_supply@ >= 0
        &&& distinct_keys(self.metadata@)
        &&& distinct_badges(self.authorities@)
    }

    /// Whether the flag bits `flag` are all set.
    pub open spec fn has_flag(self, flag: u16) -> bool {
        self.flags & flag == flag
    }

    /// Whether presenting `badge` permits `permission`.
    pub open spec fn permits(self, badge: Address, permission: u16) -> bool {
        grants(self.authorities@, badge, permission)
    }

    /// Defines a resource with the given initial supply. The metadata and
    /// the authorities must be mappings: `keys_are_distinct` and
    /// `badges_are_distinct` tell whether they are.
    ///
    /// Fails with `InvalidAmount` where the supply is negative or finer
    /// than the divisibility allows.
    pub fn new(
        resource_type: ResourceType,
        metadata: Vec<(String, String)>,
        flags: u16,
        authorities: Vec<Authority>,
        initial_supply: Decimal,
    ) -> (r: Result<ResourceDef, BucketError>)
        requires
            resource_type.wf(),
            distinct_keys(metadata@),
            distinct_badges(authorities@),
        ensures
            match r {
                Ok(def) => initial_supply.fits(resource_type.places()) && def == (ResourceDef {
                    resource_type,
                    metadata,
                    flags,
                    authorities,
                    total_supply: initial_supply,
                }) && def.wf(),
                Err(e) => !initial_supply.fits(resource_type.places()) && e
                    == BucketError::InvalidAmount(initial_supply),
            },
    {
        if !initial_supply.is_multiple_of_step(resource_type.divisibility()) {
            return Err(BucketError::InvalidAmount(initial_supply));
        }
        Ok(ResourceDef { resource_type, metadata, flags, authorities, total_supply: initial_supply })
    }

    /// Whether the definition is valid.
    pub fn is_valid(&self) -> (r: bool)
        ensures
            r == self.wf(),
    {
        self.resource_type.is_valid() && self.total_supply.0 >= 0 && keys_are_distinct(
            &self.metadata,
        ) && badges_are_distinct(&self.authorities)
    }

    /// A copy of the definition.
    pub fn duplicate(&self) -> (r: ResourceDef)
        ensures
            r.resource_type == self.resource_type,
            r.metadata@ == self.metadata@,
            r.flags == self.flags,
            r.authorities@ == self.authorities@,
            r.total_supply == self.total_supply,
    {
        let mut metadata: Vec<(String, String)> = Vec::new();
        let mut i: usize = 0;
        while i < self.metadata.len()
            invariant
                i <= self.metadata.len(),
                metadata@ == self.metadata@.subrange(0, i as int),
            decreases self.metadata.len() - i,
        {
            let key = self.metadata[i].0.clone();
            let value = self.metadata[i].1.clone();
            metadata.push((key, value));
            assert(metadata@ =~= self.metadata@.subrange(0, i + 1));
            i = i + 1;
        }
        assert(self.metadata@.subrange(0, i as int) =~= self.metadata@);
        let mut authorities: Vec<Authority> = Vec::new();
        let mut k: usize = 0;
        while k < self.authorities.len()
            invariant
                k <= self.authorities.len(),
                authorities@ == self.authorities@.subrange(0, k as int),
            decreases self.authorities.len() - k,
        {
            authorities.push(self.authorities[k]);
            assert(authorities@ =~= self.authorities@.subrange(0, k + 1));
            k = k + 1;
        }
        assert(self.authorities@.subrange(0, k as int) =~= self.authorities@);
        ResourceDef {
            resource_type: self.resource_type,
            metadata,
            flags: self.flags,
            authorities,
            total_supply: self.total_supply,
        }
    }

    /// Whether the flag bits `flag` are all set.
    pub fn is_flag_on(&self, flag: u16) -> (r: bool)
        ensures
            r == self.has_flag(flag),
    {
        self.flags & flag == flag
    }

    /// Whether presenting `badge` permits `permission`.
    pub fn check_permission(&self, badge: Address, permission: u16) -> (r: bool)
        ensures
            r == self.permits(badge, permission),
    {
        let mut i: usize = 0;
        while i < self.authorities.len()
            invariant
                i <= self.authorities.len(),
                forall|j: int|
                    0 <= j < i ==> !((#[trigger] self.authorities@[j]).badge == badge
                        && self.authorities@[j].permissions & permission == permission),
            decreases self.authorities.len() - i,
        {
            let entry = self.authorities[i];
            if entry.badge == badge && entry.permissions & permission == permission {
                return true;
            }
            i = i + 1;
        }
        false
    }
}

/// A quantity of one resource: what a bucket or a vault holds.
#[derive(Debug, Clone, Copy, PartialEq, Eq, Structural)]
pub struct Holding {
    pub resource: Address,
    pub resource_type: ResourceType,
    pub amount: Decimal,
}

impl Holding {
    /// A holding is valid when its amount is not negative and its resource
    /// type is valid.
    pub open spec fn wf(self) -> bool {
        self.amount@ >= 0 && self.resource_type.wf()
    }

    /// The holding with its amount replaced.
    pub open spec fn with_amount(self, amount: int) -> Holding
        recommends
            i128::MIN <= amount <= i128::MAX,
    {
        Holding { amount: Decimal(amount as i128), ..self }
    }

    /// What `put` does: the merged holding, or why merging is refused.
    pub open spec fn merged(self, other: Holding) -> Result<Holding, BucketError> {
        if self.resource != other.resource {
            Err(BucketError::ResourceNotMatching)
        } else if self.amount@ + other.amount@ > i128::MAX {
            Err(BucketError::BalanceOverflow)
        } else {
            Ok(self.with_amount(self.amount@ + other.amount@))
        }
    }

    /// What `take` does: what stays and what leaves, or why the split is
    /// refused.
    pub open spec fn split(self, amount: Decimal) -> Result<(Holding, Holding), BucketError> {
        if !amount.fits(self.resource_type.places()) {
            Err(BucketError::InvalidAmount(amount))
        } else if amount@ > self.amount@ {
            Err(BucketError::InsufficientBalance)
        } else {
            Ok((self.with_amount(self.amount@ - amount@), self.with_amount(amount@)))
        }
    }

    /// Whether the holding is valid.
    pub fn is_valid(&self) -> (r: bool)
        ensures
            r == self.wf(),
    {
        self.amount.0 >= 0 && self.resource_type.is_valid()
    }

    /// An empty holding of a resource.
    pub fn empty(resource: Address, resource_type: ResourceType) -> (h: Holding)
        ensures
            h == (Holding { resource, resource_type, amount: Decimal(0) }),
    {
        Holding { resource, resource_type, amount: Decimal::zero() }
    }

    /// Merges `other` into this holding. On failure nothing changes.
    pub fn put(&mut self, other: Holding) -> (r: Result<(), BucketError>)
        requires
            old(self).wf(),
            other.wf(),
        ensures
            match r {
                Ok(()) => old(self).merged(other) == Ok::<Holding, BucketError>(*final(self)),
                Err(e) => old(self).merged(other) == Err::<Holding, BucketError>(e) && *final(self)
                    == *old(self),
            },
            final(self).wf(),
    {
        if self.resource != other.resource {
            return Err(BucketError::ResourceNotMatching);
        }
        match self.amount.checked_add(other.amount) {
            Some(sum) => {
                self.amount = sum;
                Ok(())
            },
            None => Err(BucketError::BalanceOverflow),
        }
    }

    /// Splits `amount` off this holding. On failure nothing changes.
    pub fn take(&mut self, amount: Decimal) -> (r: Result<Holding, BucketError>)
        requires
            old(self).wf(),
        ensures
            match r {
                Ok(taken) => old(self).split(amount) == Ok::<(Holding, Holding), BucketError>(
                    (*final(self), taken),
                ) && taken.wf(),
                Err(e) => old(self).split(amount) == Err::<(Holding, Holding), BucketError>(e)
                    && *final(self) == *old(self),
            },
            final(self).wf(),
    {
        if !amount.is_multiple_of_step(self.resource_type.divisibility()) {
            return Err(BucketError::InvalidAmount(amount));
        }
        if amount.0 > self.amount.0 {
            return Err(BucketError::InsufficientBalance);
        }
        let rest = Decimal(self.amount.0 - amount.0);
        self.amount = rest;
        Ok(Holding { resource: self.resource, resource_type: self.resource_type, amount })
    }
}

/// A persisted container that holds the long-lived balance of one resource
/// for one component.
#[derive(Debug, Clone, Copy, PartialEq, Eq, Structural)]
pub struct Vault {
    pub holding: Holding,
}

impl Vault {
    /// A vault that holds what is handed to it.
    pub fn new(holding: Holding) -> (v: Vault)
        ensures
            v.holding == holding,
    {
        Vault { holding }
    }

    /// Moves a holding into the vault. On failure nothing changes.
    pub fn put(&mut self, other: Holding) -> (r: Result<(), BucketError>)
        requires
            old(self).holding.wf(),
            other.wf(),
        ensures
            match r {
                Ok(()) => old(self).holding.merged(other) == Ok::<Holding, BucketError>(
                    final(self).holding,
                ),
                Err(e) => old(self).holding.merged(other) == Err::<Holding, BucketError>(e)
                    && *final(self) == *old(self),
            },
            final(self).holding.wf(),
    {
        self.holding.put(other)
    }

    /// Moves `amount` out of the vault. On failure nothing changes.
    pub fn take(&mut self, amount: Decimal) -> (r: Result<Holding, BucketError>)
        requires
            old(self).holding.wf(),
        ensures
            match r {
                Ok(taken) => old(self).holding.split(amount) == Ok::<
                    (Holding, Holding),
                    BucketError,
                >((final(self).holding, taken)) && taken.wf(),
                Err(e) => old(self).holding.split(amount) == Err::<(Holding, Holding), BucketError>(
                    e,
                ) && *final(self) == *old(self),
            },
            final(self).holding.wf(),
    {
        self.holding.take(amount)
    }
}

/// Merging conserves value: the merged holding has what the two had.
pub proof fn lemma_merge_conserves(a: Holding, b: Holding)
    requires
        a.wf(),
        b.wf(),
        a.merged(b) is Ok,
    ensures
        a.merged(b)->Ok_0.amount@ == a.amount@ + b.amount@,
        a.merged(b)->Ok_0.resource == a.resource,
        a.merged(b)->Ok_0.resource == b.resource,
        a.merged(b)->Ok_0.wf(),
{
}

/// Splitting conserves value: the two parts have what the whole had, both
/// are of the same resource, and neither is negative.
pub proof fn lemma_split_conserves(h: Holding, amount: Decimal)
    requires
        h.wf(),
        h.split(amount) is Ok,
    ensures
        h.split(amount)->Ok_0.0.amount@ + h.split(amount)->Ok_0.1.amount@ == h.amount@,
        h.split(amount)->Ok_0.1.amount@ == amount@,
        h.split(amount)->Ok_0.0.resource == h.resource,
        h.split(amount)->Ok_0.1.resource == h.resource,
        h.split(amount)->Ok_0.0.wf(),
        h.split(amount)->Ok_0.1.wf(),
{
}

} // verus!
