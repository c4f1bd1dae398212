//! Identifiers: global addresses and the handles of buckets, references,
//! vaults and lazy maps.

use crate::describe::{Describe, Shape, Type};
use vstd::prelude::*;

verus! {

/// A 256-bit hash, held as its high and low halves.
#[derive(Debug, Clone, Copy, PartialEq, Eq, Structural, Hash)]
pub struct H256(pub u128, pub u128);

/// A 256-bit unsigned integer, held as its high and low halves.
#[derive(Debug, Clone, Copy, PartialEq, Eq, Structural, Hash)]
pub struct U256(pub u128, pub u128);

/// What an [`Address`] identifies.
#[derive(Debug, Clone, Copy, PartialEq, Eq, Structural, Hash)]
pub enum AddressKind {
    Package,
    Component,
    ResourceDef,
}

/// A fixed-width global identifier of a package, a component or a resource
/// definition. The kind is set when the address is made and never changes.
#[derive(Debug, Clone, Copy, PartialEq, Eq, Structural, Hash)]
pub struct Address {
    pub kind: AddressKind,
    pub id: u128,
}

/// Transaction-local handle of a bucket.
#[derive(Debug, Clone, Copy, PartialEq, Eq, Structural, Hash)]
pub struct BID(pub u32);

/// Transaction-local handle of a borrowed reference to a bucket.
#[derive(Debug, Clone, Copy, PartialEq, Eq, Structural, Hash)]
pub struct RID(pub u32);

/// Persisted handle of a vault.
#[derive(Debug, Clone, Copy, PartialEq, Eq, Structural, Hash)]
pub struct Vid(pub H256, pub u32);

/// Persisted handle of a lazy map.
#[derive(Debug, Clone, Copy, PartialEq, Eq, Structural, Hash)]
pub struct Mid(pub H256, pub u32);

impl Address {
    /// The address of a package.
    pub fn package(id: u128) -> (a: Address)
        ensures
            a == (Address { kind: AddressKind::Package, id }),
    {
        Address { kind: AddressKind::Package, id }
    }

    /// The address of a component.
    pub fn component(id: u128) -> (a: Address)
        ensures
            a == (Address { kind: AddressKind::Component, id }),
    {
        Address { kind: AddressKind::Component, id }
    }

    /// The address of a resource definition.
    pub fn resource_def(id: u128) -> (a: Address)
        ensures
            a == (Address { kind: AddressKind::ResourceDef, id }),
    {
        Address { kind: AddressKind::ResourceDef, id }
    }
}

impl Describe for H256 {
    open spec fn schema() -> Shape {
        Shape::H256
    }

    fn describe() -> (ty: Type) {
        Type::H256
    }
}

impl Describe for U256 {
    open spec fn schema() -> Shape {
        Shape::U256
    }

    fn describe() -> (ty: Type) {
        Type::U256
    }
}

impl Describe for Address {
    open spec fn schema() -> Shape {
        Shape::Address
    }

    fn describe() -> (ty: Type) {
        Type::Address
    }
}

impl Describe for BID {
    open spec fn schema() -> Shape {
        Shape::BID
    }

    fn describe() -> (ty: Type) {
        Type::BID
    }
}

impl Describe for RID {
    open spec fn schema() -> Shape {
        Shape::RID
    }

    fn describe() -> (ty: Type) {
        Type::RID
    }
}

} // verus!
