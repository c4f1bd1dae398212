//! Schema types and the trait by which a data structure names its schema.

use std::collections::{BTreeMap, BTreeSet, HashMap, HashSet};
use vstd::prelude::*;

verus! {

/// The schema of an encodable value.
#[derive(Debug, PartialEq, Eq)]
pub enum Type {
    Unit,
    Bool,
    I8,
    I16,
    I32,
    I64,
    I128,
    U8,
    U16,
    U32,
    U64,
    U128,
    String,
    H256,
    U256,
    Address,
    BID,
    RID,
    Option { value: Box<Type> },
    Box { value: Box<Type> },
    Array { element: Box<Type>, length: u16 },
    Tuple { elements: Vec<Type> },
    Vec { element: Box<Type> },
    TreeSet { element: Box<Type> },
    TreeMap { key: Box<Type>, value: Box<Type> },
    HashSet { element: Box<Type> },
    HashMap { key: Box<Type>, value: Box<Type> },
    Custom { name: std::string::String },
}

/// The mathematical value of a [`Type`]: the same tree, with sequences for
/// the element lists and for names.
pub ghost enum Shape {
    Unit,
    Bool,
    I8,
    I16,
    I32,
    I64,
    I128,
    U8,
    U16,
    U32,
    U64,
    U128,
    String,
    H256,
    U256,
    Address,
    BID,
    RID,
    Option { value: Box<Shape> },
    Box { value: Box<Shape> },
    Array { element: Box<Shape>, length: u16 },
    Tuple { elements: Seq<Shape> },
    Vec { element: Box<Shape> },
    TreeSet { element: Box<Shape> },
    TreeMap { key: Box<Shape>, value: Box<Shape> },
    HashSet { element: Box<Shape> },
    HashMap { key: Box<Shape>, value: Box<Shape> },
    Custom { name: Seq<char> },
}

impl Type {
    /// The tree that this schema denotes.
    pub open spec fn shape(self) -> Shape
        decreases self,
    {
        match self {
            Type::Unit => Shape::Unit,
            Type::Bool => Shape::Bool,
            Type::I8 => Shape::I8,
            Type::I16 => Shape::I16,
            Type::I32 => Shape::I32,
            Type::I64 => Shape::I64,
            Type::I128 => Shape::I128,
            Type::U8 => Shape::U8,
            Type::U16 => Shape::U16,
            Type::U32 => Shape::U32,
            Type::U64 => Shape::U64,
            Type::U128 => Shape::U128,
            Type::String => Shape::String,
            Type::H256 => Shape::H256,
            Type::U256 => Shape::U256,
            Type::Address => Shape::Address,
            Type::BID => Shape::BID,
            Type::RID => Shape::RID,
            Type::Option { value } => Shape::Option { value: Box::new((*value).shape()) },
            Type::Box { value } => Shape::Box { value: Box::new((*value).shape()) },
            Type::Array { element, length } => Shape::Array {
                element: Box::new((*element).shape()),
                length,
            },
            Type::Tuple { elements } => Shape::Tuple {
                elements: Seq::new(
                    elements@.len(),
                    |i: int|
                        if 0 <= i < elements@.len() {
                            elements@[i].shape()
                        } else {
                            Shape::Unit
                        },
                ),
            },
            Type::Vec { element } => Shape::Vec { element: Box::new((*element).shape()) },
            Type::TreeSet { element } => Shape::TreeSet { element: Box::new((*element).shape()) },
            Type::TreeMap { key, value } => Shape::TreeMap {
                key: Box::new((*key).shape()),
                value: Box::new((*value).shape()),
            },
            Type::HashSet { element } => Shape::HashSet { element: Box::new((*element).shape()) },
            Type::HashMap { key, value } => Shape::HashMap {
                key: Box::new((*key).shape()),
                value: Box::new((*value).shape()),
            },
            Type::Custom { name } => Shape::Custom { name: name@ },
        }
    }
}

impl View for Type {
    type V = Shape;

    open spec fn view(&self) -> Shape {
        self.shape()
    }
}

/// A data structure whose schema can be stated as a [`Type`].
pub trait Describe {
    /// The schema of the implementing type.
    spec fn schema() -> Shape;

    /// Builds the schema of the implementing type.
    fn describe() -> (ty: Type)
        ensures
            ty@ == Self::schema(),
    ;
}

impl Describe for bool {
    open spec fn schema() -> Shape {
        Shape::Bool
    }

    fn describe() -> (ty: Type) {
        Type::Bool
    }
}

impl Describe for i8 {
    open spec fn schema() -> Shape {
        Shape::I8
    }

    fn describe() -> (ty: Type) {
        Type::I8
    }
}

impl Describe for i16 {
    open spec fn schema() -> Shape {
        Shape::I16
    }

    fn describe() -> (ty: Type) {
        Type::I16
    }
}

impl Describe for i32 {
    open spec fn schema() -> Shape {
        Shape::I32
    }

    fn describe() -> (ty: Type) {
        Type::I32
    }
}

impl Describe for i64 {
    open spec fn schema() -> Shape {
        Shape::I64
    }

    fn describe() -> (ty: Type) {
        Type::I64
    }
}

impl Describe for i128 {
    open spec fn schema() -> Shape {
        Shape::I128
    }

    fn describe() -> (ty: Type) {
        Type::I128
    }
}

impl Describe for u8 {
    open spec fn schema() -> Shape {
        Shape::U8
    }

    fn describe() -> (ty: Type) {
        Type::U8
    }
}

impl Describe for u16 {
    open spec fn schema() -> Shape {
        Shape::U16
    }

    fn describe() -> (ty: Type) {
        Type::U16
    }
}

impl Describe for u32 {
    open spec fn schema() -> Shape {
        Shape::U32
    }

    fn describe() -> (ty: Type) {
        Type::U32
    }
}

impl Describe for u64 {
    open spec fn schema() -> Shape {
        Shape::U64
    }

    fn describe() -> (ty: Type) {
        Type::U64
    }
}

impl Describe for u128 {
    open spec fn schema() -> Shape {
        Shape::U128
    }

    fn describe() -> (ty: Type) {
        Type::U128
    }
}

impl Describe for isize {
    open spec fn schema() -> Shape {
        Shape::I32
    }

    fn describe() -> (ty: Type) {
        Type::I32
    }
}

impl Describe for usize {
    open spec fn schema() -> Shape {
        Shape::U32
    }

    fn describe() -> (ty: Type) {
        Type::U32
    }
}

impl Describe for str {
    open spec fn schema() -> Shape {
        Shape::String
    }

    fn describe() -> (ty: Type) {
        Type::String
    }
}

impl Describe for String {
    open spec fn schema() -> Shape {
        Shape::String
    }

    fn describe() -> (ty: Type) {
        Type::String
    }
}

impl<T: Describe> Describe for Option<T> {
    open spec fn schema() -> Shape {
        Shape::Option { value: Box::new(T::schema()) }
    }

    fn describe() -> (ty: Type) {
        let ty = T::describe();
        Type::Option { value: Box::new(ty) }
    }
}

impl<T: Describe> Describe for Box<T> {
    open spec fn schema() -> Shape {
        Shape::Box { value: Box::new(T::schema()) }
    }

    fn describe() -> (ty: Type) {
        let ty = T::describe();
        Type::Box { value: Box::new(ty) }
    }
}

impl<T: Describe> Describe for Vec<T> {
    open spec fn schema() -> Shape {
        Shape::Vec { element: Box::new(T::schema()) }
    }

    fn describe() -> (ty: Type) {
        let ty = T::describe();
        Type::Vec { element: Box::new(ty) }
    }
}

impl<T: Describe> Describe for BTreeSet<T> {
    open spec fn schema() -> Shape {
        Shape::TreeSet { element: Box::new(T::schema()) }
    }

    fn describe() -> (ty: Type) {
        let ty = T::describe();
        Type::TreeSet { element: Box::new(ty) }
    }
}

impl<T: Describe> Describe for HashSet<T> {
    open spec fn schema() -> Shape {
        Shape::HashSet { element: Box::new(T::schema()) }
    }

    fn describe() -> (ty: Type) {
        let ty = T::describe();
        Type::HashSet { element: Box::new(ty) }
    }
}

impl<K: Describe, V: Describe> Describe for BTreeMap<K, V> {
    open spec fn schema() -> Shape {
        Shape::TreeMap { key: Box::new(K::schema()), value: Box::new(V::schema()) }
    }

    fn describe() -> (ty: Type) {
        let k = K::describe();
        let v = V::describe();
        Type::TreeMap { key: Box::new(k), value: Box::new(v) }
    }
}

impl<K: Describe, V: Describe> Describe for HashMap<K, V> {
    open spec fn schema() -> Shape {
        Shape::HashMap { key: Box::new(K::schema()), value: Box::new(V::schema()) }
    }

    fn describe() -> (ty: Type) {
        let k = K::describe();
        let v = V::describe();
        Type::HashMap { key: Box::new(k), value: Box::new(v) }
    }
}

impl<T: Describe, const N: usize> Describe for [T; N] {
    open spec fn schema() -> Shape {
        Shape::Array { element: Box::new(T::schema()), length: N as u16 }
    }

    fn describe() -> (ty: Type) {
        let ty = T::describe();
        Type::Array { element: Box::new(ty), length: N as u16 }
    }
}

impl<A: Describe, B: Describe> Describe for (A, B) {
    open spec fn schema() -> Shape {
        Shape::Tuple { elements: seq![A::schema(), B::schema()] }
    }

    fn describe() -> (ty: Type) {
        let mut elements = Vec::new();
        elements.push(A::describe());
        elements.push(B::describe());
        let ty = Type::Tuple { elements };
        assert(ty@->Tuple_elements =~= seq![A::schema(), B::schema()]);
        ty
    }
}

impl<A: Describe, B: Describe, C: Describe> Describe for (A, B, C) {
    open spec fn schema() -> Shape {
        Shape::Tuple { elements: seq![A::schema(), B::schema(), C::schema()] }
    }

    fn describe() -> (ty: Type) {
        let mut elements = Vec::new();
        elements.push(A::describe());
        elements.push(B::describe());
        elements.push(C::describe());
        let ty = Type::Tuple { elements };
        assert(ty@->Tuple_elements =~= seq![A::schema(), B::schema(), C::schema()]);
        ty
    }
}

impl<A: Describe, B: Describe, C: Describe, D: Describe> Describe for (A, B, C, D) {
    open spec fn schema() -> Shape {
        Shape::Tuple { elements: seq![A::schema(), B::schema(), C::schema(), D::schema()] }
    }

    fn describe() -> (ty: Type) {
        let mut elements = Vec::new();
        elements.push(A::describe());
        elements.push(B::describe());
        elements.push(C::describe());
        elements.push(D::describe());
        let ty = Type::Tuple { elements };
        assert(ty@->Tuple_elements =~= seq![A::schema(), B::schema(), C::schema(), D::schema()]);
        ty
    }
}

impl<A: Describe, B: Describe, C: Describe, D: Describe, E: Describe> Describe for (A, B, C, D, E) {
    open spec fn schema() -> Shape {
        Shape::Tuple { elements: seq![A::schema(), B::schema(), C::schema(), D::schema(), E::schema()] }
    }

    fn describe() -> (ty: Type) {
        let mut elements = Vec::new();
        elements.push(A::describe());
        elements.push(B::describe());
        elements.push(C::describe());
        elements.push(D::describe());
        elements.push(E::describe());
        let ty = Type::Tuple { elements };
        assert(ty@->Tuple_elements =~= seq![A::schema(), B::schema(), C::schema(), D::schema(), E::schema()]);
        ty
    }
}

impl<A: Describe, B: Describe, C: Describe, D: Describe, E: Describe, F: Describe> Describe for (A, B, C, D, E, F) {
    open spec fn schema() -> Shape {
        Shape::Tuple { elements: seq![A::schema(), B::schema(), C::schema(), D::schema(), E::schema(), F::schema()] }
    }

    fn describe() -> (ty: Type) {
        let mut elements = Vec::new();
        elements.push(A::describe());
        elements.push(B::describe());
        elements.push(C::describe());
        elements.push(D::describe());
        elements.push(E::describe());
        elements.push(F::describe());
        let ty = Type::Tuple { elements };
        assert(ty@->Tuple_elements =~= seq![A::schema(), B::schema(), C::schema(), D::schema(), E::schema(), F::schema()]);
        ty
    }
}

impl<A: Describe, B: Describe, C: Describe, D: Describe, E: Describe, F: Describe, G: Describe> Describe for (A, B, C, D, E, F, G) {
    open spec fn schema() -> Shape {
        Shape::Tuple { elements: seq![A::schema(), B::schema(), C::schema(), D::schema(), E::schema(), F::schema(), G::schema()] }
    }

    fn describe() -> (ty: Type) {
        let mut elements = Vec::new();
        elements.push(A::describe());
        elements.push(B::describe());
        elements.push(C::describe());
        elements.push(D::describe());
        elements.push(E::describe());
        elements.push(F::describe());
        elements.push(G::describe());
        let ty = Type::Tuple { elements };
        assert(ty@->Tuple_elements =~= seq![A::schema(), B::schema(), C::schema(), D::schema(), E::schema(), F::schema(), G::schema()]);
        ty
    }
}

impl<A: Describe, B: Describe, C: Describe, D: Describe, E: Describe, F: Describe, G: Describe, H: Describe> Describe for (A, B, C, D, E, F, G, H) {
    open spec fn schema() -> Shape {
        Shape::Tuple { elements: seq![A::schema(), B::schema(), C::schema(), D::schema(), E::schema(), F::schema(), G::schema(), H::schema()] }
    }

    fn describe() -> (ty: Type) {
        let mut elements = Vec::new();
        elements.push(A::describe());
        elements.push(B::describe());
        elements.push(C::describe());
        elements.push(D::describe());
        elements.push(E::describe());
        elements.push(F::describe());
        elements.push(G::describe());
        elements.push(H::describe());
        let ty = Type::Tuple { elements };
        assert(ty@->Tuple_elements =~= seq![A::schema(), B::schema(), C::schema(), D::schema(), E::schema(), F::schema(), G::schema(), H::schema()]);
        ty
    }
}

impl<A: Describe, B: Describe, C: Describe, D: Describe, E: Describe, F: Describe, G: Describe, H: Describe, I: Describe> Describe for (A, B, C, D, E, F, G, H, I) {
    open spec fn schema() -> Shape {
        Shape::Tuple { elements: seq![A::schema(), B::schema(), C::schema(), D::schema(), E::schema(), F::schema(), G::schema(), H::schema(), I::schema()] }
    }

    fn describe() -> (ty: Type) {
        let mut elements = Vec::new();
        elements.push(A::describe());
        elements.push(B::describe());
        elements.push(C::describe());
        elements.push(D::describe());
        elements.push(E::describe());
        elements.push(F::describe());
        elements.push(G::describe());
        elements.push(H::describe());
        elements.push(I::describe());
        let ty = Type::Tuple { elements };
        assert(ty@->Tuple_elements =~= seq![A::schema(), B::schema(), C::schema(), D::schema(), E::schema(), F::schema(), G::schema(), H::schema(), I::schema()]);
        ty
    }
}

impl<A: Describe, B: Describe, C: Describe, D: Describe, E: Describe, F: Describe, G: Describe, H: Describe, I: Describe, J: Describe> Describe for (A, B, C, D, E, F, G, H, I, J) {
    open spec fn schema() -> Shape {
        Shape::Tuple { elements: seq![A::schema(), B::schema(), C::schema(), D::schema(), E::schema(), F::schema(), G::schema(), H::schema(), I::schema(), J::schema()] }
    }

    fn describe() -> (ty: Type) {
        let mut elements = Vec::new();
        elements.push(A::describe());
        elements.push(B::describe());
        elements.push(C::describe());
        elements.push(D::describe());
        elements.push(E::describe());
        elements.push(F::describe());
        elements.push(G::describe());
        elements.push(H::describe());
        elements.push(I::describe());
        elements.push(J::describe());
        let ty = Type::Tuple { elements };
        assert(ty@->Tuple_elements =~= seq![A::schema(), B::schema(), C::schema(), D::schema(), E::schema(), F::schema(), G::schema(), H::schema(), I::schema(), J::schema()]);
        ty
    }
}

} // verus!
