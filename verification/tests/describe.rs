use radix_engine::bucket::Bucket;
use radix_engine::describe::{Describe, Type};
use radix_engine::types::{Address, BID, H256, RID, U256};
use std::collections::{BTreeMap, BTreeSet, HashMap, HashSet};

#[test]
pub fn test_basic_types() {
    assert_eq!(Type::Bool, bool::describe());
    assert_eq!(Type::I8, i8::describe());
    assert_eq!(Type::I16, i16::describe());
    assert_eq!(Type::I32, i32::describe());
    assert_eq!(Type::I64, i64::describe());
    assert_eq!(Type::I128, i128::describe());
    assert_eq!(Type::U8, u8::describe());
    assert_eq!(Type::U16, u16::describe());
    assert_eq!(Type::U32, u32::describe());
    assert_eq!(Type::U64, u64::describe());
    assert_eq!(Type::U128, u128::describe());
    assert_eq!(Type::String, String::describe());
}

#[test]
pub fn test_option() {
    assert_eq!(
        Type::Option {
            value: Box::new(Type::String)
        },
        Option::<String>::describe(),
    );
}

#[test]
pub fn test_array() {
    assert_eq!(
        Type::Array {
            element: Box::new(Type::U8),
            length: 3,
        },
        <[u8; 3]>::describe(),
    );
}

#[test]
pub fn test_tuple() {
    assert_eq!(
        Type::Tuple {
            elements: vec![Type::U8, Type::U128]
        },
        <(u8, u128)>::describe(),
    );
}

#[test]
pub fn test_pointer_sized_integers() {
    assert_eq!(Type::I32, isize::describe());
    assert_eq!(Type::U32, usize::describe());
    assert_eq!(Type::String, str::describe());
}

#[test]
pub fn test_identifier_types() {
    assert_eq!(Type::H256, H256::describe());
    assert_eq!(Type::U256, U256::describe());
    assert_eq!(Type::Address, Address::describe());
    assert_eq!(Type::BID, BID::describe());
    assert_eq!(Type::RID, RID::describe());
    assert_eq!(
        Type::Custom {
            name: "Bucket".to_owned()
        },
        Bucket::describe()
    );
}

#[test]
pub fn test_collections() {
    assert_eq!(
        Type::Box {
            value: Box::new(Type::U8)
        },
        Box::<u8>::describe()
    );
    assert_eq!(
        Type::Vec {
            element: Box::new(Type::Bool)
        },
        Vec::<bool>::describe()
    );
    assert_eq!(
        Type::TreeSet {
            element: Box::new(Type::U16)
        },
        BTreeSet::<u16>::describe()
    );
    assert_eq!(
        Type::TreeMap {
            key: Box::new(Type::U16),
            value: Box::new(Type::String)
        },
        BTreeMap::<u16, String>::describe()
    );
    assert_eq!(
        Type::HashSet {
            element: Box::new(Type::I64)
        },
        HashSet::<i64>::describe()
    );
    assert_eq!(
        Type::HashMap {
            key: Box::new(Type::U8),
            value: Box::new(Type::Address)
        },
        HashMap::<u8, Address>::describe()
    );
}

#[test]
pub fn test_long_tuple_and_nesting() {
    assert_eq!(
        Type::Tuple {
            elements: vec![
                Type::U8,
                Type::Bool,
                Type::Option {
                    value: Box::new(Type::Array {
                        element: Box::new(Type::I8),
                        length: 2
                    })
                }
            ]
        },
        <(u8, bool, Option<[i8; 2]>)>::describe(),
    );
    assert_eq!(
        Type::Tuple {
            elements: vec![
                Type::U8,
                Type::U16,
                Type::U32,
                Type::U64,
                Type::U128,
                Type::I8,
                Type::I16,
                Type::I32,
                Type::I64,
                Type::I128
            ]
        },
        <(u8, u16, u32, u64, u128, i8, i16, i32, i64, i128)>::describe(),
    );
}
