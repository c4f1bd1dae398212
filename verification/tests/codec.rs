use radix_engine::codec::decode;
use radix_engine::component::{
    AuthRule, BadgeSource, Component, ComponentAuthorization, MethodAuthorization, MethodRule,
};
use radix_engine::describe::{Describe, Type};
use radix_engine::error::DecodeError;
use radix_engine::nested::end_of_value;
use radix_engine::types::Address;
use std::collections::BTreeMap;

fn nested_schema() -> Type {
    <(Vec<u8>, Option<String>, u32)>::describe()
}

fn nested_state() -> Vec<u8> {
    let mut v = vec![0x23, 3];
    v.extend_from_slice(&[0x30, 2, 0, 0, 0, 0x07, 5, 0x07, 6]);
    v.extend_from_slice(&[0x20, 1, 0x0c, 2, 0, 0, 0, 0x68, 0x69]);
    v.extend_from_slice(&[0x09, 1, 0, 0, 0]);
    v
}

#[test]
fn nested_values_decode_as_fields() {
    let fields = decode(&nested_schema(), &nested_state()).unwrap();
    assert_eq!(fields.len(), 3);
    assert_eq!(fields[0].tag, 0x30);
    assert_eq!(fields[0].payload, vec![2, 0, 0, 0, 0x07, 5, 0x07, 6]);
    assert_eq!(fields[1].tag, 0x20);
    assert_eq!(fields[1].payload, vec![1, 0x0c, 2, 0, 0, 0, 0x68, 0x69]);
    assert_eq!(fields[2].tag, 0x09);
    assert_eq!(fields[2].payload, vec![1, 0, 0, 0]);
}

#[test]
fn nested_values_end_where_they_should() {
    assert_eq!(end_of_value(&Type::U16, &[0x08, 1, 2, 9], 0), Ok(3));
    assert_eq!(end_of_value(&Type::Unit, &[9, 0x00], 1), Ok(2));
    assert_eq!(
        end_of_value(&Type::String, &[0x0c, 2, 0, 0, 0, 0x68, 0x69, 7], 0),
        Ok(7)
    );
    assert_eq!(
        end_of_value(&<Option<u8>>::describe(), &[0x20, 0, 7], 0),
        Ok(2)
    );
    assert_eq!(
        end_of_value(&<Option<u8>>::describe(), &[0x20, 1, 0x07, 7], 0),
        Ok(4)
    );
    assert_eq!(
        end_of_value(&<Box<u16>>::describe(), &[0x21, 0x08, 1, 0], 0),
        Ok(4)
    );
    assert_eq!(
        end_of_value(&<[u8; 2]>::describe(), &[0x22, 0x07, 1, 0x07, 2], 0),
        Ok(5)
    );
    assert_eq!(
        end_of_value(
            &<(u8, (bool, u8))>::describe(),
            &[0x23, 2, 0x07, 1, 0x23, 2, 0x01, 1, 0x07, 3],
            0
        ),
        Ok(10)
    );
    assert_eq!(
        end_of_value(
            &<BTreeMap<u8, bool>>::describe(),
            &[0x32, 2, 0, 0, 0, 0x07, 9, 0x01, 1, 0x07, 8, 0x01, 0],
            0
        ),
        Ok(13)
    );
}

#[test]
fn malformed_nested_values_are_refused() {
    let list = <Vec<u8>>::describe();
    assert_eq!(
        end_of_value(&list, &[0x30, 3, 0, 0, 0, 0x07, 5, 0x07, 6], 0),
        Err(DecodeError::Underflow {
            required: 1,
            remaining: 0
        })
    );
    assert_eq!(
        end_of_value(&list, &[0x30, 100, 0, 0, 0, 0x07, 5, 0x07, 6], 0),
        Err(DecodeError::Underflow {
            required: 5,
            remaining: 4
        })
    );
    assert_eq!(
        end_of_value(&list, &[0x30, 1, 0], 0),
        Err(DecodeError::Underflow {
            required: 4,
            remaining: 2
        })
    );
    assert_eq!(
        end_of_value(&list, &[0x30, 1, 0, 0, 0, 0x08, 5, 0], 0),
        Err(DecodeError::InvalidType {
            expected: 0x07,
            actual: 0x08
        })
    );
    assert_eq!(
        end_of_value(&<Option<u8>>::describe(), &[0x20, 2, 0x07, 7], 0),
        Err(DecodeError::InvalidValue(2))
    );
    assert_eq!(
        end_of_value(&<BTreeMap<u8, bool>>::describe(), &[0x32, 1, 0, 0, 0, 0x01, 1, 0x07, 9], 0),
        Err(DecodeError::InvalidType {
            expected: 0x07,
            actual: 0x01
        })
    );
    assert_eq!(
        end_of_value(&<(u8, u8)>::describe(), &[0x23, 3, 0x07, 1, 0x07, 2], 0),
        Err(DecodeError::InvalidLength {
            declared: 2,
            found: 3
        })
    );
    assert_eq!(
        end_of_value(&Type::String, &[0x0c, 3, 0, 0, 0, 0x68, 0x69], 0),
        Err(DecodeError::Underflow {
            required: 3,
            remaining: 2
        })
    );
    let custom = <Vec<radix_engine::bucket::Bucket>>::describe();
    assert_eq!(
        end_of_value(&custom, &[0x30, 1, 0, 0, 0, 0x00], 0),
        Err(DecodeError::UnsupportedType)
    );
    let mut long = nested_state();
    long.push(0);
    assert_eq!(
        decode(&nested_schema(), &long).unwrap_err(),
        DecodeError::NotAllBytesUsed(1)
    );
}

#[test]
fn state_with_nested_values_is_authorized_by_its_table() {
    let schema = Type::Tuple {
        elements: vec![Type::String, Type::Address],
    };
    let mut state = vec![0x23, 2, 0x0c, 1, 0, 0, 0, 0x61, 0x81, 2];
    state.extend_from_slice(&7u128.to_le_bytes());
    let table = ComponentAuthorization {
        rules: vec![MethodRule {
            method: "withdraw".to_owned(),
            rule: AuthRule::Badges(vec![BadgeSource::StateField(1)]),
        }],
    };
    let c = Component::new(Address::package(5), "Account".to_owned(), table, state);
    let (data, auth) = c.method_authorization(&schema, "withdraw").unwrap();
    assert_eq!(data.fields.len(), 2);
    match auth {
        MethodAuthorization::ProofOfBadge(required) => {
            assert_eq!(required, vec![Address::resource_def(7)])
        }
        other => panic!("unexpected: {:?}", other),
    }
    let (_, other) = c.method_authorization(&schema, "deposit").unwrap();
    assert!(matches!(other, MethodAuthorization::Private));
}
