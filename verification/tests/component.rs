use radix_engine::codec::{decode, encode, Field};
use radix_engine::component::{
    address_field, field_address, AuthRule, BadgeSource, Component, ComponentAuthorization,
    MethodAuthorization, MethodRule,
};
use radix_engine::describe::Type;
use radix_engine::error::{DecodeError, ErrorClass, RuntimeError};
use radix_engine::types::Address;

fn schema() -> Type {
    Type::Tuple {
        elements: vec![Type::Address, Type::U32, Type::Bool],
    }
}

fn admin_badge() -> Address {
    Address::resource_def(0x0102_0304_0506_0708_090a_0b0c_0d0e_0f10)
}

fn state() -> Vec<u8> {
    let fields = vec![
        address_field(admin_badge()),
        Field {
            tag: 0x09,
            payload: vec![1, 0, 0, 0],
        },
        Field {
            tag: 0x01,
            payload: vec![1],
        },
    ];
    encode(&fields)
}

fn table() -> ComponentAuthorization {
    ComponentAuthorization {
        rules: vec![
            MethodRule {
                method: "deposit".to_owned(),
                rule: AuthRule::Public,
            },
            MethodRule {
                method: "withdraw".to_owned(),
                rule: AuthRule::Badges(vec![
                    BadgeSource::StateField(0),
                    BadgeSource::Fixed(Address::resource_def(7)),
                ]),
            },
            MethodRule {
                method: "broken".to_owned(),
                rule: AuthRule::Badges(vec![BadgeSource::StateField(1)]),
            },
            MethodRule {
                method: "deposit".to_owned(),
                rule: AuthRule::Badges(vec![]),
            },
        ],
    }
}

fn component() -> Component {
    Component::new(Address::package(5), "Account".to_owned(), table(), state())
}

#[test]
fn encoded_state_has_the_stated_bytes() {
    let bytes = state();
    let mut expected = vec![0x23, 3, 0x81, 2];
    expected.extend_from_slice(&[
        0x10, 0x0f, 0x0e, 0x0d, 0x0c, 0x0b, 0x0a, 0x09, 0x08, 0x07, 0x06, 0x05, 0x04, 0x03, 0x02,
        0x01,
    ]);
    expected.extend_from_slice(&[0x09, 1, 0, 0, 0, 0x01, 1]);
    assert_eq!(bytes, expected);
}

#[test]
fn decode_reads_back_what_encode_wrote() {
    let fields = decode(&schema(), &state()).unwrap();
    assert_eq!(fields.len(), 3);
    assert_eq!(fields[0].tag, 0x81);
    assert_eq!(field_address(&fields[0]), Some(admin_badge()));
    assert_eq!(fields[1].payload, vec![1, 0, 0, 0]);
    assert_eq!(field_address(&fields[1]), None);
    assert_eq!(fields[2].payload, vec![1]);
}

#[test]
fn decode_rejects_malformed_input() {
    let good = state();
    assert_eq!(
        decode(&schema(), &[]).unwrap_err(),
        DecodeError::Underflow {
            required: 2,
            remaining: 0
        }
    );
    assert_eq!(
        decode(&schema(), &good[..good.len() - 1]).unwrap_err(),
        DecodeError::Underflow {
            required: 1,
            remaining: 0
        }
    );
    assert_eq!(
        decode(&schema(), &good[..good.len() - 3]).unwrap_err(),
        DecodeError::Underflow {
            required: 4,
            remaining: 3
        }
    );
    let mut longer = good.clone();
    longer.push(0);
    assert_eq!(
        decode(&schema(), &longer).unwrap_err(),
        DecodeError::NotAllBytesUsed(1)
    );
    let mut wrong_tag = good.clone();
    wrong_tag[0] = 0x22;
    assert_eq!(
        decode(&schema(), &wrong_tag).unwrap_err(),
        DecodeError::InvalidType {
            expected: 0x23,
            actual: 0x22
        }
    );
    let mut wrong_count = good.clone();
    wrong_count[1] = 2;
    assert_eq!(
        decode(&schema(), &wrong_count).unwrap_err(),
        DecodeError::InvalidLength {
            declared: 3,
            found: 2
        }
    );
    let mut wrong_field = good.clone();
    wrong_field[2] = 0x09;
    assert_eq!(
        decode(&schema(), &wrong_field).unwrap_err(),
        DecodeError::InvalidType {
            expected: 0x81,
            actual: 0x09
        }
    );
    let mut wrong_bool = good.clone();
    let last = wrong_bool.len() - 1;
    wrong_bool[last] = 2;
    assert_eq!(
        decode(&schema(), &wrong_bool).unwrap_err(),
        DecodeError::InvalidValue(2)
    );
    let mut wrong_kind = good.clone();
    wrong_kind[3] = 3;
    assert_eq!(
        decode(&schema(), &wrong_kind).unwrap_err(),
        DecodeError::InvalidValue(3)
    );
    assert_eq!(
        decode(&Type::U8, &good).unwrap_err(),
        DecodeError::InvalidType {
            expected: 0x07,
            actual: 0x23
        }
    );
    assert_eq!(
        decode(&Type::String, &good).unwrap_err(),
        DecodeError::InvalidType {
            expected: 0x0c,
            actual: 0x23
        }
    );
    let nested = Type::Tuple {
        elements: vec![Type::String],
    };
    assert_eq!(
        decode(&nested, &[0x23, 1, 0x0c]).unwrap_err(),
        DecodeError::Underflow {
            required: 4,
            remaining: 0
        }
    );
    let custom = Type::Custom {
        name: "Thing".to_owned(),
    };
    assert_eq!(
        decode(&custom, &[0x00]).unwrap_err(),
        DecodeError::UnsupportedType
    );
}

#[test]
fn single_field_schema_decodes_one_field() {
    let fields = decode(&Type::U16, &[0x08, 0x34, 0x12]).unwrap();
    assert_eq!(fields.len(), 1);
    assert_eq!(fields[0].tag, 0x08);
    assert_eq!(fields[0].payload, vec![0x34, 0x12]);
    assert_eq!(decode(&Type::Unit, &[0x00]).unwrap().len(), 1);
    assert_eq!(
        decode(&Type::Unit, &[]).unwrap_err(),
        DecodeError::Underflow {
            required: 1,
            remaining: 0
        }
    );
    assert_eq!(
        decode(&Type::Unit, &[0x00, 0x00]).unwrap_err(),
        DecodeError::NotAllBytesUsed(1)
    );
    assert_eq!(
        decode(&Type::U16, &[0x08, 0x34]).unwrap_err(),
        DecodeError::Underflow {
            required: 2,
            remaining: 1
        }
    );
}

#[test]
fn unit_state_with_empty_table_is_private() {
    let c = Component::new(
        Address::package(1),
        "System".to_owned(),
        ComponentAuthorization { rules: vec![] },
        vec![0x00],
    );
    let (data, auth) = c.method_authorization(&Type::Unit, "withdraw").unwrap();
    assert_eq!(data.raw, vec![0x00]);
    assert!(matches!(auth, MethodAuthorization::Private));
    assert!(matches!(
        auth.check(&vec![], false),
        Err(RuntimeError::UnauthorizedAccess)
    ));
}

#[test]
fn absent_method_is_private() {
    let c = component();
    let (data, auth) = c.method_authorization(&schema(), "close").unwrap();
    assert_eq!(data.raw, state());
    assert!(matches!(auth, MethodAuthorization::Private));
    assert!(matches!(
        auth.check(&vec![admin_badge(), Address::resource_def(7)], false),
        Err(RuntimeError::UnauthorizedAccess)
    ));
    assert!(auth.check(&vec![], true).is_ok());
    assert_eq!(
        RuntimeError::UnauthorizedAccess.class(),
        ErrorClass::Authorization
    );
}

#[test]
fn public_method_is_open_and_first_rule_counts() {
    let c = component();
    let (_, auth) = c.method_authorization(&schema(), "deposit").unwrap();
    assert!(matches!(auth, MethodAuthorization::Public));
    assert!(auth.check(&vec![], false).is_ok());
}

#[test]
fn badge_rule_is_resolved_against_state() {
    let c = component();
    let (_, auth) = c.method_authorization(&schema(), "withdraw").unwrap();
    match &auth {
        MethodAuthorization::ProofOfBadge(required) => {
            assert_eq!(required, &vec![admin_badge(), Address::resource_def(7)])
        }
        other => panic!("unexpected: {:?}", other),
    }
    assert!(auth
        .check(&vec![Address::resource_def(7), admin_badge()], false)
        .is_ok());
    assert!(matches!(
        auth.check(&vec![admin_badge()], false),
        Err(RuntimeError::UnauthorizedAccess)
    ));
    assert!(matches!(
        auth.check(&vec![], false),
        Err(RuntimeError::UnauthorizedAccess)
    ));
    assert!(auth.check(&vec![], true).is_ok());
}

#[test]
fn rule_that_names_no_address_grants_nothing() {
    let c = component();
    let (_, auth) = c.method_authorization(&schema(), "broken").unwrap();
    assert!(matches!(auth, MethodAuthorization::Private));
}

#[test]
fn state_that_does_not_match_schema_is_invalid_data() {
    let mut c = component();
    c.set_state(vec![0x23, 3, 0x81]);
    match c.method_authorization(&schema(), "deposit") {
        Err(RuntimeError::InvalidData(e)) => assert_eq!(
            e,
            DecodeError::Underflow {
                required: 17,
                remaining: 0
            }
        ),
        other => panic!("unexpected: {:?}", other.map(|_| ())),
    }
    assert_eq!(
        RuntimeError::InvalidData(DecodeError::UnsupportedType).class(),
        ErrorClass::Data
    );
}

#[test]
fn component_accessors() {
    let mut c = component();
    assert_eq!(c.package_id(), Address::package(5));
    assert_eq!(c.blueprint_name(), "Account");
    assert_eq!(c.state(), &state()[..]);
    assert_eq!(c.authorization().rules.len(), 4);
    c.set_state(vec![1, 2, 3]);
    assert_eq!(c.state(), &[1u8, 2, 3][..]);
    assert_eq!(c.package_id(), Address::package(5));
    assert_eq!(c.blueprint_name(), "Account");
}

#[test]
fn error_classes() {
    assert_eq!(RuntimeError::FloatingPointNotAllowed.class(), ErrorClass::Module);
    assert_eq!(RuntimeError::NoReturnValue.class(), ErrorClass::Invocation);
    assert_eq!(RuntimeError::BucketNotFound.class(), ErrorClass::Existence);
    assert_eq!(
        RuntimeError::FixedResourceMintNotAllowed.class(),
        ErrorClass::Accounting
    );
    assert!(RuntimeError::InvalidOpCode(3).is_engine_failure());
    assert!(RuntimeError::VmNotStarted.is_engine_failure());
    assert!(!RuntimeError::BucketNotFound.is_engine_failure());
    assert!(
        RuntimeError::InvalidModule(wasmi::Error::Validation("bad".to_owned())).is_engine_failure()
    );
    assert_eq!(
        RuntimeError::InvokeError(wasmi::Error::Function("f".to_owned())).class(),
        ErrorClass::Invocation
    );
}
