use radix_engine::decimal::Decimal;
use radix_engine::error::{BucketError, DecodeError, RuntimeError};
use radix_engine::frame::Frame;
use radix_engine::kernel::{
    call, needs_bucket_handle, needs_reference_handle, schema_of, BURN_RESOURCE, BURN_RESOURCE_WITH_AUTH, CREATE_EMPTY_BUCKET, CREATE_REFERENCE,
    DROP_REFERENCE, GET_BUCKET_AMOUNT, GET_BUCKET_RESOURCE, MINT_RESOURCE, PUT_INTO_BUCKET,
    TAKE_FROM_BUCKET,
};
use radix_engine::resource::{
    Authority, ResourceDef, ResourceType, BURNABLE, FREELY_BURNABLE, MAY_BURN, MAY_MINT, MINTABLE,
};
use radix_engine::types::Address;

const UNIT: u128 = 1_000_000_000_000_000_000;

fn token() -> Address {
    Address::resource_def(0x0a)
}

fn badge() -> Address {
    Address::resource_def(0x0b)
}

fn setup() -> Frame {
    let mut frame = Frame::new();
    let authorities = vec![Authority {
        badge: badge(),
        permissions: MAY_MINT | MAY_BURN,
    }];
    let def = ResourceDef::new(
        ResourceType::Fungible { divisibility: 0 },
        Vec::new(),
        MINTABLE | BURNABLE,
        authorities,
        Decimal(0),
    )
    .unwrap();
    frame.define_resource(token(), def).unwrap();
    let badge_def = ResourceDef::new(
        ResourceType::Fungible { divisibility: 0 },
        Vec::new(),
        FREELY_BURNABLE,
        Vec::new(),
        Decimal(UNIT as i128),
    )
    .unwrap();
    frame.define_resource(badge(), badge_def).unwrap();
    frame
}

fn address_bytes(kind: u8, id: u128) -> Vec<u8> {
    let mut v = vec![0x81, kind];
    v.extend_from_slice(&id.to_le_bytes());
    v
}

fn bid_bytes(id: u32) -> Vec<u8> {
    let mut v = vec![0x83];
    v.extend_from_slice(&id.to_le_bytes());
    v
}

fn rid_bytes(id: u32) -> Vec<u8> {
    let mut v = vec![0x84];
    v.extend_from_slice(&id.to_le_bytes());
    v
}

fn amount_bytes(a: u128) -> Vec<u8> {
    let mut v = vec![0x0b];
    v.extend_from_slice(&a.to_le_bytes());
    v
}

fn tuple(fields: &[Vec<u8>]) -> Vec<u8> {
    let mut v = vec![0x23, fields.len() as u8];
    for f in fields {
        v.extend_from_slice(f);
    }
    v
}

#[test]
fn unknown_call_number_is_invalid() {
    let mut frame = setup();
    assert!(matches!(
        call(&mut frame, 0x99, &[0x23, 0]),
        Err(RuntimeError::InvalidOpCode(0x99))
    ));
    assert!(schema_of(0x99).is_none());
    assert!(RuntimeError::InvalidOpCode(0x99).is_engine_failure());
}

#[test]
fn malformed_input_is_an_invalid_request() {
    let mut frame = setup();
    match call(&mut frame, CREATE_EMPTY_BUCKET, &[0x23, 1, 0x81, 2, 0]) {
        Err(RuntimeError::InvalidRequest(e)) => assert_eq!(
            e,
            DecodeError::Underflow {
                required: 17,
                remaining: 2
            }
        ),
        other => panic!("unexpected: {:?}", other),
    }
    let mut long = tuple(&[address_bytes(2, 0x0a)]);
    long.push(7);
    match call(&mut frame, CREATE_EMPTY_BUCKET, &long) {
        Err(RuntimeError::InvalidRequest(e)) => assert_eq!(e, DecodeError::NotAllBytesUsed(1)),
        other => panic!("unexpected: {:?}", other),
    }
    match call(&mut frame, PUT_INTO_BUCKET, &tuple(&[bid_bytes(0)])) {
        Err(RuntimeError::InvalidRequest(e)) => assert_eq!(
            e,
            DecodeError::InvalidLength {
                declared: 2,
                found: 1
            }
        ),
        other => panic!("unexpected: {:?}", other),
    }
    match call(
        &mut frame,
        TAKE_FROM_BUCKET,
        &tuple(&[bid_bytes(0), amount_bytes(u128::MAX)]),
    ) {
        Err(RuntimeError::InvalidRequest(e)) => assert_eq!(e, DecodeError::InvalidValue(0xff)),
        other => panic!("unexpected: {:?}", other),
    }
    assert!(frame.close().is_ok());
}

#[test]
fn calls_move_value_between_buckets() {
    let mut frame = setup();
    let badge_bucket = radix_engine::bucket::Bucket::receive(
        &mut frame,
        radix_engine::resource::Holding {
            resource: badge(),
            resource_type: ResourceType::Fungible { divisibility: 0 },
            amount: Decimal(UNIT as i128),
        },
    );
    assert_eq!(badge_bucket.bid().0, 0);
    let out = call(&mut frame, CREATE_REFERENCE, &tuple(&[bid_bytes(0)])).unwrap();
    assert_eq!(out, tuple(&[rid_bytes(0)]));
    let out = call(
        &mut frame,
        MINT_RESOURCE,
        &tuple(&[address_bytes(2, 0x0a), amount_bytes(5 * UNIT), rid_bytes(0)]),
    )
    .unwrap();
    assert_eq!(out, tuple(&[bid_bytes(1)]));
    assert!(matches!(
        call(&mut frame, DROP_REFERENCE, &tuple(&[rid_bytes(0)])),
        Err(RuntimeError::ReferenceNotFound)
    ));
    let out = call(
        &mut frame,
        TAKE_FROM_BUCKET,
        &tuple(&[bid_bytes(1), amount_bytes(2 * UNIT)]),
    )
    .unwrap();
    assert_eq!(out, tuple(&[bid_bytes(2)]));
    let out = call(&mut frame, GET_BUCKET_AMOUNT, &tuple(&[bid_bytes(1)])).unwrap();
    assert_eq!(out, tuple(&[amount_bytes(3 * UNIT)]));
    let out = call(&mut frame, GET_BUCKET_RESOURCE, &tuple(&[bid_bytes(2)])).unwrap();
    assert_eq!(out, tuple(&[address_bytes(2, 0x0a)]));
    let out = call(&mut frame, CREATE_EMPTY_BUCKET, &tuple(&[address_bytes(2, 0x0a)])).unwrap();
    assert_eq!(out, tuple(&[bid_bytes(3)]));
    let out = call(
        &mut frame,
        PUT_INTO_BUCKET,
        &tuple(&[bid_bytes(3), bid_bytes(1)]),
    )
    .unwrap();
    assert_eq!(out, vec![0x23, 0]);
    let out = call(&mut frame, GET_BUCKET_AMOUNT, &tuple(&[bid_bytes(3)])).unwrap();
    assert_eq!(out, tuple(&[amount_bytes(3 * UNIT)]));
    assert!(matches!(
        call(&mut frame, GET_BUCKET_AMOUNT, &tuple(&[bid_bytes(1)])),
        Err(RuntimeError::BucketNotFound)
    ));
    assert!(matches!(
        call(
            &mut frame,
            TAKE_FROM_BUCKET,
            &tuple(&[bid_bytes(3), amount_bytes(UNIT + UNIT / 2)])
        ),
        Err(RuntimeError::AccountingError(BucketError::InvalidAmount(_)))
    ));
    assert!(matches!(
        call(&mut frame, BURN_RESOURCE, &tuple(&[bid_bytes(3)])),
        Err(RuntimeError::UnauthorizedToBurn)
    ));
    let out = call(&mut frame, CREATE_REFERENCE, &tuple(&[bid_bytes(0)])).unwrap();
    assert_eq!(out, tuple(&[rid_bytes(1)]));
    call(
        &mut frame,
        BURN_RESOURCE_WITH_AUTH,
        &tuple(&[bid_bytes(3), rid_bytes(1)]),
    )
    .unwrap();
    assert!(matches!(
        call(
            &mut frame,
            BURN_RESOURCE_WITH_AUTH,
            &tuple(&[bid_bytes(2), rid_bytes(1)])
        ),
        Err(RuntimeError::ReferenceNotFound)
    ));
    let out = call(&mut frame, CREATE_REFERENCE, &tuple(&[bid_bytes(0)])).unwrap();
    assert_eq!(out, tuple(&[rid_bytes(2)]));
    call(
        &mut frame,
        BURN_RESOURCE_WITH_AUTH,
        &tuple(&[bid_bytes(2), rid_bytes(2)]),
    )
    .unwrap();
    let k = frame.find_resource(token()).unwrap();
    assert_eq!(frame.resource_at(k).total_supply, Decimal(0));
    let out = call(&mut frame, CREATE_REFERENCE, &tuple(&[bid_bytes(0)])).unwrap();
    assert_eq!(out, tuple(&[rid_bytes(3)]));
    assert_eq!(
        call(&mut frame, DROP_REFERENCE, &tuple(&[rid_bytes(3)])).unwrap(),
        vec![0x23, 0]
    );
    assert!(matches!(
        call(&mut frame, DROP_REFERENCE, &tuple(&[rid_bytes(3)])),
        Err(RuntimeError::ReferenceNotFound)
    ));
    call(&mut frame, BURN_RESOURCE, &tuple(&[bid_bytes(0)])).unwrap();
    assert!(frame.close().is_ok());
}

#[test]
fn failed_mint_ends_the_presentation_too() {
    let mut frame = setup();
    radix_engine::bucket::Bucket::receive(
        &mut frame,
        radix_engine::resource::Holding {
            resource: badge(),
            resource_type: ResourceType::Fungible { divisibility: 0 },
            amount: Decimal(UNIT as i128),
        },
    );
    call(&mut frame, CREATE_REFERENCE, &tuple(&[bid_bytes(0)])).unwrap();
    assert!(matches!(
        call(
            &mut frame,
            MINT_RESOURCE,
            &tuple(&[address_bytes(2, 0x0b), amount_bytes(UNIT), rid_bytes(0)])
        ),
        Err(RuntimeError::FixedResourceMintNotAllowed)
    ));
    assert!(matches!(
        call(&mut frame, DROP_REFERENCE, &tuple(&[rid_bytes(0)])),
        Err(RuntimeError::ReferenceNotFound)
    ));
    assert!(needs_bucket_handle(MINT_RESOURCE));
    assert!(!needs_bucket_handle(PUT_INTO_BUCKET));
    assert!(needs_reference_handle(CREATE_REFERENCE));
    assert!(!needs_reference_handle(MINT_RESOURCE));
}

#[test]
fn create_bucket_of_undefined_resource_fails() {
    let mut frame = setup();
    match call(
        &mut frame,
        CREATE_EMPTY_BUCKET,
        &tuple(&[address_bytes(2, 0x77)]),
    ) {
        Err(RuntimeError::ResourceNotFound(a)) => assert_eq!(a, Address::resource_def(0x77)),
        other => panic!("unexpected: {:?}", other),
    }
    match call(
        &mut frame,
        CREATE_EMPTY_BUCKET,
        &tuple(&[address_bytes(1, 0x0a)]),
    ) {
        Err(RuntimeError::ResourceNotFound(a)) => assert_eq!(a, Address::component(0x0a)),
        other => panic!("unexpected: {:?}", other),
    }
}
