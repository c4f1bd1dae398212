use radix_engine::bucket::{mint, mint_with_badge, Bucket, BucketRef};
use radix_engine::decimal::Decimal;
use radix_engine::error::{BucketError, ErrorClass, RuntimeError};
use radix_engine::frame::Frame;
use radix_engine::resource::{
    Authority, ResourceDef, ResourceType, BURNABLE, FREELY_BURNABLE, MAY_BURN, MAY_MINT, MINTABLE,
};
use radix_engine::types::{Address, BID, RID};

const UNIT: i128 = 1_000_000_000_000_000_000;

fn token() -> Address {
    Address::resource_def(10)
}

fn badge() -> Address {
    Address::resource_def(11)
}

fn other_token() -> Address {
    Address::resource_def(12)
}

fn define(frame: &mut Frame, address: Address, resource_type: ResourceType, flags: u16, supply: i128) {
    let authorities = vec![Authority {
        badge: badge(),
        permissions: MAY_MINT | MAY_BURN,
    }];
    let def = ResourceDef::new(resource_type, Vec::new(), flags, authorities, Decimal(supply)).unwrap();
    frame.define_resource(address, def).unwrap();
}

fn setup() -> Frame {
    let mut frame = Frame::new();
    define(
        &mut frame,
        token(),
        ResourceType::Fungible { divisibility: 18 },
        MINTABLE | BURNABLE,
        0,
    );
    define(
        &mut frame,
        badge(),
        ResourceType::Fungible { divisibility: 0 },
        MINTABLE | FREELY_BURNABLE,
        0,
    );
    define(
        &mut frame,
        other_token(),
        ResourceType::Fungible { divisibility: 0 },
        0,
        100 * UNIT,
    );
    frame
}

fn holding_of(resource: Address, resource_type: ResourceType, amount: i128) -> radix_engine::resource::Holding {
    radix_engine::resource::Holding {
        resource,
        resource_type,
        amount: Decimal(amount),
    }
}

fn badge_bucket(frame: &mut Frame) -> Bucket {
    Bucket::receive(
        frame,
        holding_of(badge(), ResourceType::Fungible { divisibility: 0 }, UNIT),
    )
}

#[test]
fn new_bucket_is_empty_and_of_its_resource() {
    let mut frame = setup();
    let bucket = Bucket::new(&mut frame, token()).unwrap();
    assert_eq!(bucket.bid(), BID(0));
    assert_eq!(bucket.amount(&frame).unwrap(), Decimal(0));
    assert_eq!(bucket.resource(&frame).unwrap(), token());
    assert!(bucket.is_empty(&frame).unwrap());
}

#[test]
fn new_bucket_of_undefined_resource_fails() {
    let mut frame = setup();
    let missing = Address::resource_def(99);
    match Bucket::new(&mut frame, missing) {
        Err(RuntimeError::ResourceNotFound(a)) => assert_eq!(a, missing),
        other => panic!("unexpected: {:?}", other),
    }
    assert!(frame.close().is_ok());
}

#[test]
fn define_resource_twice_fails() {
    let mut frame = setup();
    let def = ResourceDef::new(ResourceType::NonFungible, Vec::new(), 0, Vec::new(), Decimal(0)).unwrap();
    match frame.define_resource(token(), def) {
        Err(RuntimeError::ResourceAlreadyExists(a)) => assert_eq!(a, token()),
        other => panic!("unexpected: {:?}", other),
    }
}

#[test]
fn put_and_take_conserve_value() {
    let mut frame = setup();
    let fungible = ResourceType::Fungible { divisibility: 18 };
    let a = Bucket::receive(&mut frame, holding_of(token(), fungible, 10 * UNIT));
    let b = Bucket::receive(&mut frame, holding_of(token(), fungible, 5 * UNIT));
    let c = a.take(&mut frame, Decimal(3 * UNIT + 1)).unwrap();
    assert_eq!(c.bid(), BID(2));
    assert_eq!(a.amount(&frame).unwrap(), Decimal(7 * UNIT - 1));
    assert_eq!(c.amount(&frame).unwrap(), Decimal(3 * UNIT + 1));
    assert_eq!(c.resource(&frame).unwrap(), token());
    b.put(&mut frame, c).unwrap();
    assert_eq!(b.amount(&frame).unwrap(), Decimal(8 * UNIT + 1));
    let total = a.amount(&frame).unwrap().0 + b.amount(&frame).unwrap().0;
    assert_eq!(total, 15 * UNIT);
    assert!(matches!(
        Bucket::from(BID(2)).amount(&frame),
        Err(RuntimeError::BucketNotFound)
    ));
}

#[test]
fn put_of_another_resource_fails_and_changes_nothing() {
    let mut frame = setup();
    let a = Bucket::receive(
        &mut frame,
        holding_of(token(), ResourceType::Fungible { divisibility: 18 }, 10 * UNIT),
    );
    let b = Bucket::receive(
        &mut frame,
        holding_of(other_token(), ResourceType::Fungible { divisibility: 0 }, 5 * UNIT),
    );
    let b_id = b.bid();
    match a.put(&mut frame, b) {
        Err(RuntimeError::AccountingError(e)) => assert_eq!(e, BucketError::ResourceNotMatching),
        other => panic!("unexpected: {:?}", other),
    }
    assert_eq!(a.amount(&frame).unwrap(), Decimal(10 * UNIT));
    assert_eq!(Bucket::from(b_id).amount(&frame).unwrap(), Decimal(5 * UNIT));
}

#[test]
fn put_into_itself_or_a_missing_bucket_fails() {
    let mut frame = setup();
    let a = Bucket::receive(
        &mut frame,
        holding_of(token(), ResourceType::Fungible { divisibility: 18 }, 10 * UNIT),
    );
    assert!(matches!(
        a.put(&mut frame, Bucket::from(a.bid())),
        Err(RuntimeError::BucketNotFound)
    ));
    assert!(matches!(
        a.put(&mut frame, Bucket::from(BID(77))),
        Err(RuntimeError::BucketNotFound)
    ));
    assert!(matches!(
        Bucket::from(BID(77)).put(&mut frame, Bucket::from(a.bid())),
        Err(RuntimeError::BucketNotFound)
    ));
    assert_eq!(a.amount(&frame).unwrap(), Decimal(10 * UNIT));
}

#[test]
fn put_that_overflows_fails() {
    let mut frame = setup();
    let fungible = ResourceType::Fungible { divisibility: 18 };
    let a = Bucket::receive(&mut frame, holding_of(token(), fungible, i128::MAX));
    let b = Bucket::receive(&mut frame, holding_of(token(), fungible, 1));
    match a.put(&mut frame, b) {
        Err(RuntimeError::AccountingError(e)) => assert_eq!(e, BucketError::BalanceOverflow),
        other => panic!("unexpected: {:?}", other),
    }
}

#[test]
fn take_more_than_held_fails() {
    let mut frame = setup();
    let a = Bucket::receive(
        &mut frame,
        holding_of(token(), ResourceType::Fungible { divisibility: 18 }, 10 * UNIT),
    );
    match a.take(&mut frame, Decimal(10 * UNIT + 1)) {
        Err(RuntimeError::AccountingError(e)) => assert_eq!(e, BucketError::InsufficientBalance),
        other => panic!("unexpected: {:?}", other),
    }
    assert_eq!(a.amount(&frame).unwrap(), Decimal(10 * UNIT));
    let all = a.take(&mut frame, Decimal(10 * UNIT)).unwrap();
    assert!(a.is_empty(&frame).unwrap());
    assert_eq!(all.amount(&frame).unwrap(), Decimal(10 * UNIT));
}

#[test]
fn take_of_a_fraction_of_an_indivisible_resource_fails() {
    let mut frame = setup();
    let a = Bucket::receive(
        &mut frame,
        holding_of(other_token(), ResourceType::Fungible { divisibility: 0 }, 10 * UNIT),
    );
    let one_and_a_half = Decimal(UNIT + UNIT / 2);
    match a.take(&mut frame, one_and_a_half) {
        Err(RuntimeError::AccountingError(e)) => {
            assert_eq!(e, BucketError::InvalidAmount(one_and_a_half))
        }
        other => panic!("unexpected: {:?}", other),
    }
    assert_eq!(a.amount(&frame).unwrap(), Decimal(10 * UNIT));
    let nft = Bucket::receive(&mut frame, holding_of(badge(), ResourceType::NonFungible, 3 * UNIT));
    assert!(matches!(
        nft.take(&mut frame, one_and_a_half),
        Err(RuntimeError::AccountingError(BucketError::InvalidAmount(_)))
    ));
    let one = nft.take(&mut frame, Decimal(UNIT)).unwrap();
    assert_eq!(one.amount(&frame).unwrap(), Decimal(UNIT));
    assert_eq!(nft.amount(&frame).unwrap(), Decimal(2 * UNIT));
}

#[test]
fn take_of_a_negative_amount_fails() {
    let mut frame = setup();
    let a = Bucket::receive(
        &mut frame,
        holding_of(token(), ResourceType::Fungible { divisibility: 18 }, 10 * UNIT),
    );
    assert!(matches!(
        a.take(&mut frame, Decimal(-1)),
        Err(RuntimeError::AccountingError(BucketError::InvalidAmount(Decimal(-1))))
    ));
}

#[test]
fn take_respects_divisibility_two() {
    let mut frame = Frame::new();
    define(&mut frame, token(), ResourceType::Fungible { divisibility: 2 }, 0, 0);
    let a = Bucket::receive(
        &mut frame,
        holding_of(token(), ResourceType::Fungible { divisibility: 2 }, 10 * UNIT),
    );
    assert!(a.take(&mut frame, Decimal(UNIT / 100)).is_ok());
    assert!(matches!(
        a.take(&mut frame, Decimal(UNIT / 1000)),
        Err(RuntimeError::AccountingError(BucketError::InvalidAmount(_)))
    ));
}

#[test]
fn live_bucket_is_reported_as_leak() {
    let mut frame = setup();
    let a = Bucket::new(&mut frame, token()).unwrap();
    let b = Bucket::new(&mut frame, token()).unwrap();
    let r = b.borrow(&mut frame).unwrap();
    match frame.close() {
        Err(RuntimeError::ResourceLeak(bids, rids)) => {
            assert_eq!(bids, vec![a.bid(), b.bid()]);
            assert_eq!(rids, vec![r.rid()]);
        }
        other => panic!("unexpected: {:?}", other),
    }
    assert_eq!(
        RuntimeError::ResourceLeak(vec![], vec![]).class(),
        ErrorClass::Leak
    );
}

#[test]
fn disposed_buckets_do_not_leak() {
    let mut frame = setup();
    let a = Bucket::new(&mut frame, badge()).unwrap();
    let b = Bucket::new(&mut frame, badge()).unwrap();
    let c = Bucket::new(&mut frame, badge()).unwrap();
    a.put(&mut frame, b).unwrap();
    let held = a.release(&mut frame).unwrap();
    assert_eq!(held.amount, Decimal(0));
    assert_eq!(held.resource, badge());
    c.burn(&mut frame, None).unwrap();
    assert!(frame.close().is_ok());
}

#[test]
fn reference_shows_what_the_bucket_holds() {
    let mut frame = setup();
    let a = badge_bucket(&mut frame);
    let r = a.borrow(&mut frame).unwrap();
    let seen = r.inspect(&frame).unwrap();
    assert_eq!(seen.resource, badge());
    assert_eq!(seen.amount, Decimal(UNIT));
    assert_eq!(a.amount(&frame).unwrap(), Decimal(UNIT));
    a.release(&mut frame).unwrap();
    assert!(matches!(r.inspect(&frame), Err(RuntimeError::BucketNotFound)));
    assert!(matches!(
        BucketRef::from(RID(4)).inspect(&frame),
        Err(RuntimeError::ReferenceNotFound)
    ));
}

#[test]
fn reference_must_be_dropped() {
    let mut frame = setup();
    let a = Bucket::new(&mut frame, token()).unwrap();
    let r = a.borrow(&mut frame).unwrap();
    assert_eq!(r.rid(), RID(0));
    let rid = r.rid();
    r.drop(&mut frame).unwrap();
    assert!(matches!(
        BucketRef::from(rid).drop(&mut frame),
        Err(RuntimeError::ReferenceNotFound)
    ));
    assert!(matches!(
        Bucket::from(BID(9)).borrow(&mut frame),
        Err(RuntimeError::BucketNotFound)
    ));
    a.release(&mut frame).unwrap();
    assert!(frame.close().is_ok());
}

#[test]
fn mint_with_badge_adds_exactly_the_amount() {
    let mut frame = setup();
    let holder = badge_bucket(&mut frame);
    let auth = Some(holder.borrow(&mut frame).unwrap());
    let minted = mint(&mut frame, token(), Decimal(7 * UNIT), auth).unwrap();
    assert_eq!(minted.amount(&frame).unwrap(), Decimal(7 * UNIT));
    assert_eq!(minted.resource(&frame).unwrap(), token());
    let k = frame.find_resource(token()).unwrap();
    assert_eq!(frame.resource_at(k).total_supply, Decimal(7 * UNIT));
    let auth = Some(holder.borrow(&mut frame).unwrap());
    let again = mint(&mut frame, token(), Decimal(UNIT), auth).unwrap();
    assert_eq!(frame.resource_at(k).total_supply, Decimal(8 * UNIT));
    assert_eq!(again.amount(&frame).unwrap(), Decimal(UNIT));
    assert_eq!(holder.amount(&frame).unwrap(), Decimal(UNIT));
}

#[test]
fn presentation_ends_with_the_call() {
    let mut frame = setup();
    let holder = badge_bucket(&mut frame);
    let reference = holder.borrow(&mut frame).unwrap();
    let rid = reference.rid();
    let minted = mint(&mut frame, token(), Decimal(UNIT), Some(reference)).unwrap();
    assert!(matches!(
        BucketRef::from(rid).inspect(&frame),
        Err(RuntimeError::ReferenceNotFound)
    ));
    assert!(matches!(
        mint(&mut frame, token(), Decimal(UNIT), Some(BucketRef::from(rid))),
        Err(RuntimeError::ReferenceNotFound)
    ));
    let reference = holder.borrow(&mut frame).unwrap();
    let rid = reference.rid();
    assert!(matches!(
        mint(&mut frame, other_token(), Decimal(UNIT), Some(reference)),
        Err(RuntimeError::FixedResourceMintNotAllowed)
    ));
    assert!(matches!(
        BucketRef::from(rid).drop(&mut frame),
        Err(RuntimeError::ReferenceNotFound)
    ));
    let reference = holder.borrow(&mut frame).unwrap();
    minted.burn(&mut frame, Some(reference)).unwrap();
    assert_eq!(holder.amount(&frame).unwrap(), Decimal(UNIT));
    holder.release(&mut frame).unwrap();
    assert!(frame.close().is_ok());
}

#[test]
fn mint_without_badge_fails_and_changes_no_supply() {
    let mut frame = setup();
    assert!(matches!(
        mint(&mut frame, token(), Decimal(UNIT), None),
        Err(RuntimeError::UnauthorizedToMint)
    ));
    let wrong = Bucket::receive(
        &mut frame,
        holding_of(other_token(), ResourceType::Fungible { divisibility: 0 }, UNIT),
    );
    let auth = Some(wrong.borrow(&mut frame).unwrap());
    assert!(matches!(
        mint(&mut frame, token(), Decimal(UNIT), auth),
        Err(RuntimeError::UnauthorizedToMint)
    ));
    let empty = Bucket::new(&mut frame, badge()).unwrap();
    let empty_auth = Some(empty.borrow(&mut frame).unwrap());
    assert!(matches!(
        mint(&mut frame, token(), Decimal(UNIT), empty_auth),
        Err(RuntimeError::UnauthorizedToMint)
    ));
    let k = frame.find_resource(token()).unwrap();
    assert_eq!(frame.resource_at(k).total_supply, Decimal(0));
    assert_eq!(RuntimeError::UnauthorizedToMint.class(), ErrorClass::Accounting);
}

#[test]
fn mint_of_fixed_supply_fails() {
    let mut frame = setup();
    let holder = badge_bucket(&mut frame);
    let auth = Some(holder.borrow(&mut frame).unwrap());
    assert!(matches!(
        mint(&mut frame, other_token(), Decimal(UNIT), auth),
        Err(RuntimeError::FixedResourceMintNotAllowed)
    ));
    let k = frame.find_resource(other_token()).unwrap();
    assert_eq!(frame.resource_at(k).total_supply, Decimal(100 * UNIT));
    let auth = Some(holder.borrow(&mut frame).unwrap());
    assert!(matches!(
        mint(&mut frame, Address::resource_def(99), Decimal(UNIT), auth),
        Err(RuntimeError::ResourceNotFound(_))
    ));
    assert!(matches!(
        mint(&mut frame, token(), Decimal(UNIT), Some(BucketRef::from(RID(55)))),
        Err(RuntimeError::ReferenceNotFound)
    ));
}

#[test]
fn burn_needs_badge_unless_freely_burnable() {
    let mut frame = setup();
    let holder = badge_bucket(&mut frame);
    let auth = Some(holder.borrow(&mut frame).unwrap());
    let minted = mint(&mut frame, token(), Decimal(7 * UNIT), auth).unwrap();
    let part = minted.take(&mut frame, Decimal(2 * UNIT)).unwrap();
    let part_id = part.bid();
    assert!(matches!(
        part.burn(&mut frame, None),
        Err(RuntimeError::UnauthorizedToBurn)
    ));
    let k = frame.find_resource(token()).unwrap();
    assert_eq!(frame.resource_at(k).total_supply, Decimal(7 * UNIT));
    let auth = Some(holder.borrow(&mut frame).unwrap());
    Bucket::from(part_id).burn(&mut frame, auth).unwrap();
    assert_eq!(frame.resource_at(k).total_supply, Decimal(5 * UNIT));
    assert!(matches!(
        Bucket::from(part_id).amount(&frame),
        Err(RuntimeError::BucketNotFound)
    ));
    let fixed = Bucket::receive(
        &mut frame,
        holding_of(other_token(), ResourceType::Fungible { divisibility: 0 }, UNIT),
    );
    let auth = Some(holder.borrow(&mut frame).unwrap());
    assert!(matches!(
        fixed.burn(&mut frame, auth),
        Err(RuntimeError::UnauthorizedToBurn)
    ));
}

#[test]
fn burn_of_more_than_the_supply_fails() {
    let mut frame = setup();
    let stray = Bucket::receive(
        &mut frame,
        holding_of(badge(), ResourceType::Fungible { divisibility: 0 }, UNIT),
    );
    assert!(matches!(
        stray.burn(&mut frame, None),
        Err(RuntimeError::AccountingError(BucketError::InsufficientBalance))
    ));
}

#[test]
fn mint_of_an_amount_the_resource_cannot_hold_fails() {
    let mut frame = Frame::new();
    define(
        &mut frame,
        token(),
        ResourceType::Fungible { divisibility: 0 },
        MINTABLE,
        i128::MAX - (i128::MAX % UNIT),
    );
    define(&mut frame, badge(), ResourceType::NonFungible, 0, UNIT);
    let holder = badge_bucket(&mut frame);
    let auth = Some(holder.borrow(&mut frame).unwrap());
    assert!(matches!(
        mint(&mut frame, token(), Decimal(UNIT / 2), auth),
        Err(RuntimeError::AccountingError(BucketError::InvalidAmount(_)))
    ));
    let auth = Some(holder.borrow(&mut frame).unwrap());
    assert!(matches!(
        mint(&mut frame, token(), Decimal(UNIT), auth),
        Err(RuntimeError::AccountingError(BucketError::BalanceOverflow))
    ));
    let k = frame.find_resource(token()).unwrap();
    assert_eq!(
        frame.resource_at(k).total_supply,
        Decimal(i128::MAX - (i128::MAX % UNIT))
    );
    assert!(frame.has_free_bucket_handle());
    assert!(frame.has_free_reference_handle());
}

#[test]
fn badge_lent_for_one_call_leaves_no_reference() {
    let mut frame = setup();
    let holder = badge_bucket(&mut frame);
    let minted = mint_with_badge(&holder, &mut frame, token(), Decimal(4 * UNIT)).unwrap();
    assert_eq!(minted.amount(&frame).unwrap(), Decimal(4 * UNIT));
    let k = frame.find_resource(token()).unwrap();
    assert_eq!(frame.resource_at(k).total_supply, Decimal(4 * UNIT));
    assert_eq!(holder.amount(&frame).unwrap(), Decimal(UNIT));
    assert!(matches!(
        mint_with_badge(&holder, &mut frame, other_token(), Decimal(UNIT)),
        Err(RuntimeError::FixedResourceMintNotAllowed)
    ));
    assert!(matches!(
        mint_with_badge(&Bucket::from(BID(70)), &mut frame, token(), Decimal(UNIT)),
        Err(RuntimeError::BucketNotFound)
    ));
    match frame.close() {
        Err(RuntimeError::ResourceLeak(bids, rids)) => {
            assert_eq!(bids, vec![holder.bid(), minted.bid()]);
            assert!(rids.is_empty());
        }
        other => panic!("unexpected: {:?}", other),
    }
    minted.burn_with_badge(&holder, &mut frame).unwrap();
    assert_eq!(frame.resource_at(k).total_supply, Decimal(0));
    holder.release(&mut frame).unwrap();
    assert!(frame.close().is_ok());
}

#[test]
fn put_undoes_take() {
    let mut frame = setup();
    let a = Bucket::receive(
        &mut frame,
        holding_of(token(), ResourceType::Fungible { divisibility: 18 }, 10 * UNIT),
    );
    let t = a.take(&mut frame, Decimal(0)).unwrap();
    assert_ne!(t.bid(), a.bid());
    let t_id = t.bid();
    match frame.close() {
        Err(RuntimeError::ResourceLeak(bids, _)) => assert!(bids.contains(&t_id)),
        other => panic!("unexpected: {:?}", other),
    }
    a.put(&mut frame, t).unwrap();
    let t = a.take(&mut frame, Decimal(3 * UNIT)).unwrap();
    a.put(&mut frame, t).unwrap();
    assert_eq!(a.amount(&frame).unwrap(), Decimal(10 * UNIT));
    assert_eq!(a.resource(&frame).unwrap(), token());
}
