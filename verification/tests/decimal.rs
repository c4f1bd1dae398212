use radix_engine::decimal::{power_of_ten, Decimal, ONE};
use radix_engine::error::BucketError;
use radix_engine::resource::{
    badges_are_distinct, keys_are_distinct, Authority, Holding, ResourceDef, ResourceType, Vault,
};
use radix_engine::types::Address;

#[test]
fn powers_of_ten() {
    assert_eq!(power_of_ten(0), 1);
    assert_eq!(power_of_ten(3), 1000);
    assert_eq!(power_of_ten(18), ONE);
}

#[test]
fn decimal_from_integer_scales() {
    assert_eq!(Decimal::from_integer(0), Decimal(0));
    assert_eq!(Decimal::from_integer(24), Decimal(24 * ONE));
    assert_eq!(
        Decimal::from_integer(u64::MAX),
        Decimal(18_446_744_073_709_551_615i128 * ONE)
    );
    assert!(Decimal::zero().is_zero());
    assert!(Decimal(-1).is_negative());
    assert!(!Decimal(0).is_negative());
}

#[test]
fn decimal_checked_arithmetic() {
    assert_eq!(Decimal(5).checked_add(Decimal(7)), Some(Decimal(12)));
    assert_eq!(Decimal(i128::MAX).checked_add(Decimal(1)), None);
    assert_eq!(Decimal(5).checked_sub(Decimal(7)), Some(Decimal(-2)));
    assert_eq!(Decimal(i128::MIN).checked_sub(Decimal(1)), None);
}

#[test]
fn decimal_steps() {
    assert!(Decimal(ONE).is_multiple_of_step(0));
    assert!(!Decimal(ONE + ONE / 2).is_multiple_of_step(0));
    assert!(Decimal(ONE + ONE / 2).is_multiple_of_step(1));
    assert!(Decimal(1).is_multiple_of_step(18));
    assert!(!Decimal(1).is_multiple_of_step(17));
    assert!(!Decimal(-ONE).is_multiple_of_step(0));
    assert!(Decimal(0).is_multiple_of_step(0));
}

#[test]
fn resource_type_divisibility() {
    assert_eq!(ResourceType::Fungible { divisibility: 7 }.divisibility(), 7);
    assert_eq!(ResourceType::NonFungible.divisibility(), 0);
    assert!(ResourceType::Fungible { divisibility: 18 }.is_valid());
    assert!(!ResourceType::Fungible { divisibility: 19 }.is_valid());
}

#[test]
fn resource_def_rejects_fractional_supply() {
    let r = ResourceDef::new(
        ResourceType::NonFungible,
        Vec::new(),
        0,
        Vec::new(),
        Decimal(ONE / 2),
    );
    assert_eq!(r.unwrap_err(), BucketError::InvalidAmount(Decimal(ONE / 2)));
}

#[test]
fn vault_put_and_take() {
    let token = Address::resource_def(1);
    let ty = ResourceType::Fungible { divisibility: 18 };
    let mut vault = Vault::new(Holding::empty(token, ty));
    vault
        .put(Holding {
            resource: token,
            resource_type: ty,
            amount: Decimal(9),
        })
        .unwrap();
    let taken = vault.take(Decimal(4)).unwrap();
    assert_eq!(taken.amount, Decimal(4));
    assert_eq!(taken.resource, token);
    assert_eq!(vault.holding.amount, Decimal(5));
    assert_eq!(vault.take(Decimal(6)), Err(BucketError::InsufficientBalance));
    assert_eq!(
        vault.put(Holding {
            resource: Address::resource_def(2),
            resource_type: ty,
            amount: Decimal(1),
        }),
        Err(BucketError::ResourceNotMatching)
    );
    assert_eq!(vault.holding.amount, Decimal(5));
}

#[test]
fn metadata_and_authorities_are_mappings() {
    let one = ("a".to_owned(), "1".to_owned());
    let two = ("b".to_owned(), "1".to_owned());
    let again = ("a".to_owned(), "2".to_owned());
    assert!(keys_are_distinct(&vec![]));
    assert!(keys_are_distinct(&vec![one.clone(), two.clone()]));
    assert!(!keys_are_distinct(&vec![one, two, again]));
    let x = Authority {
        badge: Address::resource_def(1),
        permissions: 1,
    };
    let y = Authority {
        badge: Address::resource_def(2),
        permissions: 1,
    };
    let z = Authority {
        badge: Address::resource_def(1),
        permissions: 2,
    };
    assert!(badges_are_distinct(&vec![x, y]));
    assert!(!badges_are_distinct(&vec![x, y, z]));
}
