use crowdloans::bytes::{bytes_concat, bytes_copy, bytes_equal, bytes_precede};
use crowdloans::contributions::shift;
use crowdloans::rates::{discounted, power_of_ten, rescale, saturating_product};
use crowdloans::relay::notify_placeholder;
use crowdloans::storage_map::{Stored, StorageMap};
use crowdloans::types::{ArithmeticError, ArithmeticKind, BonusConfig, Response};

#[test]
fn byte_strings_are_ordered_as_in_a_dictionary() {
    assert!(bytes_precede(&[], &[0]));
    assert!(bytes_precede(&[1, 2], &[1, 3]));
    assert!(bytes_precede(&[1, 2], &[1, 2, 0]));
    assert!(bytes_precede(&[1, 255], &[2]));
    assert!(!bytes_precede(&[2], &[1, 255]));
    assert!(!bytes_precede(&[1, 2], &[1, 2]));
    assert!(bytes_equal(&[1, 2], &[1, 2]));
    assert!(!bytes_equal(&[1, 2], &[1]));
    assert!(!bytes_equal(&[1, 2], &[1, 3]));
    assert_eq!(bytes_copy(&[4, 5]), vec![4, 5]);
    assert_eq!(bytes_concat(&[1], &[2, 3]), vec![1, 2, 3]);
}

#[test]
fn a_map_keeps_one_value_for_each_key() {
    let mut map: StorageMap<u32, (u32, u32)> = StorageMap::new();
    assert_eq!(map.get(&1), None);
    map.insert(1, (1, 2));
    map.insert(2, (3, 4));
    map.insert(1, (5, 6));
    assert_eq!(map.len(), 2);
    assert_eq!(map.get(&1), Some((5, 6)));
    assert_eq!(map.get(&2), Some((3, 4)));
    assert!(map.contains_key(&2));
    let copy = map.duplicate();
    map.remove(&1);
    map.remove(&7);
    assert!(!map.contains_key(&1));
    assert_eq!(map.len(), 1);
    assert_eq!((*map.key_at(0), *map.value_at(0)), (2, (3, 4)));
    assert_eq!(copy.get(&1), Some((5, 6)));
}

#[test]
fn amounts_are_shifted_within_range() {
    let more = ArithmeticKind::Addition;
    let less = ArithmeticKind::Subtraction;
    assert_eq!(shift(5, 3, more), Ok(8));
    assert_eq!(shift(5, 3, less), Ok(2));
    assert_eq!(shift(5, 5, less), Ok(0));
    assert_eq!(shift(5, 6, less), Err(ArithmeticError::Underflow));
    assert_eq!(shift(u128::MAX, 0, more), Ok(u128::MAX));
    assert_eq!(shift(u128::MAX, 1, more), Err(ArithmeticError::Overflow));
}

#[test]
fn decimals_are_changed() {
    assert_eq!(power_of_ten(0), Some(1));
    assert_eq!(power_of_ten(3), Some(1_000));
    assert_eq!(power_of_ten(38), Some(100_000_000_000_000_000_000_000_000_000_000_000_000));
    assert_eq!(power_of_ten(39), None);
    assert_eq!(rescale(12, 3, 5), Some(1_200));
    assert_eq!(rescale(1_200, 5, 3), Some(12));
    assert_eq!(rescale(1_299, 5, 3), Some(12));
    assert_eq!(rescale(7, 4, 4), Some(7));
    assert_eq!(rescale(u128::MAX, 3, 4), None);
    assert_eq!(rescale(0, 0, 39), None);
    assert_eq!(rescale(5, 255, 0), None);
}

#[test]
fn products_saturate() {
    assert_eq!(saturating_product(6, 7), 42);
    assert_eq!(saturating_product(u128::MAX, 2), u128::MAX);
    assert_eq!(saturating_product(u128::MAX, 0), 0);
}

#[test]
fn a_derivative_is_worth_the_reciprocal() {
    let one = 1_000_000_000_000_000_000u128;
    assert_eq!(discounted(one), Some(one));
    assert_eq!(discounted(2 * one), Some(one / 2));
    assert_eq!(discounted(3 * one), Some(333_333_333_333_333_333));
    assert_eq!(discounted(1), Some(one * one));
    assert_eq!(discounted(u128::MAX), Some(0));
    assert_eq!(discounted(0), None);
}

#[test]
fn defaults_are_empty() {
    assert_eq!(
        BonusConfig::default(),
        BonusConfig { bonus_per_token: 0, start_time: 0, end_time: 0 }
    );
    assert_eq!(notify_placeholder().query_id, 0);
    assert_eq!(notify_placeholder().response, Response::Null);
}
