use tarot::account::{same_account, AccountId};
use tarot::entropy::{draw_value, Entropy};
use tarot::gate::{require_fee, require_owner, Error};
use tarot::history::{copy_history, push_draw, Draw, READING_LEN};
use tarot::store::Readings;

fn entropy(timestamp: u64) -> Entropy {
    Entropy {
        timestamp,
        block_number: 42,
        balance: 1_000_000,
        gas_left: 500_000,
        code_hash: [7u8; 32],
    }
}

#[test]
fn draw_value_is_the_blake2_digest_of_the_encoded_tuple() {
    assert_eq!(
        draw_value(&entropy(1_700_000_000_000), &[0u8; 16]),
        [54, 130, 254, 131, 180, 153, 0, 1, 142, 160, 81, 174, 7, 192, 205, 77]
    );
}

#[test]
fn draw_value_of_an_all_zero_snapshot() {
    let zero = Entropy { timestamp: 0, block_number: 0, balance: 0, gas_left: 0, code_hash: [0u8; 32] };
    assert_eq!(
        draw_value(&zero, &[0u8; 16]),
        [174, 79, 161, 124, 167, 111, 185, 46, 100, 107, 119, 221, 92, 180, 151, 23]
    );
}

#[test]
fn draw_value_of_the_largest_snapshot() {
    let mut code_hash = [0u8; 32];
    for (i, byte) in code_hash.iter_mut().enumerate() {
        *byte = i as u8;
    }
    let mut seed = [0u8; 16];
    for (i, byte) in seed.iter_mut().enumerate() {
        *byte = i as u8;
    }
    let top = Entropy {
        timestamp: u64::MAX,
        block_number: u32::MAX,
        balance: u128::MAX,
        gas_left: u64::MAX,
        code_hash,
    };
    assert_eq!(
        draw_value(&top, &seed),
        [126, 73, 194, 178, 235, 173, 87, 142, 227, 104, 22, 13, 105, 9, 216, 250]
    );
}

#[test]
fn draw_value_is_not_the_seed() {
    let seed = [5u8; 16];
    assert_ne!(draw_value(&entropy(1), &seed), seed);
}

#[test]
fn draw_value_follows_the_timestamp() {
    assert_eq!(
        draw_value(&entropy(1_700_000_000_001), &[0u8; 16]),
        [129, 139, 231, 242, 172, 185, 92, 251, 213, 97, 136, 60, 51, 156, 228, 244]
    );
}

#[test]
fn draw_value_follows_every_field() {
    let base = entropy(1_700_000_000_000);
    let seed = [0u8; 16];
    let value = draw_value(&base, &seed);
    assert_ne!(draw_value(&Entropy { block_number: 43, ..base }, &seed), value);
    assert_ne!(draw_value(&Entropy { balance: 1_000_001, ..base }, &seed), value);
    assert_ne!(draw_value(&Entropy { gas_left: 499_999, ..base }, &seed), value);
    assert_ne!(draw_value(&Entropy { code_hash: [8u8; 32], ..base }, &seed), value);
    assert_eq!(draw_value(&Entropy { ..base }, &seed), value);
}

#[test]
fn require_fee_passes_at_and_above_the_fee() {
    assert_eq!(require_fee(100, 100), Ok(()));
    assert_eq!(require_fee(101, 100), Ok(()));
    assert_eq!(require_fee(0, 0), Ok(()));
    assert_eq!(require_fee(u128::MAX, u128::MAX), Ok(()));
}

#[test]
fn require_fee_refuses_below_the_fee() {
    assert_eq!(require_fee(99, 100), Err(Error::InsufficientFee));
    assert_eq!(require_fee(0, 1), Err(Error::InsufficientFee));
    assert_eq!(require_fee(u128::MAX - 1, u128::MAX), Err(Error::InsufficientFee));
}

#[test]
fn require_owner_passes_for_the_owner_only() {
    let owner: AccountId = [4u8; 32];
    let mut near = owner;
    near[31] = 5;
    assert_eq!(require_owner(&owner, &owner), Ok(()));
    assert_eq!(require_owner(&[4u8; 32], &owner), Ok(()));
    assert_eq!(require_owner(&near, &owner), Err(Error::MustBeOwner));
    assert_eq!(require_owner(&[0u8; 32], &owner), Err(Error::MustBeOwner));
}

#[test]
fn same_account_compares_all_bytes() {
    let a: AccountId = [9u8; 32];
    let mut first = a;
    first[0] = 0;
    let mut last = a;
    last[31] = 0;
    assert!(same_account(&a, &a));
    assert!(same_account(&a, &[9u8; 32]));
    assert!(!same_account(&a, &first));
    assert!(!same_account(&a, &last));
}

#[test]
fn push_draw_appends_until_three() {
    let a = [1u8; 16];
    let b = [2u8; 16];
    let c = [3u8; 16];
    assert_eq!(push_draw(Vec::new(), a), vec![a]);
    assert_eq!(push_draw(vec![a], b), vec![a, b]);
    assert_eq!(push_draw(vec![a, b], c), vec![a, b, c]);
}

#[test]
fn push_draw_starts_over_when_full() {
    let a = [1u8; 16];
    let d = [4u8; 16];
    assert_eq!(READING_LEN, 3);
    assert_eq!(push_draw(vec![a, a, a], d), vec![d]);
    assert_eq!(push_draw(vec![a, a, a, a, a], d), vec![d]);
}

#[test]
fn copy_history_copies() {
    let history: Vec<Draw> = vec![[1u8; 16], [2u8; 16]];
    assert_eq!(copy_history(&history), history);
    assert_eq!(copy_history(&Vec::new()), Vec::<Draw>::new());
}

#[test]
fn readings_hold_what_they_are_given() {
    let alice: AccountId = [1u8; 32];
    let bob: AccountId = [2u8; 32];
    let a = [1u8; 16];
    let b = [2u8; 16];
    let mut readings = Readings::new();
    assert_eq!(readings.get(&alice), None);
    readings.insert(alice, vec![a]);
    assert_eq!(readings.get(&alice), Some(vec![a]));
    assert_eq!(readings.get(&bob), None);
    readings.insert(bob, vec![b, a]);
    readings.insert(alice, vec![a, b, a, b]);
    assert_eq!(readings.get(&alice), Some(vec![a, b, a, b]));
    assert_eq!(readings.get(&bob), Some(vec![b, a]));
    readings.insert(bob, Vec::new());
    assert_eq!(readings.get(&bob), Some(Vec::new()));
}
