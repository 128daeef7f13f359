use erc20_ledger::{Amount, Error, Event, GenesisConfig, Pallet};
use sp_core::U256;

fn from_u256(value: U256) -> Amount {
    Amount::from_words(value.0)
}

fn to_u256(value: Amount) -> U256 {
    U256(value.to_words())
}

fn ledger_with(supply: U256, account: u64, balance: U256) -> Pallet {
    GenesisConfig { total_supply: from_u256(supply), balances: vec![(account, from_u256(balance))] }
        .build()
}

#[test]
fn zero_is_the_zero_of_u256() {
    assert_eq!(Amount::zero().to_words(), [0, 0, 0, 0]);
    assert_eq!(to_u256(Amount::zero()), U256::zero());
    assert!(!Amount::zero().is_max());
}

#[test]
fn max_value_is_the_largest_u256() {
    assert_eq!(Amount::max_value().to_words(), [u64::MAX; 4]);
    assert_eq!(to_u256(Amount::max_value()), U256::max_value());
    assert!(Amount::max_value().is_max());
}

#[test]
fn is_max_holds_of_the_largest_amount_only() {
    assert!(!Amount::from_words([u64::MAX, u64::MAX, u64::MAX, u64::MAX - 1]).is_max());
    assert!(!Amount::from_words([u64::MAX - 1, u64::MAX, u64::MAX, u64::MAX]).is_max());
    assert!(!Amount::from_words([u64::MAX, 0, u64::MAX, u64::MAX]).is_max());
    assert!(!Amount::from(u64::MAX).is_max());
    assert!(from_u256(U256::max_value()).is_max());
}

#[test]
fn from_u64_fills_the_lowest_word() {
    assert_eq!(Amount::from(0u64), Amount::zero());
    assert_eq!(Amount::from(110u64).to_words(), [110, 0, 0, 0]);
    assert_eq!(to_u256(Amount::from(u64::MAX)), U256::from(u64::MAX));
}

#[test]
fn words_are_kept_in_order() {
    let words = [1, 2, 3, 4];
    assert_eq!(Amount::from_words(words).to_words(), words);
    let value = (U256::from(4u64) << 192) + (U256::from(3u64) << 128) + (U256::from(2u64) << 64)
        + U256::from(1u64);
    assert_eq!(to_u256(Amount::from_words(words)), value);
    assert_eq!(from_u256(value), Amount::from_words(words));
}

#[test]
fn equal_words_make_equal_amounts() {
    assert_eq!(Amount::from_words([7, 0, 0, 0]), Amount::from(7u64));
    assert_ne!(Amount::from_words([0, 7, 0, 0]), Amount::from(7u64));
}

#[test]
fn mint_carries_into_the_next_word() {
    let mut ledger = ledger_with(U256::from(u64::MAX), 1, U256::from(u64::MAX));
    assert_eq!(ledger.mint(1, Amount::from(1u64)), Ok(()));
    assert_eq!(ledger.balance_of(1).to_words(), [0, 1, 0, 0]);
    assert_eq!(ledger.total_supply().to_words(), [0, 1, 0, 0]);

    let low_three = (U256::from(1u64) << 192) - U256::from(1u64);
    let mut ledger = ledger_with(low_three, 1, low_three);
    assert_eq!(ledger.mint(1, Amount::from(1u64)), Ok(()));
    assert_eq!(ledger.balance_of(1).to_words(), [0, 0, 0, 1]);
}

#[test]
fn burn_borrows_from_the_next_word() {
    let start = U256::from(1u64) << 128;
    let mut ledger = ledger_with(start, 1, start);
    assert_eq!(ledger.burn(1, Amount::from(1u64)), Ok(()));
    assert_eq!(ledger.balance_of(1).to_words(), [u64::MAX, u64::MAX, 0, 0]);
    assert_eq!(to_u256(ledger.total_supply()), start - U256::from(1u64));
}

#[test]
fn transfer_adds_and_subtracts_as_u256_does() {
    let held = U256::from_dec_str("340282366920938463463374607431768211456123456789").unwrap();
    let moved = U256::from_dec_str("18446744073709551616000000017").unwrap();
    let mut ledger = GenesisConfig {
        total_supply: from_u256(held + held),
        balances: vec![(1, from_u256(held)), (2, from_u256(held))],
    }
    .build();
    assert_eq!(ledger.transfer(1, 2, from_u256(moved)), Ok(()));
    assert_eq!(to_u256(ledger.balance_of(1)), held - moved);
    assert_eq!(to_u256(ledger.balance_of(2)), held + moved);
    assert_eq!(
        *ledger.events(),
        vec![Event::Transfer { from: 1, to: 2, amount: from_u256(moved) }]
    );
}

#[test]
fn sums_up_to_the_largest_amount_fit() {
    let mut ledger = ledger_with(U256::zero(), 1, U256::zero());
    assert_eq!(ledger.mint(1, from_u256(U256::max_value() - U256::from(1u64))), Ok(()));
    assert_eq!(ledger.mint(1, Amount::from(1u64)), Ok(()));
    assert!(ledger.balance_of(1).is_max());
    assert!(ledger.total_supply().is_max());
    assert_eq!(ledger.mint(1, Amount::from(1u64)), Err(Error::Overflow));
    assert!(ledger.balance_of(1).is_max());
}

#[test]
fn an_account_can_be_emptied_and_no_further() {
    let mut ledger = ledger_with(U256::from(5u64), 1, U256::from(5u64));
    assert_eq!(ledger.transfer(1, 2, Amount::from(5u64)), Ok(()));
    assert_eq!(ledger.balance_of(1), Amount::zero());
    assert_eq!(ledger.transfer(1, 2, Amount::from(1u64)), Err(Error::InsufficientFunds));
    assert_eq!(ledger.balance_of(2), Amount::from(5u64));
}
