use erc20_ledger::{AccountId, Amount, Error, Event, GenesisConfig, Pallet};
use sp_core::U256;

fn amount(value: u64) -> Amount {
    Amount::from(value)
}

fn from_u256(value: U256) -> Amount {
    Amount::from_words(value.0)
}

fn new_test_ext() -> Pallet {
    GenesisConfig {
        total_supply: amount(200),
        balances: vec![(1, amount(110)), (2, amount(90)), (3, from_u256(U256::max_value()))],
    }
    .build()
}

fn transfer_event(from: AccountId, to: AccountId, value: Amount) -> Event {
    Event::Transfer { from, to, amount: value }
}

fn approval_event(owner: AccountId, spender: AccountId, value: Amount) -> Event {
    Event::Approval { owner, spender, amount: value }
}

#[test]
fn test_transfer() {
    let mut erc20 = new_test_ext();
    assert_eq!(erc20.balance_of(0), amount(0));
    assert_eq!(erc20.balance_of(1), amount(110));
    assert_eq!(erc20.balance_of(2), amount(90));

    assert_eq!(erc20.transfer(1, 0, amount(10)), Ok(()));
    assert_eq!(erc20.transfer(1, 2, amount(10)), Ok(()));

    assert_eq!(erc20.balance_of(0), amount(10));
    assert_eq!(erc20.balance_of(1), amount(90));
    assert_eq!(erc20.balance_of(2), amount(100));

    assert_eq!(
        *erc20.events(),
        vec![transfer_event(1, 0, amount(10)), transfer_event(1, 2, amount(10))]
    );
}

#[test]
fn test_self_transfer() {
    // a corner case: source and destination are one account
    let mut erc20 = new_test_ext();
    assert_eq!(erc20.balance_of(1), amount(110));

    assert_eq!(erc20.transfer(1, 1, amount(10)), Ok(()));

    assert_eq!(erc20.balance_of(1), amount(110));

    assert_eq!(*erc20.events(), vec![transfer_event(1, 1, amount(10))]);
}

#[test]
fn test_transfer_no_funds() {
    let mut erc20 = new_test_ext();
    assert_eq!(erc20.balance_of(1), amount(110));

    let before = erc20.clone();
    assert_eq!(erc20.transfer(1, 0, amount(120)), Err(Error::InsufficientFunds));
    assert_eq!(erc20, before);

    assert_eq!(*erc20.events(), vec![]);
}

#[test]
fn test_transfer_overflow() {
    let mut erc20 = new_test_ext();
    assert_eq!(erc20.balance_of(2), amount(90));
    assert_eq!(erc20.balance_of(3), from_u256(U256::max_value()));

    let before = erc20.clone();
    assert_eq!(
        erc20.transfer(3, 1, from_u256(U256::max_value() - U256::from(89))),
        Err(Error::Overflow)
    );
    assert_eq!(erc20, before);
}

#[test]
fn test_allowance() {
    let mut erc20 = new_test_ext();
    assert_eq!(erc20.balance_of(0), amount(0));
    assert_eq!(erc20.balance_of(1), amount(110));
    assert_eq!(erc20.balance_of(2), amount(90));

    assert_eq!(erc20.approve(1, 0, amount(20)), Ok(()));
    assert_eq!(erc20.transfer_from(0, 1, 0, amount(10)), Ok(()));
    assert_eq!(erc20.transfer_from(0, 1, 2, amount(10)), Ok(()));

    assert_eq!(erc20.balance_of(0), amount(10));
    assert_eq!(erc20.balance_of(1), amount(90));
    assert_eq!(erc20.balance_of(2), amount(100));

    assert_eq!(
        *erc20.events(),
        vec![
            approval_event(1, 0, amount(20)),
            transfer_event(1, 0, amount(10)),
            approval_event(1, 0, amount(10)),
            transfer_event(1, 2, amount(10)),
            approval_event(1, 0, amount(0)),
        ]
    );
}

#[test]
fn test_allowance_self_transfer() {
    // a corner case: source and destination are one account
    let mut erc20 = new_test_ext();
    assert_eq!(erc20.balance_of(1), amount(110));

    assert_eq!(erc20.approve(1, 1, amount(100)), Ok(()));
    assert_eq!(erc20.transfer_from(1, 1, 1, amount(10)), Ok(()));

    assert_eq!(erc20.balance_of(1), amount(110));

    assert_eq!(
        *erc20.events(),
        vec![
            approval_event(1, 1, amount(100)),
            transfer_event(1, 1, amount(10)),
            approval_event(1, 1, amount(90)),
        ]
    );
}

#[test]
fn test_transfer_no_allowance() {
    let mut erc20 = new_test_ext();
    assert_eq!(erc20.approve(1, 0, amount(20)), Ok(()));

    let before = erc20.clone();
    assert_eq!(erc20.transfer_from(0, 1, 0, amount(30)), Err(Error::InsufficientAllowance));
    assert_eq!(erc20, before);
    assert_eq!(erc20.transfer_from(0, 1, 2, amount(21)), Err(Error::InsufficientAllowance));
    assert_eq!(erc20, before);

    assert_eq!(*erc20.events(), vec![approval_event(1, 0, amount(20))]);
}

#[test]
fn test_allowance_no_funds() {
    let mut erc20 = new_test_ext();
    assert_eq!(erc20.balance_of(1), amount(110));

    assert_eq!(erc20.approve(1, 0, amount(120)), Ok(()));

    let before = erc20.clone();
    assert_eq!(erc20.transfer_from(0, 1, 0, amount(120)), Err(Error::InsufficientFunds));
    assert_eq!(erc20, before);
    assert_eq!(erc20.transfer_from(0, 1, 2, amount(111)), Err(Error::InsufficientFunds));
    assert_eq!(erc20, before);

    assert_eq!(*erc20.events(), vec![approval_event(1, 0, amount(120))]);
}

#[test]
fn test_allowance_overflow() {
    let mut erc20 = new_test_ext();
    assert_eq!(erc20.balance_of(2), amount(90));
    assert_eq!(erc20.balance_of(3), from_u256(U256::max_value()));

    assert_eq!(erc20.approve(3, 0, from_u256(U256::max_value())), Ok(()));

    let before = erc20.clone();
    assert_eq!(
        erc20.transfer_from(0, 3, 2, from_u256(U256::max_value())),
        Err(Error::Overflow)
    );
    assert_eq!(erc20, before);

    assert_eq!(*erc20.events(), vec![approval_event(3, 0, from_u256(U256::max_value()))]);
}

#[test]
fn test_unlimited_allowance() {
    let mut erc20 = new_test_ext();
    assert_eq!(erc20.balance_of(1), amount(110));

    assert_eq!(erc20.approve(1, 0, from_u256(U256::max_value())), Ok(()));
    assert_eq!(erc20.transfer_from(0, 1, 0, amount(1)), Ok(()));
    assert_eq!(erc20.transfer_from(0, 1, 0, amount(2)), Ok(()));

    assert_eq!(erc20.allowance(1, 0), from_u256(U256::max_value()));

    assert_eq!(
        *erc20.events(),
        vec![
            approval_event(1, 0, from_u256(U256::max_value())),
            // no approval follows a transfer: the allowance is unlimited
            transfer_event(1, 0, amount(1)),
            transfer_event(1, 0, amount(2)),
        ]
    );
}

#[test]
fn test_mint() {
    let mut erc20 = new_test_ext();
    assert_eq!(erc20.balance_of(1), amount(110));
    assert_eq!(erc20.total_supply(), amount(200));

    assert_eq!(erc20.mint(1, amount(100)), Ok(()));

    assert_eq!(erc20.balance_of(1), amount(210));
    assert_eq!(erc20.total_supply(), amount(300));

    assert_eq!(*erc20.events(), vec![Event::Mint { account: 1, amount: amount(100) }]);
}

#[test]
fn test_mint_overflow() {
    let mut erc20 = new_test_ext();
    assert_eq!(erc20.balance_of(1), amount(110));
    assert_eq!(erc20.total_supply(), amount(200));

    let before = erc20.clone();
    assert_eq!(erc20.mint(1, from_u256(U256::max_value())), Err(Error::Overflow));
    assert_eq!(erc20, before);
    assert_eq!(
        erc20.mint(1, from_u256(U256::max_value() - U256::from(110))),
        Err(Error::Overflow)
    );
    assert_eq!(erc20, before);
    assert_eq!(erc20.mint(1, from_u256(U256::max_value() - U256::from(200))), Ok(()));

    assert_eq!(erc20.balance_of(1), from_u256(U256::max_value() - U256::from(90)));
    assert_eq!(erc20.total_supply(), from_u256(U256::max_value()));

    assert_eq!(
        *erc20.events(),
        vec![Event::Mint { account: 1, amount: from_u256(U256::max_value() - U256::from(200)) }]
    );
}

#[test]
fn test_burn() {
    let mut erc20 = new_test_ext();
    assert_eq!(erc20.balance_of(1), amount(110));
    assert_eq!(erc20.total_supply(), amount(200));

    assert_eq!(erc20.burn(1, amount(100)), Ok(()));

    assert_eq!(erc20.balance_of(1), amount(10));
    assert_eq!(erc20.total_supply(), amount(100));

    assert_eq!(*erc20.events(), vec![Event::Burn { account: 1, amount: amount(100) }]);
}

#[test]
fn test_burn_no_balance() {
    let mut erc20 = new_test_ext();
    assert_eq!(erc20.balance_of(1), amount(110));
    assert_eq!(erc20.total_supply(), amount(200));

    let before = erc20.clone();
    assert_eq!(erc20.burn(1, amount(200)), Err(Error::BurnExceedsBalance));
    assert_eq!(erc20, before);

    assert_eq!(*erc20.events(), vec![]);
}

#[test]
fn test_burn_overflow() {
    let mut erc20 = new_test_ext();
    assert_eq!(erc20.balance_of(3), from_u256(U256::max_value()));
    assert_eq!(erc20.total_supply(), amount(200));

    let before = erc20.clone();
    assert_eq!(erc20.burn(3, amount(300)), Err(Error::Overflow));
    assert_eq!(erc20, before);

    assert_eq!(*erc20.events(), vec![]);
}
