use erc20::genesis::GenesisConfig;
use erc20::ledger::{Error, Event, Pallet};

/// A ledger built from genesis: total supply 1_000_000_000 credited to
/// account 1, one pre-set allowance, initialization flag already raised.
fn new_init_ledger() -> Pallet {
    let config = GenesisConfig {
        name: "Sample Token".into(),
        symbol: "TOKEN".into(),
        total_supply: 1_000_000_000,
        init: true,
        balances: vec![(1, 1_000_000_000)],
        allowances: vec![(1, 2, 500000)],
    };
    assert!(config.is_valid());
    config.build_storage()
}

#[test]
fn init_works() {
    let mut ledger = Pallet::new();
    let test_str = Vec::<u8>::from("Test");
    assert!(ledger
        .init(1, 1_000_000_000, test_str.clone(), test_str.clone())
        .is_ok());
    assert_eq!(ledger.get_balance(1), 1_000_000_000 as u128);
}

#[test]
fn transfer_works() {
    let mut ledger = new_init_ledger();
    let pred = ledger.get_balance(1);
    assert!(ledger.transfer(1, 3, 1000 as u128).is_ok());
    assert_eq!(ledger.get_balance(3), 1000 as u128);
    let succ = ledger.get_balance(1);
    assert_eq!(succ, pred - (1000 as u128));
}

#[test]
fn approve_works() {
    let mut ledger = new_init_ledger();
    assert!(ledger.approve(1, 3, 1000 as u128).is_ok());
    assert_eq!(ledger.get_allowance(1, 3), 1000 as u128);
    assert!(ledger.transferFrom(3, 1, 4, 1000).is_ok());
    assert_eq!(ledger.get_balance(4), 1000 as u128);
    assert_eq!(ledger.get_allowance(1, 3), 0 as u128);
}

#[test]
fn init_fixes_metadata_and_supply() {
    let mut ledger = Pallet::new();
    assert!(!ledger.is_init());
    assert!(ledger
        .init(7, 42, Vec::from("Name"), Vec::from("SYM"))
        .is_ok());
    assert!(ledger.is_init());
    assert_eq!(ledger.total_supply(), 42);
    assert_eq!(ledger.name().as_slice(), b"Name");
    assert_eq!(ledger.symbol().as_slice(), b"SYM");
    assert_eq!(ledger.events().as_slice(), &[Event::Initialized(7)]);
}

#[test]
fn init_twice_fails_and_changes_nothing() {
    let mut ledger = Pallet::new();
    assert!(ledger.init(1, 500, Vec::from("A"), Vec::from("A")).is_ok());
    let r = ledger.init(2, 900, Vec::from("B"), Vec::from("B"));
    assert_eq!(r, Err(Error::AlreadyInitialized));
    assert_eq!(ledger.get_balance(1), 500);
    assert_eq!(ledger.get_balance(2), 0);
    assert_eq!(ledger.total_supply(), 500);
    assert_eq!(ledger.name().as_slice(), b"A");
    assert_eq!(ledger.events().len(), 1);
}

#[test]
fn mutating_operations_before_init_fail() {
    let mut ledger = Pallet::new();
    assert_eq!(ledger.transfer(1, 2, 1), Err(Error::NotInitialized));
    assert_eq!(ledger.approve(1, 2, 1), Err(Error::NotInitialized));
    assert_eq!(ledger.transferFrom(2, 1, 3, 1), Err(Error::NotInitialized));
    assert_eq!(ledger.increaseAllowance(1, 2, 1), Err(Error::NotInitialized));
    assert_eq!(ledger.decreaseAllowance(1, 2, 1), Err(Error::NotInitialized));
    assert_eq!(ledger.get_balance(1), 0);
    assert_eq!(ledger.get_allowance(1, 2), 0);
    assert!(ledger.events().is_empty());
}

#[test]
fn transfer_with_insufficient_funds_fails_cleanly() {
    let mut ledger = new_init_ledger();
    let r = ledger.transfer(3, 1, 1);
    assert_eq!(r, Err(Error::InsufficientFunds));
    assert_eq!(ledger.get_balance(1), 1_000_000_000);
    assert_eq!(ledger.get_balance(3), 0);
}

#[test]
fn transfer_conserves_the_sum() {
    let mut ledger = new_init_ledger();
    assert!(ledger.transfer(1, 3, 1000).is_ok());
    assert_eq!(ledger.get_balance(3), 1000);
    assert_eq!(ledger.get_balance(1), 999_999_000);
    assert_eq!(
        ledger.get_balance(1) + ledger.get_balance(3),
        ledger.total_supply()
    );
    assert_eq!(
        ledger.events().last(),
        Some(&Event::Transfer(1, 3, 1000))
    );
}

#[test]
fn transfer_to_self_changes_nothing() {
    let mut ledger = new_init_ledger();
    assert!(ledger.transfer(1, 1, 1000).is_ok());
    assert_eq!(ledger.get_balance(1), 1_000_000_000);
}

#[test]
fn approve_overwrites_prior_allowance() {
    let mut ledger = new_init_ledger();
    assert!(ledger.approve(1, 3, 700).is_ok());
    assert_eq!(ledger.get_allowance(1, 3), 700);
    assert!(ledger.approve(1, 3, 20).is_ok());
    assert_eq!(ledger.get_allowance(1, 3), 20);
    assert_eq!(ledger.events().last(), Some(&Event::Approval(1, 3, 20)));
}

#[test]
fn genesis_allowance_is_spendable() {
    let mut ledger = new_init_ledger();
    assert_eq!(ledger.get_allowance(1, 2), 500000);
    assert!(ledger.transferFrom(2, 1, 6, 200000).is_ok());
    assert_eq!(ledger.get_allowance(1, 2), 300000);
    assert_eq!(ledger.get_balance(6), 200000);
}

#[test]
fn transfer_from_with_insufficient_allowance_fails_cleanly() {
    let mut ledger = new_init_ledger();
    assert!(ledger.approve(1, 3, 10).is_ok());
    let r = ledger.transferFrom(3, 1, 4, 11);
    assert_eq!(r, Err(Error::InsufficientAllowance));
    assert_eq!(ledger.get_allowance(1, 3), 10);
    assert_eq!(ledger.get_balance(1), 1_000_000_000);
    assert_eq!(ledger.get_balance(4), 0);
}

#[test]
fn transfer_from_spends_allowance_even_when_funds_are_short() {
    // The allowance is decremented before the balances are read; a transfer
    // that then fails for insufficient funds leaves the reduced allowance
    // in place.
    let mut ledger = new_init_ledger();
    assert!(ledger.transfer(1, 9, 5).is_ok());
    assert!(ledger.approve(9, 3, 100).is_ok());
    let r = ledger.transferFrom(3, 9, 4, 50);
    assert_eq!(r, Err(Error::InsufficientFunds));
    assert_eq!(ledger.get_allowance(9, 3), 50);
    assert_eq!(ledger.get_balance(9), 5);
    assert_eq!(ledger.get_balance(4), 0);
}

#[test]
fn increase_and_decrease_allowance_overwrite() {
    let mut ledger = new_init_ledger();
    assert!(ledger.approve(1, 3, 500).is_ok());
    assert!(ledger.increaseAllowance(1, 3, 80).is_ok());
    assert_eq!(ledger.get_allowance(1, 3), 80);
    assert!(ledger.decreaseAllowance(1, 3, 300).is_ok());
    assert_eq!(ledger.get_allowance(1, 3), 300);
}

#[test]
fn checked_arithmetic_guards() {
    assert_eq!(erc20::arith::checked_add(2, 3), Some(5));
    assert_eq!(erc20::arith::checked_add(u128::MAX, 1), None);
    assert_eq!(erc20::arith::checked_add(u128::MAX, 0), Some(u128::MAX));
    assert_eq!(erc20::arith::checked_sub(5, 3), Some(2));
    assert_eq!(erc20::arith::checked_sub(3, 5), None);
    assert_eq!(erc20::arith::checked_sub(3, 3), Some(0));
}

#[test]
fn genesis_rejects_duplicate_account() {
    let config = GenesisConfig {
        balances: vec![(1, 10), (2, 5), (1, 3)],
        allowances: vec![],
        name: Vec::new(),
        symbol: Vec::new(),
        total_supply: 100,
        init: true,
    };
    assert!(!config.is_valid());
}

#[test]
fn genesis_rejects_duplicate_allowance_pair() {
    let config = GenesisConfig {
        balances: vec![(1, 10)],
        allowances: vec![(1, 2, 5), (1, 3, 5), (1, 2, 9)],
        name: Vec::new(),
        symbol: Vec::new(),
        total_supply: 100,
        init: true,
    };
    assert!(!config.is_valid());
}

#[test]
fn genesis_rejects_balances_exceeding_supply() {
    let config = GenesisConfig {
        balances: vec![(1, 60), (2, 50)],
        allowances: vec![],
        name: Vec::new(),
        symbol: Vec::new(),
        total_supply: 100,
        init: true,
    };
    assert!(!config.is_valid());
}

#[test]
fn genesis_rejects_overflowing_balance_sum() {
    let config = GenesisConfig {
        balances: vec![(1, u128::MAX), (2, u128::MAX)],
        allowances: vec![],
        name: Vec::new(),
        symbol: Vec::new(),
        total_supply: u128::MAX,
        init: true,
    };
    assert!(!config.is_valid());
}

#[test]
fn genesis_rejects_overlong_metadata() {
    let config = GenesisConfig {
        balances: vec![],
        allowances: vec![],
        name: Vec::from("this token name is far too long to store"),
        symbol: Vec::new(),
        total_supply: 0,
        init: false,
    };
    assert!(!config.is_valid());
}

#[test]
fn genesis_default_builds_an_empty_ledger() {
    let config = GenesisConfig::default();
    assert!(config.is_valid());
    let ledger = config.build_storage();
    assert!(!ledger.is_init());
    assert_eq!(ledger.total_supply(), 0);
    assert_eq!(ledger.get_balance(1), 0);
    assert!(ledger.events().is_empty());
}

#[test]
fn assimilate_storage_fills_a_fresh_ledger() {
    let config = GenesisConfig {
        balances: vec![(4, 25), (5, 75)],
        allowances: vec![(4, 5, 10)],
        name: Vec::from("N"),
        symbol: Vec::from("S"),
        total_supply: 100,
        init: true,
    };
    assert!(config.is_valid());
    let mut ledger = Pallet::new();
    config.assimilate_storage(&mut ledger);
    assert_eq!(ledger.get_balance(4), 25);
    assert_eq!(ledger.get_balance(5), 75);
    assert_eq!(ledger.get_allowance(4, 5), 10);
    assert!(ledger.is_init());
}

#[test]
fn store_primitives_overwrite_without_validation() {
    let mut ledger = Pallet::new();
    ledger.set_balance(8, 33);
    assert_eq!(ledger.get_balance(8), 33);
    ledger.set_balance(8, 0);
    assert_eq!(ledger.get_balance(8), 0);
    ledger.set_allowance(8, 9, 44);
    assert_eq!(ledger.get_allowance(8, 9), 44);
    assert_eq!(ledger.get_allowance(9, 8), 0);
}

#[test]
fn delegated_transfer_emits_approval_then_transfer() {
    let mut ledger = new_init_ledger();
    assert!(ledger.approve(1, 3, 1000).is_ok());
    let before = ledger.events().len();
    assert!(ledger.transferFrom(3, 1, 4, 400).is_ok());
    let events = ledger.events();
    assert_eq!(events.len(), before + 2);
    assert_eq!(events[before], Event::Approval(1, 3, 600));
    assert_eq!(events[before + 1], Event::Transfer(1, 4, 400));
}
