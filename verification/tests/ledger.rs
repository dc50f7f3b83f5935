use ledger_core::ledger::{BalancesPallet, Error, Event};

#[test]
fn test_deposit() {
    let mut pallet = BalancesPallet::new();
    pallet.deposit(1, 1000).unwrap();
    assert_eq!(pallet.balance_of(1), 1000);
    assert_eq!(pallet.total_issuance(), 1000);
}

#[test]
fn test_withdraw() {
    let mut pallet = BalancesPallet::new();
    pallet.deposit(1, 1000).unwrap();
    pallet.withdraw(1, 500).unwrap();
    assert_eq!(pallet.balance_of(1), 500);
    assert_eq!(pallet.total_issuance(), 500);
}

#[test]
fn test_withdraw_insufficient() {
    let mut pallet = BalancesPallet::new();
    pallet.deposit(1, 100).unwrap();
    assert_eq!(pallet.withdraw(1, 200), Err(Error::InsufficientBalance));
}

#[test]
fn test_transfer() {
    let mut pallet = BalancesPallet::new();
    pallet.deposit(1, 1000).unwrap();
    pallet.transfer(1, 2, 300).unwrap();
    assert_eq!(pallet.balance_of(1), 700);
    assert_eq!(pallet.balance_of(2), 300);
}

#[test]
fn test_events() {
    let mut pallet = BalancesPallet::new();
    pallet.deposit(1, 100).unwrap();
    pallet.transfer(1, 2, 50).unwrap();

    let events = pallet.events();
    assert_eq!(events.len(), 2);
    assert_eq!(events[0], Event::Deposit { who: 1, amount: 100 });
    assert_eq!(events[1], Event::Transfer { from: 1, to: 2, amount: 50 });
}

#[test]
fn test_block_number() {
    let mut pallet = BalancesPallet::new();
    assert_eq!(pallet.block_number(), 0);
    pallet.next_block();
    assert_eq!(pallet.block_number(), 1);
}

#[test]
fn fresh_ledger_is_empty() {
    let pallet = BalancesPallet::new();
    assert_eq!(pallet.balance_of(7), 0);
    assert_eq!(pallet.total_issuance(), 0);
    assert_eq!(pallet.block_number(), 0);
    assert!(pallet.events().is_empty());
}

#[test]
fn conservation_across_operations() {
    let mut pallet = BalancesPallet::new();
    pallet.deposit(1, 400).unwrap();
    pallet.deposit(2, 600).unwrap();
    pallet.transfer(1, 3, 150).unwrap();
    pallet.withdraw(2, 100).unwrap();
    let sum = pallet.balance_of(1) + pallet.balance_of(2) + pallet.balance_of(3);
    assert_eq!(pallet.total_issuance(), sum);
    assert_eq!(pallet.total_issuance(), 900);
}

#[test]
fn failed_operation_changes_nothing() {
    let mut pallet = BalancesPallet::new();
    pallet.deposit(1, 100).unwrap();
    pallet.next_block();
    let events_before = pallet.events();

    assert_eq!(pallet.withdraw(1, 200), Err(Error::InsufficientBalance));
    assert_eq!(pallet.withdraw(42, 1), Err(Error::AccountNotFound));
    assert_eq!(pallet.transfer(1, 2, 200), Err(Error::InsufficientBalance));

    assert_eq!(pallet.balance_of(1), 100);
    assert_eq!(pallet.balance_of(2), 0);
    assert_eq!(pallet.total_issuance(), 100);
    assert_eq!(pallet.block_number(), 1);
    assert_eq!(pallet.events(), events_before);
}

#[test]
fn events_in_operation_order_only_on_success() {
    let mut pallet = BalancesPallet::new();
    pallet.deposit(1, 100).unwrap();
    let _ = pallet.withdraw(1, 500);
    pallet.withdraw(1, 30).unwrap();
    pallet.next_block();
    let _ = pallet.balance_of(1);
    let _ = pallet.total_issuance();
    pallet.transfer(1, 2, 20).unwrap();

    let events = pallet.events();
    assert_eq!(
        events,
        vec![
            Event::Deposit { who: 1, amount: 100 },
            Event::Withdraw { who: 1, amount: 30 },
            Event::NewBlock { number: 1 },
            Event::Transfer { from: 1, to: 2, amount: 20 },
        ]
    );
}

#[test]
fn events_snapshot_does_not_clear_the_log() {
    let mut pallet = BalancesPallet::new();
    pallet.deposit(1, 5).unwrap();
    assert_eq!(pallet.events().len(), 1);
    assert_eq!(pallet.events().len(), 1);
}

#[test]
fn block_counter_counts_calls() {
    let mut pallet = BalancesPallet::new();
    for _ in 0..5 {
        pallet.next_block();
    }
    assert_eq!(pallet.block_number(), 5);
    let events = pallet.events();
    assert_eq!(events.len(), 5);
    for (i, event) in events.iter().enumerate() {
        assert_eq!(*event, Event::NewBlock { number: i as u32 + 1 });
    }
}

#[test]
fn withdraw_never_funded_account() {
    let mut pallet = BalancesPallet::new();
    assert_eq!(pallet.withdraw(99, 10), Err(Error::AccountNotFound));
    assert_eq!(pallet.balance_of(99), 0);
}

#[test]
fn transfer_from_never_funded_account() {
    let mut pallet = BalancesPallet::new();
    assert_eq!(pallet.transfer(99, 1, 10), Err(Error::AccountNotFound));
}

#[test]
fn deposit_overflow_is_rejected() {
    let mut pallet = BalancesPallet::new();
    pallet.deposit(1, u128::MAX).unwrap();
    assert_eq!(pallet.deposit(1, 1), Err(Error::Overflow));
    assert_eq!(pallet.deposit(2, 1), Err(Error::Overflow));
    assert_eq!(pallet.balance_of(1), u128::MAX);
    assert_eq!(pallet.balance_of(2), 0);
    assert_eq!(pallet.total_issuance(), u128::MAX);
    assert_eq!(pallet.events().len(), 1);
}

#[test]
fn self_transfer_nets_to_zero() {
    let mut pallet = BalancesPallet::new();
    pallet.deposit(1, 100).unwrap();
    pallet.transfer(1, 1, 40).unwrap();
    assert_eq!(pallet.balance_of(1), 100);
    assert_eq!(pallet.total_issuance(), 100);
    assert_eq!(pallet.events().len(), 2);
    assert_eq!(pallet.events()[1], Event::Transfer { from: 1, to: 1, amount: 40 });
}

#[test]
fn self_transfer_overflow_is_rejected() {
    let mut pallet = BalancesPallet::new();
    pallet.deposit(1, u128::MAX).unwrap();
    assert_eq!(pallet.transfer(1, 1, u128::MAX), Err(Error::Overflow));
    assert_eq!(pallet.balance_of(1), u128::MAX);
    assert_eq!(pallet.total_issuance(), u128::MAX);
    assert_eq!(pallet.events().len(), 1);
}

#[test]
fn withdraw_down_to_zero_keeps_the_account() {
    let mut pallet = BalancesPallet::new();
    pallet.deposit(1, 100).unwrap();
    pallet.withdraw(1, 100).unwrap();
    assert_eq!(pallet.balance_of(1), 0);
    assert_eq!(pallet.total_issuance(), 0);
    pallet.withdraw(1, 0).unwrap();
    assert_eq!(pallet.withdraw(2, 0), Err(Error::AccountNotFound));
}

#[test]
fn transfer_to_existing_account_accumulates() {
    let mut pallet = BalancesPallet::new();
    pallet.deposit(1, 500).unwrap();
    pallet.deposit(2, 50).unwrap();
    pallet.transfer(1, 2, 200).unwrap();
    assert_eq!(pallet.balance_of(1), 300);
    assert_eq!(pallet.balance_of(2), 250);
    assert_eq!(pallet.total_issuance(), 550);
}

#[test]
fn default_matches_new() {
    let pallet = BalancesPallet::default();
    assert_eq!(pallet.total_issuance(), 0);
    assert_eq!(pallet.block_number(), 0);
    assert!(pallet.events().is_empty());
}
