use xaver::{
    AccountId, AssetsCall, ContractError, Error, RuntimeCall, RuntimeError, Stake, Success, Xaver,
    XaverEvent, XaverTransactionStatus,
};

fn account(b: u8) -> AccountId {
    AccountId([b; 32])
}

fn ok(caller: AccountId, s: Success) -> XaverEvent {
    XaverEvent { operator: caller, status: XaverTransactionStatus::EmitSuccess(s) }
}

fn err(caller: AccountId, e: Error) -> XaverEvent {
    XaverEvent { operator: caller, status: XaverTransactionStatus::EmitError(e) }
}

/// A ledger owned and operated by `account(1)`, with room for `max` stakes
/// and a share of `share`.
fn ledger(max: u16, share: u16) -> Xaver {
    let owner = account(1);
    let mut x = Xaver::new(owner, 7, 8, max);
    assert_eq!(x.setup(owner, 7, 8, owner, 10, share, max), ok(owner, Success::XaverSetupSuccess));
    x
}

#[test]
fn lib_default_works() {
    let x = Xaver::default(account(9));
    assert_eq!(x.get(), (0, 0, account(9), account(9), 0, 0, 0, 0));
    assert!(x.stakes.is_empty());
}

#[test]
fn new_makes_caller_owner_and_operator() {
    let x = Xaver::new(account(3), 11, 12, 5);
    assert_eq!(x.get(), (11, 12, account(3), account(3), 0, 0, 5, 0));
    assert_eq!(x.get_staker(account(3)), None);
}

#[test]
fn account_equality_compares_all_bytes() {
    let mut bytes = [4u8; 32];
    assert_eq!(AccountId(bytes), AccountId::from([4u8; 32]));
    bytes[31] = 5;
    assert_ne!(AccountId(bytes), account(4));
}

#[test]
fn setup_by_owner_reconfigures_and_clears_stakes() {
    let owner = account(1);
    let mut x = ledger(3, 10);
    assert_eq!(x.stake(owner, account(2), vec![1], 0).0, ok(owner, Success::StakingSuccess));
    x.close(owner);
    let e = x.setup(owner, 20, 21, account(5), 30, 40, 50);
    assert_eq!(e, ok(owner, Success::XaverSetupSuccess));
    assert_eq!(x.get(), (20, 21, owner, account(5), 30, 40, 50, 0));
    assert_eq!(x.get_staker(account(2)), None);
}

#[test]
fn setup_by_other_is_bad_origin() {
    let mut x = ledger(3, 10);
    let before = x.get();
    let e = x.setup(account(2), 20, 21, account(2), 30, 40, 50);
    assert_eq!(e, err(account(2), Error::BadOrigin));
    assert_eq!(x.get(), before);
}

#[test]
fn close_and_open_by_operator() {
    let owner = account(1);
    let mut x = ledger(3, 10);
    assert_eq!(x.close(owner), ok(owner, Success::XaverCloseSuccess));
    assert_eq!(x.get().7, 1);
    assert_eq!(x.open(owner), ok(owner, Success::XaverOpenSuccess));
    assert_eq!(x.get().7, 0);
}

#[test]
fn close_and_open_by_other_are_bad_origin() {
    let mut x = ledger(3, 10);
    assert_eq!(x.close(account(2)), err(account(2), Error::BadOrigin));
    assert_eq!(x.get().7, 0);
    x.close(account(1));
    assert_eq!(x.open(account(2)), err(account(2), Error::BadOrigin));
    assert_eq!(x.get().7, 1);
}

#[test]
fn stake_then_get_staker() {
    let owner = account(1);
    let mut x = ledger(3, 10);
    assert_eq!(x.stake(owner, account(2), vec![0xab, 0xcd], 100).0, ok(owner, Success::StakingSuccess));
    let expected = Stake {
        account: account(2),
        tx_hash: vec![0xab, 0xcd],
        accumulated_income: 0,
        cessation_block: 5_256_100,
        status: 1,
    };
    assert_eq!(x.get_staker(account(2)), Some(expected));
    assert_eq!(x.get_staker(account(3)), None);
}

#[test]
fn stake_errors() {
    let owner = account(1);
    let mut x = ledger(1, 10);
    assert_eq!(x.stake(account(2), account(2), vec![], 0).0, err(account(2), Error::BadOrigin));
    assert_eq!(x.stake(owner, account(2), vec![], 0).0, ok(owner, Success::StakingSuccess));
    assert_eq!(x.stake(owner, account(2), vec![], 0).0, err(owner, Error::XaverStakeAlreadyExist));
    assert_eq!(x.stake(owner, account(3), vec![], 0).0, err(owner, Error::XaverStakingMaxOut));
    x.close(owner);
    assert_eq!(x.stake(owner, account(3), vec![], 0).0, err(owner, Error::XaverIsClose));
    assert_eq!(x.stakes.len(), 1);
}

#[test]
fn default_ledger_has_no_room() {
    let owner = account(1);
    let mut x = Xaver::default(owner);
    assert_eq!(x.stake(owner, account(2), vec![], 0), (err(owner, Error::XaverStakingMaxOut), None));
}

#[test]
fn stake_sends_receipt_token_on_success_only() {
    let owner = account(1);
    let mut x = ledger(1, 10);
    assert_eq!(
        x.stake(owner, account(2), vec![1], 0),
        (
            ok(owner, Success::StakingSuccess),
            Some(RuntimeCall::Assets(AssetsCall::Transfer { id: 7, target: account(2), amount: 1 })),
        )
    );
    assert_eq!(x.stake(owner, account(2), vec![1], 0).1, None);
    assert_eq!(x.stake(owner, account(3), vec![1], 0).1, None);
    assert_eq!(x.stake(account(3), account(3), vec![1], 0).1, None);
}

#[test]
fn income_on_ledger_without_liquid_stakes_credits_nothing() {
    let owner = account(1);
    let mut x = Xaver::default(owner);
    assert!(x.income_fits(owner, 0));
    assert_eq!(x.income(owner, 0), ok(owner, Success::IncomeCreditSuccess));
    let mut y = ledger(2, 5);
    y.stake(owner, account(2), vec![], 0);
    y.stakes[0].status = 0;
    y.maximum_stakes = 0;
    assert!(y.income_fits(owner, u128::MAX));
    assert_eq!(y.income(owner, u128::MAX), ok(owner, Success::IncomeCreditSuccess));
    assert_eq!(y.stakes[0].accumulated_income, 0);
}

#[test]
fn unstake_after_cessation_pays_income_in_stable_asset() {
    let owner = account(1);
    let mut x = ledger(4, 50);
    x.stake(owner, account(2), vec![1], 10);
    x.stake(owner, account(3), vec![2], 10);
    x.stake(owner, account(4), vec![3], 10);
    assert_eq!(x.income(owner, 1000), ok(owner, Success::IncomeCreditSuccess));
    let (e, call) = x.unstake(owner, account(2), 5_256_011);
    assert_eq!(e, ok(owner, Success::UnstakingSuccess));
    assert_eq!(
        call,
        Some(RuntimeCall::Assets(AssetsCall::Transfer { id: 8, target: account(2), amount: 12_500 }))
    );
    assert_eq!(x.get_staker(account(2)), None);
    // The last stake takes the place of the removed one.
    assert_eq!(x.stakes[0].account, account(4));
    assert_eq!(x.stakes[1].account, account(3));
    assert_eq!(x.get_staker(account(3)).unwrap().tx_hash, vec![2]);
}

#[test]
fn unstake_errors() {
    let owner = account(1);
    let mut x = ledger(4, 50);
    x.stake(owner, account(2), vec![1], 10);
    assert_eq!(x.unstake(account(2), account(2), 9_000_000), (err(account(2), Error::BadOrigin), None));
    assert_eq!(x.unstake(owner, account(3), 9_000_000), (err(owner, Error::XaverStakeNotFound), None));
    assert_eq!(x.unstake(owner, account(2), 5_256_010), (err(owner, Error::XaverStakeNotCeased), None));
    x.close(owner);
    assert_eq!(x.unstake(owner, account(2), 9_000_000), (err(owner, Error::XaverIsClose), None));
    assert!(x.get_staker(account(2)).is_some());
}

#[test]
fn unstake_undoes_stake() {
    let owner = account(1);
    let mut x = ledger(4, 50);
    x.stake(owner, account(2), vec![1], 10);
    x.stake(owner, account(3), vec![2], 20);
    let (e, call) = x.unstake(owner, account(3), 5_256_021);
    assert_eq!(e, ok(owner, Success::UnstakingSuccess));
    assert_eq!(
        call,
        Some(RuntimeCall::Assets(AssetsCall::Transfer { id: 8, target: account(3), amount: 0 }))
    );
    assert_eq!(x.stakes.len(), 1);
    assert_eq!(x.stakes[0].account, account(2));
}

#[test]
fn income_credits_liquid_stakes_only() {
    let owner = account(1);
    let mut x = ledger(3, 7);
    x.stake(owner, account(2), vec![], 0);
    x.stake(owner, account(3), vec![], 0);
    x.stakes[1].status = 0;
    assert_eq!(x.income(owner, 100), ok(owner, Success::IncomeCreditSuccess));
    // (100 * 7) / 3 == 233
    assert_eq!(x.get_staker(account(2)).unwrap().accumulated_income, 233);
    assert_eq!(x.get_staker(account(3)).unwrap().accumulated_income, 0);
    assert_eq!(x.income(owner, 100), ok(owner, Success::IncomeCreditSuccess));
    assert_eq!(x.get_staker(account(2)).unwrap().accumulated_income, 466);
}

#[test]
fn income_errors_change_nothing() {
    let owner = account(1);
    let mut x = ledger(3, 7);
    x.stake(owner, account(2), vec![], 0);
    assert_eq!(x.income(account(2), 100), err(account(2), Error::BadOrigin));
    x.close(owner);
    assert_eq!(x.income(owner, 100), err(owner, Error::XaverIsClose));
    assert_eq!(x.get_staker(account(2)).unwrap().accumulated_income, 0);
}

#[test]
fn income_fits_detects_division_by_zero_and_overflow() {
    let owner = account(1);
    let mut x = Xaver::default(owner);
    x.stakes.push(Stake {
        account: account(2),
        tx_hash: vec![],
        accumulated_income: 0,
        cessation_block: 0,
        status: 1,
    });
    assert!(!x.income_fits(owner, 1));
    assert!(x.income_fits(account(2), 1));
    let mut y = ledger(2, 2);
    y.stake(owner, account(2), vec![], 0);
    assert!(!y.income_fits(owner, u128::MAX));
    assert!(y.income_fits(owner, u128::MAX / 2));
    y.stakes[0].accumulated_income = u128::MAX;
    assert!(!y.income_fits(owner, 2));
    assert!(y.income_fits(owner, 0));
    y.close(owner);
    assert!(y.income_fits(owner, u128::MAX));
}

#[test]
fn contract_error_from_conversions() {
    assert_eq!(ContractError::from(Error::BadOrigin), ContractError::Internal(Error::BadOrigin));
    assert_eq!(
        ContractError::from(RuntimeError::CallRuntimeFailed),
        ContractError::Runtime(RuntimeError::CallRuntimeFailed)
    );
}

#[test]
fn stake_duplicate_copies_the_stake() {
    let s = Stake {
        account: account(2),
        tx_hash: vec![9, 8, 7],
        accumulated_income: 5,
        cessation_block: 6,
        status: 1,
    };
    assert_eq!(s.duplicate(), s);
}

#[test]
fn capacity_holds_beyond_u16_counts() {
    let owner = account(1);
    let mut x = ledger(5, 10);
    for i in 0..65_536u32 {
        let mut bytes = [0u8; 32];
        bytes[..4].copy_from_slice(&i.to_le_bytes());
        bytes[31] = 0xee;
        x.stakes.push(Stake {
            account: AccountId(bytes),
            tx_hash: vec![],
            accumulated_income: 0,
            cessation_block: 0,
            status: 0,
        });
    }
    assert_eq!(x.stake(owner, account(2), vec![], 0), (err(owner, Error::XaverStakingMaxOut), None));
    assert_eq!(x.stakes.len(), 65_536);
}
