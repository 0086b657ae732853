//! Properties of the ledger that span its operations.
use vstd::prelude::*;

use crate::account::AccountId;
use crate::assets::{AssetsCall, RuntimeCall};
use crate::errors::Error;
use crate::xaver::{
    close_spec, credited, distinct_accounts, has_liquid, income_fits_spec, failed, income_applies, income_per_staker, income_spec,
    initial, is_staked, lemma_position, new_stake, open_spec, position, setup_spec, stake_spec,
    staker, succeeded, swap_removed, transfer, unstake_spec, wf, StakeView, Success, XaverView,
    RECEIPT_AMOUNT, STAKE_DURATION_BLOCKS, XaverTransactionStatus,
};

verus! {

/// Among distinct accounts, the stake at `i` is the one `position` finds for
/// its account.
proof fn lemma_position_unique(stakes: Seq<StakeView>, i: int)
    requires
        distinct_accounts(stakes),
        0 <= i < stakes.len(),
    ensures
        position(stakes, stakes[i].account) == Some(i),
{
    lemma_position(stakes, stakes[i].account);
}

/// `position` looks at accounts only.
proof fn lemma_position_same_accounts(s: Seq<StakeView>, t: Seq<StakeView>, a: AccountId)
    requires
        s.len() == t.len(),
        forall|i: int| 0 <= i < s.len() ==> s[i].account == t[i].account,
    ensures
        position(s, a) == position(t, a),
    decreases s.len(),
{
    if s.len() > 0 {
        lemma_position_same_accounts(s.drop_last(), t.drop_last(), a);
    }
}

/// The stake that `b` holds in `stakes`, found by a quantifier-free index.
proof fn lemma_staker_at(x: XaverView, b: AccountId)
    requires
        distinct_accounts(x.stakes),
    ensures
        staker(x, b) is None <==> !is_staked(x.stakes, b),
        forall|i: int|
            0 <= i < x.stakes.len() && x.stakes[i].account == b ==> staker(x, b) == Some(
                x.stakes[i],
            ),
{
    lemma_position(x.stakes, b);
    assert forall|i: int| 0 <= i < x.stakes.len() && x.stakes[i].account == b implies staker(x, b)
        == Some(x.stakes[i]) by {
        lemma_position_unique(x.stakes, i);
    }
}

/// A new ledger holds no stakes and keeps the invariant.
pub proof fn law_new_ledger_is_empty(
    caller: AccountId,
    asset_id: u128,
    stable_asset_id: u128,
    maximum_stakes: u16,
    b: AccountId,
)
    ensures
        wf(initial(caller, asset_id, stable_asset_id, maximum_stakes)),
        staker(initial(caller, asset_id, stable_asset_id, maximum_stakes), b) is None,
{
}

/// `setup` keeps the invariant, and after a setup by the owner no account
/// holds a stake.
pub proof fn law_setup_clears_stakes(
    x: XaverView,
    caller: AccountId,
    asset_id: u128,
    stable_asset_id: u128,
    operator: AccountId,
    price: u16,
    share: u16,
    maximum_stakes: u16,
    b: AccountId,
)
    requires
        wf(x),
    ensures
        wf(setup_spec(x, caller, asset_id, stable_asset_id, operator, price, share, maximum_stakes).0),
        caller == x.owner ==> staker(
            setup_spec(
                x,
                caller,
                asset_id,
                stable_asset_id,
                operator,
                price,
                share,
                maximum_stakes,
            ).0,
            b,
        ) is None,
{
}

/// Opening and closing keep the invariant and leave the stakes alone.
pub proof fn law_open_close_keep_stakes(x: XaverView, caller: AccountId)
    requires
        wf(x),
    ensures
        wf(open_spec(x, caller).0),
        wf(close_spec(x, caller).0),
        open_spec(x, caller).0.stakes == x.stakes,
        close_spec(x, caller).0.stakes == x.stakes,
{
}

/// Closing an open ledger and opening it again restores it.
pub proof fn law_close_then_open_restores(x: XaverView, caller: AccountId)
    requires
        x.status == 0,
        caller == x.operator,
    ensures
        open_spec(close_spec(x, caller).0, caller).0 == x,
{
}

/// Every message but `setup` refuses a caller other than the operator:
/// it reports `BadOrigin` and changes nothing; `setup` does the same for a
/// caller other than the owner.
pub proof fn law_unauthorized_caller_changes_nothing(
    x: XaverView,
    caller: AccountId,
    account: AccountId,
    tx_hash: Seq<u8>,
    block: u32,
    amount: u128,
    asset_id: u128,
    stable_asset_id: u128,
    operator: AccountId,
    price: u16,
    share: u16,
    maximum_stakes: u16,
)
    ensures
        caller != x.owner ==> setup_spec(
            x,
            caller,
            asset_id,
            stable_asset_id,
            operator,
            price,
            share,
            maximum_stakes,
        ) == (x, failed(Error::BadOrigin)),
        caller != x.operator ==> {
            &&& open_spec(x, caller) == (x, failed(Error::BadOrigin))
            &&& close_spec(x, caller) == (x, failed(Error::BadOrigin))
            &&& stake_spec(x, caller, account, tx_hash, block) == (x, failed(Error::BadOrigin), None::<
                crate::assets::RuntimeCall,
            >)
            &&& unstake_spec(x, caller, account, block) == (x, failed(Error::BadOrigin), None::<
                crate::assets::RuntimeCall,
            >)
            &&& income_spec(x, caller, amount) == (x, failed(Error::BadOrigin))
        },
{
}

/// A closed ledger refuses to stake, unstake and credit income: the operator
/// gets `XaverIsClose` and nothing changes.
pub proof fn law_closed_ledger_changes_nothing(
    x: XaverView,
    account: AccountId,
    tx_hash: Seq<u8>,
    block: u32,
    amount: u128,
)
    requires
        x.status != 0,
    ensures
        stake_spec(x, x.operator, account, tx_hash, block) == (x, failed(Error::XaverIsClose), None::<
            crate::assets::RuntimeCall,
        >),
        unstake_spec(x, x.operator, account, block) == (x, failed(Error::XaverIsClose), None::<
            crate::assets::RuntimeCall,
        >),
        income_spec(x, x.operator, amount) == (x, failed(Error::XaverIsClose)),
{
}

/// `stake` keeps the invariant and never holds more stakes than the maximum.
/// After a successful stake, `account` holds the new stake (no income,
/// liquid, ceasing `STAKE_DURATION_BLOCKS` blocks after `block`), every other
/// account holds what it held before, and the staker is sent the receipt
/// token; a refused stake sends nothing.
pub proof fn law_stake_then_get_staker(
    x: XaverView,
    caller: AccountId,
    account: AccountId,
    tx_hash: Seq<u8>,
    block: u32,
    b: AccountId,
)
    requires
        wf(x),
    ensures
        wf(stake_spec(x, caller, account, tx_hash, block).0),
        stake_spec(x, caller, account, tx_hash, block).1 != succeeded(Success::StakingSuccess) ==> {
            &&& stake_spec(x, caller, account, tx_hash, block).0 == x
            &&& stake_spec(x, caller, account, tx_hash, block).2 is None
        },
        stake_spec(x, caller, account, tx_hash, block).1 == succeeded(Success::StakingSuccess) ==> {
            &&& stake_spec(x, caller, account, tx_hash, block).2 == Some(
                transfer(x.asset_id, account, RECEIPT_AMOUNT),
            )
            &&& staker(stake_spec(x, caller, account, tx_hash, block).0, account) == Some(
                new_stake(account, tx_hash, block),
            )
            &&& b != account ==> staker(stake_spec(x, caller, account, tx_hash, block).0, b)
                == staker(x, b)
        },
{
    let (y, st, _receipt) = stake_spec(x, caller, account, tx_hash, block);
    if st == succeeded(Success::StakingSuccess) {
        lemma_position(x.stakes, account);
        let n = x.stakes.len();
        assert(n < x.maximum_stakes);
        assert(y.stakes == x.stakes.push(new_stake(account, tx_hash, block)));
        assert(distinct_accounts(y.stakes));
        lemma_staker_at(y, account);
        assert(y.stakes[n as int].account == account);
        lemma_staker_at(y, b);
        lemma_staker_at(x, b);
        if b != account {
            if is_staked(x.stakes, b) {
                let i = choose|i: int| 0 <= i < x.stakes.len() && x.stakes[i].account == b;
                assert(y.stakes[i] == x.stakes[i]);
            } else {
                assert forall|i: int| 0 <= i < y.stakes.len() implies y.stakes[i].account != b by {
                    if i < n {
                        assert(y.stakes[i] == x.stakes[i]);
                    }
                }
            }
        }
    }
}

/// `unstake` keeps the invariant. After a successful unstake, `account` holds
/// no stake, every other account holds what it held before, and the transfer
/// pays the stake's accumulated income to `account` in the stable asset.
pub proof fn law_unstake_then_get_staker(
    x: XaverView,
    caller: AccountId,
    account: AccountId,
    block: u32,
    b: AccountId,
)
    requires
        wf(x),
    ensures
        wf(unstake_spec(x, caller, account, block).0),
        unstake_spec(x, caller, account, block).1 == succeeded(Success::UnstakingSuccess) ==> {
            &&& staker(x, account) is Some
            &&& staker(unstake_spec(x, caller, account, block).0, account) is None
            &&& unstake_spec(x, caller, account, block).2 == Some(
                transfer(x.stable_asset_id, account, staker(x, account)->0.accumulated_income),
            )
            &&& b != account ==> staker(unstake_spec(x, caller, account, block).0, b) == staker(
                x,
                b,
            )
        },
{
    let (y, st, _call) = unstake_spec(x, caller, account, block);
    if st == succeeded(Success::UnstakingSuccess) {
        lemma_position(x.stakes, account);
        let k = position(x.stakes, account)->0;
        let n = x.stakes.len();
        let s = x.stakes;
        let t = y.stakes;
        assert(t == swap_removed(s, k));
        assert(t.len() == n - 1);
        assert forall|i: int| 0 <= i < t.len() implies (i != k ==> t[i] == s[i]) && (i == k ==> t[i]
            == s[n - 1]) by {}
        assert(distinct_accounts(t)) by {
            assert forall|i: int, j: int| 0 <= i < j < t.len() implies t[i].account
                != t[j].account by {
                let ii = if i == k { n - 1 } else { i };
                let jj = if j == k { n - 1 } else { j };
                assert(t[i] == s[ii]);
                assert(t[j] == s[jj]);
            }
        }
        lemma_staker_at(y, account);
        assert forall|i: int| 0 <= i < t.len() implies t[i].account != account by {
            let ii = if i == k { n - 1 } else { i };
            assert(t[i] == s[ii]);
        }
        lemma_staker_at(y, b);
        lemma_staker_at(x, b);
        if b != account {
            if is_staked(s, b) {
                let i = choose|i: int| 0 <= i < n && s[i].account == b;
                if i == n - 1 {
                    assert(t[k] == s[i]);
                } else {
                    assert(t[i] == s[i]);
                }
            } else {
                assert forall|i: int| 0 <= i < t.len() implies t[i].account != b by {
                    let ii = if i == k { n - 1 } else { i };
                    assert(t[i] == s[ii]);
                }
            }
        }
    }
}

/// `income` keeps the invariant, and after a successful credit every account
/// holds its former stake, credited with `(amount * share) / maximum_stakes`
/// if it is liquid.
pub proof fn law_income_then_get_staker(x: XaverView, caller: AccountId, amount: u128, b: AccountId)
    requires
        wf(x),
    ensures
        wf(income_spec(x, caller, amount).0),
        income_applies(x, caller) ==> staker(income_spec(x, caller, amount).0, b) == match staker(
            x,
            b,
        ) {
            Some(s) => Some(credited(s, income_per_staker(x, amount))),
            None => None,
        },
{
    let (y, _st) = income_spec(x, caller, amount);
    if income_applies(x, caller) {
        assert forall|i: int| 0 <= i < x.stakes.len() implies y.stakes[i].account
            == x.stakes[i].account by {}
        lemma_position_same_accounts(x.stakes, y.stakes, b);
        lemma_position(x.stakes, b);
    }
}

/// A stake cannot be settled within its duration: right after a successful
/// stake at `block`, an unstake at a block up to `STAKE_DURATION_BLOCKS` later
/// reports `XaverStakeNotCeased` and changes nothing.
pub proof fn law_stake_not_ceased_before_duration(
    x: XaverView,
    account: AccountId,
    tx_hash: Seq<u8>,
    block: u32,
    later: u32,
)
    requires
        wf(x),
        stake_spec(x, x.operator, account, tx_hash, block).1 == succeeded(Success::StakingSuccess),
        later <= block + STAKE_DURATION_BLOCKS,
    ensures
        unstake_spec(stake_spec(x, x.operator, account, tx_hash, block).0, x.operator, account, later)
            == (
            stake_spec(x, x.operator, account, tx_hash, block).0,
            failed(Error::XaverStakeNotCeased),
            None::<crate::assets::RuntimeCall>,
        ),
{
    let y = stake_spec(x, x.operator, account, tx_hash, block).0;
    law_stake_then_get_staker(x, x.operator, account, tx_hash, block, account);
    lemma_position(y.stakes, account);
}

/// `unstake` undoes `stake`: after a successful stake at `block`, an unstake
/// after the cessation block restores the ledger and pays out nothing.
pub proof fn law_unstake_undoes_stake(
    x: XaverView,
    account: AccountId,
    tx_hash: Seq<u8>,
    block: u32,
    later: u32,
)
    requires
        wf(x),
        stake_spec(x, x.operator, account, tx_hash, block).1 == succeeded(Success::StakingSuccess),
        later > block + STAKE_DURATION_BLOCKS,
    ensures
        unstake_spec(stake_spec(x, x.operator, account, tx_hash, block).0, x.operator, account, later)
            == (
            x,
            succeeded(Success::UnstakingSuccess),
            Some(transfer(x.stable_asset_id, account, 0)),
        ),
{
    let y = stake_spec(x, x.operator, account, tx_hash, block).0;
    law_stake_then_get_staker(x, x.operator, account, tx_hash, block, account);
    lemma_position(y.stakes, account);
    let n = x.stakes.len();
    assert(y.stakes[n as int].account == account);
    lemma_position_unique(y.stakes, n as int);
    assert(swap_removed(y.stakes, n as int) =~= x.stakes);
}

/// Crediting income never lowers any stake's accumulated income, and leaves
/// the number of stakes alone.
pub proof fn law_income_never_lowers(x: XaverView, caller: AccountId, amount: u128)
    requires
        income_fits_spec(x, caller, amount),
    ensures
        income_spec(x, caller, amount).0.stakes.len() == x.stakes.len(),
        forall|i: int|
            0 <= i < x.stakes.len() ==> income_spec(x, caller, amount).0.stakes[i].accumulated_income
                >= x.stakes[i].accumulated_income,
{
    let y = income_spec(x, caller, amount).0;
    if income_applies(x, caller) {
        assert forall|i: int| 0 <= i < x.stakes.len() implies y.stakes[i].accumulated_income
            >= x.stakes[i].accumulated_income by {
            if x.stakes[i].status == 1 {
                assert(has_liquid(x.stakes));
                assert(income_per_staker(x, amount) >= 0) by (nonlinear_arith)
                    requires
                        x.maximum_stakes > 0,
                        amount >= 0,
                        x.share >= 0,
                ;
            }
        }
    }
}

/// No message changes the owner: only the creator of the ledger can ever run
/// `setup`.
pub proof fn law_owner_never_changes(
    x: XaverView,
    caller: AccountId,
    account: AccountId,
    tx_hash: Seq<u8>,
    block: u32,
    amount: u128,
    asset_id: u128,
    stable_asset_id: u128,
    operator: AccountId,
    price: u16,
    share: u16,
    maximum_stakes: u16,
)
    ensures
        setup_spec(
            x,
            caller,
            asset_id,
            stable_asset_id,
            operator,
            price,
            share,
            maximum_stakes,
        ).0.owner == x.owner,
        open_spec(x, caller).0.owner == x.owner,
        close_spec(x, caller).0.owner == x.owner,
        stake_spec(x, caller, account, tx_hash, block).0.owner == x.owner,
        unstake_spec(x, caller, account, block).0.owner == x.owner,
        income_spec(x, caller, amount).0.owner == x.owner,
{
}

/// The status is 0 (open) or 1 (closed) after every message, if it was so
/// before; a new ledger starts open.
pub proof fn law_status_open_or_closed(
    x: XaverView,
    caller: AccountId,
    account: AccountId,
    tx_hash: Seq<u8>,
    block: u32,
    amount: u128,
    asset_id: u128,
    stable_asset_id: u128,
    operator: AccountId,
    price: u16,
    share: u16,
    maximum_stakes: u16,
)
    requires
        x.status == 0 || x.status == 1,
    ensures
        initial(caller, asset_id, stable_asset_id, maximum_stakes).status == 0,
        setup_spec(x, caller, asset_id, stable_asset_id, operator, price, share, maximum_stakes).0.status
            <= 1,
        open_spec(x, caller).0.status <= 1,
        close_spec(x, caller).0.status <= 1,
        stake_spec(x, caller, account, tx_hash, block).0.status <= 1,
        unstake_spec(x, caller, account, block).0.status <= 1,
        income_spec(x, caller, amount).0.status <= 1,
{
}

/// `get_staker` reads the account's own stake: among distinct accounts it
/// reports nothing exactly when the account holds no stake, and otherwise the
/// stake that the account holds, wherever it stands in the list.
pub proof fn law_get_staker_reads_own_stake(x: XaverView, account: AccountId, i: int)
    requires
        wf(x),
    ensures
        staker(x, account) is None <==> !is_staked(x.stakes, account),
        0 <= i < x.stakes.len() && x.stakes[i].account == account ==> staker(x, account) == Some(
            x.stakes[i],
        ),
{
    lemma_staker_at(x, account);
}

/// A setup by the owner sets the asset ids, the operator, the price, the
/// share and the maximum to exactly the given values, keeps the owner, drops
/// every stake and opens the ledger.
pub proof fn law_setup_sets_configuration(
    x: XaverView,
    asset_id: u128,
    stable_asset_id: u128,
    operator: AccountId,
    price: u16,
    share: u16,
    maximum_stakes: u16,
)
    ensures
        ({
            let (y, st) = setup_spec(
                x,
                x.owner,
                asset_id,
                stable_asset_id,
                operator,
                price,
                share,
                maximum_stakes,
            );
            &&& st == XaverTransactionStatus::EmitSuccess(Success::XaverSetupSuccess)
            &&& y.asset_id == asset_id
            &&& y.stable_asset_id == stable_asset_id
            &&& y.owner == x.owner
            &&& y.operator == operator
            &&& y.price == price
            &&& y.share == share
            &&& y.maximum_stakes == maximum_stakes
            &&& y.stakes.len() == 0
            &&& y.status == 0
        }),
{
}

/// A close by the operator always closes the ledger (status 1) and an open
/// always opens it (status 0), whatever it holds; nothing else changes.
pub proof fn law_close_closes_and_open_opens(x: XaverView)
    ensures
        close_spec(x, x.operator).1 == XaverTransactionStatus::EmitSuccess(
            Success::XaverCloseSuccess,
        ),
        close_spec(x, x.operator).0.status == 1,
        close_spec(x, x.operator).0 == (XaverView { status: 1, ..x }),
        open_spec(x, x.operator).1 == XaverTransactionStatus::EmitSuccess(Success::XaverOpenSuccess),
        open_spec(x, x.operator).0.status == 0,
        open_spec(x, x.operator).0 == (XaverView { status: 0, ..x }),
{
}

/// A stake succeeds exactly when the operator calls an open ledger on which
/// the account holds no stake and there are fewer stakes than the maximum.
/// The new stake is liquid (status 1), has no income, records the given
/// transaction hash and ceases 5,256,000 blocks after the given block; the
/// former stakes stay in place, the configuration is kept, and one receipt
/// token of `asset_id` is sent to the staker. Otherwise nothing changes and
/// nothing is sent; the operator on an open ledger is told
/// `XaverStakeAlreadyExist` for an account that holds a stake, and
/// `XaverStakingMaxOut` when the ledger is full.
pub proof fn law_stake_outcome(
    x: XaverView,
    caller: AccountId,
    account: AccountId,
    tx_hash: Seq<u8>,
    block: u32,
)
    requires
        wf(x),
    ensures
        ({
            let (y, st, call) = stake_spec(x, caller, account, tx_hash, block);
            &&& (st == XaverTransactionStatus::EmitSuccess(Success::StakingSuccess)) <==> (caller
                == x.operator && x.status == 0 && !is_staked(x.stakes, account) && x.stakes.len()
                < x.maximum_stakes)
            &&& st != XaverTransactionStatus::EmitSuccess(Success::StakingSuccess) ==> y == x
                && call is None
            &&& caller == x.operator && x.status == 0 && is_staked(x.stakes, account) ==> st
                == XaverTransactionStatus::EmitError(Error::XaverStakeAlreadyExist)
            &&& caller == x.operator && x.status == 0 && !is_staked(x.stakes, account)
                && x.stakes.len() >= x.maximum_stakes ==> st == XaverTransactionStatus::EmitError(
                Error::XaverStakingMaxOut,
            )
            &&& st == XaverTransactionStatus::EmitSuccess(Success::StakingSuccess) ==> {
                &&& call == Some(
                    RuntimeCall::Assets(
                        AssetsCall::Transfer { id: x.asset_id, target: account, amount: 1 },
                    ),
                )
                &&& y.stakes.len() == x.stakes.len() + 1
                &&& forall|j: int| 0 <= j < x.stakes.len() ==> y.stakes[j] == x.stakes[j]
                &&& staker(y, account) is Some
                &&& staker(y, account)->0.account == account
                &&& staker(y, account)->0.tx_hash == tx_hash
                &&& staker(y, account)->0.accumulated_income == 0
                &&& staker(y, account)->0.cessation_block == block + 5_256_000
                &&& staker(y, account)->0.status == 1
                &&& y.asset_id == x.asset_id
                &&& y.stable_asset_id == x.stable_asset_id
                &&& y.owner == x.owner
                &&& y.operator == x.operator
                &&& y.price == x.price
                &&& y.share == x.share
                &&& y.maximum_stakes == x.maximum_stakes
                &&& y.status == x.status
            }
        }),
{
    lemma_position(x.stakes, account);
    law_stake_then_get_staker(x, caller, account, tx_hash, block, account);
}

/// An unstake by the operator on an open ledger of an account that holds no
/// stake reports `XaverStakeNotFound`, changes nothing and pays nothing.
pub proof fn law_unstake_unknown_account(x: XaverView, account: AccountId, block: u32)
    requires
        wf(x),
        !is_staked(x.stakes, account),
        x.status == 0,
    ensures
        unstake_spec(x, x.operator, account, block) == (
            x,
            XaverTransactionStatus::EmitError(Error::XaverStakeNotFound),
            None::<RuntimeCall>,
        ),
{
    lemma_position(x.stakes, account);
}

/// An unstake by the operator on an open ledger of the account whose stake
/// stands at `i`, anywhere in the list, goes by that stake's own cessation
/// block: up to it the stake stays and nothing is paid
/// (`XaverStakeNotCeased`); after it the stake leaves, every other stake
/// stays, the configuration is kept and exactly the stake's accumulated
/// income is paid to the account in the stable asset.
pub proof fn law_unstake_outcome(x: XaverView, account: AccountId, block: u32, i: int)
    requires
        wf(x),
        0 <= i < x.stakes.len(),
        x.stakes[i].account == account,
        x.status == 0,
    ensures
        ({
            let (y, st, call) = unstake_spec(x, x.operator, account, block);
            &&& (st == XaverTransactionStatus::EmitSuccess(Success::UnstakingSuccess)) <==> block
                > x.stakes[i].cessation_block
            &&& (st == XaverTransactionStatus::EmitError(Error::XaverStakeNotCeased)) <==> block
                <= x.stakes[i].cessation_block
            &&& block <= x.stakes[i].cessation_block ==> y == x && call is None
            &&& block > x.stakes[i].cessation_block ==> {
                &&& call == Some(
                    RuntimeCall::Assets(
                        AssetsCall::Transfer {
                            id: x.stable_asset_id,
                            target: account,
                            amount: x.stakes[i].accumulated_income,
                        },
                    ),
                )
                &&& y.stakes.len() == x.stakes.len() - 1
                &&& !is_staked(y.stakes, account)
                &&& forall|j: int|
                    0 <= j < x.stakes.len() && j != i ==> staker(y, #[trigger] x.stakes[j].account)
                        == Some(x.stakes[j])
                &&& y.asset_id == x.asset_id
                &&& y.stable_asset_id == x.stable_asset_id
                &&& y.owner == x.owner
                &&& y.operator == x.operator
                &&& y.price == x.price
                &&& y.share == x.share
                &&& y.maximum_stakes == x.maximum_stakes
                &&& y.status == x.status
            }
        }),
{
    lemma_position_unique(x.stakes, i);
    let (y, st, call) = unstake_spec(x, x.operator, account, block);
    if block > x.stakes[i].cessation_block {
        law_unstake_then_get_staker(x, x.operator, account, block, account);
        lemma_staker_at(y, account);
        assert forall|j: int| 0 <= j < x.stakes.len() && j != i implies staker(
            y,
            #[trigger] x.stakes[j].account,
        ) == Some(x.stakes[j]) by {
            let b = x.stakes[j].account;
            law_unstake_then_get_staker(x, x.operator, account, block, b);
            lemma_staker_at(x, b);
        }
    }
}

/// An income by the operator on an open ledger, where it can run, credits
/// `(amount * share) / maximum_stakes` to every liquid stake and nothing to
/// any other; accounts, transaction hashes, cessation blocks, statuses and
/// the configuration stay as they were.
pub proof fn law_income_outcome(x: XaverView, amount: u128)
    requires
        x.status == 0,
        income_fits_spec(x, x.operator, amount),
    ensures
        ({
            let (y, st) = income_spec(x, x.operator, amount);
            &&& st == XaverTransactionStatus::EmitSuccess(Success::IncomeCreditSuccess)
            &&& y.stakes.len() == x.stakes.len()
            &&& forall|i: int|
                0 <= i < x.stakes.len() ==> {
                    &&& y.stakes[i].account == x.stakes[i].account
                    &&& y.stakes[i].tx_hash == x.stakes[i].tx_hash
                    &&& y.stakes[i].cessation_block == x.stakes[i].cessation_block
                    &&& y.stakes[i].status == x.stakes[i].status
                    &&& x.stakes[i].status == 1 ==> y.stakes[i].accumulated_income
                        == x.stakes[i].accumulated_income + (amount * x.share) / (
                    x.maximum_stakes as int)
                    &&& x.stakes[i].status != 1 ==> y.stakes[i].accumulated_income
                        == x.stakes[i].accumulated_income
                }
            &&& y.asset_id == x.asset_id
            &&& y.stable_asset_id == x.stable_asset_id
            &&& y.owner == x.owner
            &&& y.operator == x.operator
            &&& y.price == x.price
            &&& y.share == x.share
            &&& y.maximum_stakes == x.maximum_stakes
            &&& y.status == x.status
        }),
{
    let y = income_spec(x, x.operator, amount).0;
    assert forall|i: int| 0 <= i < x.stakes.len() && x.stakes[i].status == 1 implies y.stakes[i].accumulated_income
        == x.stakes[i].accumulated_income + (amount * x.share) / (x.maximum_stakes as int) by {
        assert(has_liquid(x.stakes));
        assert((amount * x.share) / (x.maximum_stakes as int) >= 0) by (nonlinear_arith)
            requires
                x.maximum_stakes > 0,
                amount >= 0,
                x.share >= 0,
        ;
    }
}

} // verus!
