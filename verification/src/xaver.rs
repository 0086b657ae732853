use vstd::prelude::*;

use crate::account::AccountId;
use crate::assets::{AssetsCall, RuntimeCall};
use crate::errors::Error;
use crate::laws::{
    law_income_then_get_staker, law_open_close_keep_stakes, law_setup_clears_stakes,
    law_stake_then_get_staker, law_unstake_then_get_staker,
};

verus! {

/// Number of blocks a stake stays locked: 365 days with 6 seconds per block.
pub const STAKE_DURATION_BLOCKS: u128 = 5_256_000u128;

/// Amount of the receipt asset (`asset_id`) sent to a staker on a successful
/// stake: one receipt token per stake slot.
pub const RECEIPT_AMOUNT: u128 = 1u128;

/// Success messages
#[derive(Debug, Clone, Copy, PartialEq, Eq, Structural)]
pub enum Success {
    /// Xaver setup successful
    XaverSetupSuccess,
    /// Xaver close successful
    XaverCloseSuccess,
    /// Xaver open successful
    XaverOpenSuccess,
    /// Staking successful
    StakingSuccess,
    /// Unstaking successful
    UnstakingSuccess,
    /// Staking interest success
    StakingInterestSuccess,
    /// Income credited success
    IncomeCreditSuccess,
}

/// Xaver transaction status
#[derive(Debug, Clone, Copy, PartialEq, Eq, Structural)]
pub enum XaverTransactionStatus {
    EmitSuccess(Success),
    EmitError(Error),
}

/// The event that every message emits: who called, and how it went.
#[derive(Debug, Clone, Copy, PartialEq, Eq)]
pub struct XaverEvent {
    pub operator: AccountId,
    pub status: XaverTransactionStatus,
}

/// Xaver staker
#[derive(Debug, Clone, PartialEq, Eq)]
pub struct Stake {
    /// Account address
    pub account: AccountId,
    /// Off-chain payment transaction hash
    pub tx_hash: Vec<u8>,
    /// Accumulated income
    pub accumulated_income: u128,
    /// Cessation block
    pub cessation_block: u128,
    /// Status (0-Frozen, 1-Liquid)
    pub status: u8,
}

/// Mathematical model of a [`Stake`].
pub struct StakeView {
    pub account: AccountId,
    pub tx_hash: Seq<u8>,
    pub accumulated_income: u128,
    pub cessation_block: u128,
    pub status: u8,
}

impl View for Stake {
    type V = StakeView;

    open spec fn view(&self) -> StakeView {
        StakeView {
            account: self.account,
            tx_hash: self.tx_hash@,
            accumulated_income: self.accumulated_income,
            cessation_block: self.cessation_block,
            status: self.status,
        }
    }
}

/// Xaver storage
pub struct Xaver {
    /// Xaver asset, e.g., XAV
    pub asset_id: u128,
    /// Stable asset id, e.g., USDT
    pub stable_asset_id: u128,
    /// Owner
    pub owner: AccountId,
    /// Operator
    pub operator: AccountId,
    /// Price (e.g., $10, $100, $200, $1,000)
    pub price: u16,
    /// Share percentage (0.1%, 1%, 2%, 10%)
    pub share: u16,
    /// Maximum stakes of the xaver node
    pub maximum_stakes: u16,
    /// Stakers
    pub stakes: Vec<Stake>,
    /// Status (0-Open, 1-Close)
    pub status: u8,
}

/// Mathematical model of a [`Xaver`].
pub struct XaverView {
    pub asset_id: u128,
    pub stable_asset_id: u128,
    pub owner: AccountId,
    pub operator: AccountId,
    pub price: u16,
    pub share: u16,
    pub maximum_stakes: u16,
    pub stakes: Seq<StakeView>,
    pub status: u8,
}

impl View for Xaver {
    type V = XaverView;

    open spec fn view(&self) -> XaverView {
        XaverView {
            asset_id: self.asset_id,
            stable_asset_id: self.stable_asset_id,
            owner: self.owner,
            operator: self.operator,
            price: self.price,
            share: self.share,
            maximum_stakes: self.maximum_stakes,
            stakes: view_stakes(self.stakes@),
            status: self.status,
        }
    }
}

/// The models of a sequence of stakes.
pub open spec fn view_stakes(stakes: Seq<Stake>) -> Seq<StakeView> {
    stakes.map_values(|s: Stake| s@)
}

/// Position of the first stake of `stakes` held by `account`, if any.
pub open spec fn position(stakes: Seq<StakeView>, account: AccountId) -> Option<int>
    decreases stakes.len(),
{
    if stakes.len() == 0 {
        None
    } else {
        match position(stakes.drop_last(), account) {
            Some(i) => Some(i),
            None => if stakes.last().account == account {
                Some(stakes.len() - 1)
            } else {
                None
            },
        }
    }
}

/// `position` is the first index whose stake is held by `account`.
pub proof fn lemma_position(stakes: Seq<StakeView>, account: AccountId)
    ensures
        match position(stakes, account) {
            Some(i) => {
                &&& 0 <= i < stakes.len()
                &&& stakes[i].account == account
                &&& forall|j: int| 0 <= j < i ==> stakes[j].account != account
            },
            None => forall|j: int| 0 <= j < stakes.len() ==> stakes[j].account != account,
        },
    decreases stakes.len(),
{
    if stakes.len() > 0 {
        let prefix = stakes.drop_last();
        lemma_position(prefix, account);
        assert(forall|j: int| 0 <= j < prefix.len() ==> prefix[j] == stakes[j]);
    }
}

/// Whether `account` holds a stake in `stakes`.
pub open spec fn is_staked(stakes: Seq<StakeView>, account: AccountId) -> bool {
    exists|i: int| 0 <= i < stakes.len() && stakes[i].account == account
}

/// The stake that `account` holds, as `get_staker` reports it.
pub open spec fn staker(x: XaverView, account: AccountId) -> Option<StakeView> {
    match position(x.stakes, account) {
        Some(i) => Some(x.stakes[i]),
        None => None,
    }
}

/// No account holds two of `stakes`.
pub open spec fn distinct_accounts(stakes: Seq<StakeView>) -> bool {
    forall|i: int, j: int| 0 <= i < j < stakes.len() ==> stakes[i].account != stakes[j].account
}

/// The ledger's invariant: no account holds two stakes, and there are no more
/// stakes than the configured maximum.
pub open spec fn wf(x: XaverView) -> bool {
    &&& x.stakes.len() <= x.maximum_stakes
    &&& distinct_accounts(x.stakes)
}

/// A status that reports an error.
pub open spec fn failed(e: Error) -> XaverTransactionStatus {
    XaverTransactionStatus::EmitError(e)
}

/// A status that reports a success.
pub open spec fn succeeded(s: Success) -> XaverTransactionStatus {
    XaverTransactionStatus::EmitSuccess(s)
}

/// The state of a ledger created by `caller`.
pub open spec fn initial(
    caller: AccountId,
    asset_id: u128,
    stable_asset_id: u128,
    maximum_stakes: u16,
) -> XaverView {
    XaverView {
        asset_id,
        stable_asset_id,
        owner: caller,
        operator: caller,
        price: 0,
        share: 0,
        maximum_stakes,
        stakes: Seq::empty(),
        status: 0,
    }
}

/// `setup`: the owner reconfigures the ledger, which drops every stake and
/// opens it; anybody else is refused.
pub open spec fn setup_spec(
    x: XaverView,
    caller: AccountId,
    asset_id: u128,
    stable_asset_id: u128,
    operator: AccountId,
    price: u16,
    share: u16,
    maximum_stakes: u16,
) -> (XaverView, XaverTransactionStatus) {
    if caller != x.owner {
        (x, failed(Error::BadOrigin))
    } else {
        (
            XaverView {
                asset_id,
                stable_asset_id,
                owner: x.owner,
                operator,
                price,
                share,
                maximum_stakes,
                stakes: Seq::empty(),
                status: 0,
            },
            succeeded(Success::XaverSetupSuccess),
        )
    }
}

/// `close`: the operator sets the status to closed (1).
pub open spec fn close_spec(x: XaverView, caller: AccountId) -> (XaverView, XaverTransactionStatus) {
    if caller != x.operator {
        (x, failed(Error::BadOrigin))
    } else {
        (XaverView { status: 1, ..x }, succeeded(Success::XaverCloseSuccess))
    }
}

/// `open`: the operator sets the status to open (0).
pub open spec fn open_spec(x: XaverView, caller: AccountId) -> (XaverView, XaverTransactionStatus) {
    if caller != x.operator {
        (x, failed(Error::BadOrigin))
    } else {
        (XaverView { status: 0, ..x }, succeeded(Success::XaverOpenSuccess))
    }
}

/// The stake that `stake` registers at block `block`: no income yet, liquid,
/// ceasing `STAKE_DURATION_BLOCKS` blocks later.
pub open spec fn new_stake(account: AccountId, tx_hash: Seq<u8>, block: u32) -> StakeView {
    StakeView {
        account,
        tx_hash,
        accumulated_income: 0,
        cessation_block: (block + STAKE_DURATION_BLOCKS) as u128,
        status: 1,
    }
}

/// `stake`: the operator registers a new staker at the end of the list, if the
/// ledger is open, the account holds no stake yet and there is room. On
/// success the staker is sent `RECEIPT_AMOUNT` of the receipt asset.
pub open spec fn stake_spec(
    x: XaverView,
    caller: AccountId,
    account: AccountId,
    tx_hash: Seq<u8>,
    block: u32,
) -> (XaverView, XaverTransactionStatus, Option<RuntimeCall>) {
    if caller != x.operator {
        (x, failed(Error::BadOrigin), None)
    } else if x.status != 0 {
        (x, failed(Error::XaverIsClose), None)
    } else if position(x.stakes, account) is Some {
        (x, failed(Error::XaverStakeAlreadyExist), None)
    } else if x.stakes.len() >= x.maximum_stakes {
        (x, failed(Error::XaverStakingMaxOut), None)
    } else {
        (
            XaverView { stakes: x.stakes.push(new_stake(account, tx_hash, block)), ..x },
            succeeded(Success::StakingSuccess),
            Some(transfer(x.asset_id, account, RECEIPT_AMOUNT)),
        )
    }
}

/// `stakes` without its element at `i`, whose place the last element takes.
pub open spec fn swap_removed(stakes: Seq<StakeView>, i: int) -> Seq<StakeView> {
    stakes.update(i, stakes.last()).drop_last()
}

/// The transfer of `amount` of asset `id` to `target`.
pub open spec fn transfer(id: u128, target: AccountId, amount: u128) -> RuntimeCall {
    RuntimeCall::Assets(AssetsCall::Transfer { id, target, amount })
}

/// `unstake` at block `block`: the operator settles the stake of `account`
/// once its cessation block has passed, if the ledger is open. The stake
/// leaves the list and its accumulated income is paid out in the stable asset.
pub open spec fn unstake_spec(x: XaverView, caller: AccountId, account: AccountId, block: u32) -> (
    XaverView,
    XaverTransactionStatus,
    Option<RuntimeCall>,
) {
    if caller != x.operator {
        (x, failed(Error::BadOrigin), None)
    } else if x.status != 0 {
        (x, failed(Error::XaverIsClose), None)
    } else {
        match position(x.stakes, account) {
            None => (x, failed(Error::XaverStakeNotFound), None),
            Some(i) => if block <= x.stakes[i].cessation_block {
                (x, failed(Error::XaverStakeNotCeased), None)
            } else {
                (
                    XaverView { stakes: swap_removed(x.stakes, i), ..x },
                    succeeded(Success::UnstakingSuccess),
                    Some(transfer(x.stable_asset_id, account, x.stakes[i].accumulated_income)),
                )
            },
        }
    }
}

/// Whether `income` credits anything: the operator calls on an open ledger.
pub open spec fn income_applies(x: XaverView, caller: AccountId) -> bool {
    caller == x.operator && x.status == 0
}

/// The income that `income` credits to each liquid stake.
pub open spec fn income_per_staker(x: XaverView, amount: u128) -> int {
    (amount * x.share) / (x.maximum_stakes as int)
}

/// `s` after a credit of `per`, if it is liquid (status 1).
pub open spec fn credited(s: StakeView, per: int) -> StakeView {
    if s.status == 1 {
        StakeView { accumulated_income: (s.accumulated_income + per) as u128, ..s }
    } else {
        s
    }
}

/// Whether some of `stakes` is liquid (status 1).
pub open spec fn has_liquid(stakes: Seq<StakeView>) -> bool {
    exists|i: int| 0 <= i < stakes.len() && stakes[i].status == 1
}

/// The inputs on which `income` computes without dividing by zero or
/// overflowing. Where it credits nothing (no liquid stake) it computes
/// nothing, so every input fits.
pub open spec fn income_fits_spec(x: XaverView, caller: AccountId, amount: u128) -> bool {
    income_applies(x, caller) && has_liquid(x.stakes) ==> {
        &&& x.maximum_stakes > 0
        &&& amount * x.share <= u128::MAX
        &&& forall|i: int|
            0 <= i < x.stakes.len() && x.stakes[i].status == 1 ==> x.stakes[i].accumulated_income
                + income_per_staker(x, amount) <= u128::MAX
    }
}

/// `income`: the operator credits `(amount * share) / maximum_stakes` to each
/// liquid stake of an open ledger.
pub open spec fn income_spec(x: XaverView, caller: AccountId, amount: u128) -> (
    XaverView,
    XaverTransactionStatus,
) {
    if caller != x.operator {
        (x, failed(Error::BadOrigin))
    } else if x.status != 0 {
        (x, failed(Error::XaverIsClose))
    } else {
        let per = income_per_staker(x, amount);
        (
            XaverView {
                stakes: Seq::new(x.stakes.len(), |i: int| credited(x.stakes[i], per)),
                ..x
            },
            succeeded(Success::IncomeCreditSuccess),
        )
    }
}

/// The index of the first stake held by `account`, as `position` gives it.
fn find_stake(stakes: &Vec<Stake>, account: &AccountId) -> (r: Option<usize>)
    ensures
        match r {
            Some(i) => {
                &&& position(view_stakes(stakes@), *account) == Some(i as int)
                &&& i < stakes@.len()
                &&& stakes@[i as int].account == *account
            },
            None => position(view_stakes(stakes@), *account) is None,
        },
{
    let ghost vs = view_stakes(stakes@);
    proof {
        lemma_position(vs, *account);
    }
    let n = stakes.len();
    let mut i: usize = 0;
    while i < n
        invariant
            n == stakes@.len(),
            vs == view_stakes(stakes@),
            0 <= i <= n,
            forall|j: int| 0 <= j < i ==> vs[j].account != *account,
            match position(vs, *account) {
                Some(k) => {
                    &&& 0 <= k < vs.len()
                    &&& vs[k].account == *account
                    &&& forall|j: int| 0 <= j < k ==> vs[j].account != *account
                },
                None => forall|j: int| 0 <= j < vs.len() ==> vs[j].account != *account,
            },
        decreases n - i,
    {
        if stakes[i].account == *account {
            assert(vs[i as int].account == *account);
            return Some(i);
        }
        i += 1;
    }
    None
}

/// Whether some stake is liquid.
fn any_liquid(stakes: &Vec<Stake>) -> (r: bool)
    ensures
        r == has_liquid(view_stakes(stakes@)),
{
    let n = stakes.len();
    let mut i: usize = 0;
    while i < n
        invariant
            n == stakes@.len(),
            0 <= i <= n,
            forall|j: int| 0 <= j < i ==> view_stakes(stakes@)[j].status != 1,
        decreases n - i,
    {
        if stakes[i].status == 1 {
            assert(view_stakes(stakes@)[i as int].status == 1);
            return true;
        }
        i += 1;
    }
    false
}

/// An event of `caller` with `status`.
fn event(caller: AccountId, status: XaverTransactionStatus) -> (r: XaverEvent)
    ensures
        r.operator == caller,
        r.status == status,
{
    XaverEvent { operator: caller, status }
}

impl Stake {
    /// A copy of this stake.
    pub fn duplicate(&self) -> (r: Stake)
        ensures
            r@ == self@,
    {
        let tx_hash = self.tx_hash.clone();
        assert(tx_hash@ =~= self.tx_hash@);
        Stake {
            account: self.account,
            tx_hash,
            accumulated_income: self.accumulated_income,
            cessation_block: self.cessation_block,
            status: self.status,
        }
    }
}

impl Xaver {
    /// Create new xaver; `caller` becomes both owner and operator.
    pub fn new(caller: AccountId, asset_id: u128, stable_asset_id: u128, maximum_stakes: u16) -> (r:
        Self)
        ensures
            r@ == initial(caller, asset_id, stable_asset_id, maximum_stakes),
            wf(r@),
    {
        let r = Xaver {
            asset_id,
            stable_asset_id,
            owner: caller,
            operator: caller,
            price: 0u16,
            share: 0u16,
            maximum_stakes,
            stakes: Vec::new(),
            status: 0u8,
        };
        assert(r@.stakes =~= Seq::<StakeView>::empty());
        r
    }

    /// Default setup: a ledger with zero asset ids and no room for stakes.
    pub fn default(caller: AccountId) -> (r: Self)
        ensures
            r@ == initial(caller, 0, 0, 0),
            wf(r@),
    {
        Self::new(caller, 0u128, 0u128, 0u16)
    }

    /// Setup xaver. The setup deletes all existing stakers.
    pub fn setup(
        &mut self,
        caller: AccountId,
        asset_id: u128,
        stable_asset_id: u128,
        operator: AccountId,
        price: u16,
        share: u16,
        maximum_stakes: u16,
    ) -> (r: XaverEvent)
        ensures
            final(self)@ == setup_spec(
                old(self)@,
                caller,
                asset_id,
                stable_asset_id,
                operator,
                price,
                share,
                maximum_stakes,
            ).0,
            r.status == setup_spec(
                old(self)@,
                caller,
                asset_id,
                stable_asset_id,
                operator,
                price,
                share,
                maximum_stakes,
            ).1,
            r.operator == caller,
            wf(old(self)@) ==> wf(final(self)@),
    {
        proof {
            let x = self@;
            if wf(x) {
                law_setup_clears_stakes(
                    x,
                    caller,
                    asset_id,
                    stable_asset_id,
                    operator,
                    price,
                    share,
                    maximum_stakes,
                    caller,
                );
            }
        }
        if caller != self.owner {
            return event(caller, XaverTransactionStatus::EmitError(Error::BadOrigin));
        }
        self.asset_id = asset_id;
        self.stable_asset_id = stable_asset_id;
        self.operator = operator;
        self.price = price;
        self.share = share;
        self.maximum_stakes = maximum_stakes;
        self.stakes = Vec::new();
        self.status = 0;
        assert(self@.stakes =~= Seq::<StakeView>::empty());
        event(caller, XaverTransactionStatus::EmitSuccess(Success::XaverSetupSuccess))
    }

    /// Get xaver information: asset id, stable asset id, owner, operator,
    /// price, share, maximum stakes and status.
    pub fn get(&self) -> (r: (u128, u128, AccountId, AccountId, u16, u16, u16, u8))
        ensures
            r == (
                self.asset_id,
                self.stable_asset_id,
                self.owner,
                self.operator,
                self.price,
                self.share,
                self.maximum_stakes,
                self.status,
            ),
    {
        (
            self.asset_id,
            self.stable_asset_id,
            self.owner,
            self.operator,
            self.price,
            self.share,
            self.maximum_stakes,
            self.status,
        )
    }

    /// Close xaver
    pub fn close(&mut self, caller: AccountId) -> (r: XaverEvent)
        ensures
            final(self)@ == close_spec(old(self)@, caller).0,
            r.status == close_spec(old(self)@, caller).1,
            r.operator == caller,
            wf(old(self)@) ==> wf(final(self)@),
    {
        proof {
            let x = self@;
            if wf(x) {
                law_open_close_keep_stakes(x, caller);
            }
        }
        if caller != self.operator {
            return event(caller, XaverTransactionStatus::EmitError(Error::BadOrigin));
        }
        self.status = 1;
        event(caller, XaverTransactionStatus::EmitSuccess(Success::XaverCloseSuccess))
    }

    /// Open xaver
    pub fn open(&mut self, caller: AccountId) -> (r: XaverEvent)
        ensures
            final(self)@ == open_spec(old(self)@, caller).0,
            r.status == open_spec(old(self)@, caller).1,
            r.operator == caller,
            wf(old(self)@) ==> wf(final(self)@),
    {
        proof {
            let x = self@;
            if wf(x) {
                law_open_close_keep_stakes(x, caller);
            }
        }
        if caller != self.operator {
            return event(caller, XaverTransactionStatus::EmitError(Error::BadOrigin));
        }
        self.status = 0;
        event(caller, XaverTransactionStatus::EmitSuccess(Success::XaverOpenSuccess))
    }

    /// Stake to xaver: the operator registers `account`, whose payment the
    /// transaction `tx_hash` shows, at block `current_block`. On success the
    /// second result is the transfer of the receipt token to the staker, that
    /// the caller must dispatch.
    pub fn stake(
        &mut self,
        caller: AccountId,
        account: AccountId,
        tx_hash: Vec<u8>,
        current_block: u32,
    ) -> (r: (XaverEvent, Option<RuntimeCall>))
        ensures
            final(self)@ == stake_spec(old(self)@, caller, account, tx_hash@, current_block).0,
            r.0.status == stake_spec(old(self)@, caller, account, tx_hash@, current_block).1,
            r.1 == stake_spec(old(self)@, caller, account, tx_hash@, current_block).2,
            r.0.operator == caller,
            wf(old(self)@) ==> wf(final(self)@),
    {
        proof {
            let x = self@;
            if wf(x) {
                law_stake_then_get_staker(x, caller, account, tx_hash@, current_block, account);
            }
        }
        if caller != self.operator {
            return (event(caller, XaverTransactionStatus::EmitError(Error::BadOrigin)), None);
        }
        if self.status != 0 {
            return (event(caller, XaverTransactionStatus::EmitError(Error::XaverIsClose)), None);
        }
        if find_stake(&self.stakes, &account).is_some() {
            return (event(caller, XaverTransactionStatus::EmitError(Error::XaverStakeAlreadyExist)), None);
        }
        if self.stakes.len() >= self.maximum_stakes as usize {
            return (event(caller, XaverTransactionStatus::EmitError(Error::XaverStakingMaxOut)), None);
        }
        let new = Stake {
            account,
            tx_hash,
            accumulated_income: 0u128,
            cessation_block: current_block as u128 + STAKE_DURATION_BLOCKS,
            status: 1,
        };
        let ghost before = self.stakes@;
        self.stakes.push(new);
        assert(view_stakes(self.stakes@) =~= view_stakes(before).push(new@));
        let receipt = RuntimeCall::Assets(
            AssetsCall::Transfer { id: self.asset_id, target: account, amount: RECEIPT_AMOUNT },
        );
        (event(caller, XaverTransactionStatus::EmitSuccess(Success::StakingSuccess)), Some(receipt))
    }

    /// Unstake from xaver: the operator settles the stake of `account` at
    /// block `current_block`. On success the stake is removed and the second
    /// result is the transfer of its accumulated income, in the stable asset,
    /// that the caller must dispatch.
    pub fn unstake(&mut self, caller: AccountId, account: AccountId, current_block: u32) -> (r: (
        XaverEvent,
        Option<RuntimeCall>,
    ))
        ensures
            final(self)@ == unstake_spec(old(self)@, caller, account, current_block).0,
            r.0.status == unstake_spec(old(self)@, caller, account, current_block).1,
            r.1 == unstake_spec(old(self)@, caller, account, current_block).2,
            r.0.operator == caller,
            wf(old(self)@) ==> wf(final(self)@),
    {
        proof {
            let x = self@;
            if wf(x) {
                law_unstake_then_get_staker(x, caller, account, current_block, account);
            }
        }
        if caller != self.operator {
            return (event(caller, XaverTransactionStatus::EmitError(Error::BadOrigin)), None);
        }
        if self.status != 0 {
            return (event(caller, XaverTransactionStatus::EmitError(Error::XaverIsClose)), None);
        }
        let current = current_block as u128;
        match find_stake(&self.stakes, &account) {
            None => (event(caller, XaverTransactionStatus::EmitError(Error::XaverStakeNotFound)), None),
            Some(index) => {
                if current <= self.stakes[index].cessation_block {
                    return (
                        event(caller, XaverTransactionStatus::EmitError(Error::XaverStakeNotCeased)),
                        None,
                    );
                }
                let ghost before = self.stakes@;
                let removed = self.stakes.swap_remove(index);
                assert(view_stakes(self.stakes@) =~= swap_removed(view_stakes(before), index as int));
                let call = RuntimeCall::Assets(
                    AssetsCall::Transfer {
                        id: self.stable_asset_id,
                        target: account,
                        amount: removed.accumulated_income,
                    },
                );
                (event(caller, XaverTransactionStatus::EmitSuccess(Success::UnstakingSuccess)), Some(call))
            },
        }
    }

    /// Whether `income` may run on these inputs: it divides by zero or
    /// overflows on no other.
    pub fn income_fits(&self, caller: AccountId, amount: u128) -> (r: bool)
        ensures
            r == income_fits_spec(self@, caller, amount),
    {
        if caller != self.operator || self.status != 0 || !any_liquid(&self.stakes) {
            return true;
        }
        if self.maximum_stakes == 0 {
            return false;
        }
        let share = self.share as u128;
        if share > 0 && amount > u128::MAX / share {
            assert(amount * share > u128::MAX) by (nonlinear_arith)
                requires
                    share >= 1,
                    amount > u128::MAX / share,
            ;
            return false;
        }
        assert(amount * share <= u128::MAX) by (nonlinear_arith)
            requires
                share == 0 || amount <= u128::MAX / share,
        ;
        let per = (amount * share) / (self.maximum_stakes as u128);
        let n = self.stakes.len();
        let mut i: usize = 0;
        while i < n
            invariant
                n == self.stakes@.len(),
                0 <= i <= n,
                per == income_per_staker(self@, amount),
                income_applies(self@, caller),
                forall|j: int|
                    0 <= j < i && self@.stakes[j].status == 1 ==> self@.stakes[j].accumulated_income
                        + per <= u128::MAX,
            decreases n - i,
        {
            assert(self@.stakes[i as int] == self.stakes@[i as int]@);
            if self.stakes[i].status == 1 && self.stakes[i].accumulated_income > u128::MAX - per {
                assert(self@.stakes[i as int].accumulated_income + income_per_staker(self@, amount)
                    > u128::MAX);
                return false;
            }
            i += 1;
        }
        true
    }

    /// Credit to stakers: each liquid stake gains `(amount * share) /
    /// maximum_stakes`.
    pub fn income(&mut self, caller: AccountId, amount: u128) -> (r: XaverEvent)
        requires
            income_fits_spec(old(self)@, caller, amount),
        ensures
            final(self)@ == income_spec(old(self)@, caller, amount).0,
            r.status == income_spec(old(self)@, caller, amount).1,
            r.operator == caller,
            wf(old(self)@) ==> wf(final(self)@),
    {
        proof {
            let x = self@;
            if wf(x) {
                law_income_then_get_staker(x, caller, amount, caller);
            }
        }
        if caller != self.operator {
            return event(caller, XaverTransactionStatus::EmitError(Error::BadOrigin));
        }
        if self.status != 0 {
            return event(caller, XaverTransactionStatus::EmitError(Error::XaverIsClose));
        }
        if !any_liquid(&self.stakes) {
            assert(self@.stakes =~= Seq::new(
                self@.stakes.len(),
                |k: int| credited(self@.stakes[k], income_per_staker(self@, amount)),
            ));
            return event(caller, XaverTransactionStatus::EmitSuccess(Success::IncomeCreditSuccess));
        }
        let per = (amount * (self.share as u128)) / (self.maximum_stakes as u128);
        let ghost old_stakes = self@.stakes;
        let n = self.stakes.len();
        let mut i: usize = 0;
        while i < n
            invariant
                n == self.stakes@.len(),
                n == old_stakes.len(),
                0 <= i <= n,
                per == income_per_staker(old(self)@, amount),
                old_stakes == old(self)@.stakes,
                self.operator == old(self).operator,
                self.status == old(self).status,
                forall|j: int|
                    0 <= j < n && old_stakes[j].status == 1 ==> old_stakes[j].accumulated_income
                        + per <= u128::MAX,
                forall|j: int| 0 <= j < i ==> self@.stakes[j] == credited(old_stakes[j], per as int),
                forall|j: int| i <= j < n ==> self@.stakes[j] == old_stakes[j],
                self@ == (XaverView { stakes: self@.stakes, ..old(self)@ }),
            decreases n - i,
        {
            assert(self@.stakes[i as int] == self.stakes@[i as int]@);
            if self.stakes[i].status == 1 {
                let ghost before = self.stakes@;
                assert(old_stakes[i as int].accumulated_income + per <= u128::MAX);
                let total = self.stakes[i].accumulated_income + per;
                self.stakes[i].accumulated_income = total;
                assert(view_stakes(self.stakes@) =~= view_stakes(before).update(
                    i as int,
                    credited(old_stakes[i as int], per as int),
                ));
            }
            i += 1;
        }
        assert(self@.stakes =~= Seq::new(
            old_stakes.len(),
            |k: int| credited(old_stakes[k], income_per_staker(old(self)@, amount)),
        ));
        event(caller, XaverTransactionStatus::EmitSuccess(Success::IncomeCreditSuccess))
    }

    /// Get staker information: the stake that `account` holds, if any.
    pub fn get_staker(&self, account: AccountId) -> (r: Option<Stake>)
        ensures
            match r {
                Some(s) => staker(self@, account) == Some(s@),
                None => staker(self@, account) is None,
            },
    {
        match find_stake(&self.stakes, &account) {
            Some(i) => Some(self.stakes[i].duplicate()),
            None => None,
        }
    }
}

} // verus!
