//! The stake proxy: one instance per participant.
//!
//! The proxy owns the participant's low-level counters — `bonded`
//! principal, `compounded` rewards, and the time-gated unbonding queue —
//! and turns router intents into native staking instructions.  Every
//! operation demands the configured router as caller and leaves the
//! state untouched on any error.

use vstd::prelude::*;

verus! {

use crate::coin::{Coin, MessageInfo};
use crate::ratio::{
    RATIO_ONE, from_ratio, lemma_complement_split, lemma_ratio_of_le_one, lemma_scale_down,
    mul_floor, ratio_mul, ratio_of,
};
use vstd::arithmetic::div_mod::lemma_div_nonincreasing;
use vstd::arithmetic::mul::lemma_mul_inequality;

/// Static configuration of one proxy, copied from the router at
/// provisioning time so the proxy is self-contained.
#[derive(Debug, PartialEq, Eq)]
pub struct Config {
    /// The participant who owns this proxy.
    pub owner: String,
    /// The router: the only address allowed to call.
    pub admin: String,
    /// Denomination of the staked native asset.
    pub denom: String,
    /// Recipient of the protocol commission.
    pub community_pool: String,
    /// Seconds an undelegated amount waits before it is payable.
    pub unbond_period: u64,
    /// Commission rate in atomics of `RATIO_ONE`; below 1.0.
    pub commission_rate: u128,
}

/// One entry of the unbonding queue: an amount undelegated from a
/// validator at a block time, payable once the unbond period has passed.
#[derive(Debug, PartialEq, Eq)]
pub struct Unbonded {
    pub amount: u128,
    pub date: u64,
    pub validator: String,
}

/// What the router hands to a new proxy at instantiation.
pub struct InstantiateMsg {
    pub denom: String,
    pub owner: String,
    pub unbond_period: u64,
    pub community_pool: String,
    pub commission_rate: u128,
}

/// Operations a proxy accepts, all router-originated.
#[derive(Debug, PartialEq, Eq)]
pub enum ExecuteMsg {
    Stake { validator: String },
    Unstake { validator: String, amount: u128 },
    Restake { from: String, to: String, amount: u128 },
    Withdraw {},
    Claim { validator: String },
    Compound { validator: String, amount: u128 },
    Decompound { validator: String, amount: u128 },
}

/// Read-only queries against a proxy.
pub enum QueryMsg {
    ConfigInfo {},
    Unbondings {},
    Rewards {},
}

/// Why a proxy operation was rejected.
#[derive(Debug, PartialEq, Eq)]
pub enum ContractError {
    /// The caller is not the configured router.
    UnknownUser {},
    /// The attached denomination is not the staked asset.
    UnstakeableTokenSent { denom: String },
    /// Nothing in the unbonding queue has matured yet.
    InvalidZeroAmount {},
    /// A decompound asks for more than the compounded total.
    InvalidUnstakeAmount {},
}

/// An outbound instruction for the host chain: native staking
/// operations and bank transfers, applied atomically with the call
/// that produced them.
#[derive(Debug, PartialEq, Eq)]
pub enum ProxyInstruction {
    Delegate { validator: String, amount: Coin },
    Undelegate { validator: String, amount: Coin },
    Redelegate { from: String, to: String, amount: Coin },
    WithdrawReward { validator: String },
    Send { to_address: String, amount: Coin },
}

/// The owned state of one proxy.
pub struct Proxy {
    pub config: Config,
    /// Currently delegated principal.
    pub bonded: u128,
    /// Reward amount already redelegated; physically part of `bonded`'s
    /// delegations but tracked apart.
    pub compounded: u128,
    /// The unbonding queue, append-only until a maturity sweep.
    pub unbonded: Vec<Unbonded>,
}

/// Sum of all queued amounts.
pub open spec fn unbonded_total(q: Seq<Unbonded>) -> int
    decreases q.len(),
{
    if q.len() == 0 {
        0
    } else {
        unbonded_total(q.drop_last()) + q.last().amount
    }
}

/// An entry is matured once the unbond period has fully passed.
pub open spec fn is_matured(e: Unbonded, now: u64, period: u64) -> bool {
    e.date + period <= now
}

/// Sum of the matured amounts only.
pub open spec fn matured_total(q: Seq<Unbonded>, now: u64, period: u64) -> int
    decreases q.len(),
{
    if q.len() == 0 {
        0
    } else {
        matured_total(q.drop_last(), now, period) + if is_matured(q.last(), now, period) {
            q.last().amount as int
        } else {
            0
        }
    }
}

/// The queue after a maturity sweep: the pending entries, in order.
pub open spec fn pending_after(q: Seq<Unbonded>, now: u64, period: u64) -> Seq<Unbonded>
    decreases q.len(),
{
    if q.len() == 0 {
        Seq::empty()
    } else {
        pending_after(q.drop_last(), now, period) + if is_matured(q.last(), now, period) {
            Seq::empty()
        } else {
            seq![q.last()]
        }
    }
}

/// A sum of machine amounts is never negative.
proof fn lemma_total_nonneg(q: Seq<Unbonded>)
    ensures
        0 <= unbonded_total(q),
    decreases q.len(),
{
    if q.len() > 0 {
        lemma_total_nonneg(q.drop_last());
    }
}

/// The matured part never exceeds the whole queue, and neither sum is
/// negative.
pub proof fn lemma_matured_le_total(q: Seq<Unbonded>, now: u64, period: u64)
    ensures
        0 <= matured_total(q, now, period) <= unbonded_total(q),
    decreases q.len(),
{
    if q.len() > 0 {
        lemma_matured_le_total(q.drop_last(), now, period);
    }
}

/// A sweep removes exactly the matured amounts: what stays pending sums
/// to the old total minus the matured total.
pub proof fn lemma_pending_total(q: Seq<Unbonded>, now: u64, period: u64)
    ensures
        unbonded_total(pending_after(q, now, period)) == unbonded_total(q) - matured_total(
            q,
            now,
            period,
        ),
    decreases q.len(),
{
    if q.len() > 0 {
        lemma_pending_total(q.drop_last(), now, period);
        let p = pending_after(q.drop_last(), now, period);
        if is_matured(q.last(), now, period) {
            assert(pending_after(q, now, period) =~= p);
        } else {
            assert(pending_after(q, now, period) =~= p.push(q.last()));
            assert(pending_after(q, now, period).drop_last() =~= p);
        }
    }
}

/// A second sweep at the same instant finds nothing: every entry kept
/// by a sweep is still pending, so its matured sum is zero and an
/// immediate repeat withdrawal cannot pay out again.
pub proof fn lemma_sweep_idempotent(q: Seq<Unbonded>, now: u64, period: u64)
    ensures
        matured_total(pending_after(q, now, period), now, period) == 0,
    decreases q.len(),
{
    if q.len() > 0 {
        lemma_sweep_idempotent(q.drop_last(), now, period);
        let p = pending_after(q.drop_last(), now, period);
        if is_matured(q.last(), now, period) {
            assert(pending_after(q, now, period) =~= p);
        } else {
            assert(pending_after(q, now, period) =~= p.push(q.last()));
            assert(pending_after(q, now, period).drop_last() =~= p);
        }
    }
}

/// **Maturity gate.**  An entry queued at time `t` counts toward the
/// matured sum exactly when the evaluation time has reached
/// `t + period`; one tick earlier it contributes nothing.
pub proof fn lemma_maturity_gate(e: Unbonded, now: u64, period: u64)
    ensures
        now >= e.date + period ==> matured_total(seq![e], now, period) == e.amount,
        now < e.date + period ==> matured_total(seq![e], now, period) == 0,
{
    let s = seq![e];
    assert(s.last() == e);
    assert(s.drop_last() =~= Seq::<Unbonded>::empty());
    assert(matured_total(s.drop_last(), now, period) == 0);
    assert(matured_total(s, now, period) == if is_matured(e, now, period) {
        e.amount as int
    } else {
        0
    });
}

/// One step of a prefix: extending the prefix by entry `i` adds that
/// entry's amount to the running sums.
proof fn lemma_take_step(q: Seq<Unbonded>, i: int, now: u64, period: u64)
    requires
        0 <= i < q.len(),
    ensures
        unbonded_total(q.take(i + 1)) == unbonded_total(q.take(i)) + q[i].amount,
        matured_total(q.take(i + 1), now, period) == matured_total(q.take(i), now, period)
            + if is_matured(q[i], now, period) {
            q[i].amount as int
        } else {
            0
        },
        pending_after(q.take(i + 1), now, period) == if is_matured(q[i], now, period) {
            pending_after(q.take(i), now, period)
        } else {
            pending_after(q.take(i), now, period).push(q[i])
        },
{
    assert(q.take(i + 1).drop_last() =~= q.take(i));
    assert(q.take(i + 1).last() == q[i]);
    if is_matured(q[i], now, period) {
        assert(pending_after(q.take(i + 1), now, period) =~= pending_after(
            q.take(i),
            now,
            period,
        ));
    } else {
        assert(pending_after(q.take(i + 1), now, period) =~= pending_after(
            q.take(i),
            now,
            period,
        ).push(q[i]));
    }
}

/// A prefix never sums to more than the whole queue.
proof fn lemma_take_le(q: Seq<Unbonded>, i: int)
    requires
        0 <= i <= q.len(),
    ensures
        0 <= unbonded_total(q.take(i)) <= unbonded_total(q),
    decreases q.len() - i,
{
    lemma_total_nonneg(q.take(i));
    if i == q.len() {
        assert(q.take(i) =~= q);
    } else {
        lemma_take_step(q, i, 0, 0);
        lemma_take_le(q, i + 1);
    }
}

impl Proxy {
    /// Internal consistency: the commission rate is a true rate below
    /// 1.0 and the queued amounts sum within machine range.
    pub open spec fn wf(self) -> bool {
        &&& self.config.commission_rate < RATIO_ONE
        &&& unbonded_total(self.unbonded@) <= u128::MAX
    }
}

/// How a stake call must behave: only the router may call, the attached
/// denomination must be the staked asset, and on success the received
/// amount joins `bonded` and is delegated onward in full.
pub open spec fn stake_spec(
    pre: Proxy,
    post: Proxy,
    sender: Seq<char>,
    funds: Seq<Coin>,
    validator: String,
    r: Result<Vec<ProxyInstruction>, ContractError>,
) -> bool {
    if sender != pre.config.admin@ {
        r == Result::<Vec<ProxyInstruction>, ContractError>::Err(ContractError::UnknownUser {})
            && post == pre
    } else if funds[0].denom@ != pre.config.denom@ {
        r == Result::<Vec<ProxyInstruction>, ContractError>::Err(
            ContractError::UnstakeableTokenSent { denom: funds[0].denom },
        ) && post == pre
    } else {
        &&& post.config == pre.config
        &&& post.bonded == pre.bonded + funds[0].amount
        &&& post.compounded == pre.compounded
        &&& post.unbonded == pre.unbonded
        &&& r matches Ok(instrs) && instrs@ =~= seq![
            ProxyInstruction::Delegate {
                validator,
                amount: Coin { denom: funds[0].denom, amount: funds[0].amount },
            },
        ]
    }
}

/// How an unstake call must behave: the amount is queued at the current
/// block time, `bonded` drops (saturating at zero, as the native layer
/// owns the real bound), and the amount is undelegated onward.
pub open spec fn unstake_spec(
    pre: Proxy,
    post: Proxy,
    sender: Seq<char>,
    now: u64,
    validator: String,
    amount: u128,
    r: Result<Vec<ProxyInstruction>, ContractError>,
) -> bool {
    if sender != pre.config.admin@ {
        r == Result::<Vec<ProxyInstruction>, ContractError>::Err(ContractError::UnknownUser {})
            && post == pre
    } else {
        &&& post.config == pre.config
        &&& post.bonded == if pre.bonded >= amount {
            (pre.bonded - amount) as u128
        } else {
            0u128
        }
        &&& post.compounded == pre.compounded
        &&& post.unbonded@ == pre.unbonded@.push(Unbonded { amount, date: now, validator })
        &&& r matches Ok(instrs) && instrs@ =~= seq![
            ProxyInstruction::Undelegate {
                validator,
                amount: Coin { denom: pre.config.denom, amount },
            },
        ]
    }
}

/// How a decompound call must behave: the symmetric bookkeeping move
/// of a compound.  The amount leaves `compounded`, waits out the unbond
/// period like any unstaked principal, and is undelegated onward.  A
/// request above the compounded total is a validation error.
pub open spec fn decompound_spec(
    pre: Proxy,
    post: Proxy,
    sender: Seq<char>,
    now: u64,
    validator: String,
    amount: u128,
    r: Result<Vec<ProxyInstruction>, ContractError>,
) -> bool {
    if sender != pre.config.admin@ {
        r == Result::<Vec<ProxyInstruction>, ContractError>::Err(ContractError::UnknownUser {})
            && post == pre
    } else if amount > pre.compounded {
        r == Result::<Vec<ProxyInstruction>, ContractError>::Err(
            ContractError::InvalidUnstakeAmount {},
        ) && post == pre
    } else {
        &&& post.config == pre.config
        &&& post.bonded == pre.bonded
        &&& post.compounded == pre.compounded - amount
        &&& post.unbonded@ == pre.unbonded@.push(Unbonded { amount, date: now, validator })
        &&& r matches Ok(instrs) && instrs@ =~= seq![
            ProxyInstruction::Undelegate {
                validator,
                amount: Coin { denom: pre.config.denom, amount },
            },
        ]
    }
}

/// The commission owed alongside a compounded amount, grossed up so
/// that the later withdrawal split does not charge the participant
/// twice: `amount * rate / (1 - rate)`, each step rounded toward zero.
pub open spec fn grossed_commission(amount: int, rate: int) -> int {
    ratio_mul(amount, ratio_of(rate, RATIO_ONE - rate))
}

/// How a compound call must behave: the amount joins `compounded` and
/// is delegated to the validator, and the grossed-up commission is sent
/// to the community pool out of the proxy's accumulated reward balance.
pub open spec fn compound_spec(
    pre: Proxy,
    post: Proxy,
    sender: Seq<char>,
    validator: String,
    amount: u128,
    r: Result<Vec<ProxyInstruction>, ContractError>,
) -> bool {
    if sender != pre.config.admin@ {
        r == Result::<Vec<ProxyInstruction>, ContractError>::Err(ContractError::UnknownUser {})
            && post == pre
    } else {
        &&& post.config == pre.config
        &&& post.bonded == pre.bonded
        &&& post.compounded == pre.compounded + amount
        &&& post.unbonded == pre.unbonded
        &&& r matches Ok(instrs) && instrs@ =~= seq![
            ProxyInstruction::Delegate {
                validator,
                amount: Coin { denom: pre.config.denom, amount },
            },
            ProxyInstruction::Send {
                to_address: pre.config.community_pool,
                amount: Coin {
                    denom: pre.config.denom,
                    amount: grossed_commission(
                        amount as int,
                        pre.config.commission_rate as int,
                    ) as u128,
                },
            },
        ]
    }
}

/// How a restake call must behave: a pure redelegation instruction;
/// principal stays bonded, so no counter moves.
pub open spec fn restake_spec(
    pre: Proxy,
    sender: Seq<char>,
    from: String,
    to: String,
    amount: u128,
    r: Result<Vec<ProxyInstruction>, ContractError>,
) -> bool {
    if sender != pre.config.admin@ {
        r == Result::<Vec<ProxyInstruction>, ContractError>::Err(ContractError::UnknownUser {})
    } else {
        r matches Ok(instrs) && instrs@ =~= seq![
            ProxyInstruction::Redelegate {
                from,
                to,
                amount: Coin { denom: pre.config.denom, amount },
            },
        ]
    }
}

/// How a claim call must behave: a bare reward-withdrawal instruction
/// for one validator; no counter moves.
pub open spec fn claim_spec(
    pre: Proxy,
    sender: Seq<char>,
    validator: String,
    r: Result<Vec<ProxyInstruction>, ContractError>,
) -> bool {
    if sender != pre.config.admin@ {
        r == Result::<Vec<ProxyInstruction>, ContractError>::Err(ContractError::UnknownUser {})
    } else {
        r matches Ok(instrs) && instrs@ =~= seq![
            ProxyInstruction::WithdrawReward { validator },
        ]
    }
}

/// How a withdraw call must behave — the reward-distribution split.
///
/// From a consistent snapshot of `bonded`, the pre-sweep queue and the
/// held `balance`: the matured amounts `m` leave the queue exactly once;
/// the reward ratio is `m / (bonded + queue total)`; the owner receives
/// `m` plus the non-commission share of the yield, the community pool
/// the commission share; and the two payouts together never exceed the
/// held balance.
pub open spec fn withdraw_spec(
    pre: Proxy,
    post: Proxy,
    sender: Seq<char>,
    now: u64,
    balance: u128,
    r: Result<Vec<ProxyInstruction>, ContractError>,
) -> bool {
    let period = pre.config.unbond_period;
    let m = matured_total(pre.unbonded@, now, period);
    let total = unbonded_total(pre.unbonded@);
    let yield_part = ratio_mul(balance - m, ratio_of(m, pre.bonded + total));
    let owner_pay = m + ratio_mul(yield_part, RATIO_ONE - pre.config.commission_rate);
    let commission = ratio_mul(yield_part, pre.config.commission_rate as int);
    if sender != pre.config.admin@ {
        r == Result::<Vec<ProxyInstruction>, ContractError>::Err(ContractError::UnknownUser {})
            && post == pre
    } else if m == 0 {
        r == Result::<Vec<ProxyInstruction>, ContractError>::Err(
            ContractError::InvalidZeroAmount {},
        ) && post == pre
    } else {
        &&& post.config == pre.config
        &&& post.bonded == pre.bonded
        &&& post.compounded == pre.compounded
        &&& post.unbonded@ == pending_after(pre.unbonded@, now, period)
        &&& r matches Ok(instrs) && instrs@ =~= seq![
            ProxyInstruction::Send {
                to_address: pre.config.owner,
                amount: Coin { denom: pre.config.denom, amount: owner_pay as u128 },
            },
            ProxyInstruction::Send {
                to_address: pre.config.community_pool,
                amount: Coin { denom: pre.config.denom, amount: commission as u128 },
            },
        ]
        &&& owner_pay + commission <= balance
    }
}

/// What a withdrawal evaluated now would pay the owner: zero while
/// nothing has matured, else the matured total plus the non-commission
/// share of the yield.
pub open spec fn rewards_amount(p: Proxy, now: u64, balance: u128) -> int {
    let m = matured_total(p.unbonded@, now, p.config.unbond_period);
    if m == 0 {
        0
    } else {
        let yield_part = ratio_mul(balance - m, ratio_of(m, p.bonded + unbonded_total(p.unbonded@)));
        m + ratio_mul(yield_part, RATIO_ONE - p.config.commission_rate)
    }
}

impl Proxy {
    /// Set up a fresh proxy for `msg.owner`, with the caller — the
    /// router — as its only authorized user and all counters at zero.
    pub fn instantiate(msg: InstantiateMsg, sender: String) -> (p: Proxy)
        requires
            msg.commission_rate < RATIO_ONE,
        ensures
            p.config.owner == msg.owner,
            p.config.admin == sender,
            p.config.denom == msg.denom,
            p.config.community_pool == msg.community_pool,
            p.config.unbond_period == msg.unbond_period,
            p.config.commission_rate == msg.commission_rate,
            p.bonded == 0,
            p.compounded == 0,
            p.unbonded@.len() == 0,
            p.wf(),
    {
        Proxy {
            config: Config {
                owner: msg.owner,
                admin: sender,
                denom: msg.denom,
                community_pool: msg.community_pool,
                unbond_period: msg.unbond_period,
                commission_rate: msg.commission_rate,
            },
            bonded: 0,
            compounded: 0,
            unbonded: Vec::new(),
        }
    }

    /// Delegate the received funds to `validator` and count them as
    /// bonded principal.
    pub fn stake(&mut self, sender: &String, funds: &Vec<Coin>, validator: String) -> (r: Result<
        Vec<ProxyInstruction>,
        ContractError,
    >)
        requires
            old(self).wf(),
            funds@.len() >= 1,
            old(self).bonded + funds@[0].amount <= u128::MAX,
        ensures
            stake_spec(*old(self), *final(self), sender@, funds@, validator, r),
            final(self).wf(),
    {
        if !string_eq(sender, &self.config.admin) {
            return Err(ContractError::UnknownUser {});
        }
        let received = &funds[0];
        if !string_eq(&received.denom, &self.config.denom) {
            return Err(ContractError::UnstakeableTokenSent { denom: received.denom.clone() });
        }
        self.bonded = self.bonded + received.amount;
        let mut instrs: Vec<ProxyInstruction> = Vec::new();
        instrs.push(
            ProxyInstruction::Delegate {
                validator,
                amount: Coin { denom: received.denom.clone(), amount: received.amount },
            },
        );
        Ok(instrs)
    }

    /// Queue `amount` for unbonding as of `now`, drop it from `bonded`,
    /// and undelegate it from `validator`.
    pub fn unstake(&mut self, sender: &String, now: u64, validator: String, amount: u128) -> (r:
        Result<Vec<ProxyInstruction>, ContractError>)
        requires
            old(self).wf(),
            unbonded_total(old(self).unbonded@) + amount <= u128::MAX,
        ensures
            unstake_spec(*old(self), *final(self), sender@, now, validator, amount, r),
            final(self).wf(),
    {
        if !string_eq(sender, &self.config.admin) {
            return Err(ContractError::UnknownUser {});
        }
        let entry_validator = validator.clone();
        self.unbonded.push(Unbonded { amount, date: now, validator: entry_validator });
        self.bonded = if self.bonded >= amount {
            self.bonded - amount
        } else {
            0
        };
        let mut instrs: Vec<ProxyInstruction> = Vec::new();
        instrs.push(
            ProxyInstruction::Undelegate {
                validator,
                amount: Coin { denom: self.config.denom.clone(), amount },
            },
        );
        proof {
            assert(unbonded_total(self.unbonded@) == unbonded_total(old(self).unbonded@)
                + amount) by {
                assert(self.unbonded@.drop_last() =~= old(self).unbonded@);
            }
        }
        Ok(instrs)
    }

    /// Move `amount` out of `compounded` into the unbonding queue as of
    /// `now`, and undelegate it from `validator`.
    pub fn decompound(&mut self, sender: &String, now: u64, validator: String, amount: u128) -> (r:
        Result<Vec<ProxyInstruction>, ContractError>)
        requires
            old(self).wf(),
            unbonded_total(old(self).unbonded@) + amount <= u128::MAX,
        ensures
            decompound_spec(*old(self), *final(self), sender@, now, validator, amount, r),
            final(self).wf(),
    {
        if !string_eq(sender, &self.config.admin) {
            return Err(ContractError::UnknownUser {});
        }
        if amount > self.compounded {
            return Err(ContractError::InvalidUnstakeAmount {});
        }
        self.compounded = self.compounded - amount;
        let entry_validator = validator.clone();
        self.unbonded.push(Unbonded { amount, date: now, validator: entry_validator });
        let mut instrs: Vec<ProxyInstruction> = Vec::new();
        instrs.push(
            ProxyInstruction::Undelegate {
                validator,
                amount: Coin { denom: self.config.denom.clone(), amount },
            },
        );
        proof {
            assert(unbonded_total(self.unbonded@) == unbonded_total(old(self).unbonded@)
                + amount) by {
                assert(self.unbonded@.drop_last() =~= old(self).unbonded@);
            }
        }
        Ok(instrs)
    }

    /// Count `amount` as compounded, delegate it to `validator`, and
    /// route the grossed-up commission to the community pool.
    pub fn compound(&mut self, sender: &String, validator: String, amount: u128) -> (r: Result<
        Vec<ProxyInstruction>,
        ContractError,
    >)
        requires
            old(self).wf(),
            old(self).compounded + amount <= u128::MAX,
            grossed_commission(amount as int, old(self).config.commission_rate as int)
                <= u128::MAX,
        ensures
            compound_spec(*old(self), *final(self), sender@, validator, amount, r),
            final(self).wf(),
    {
        if !string_eq(sender, &self.config.admin) {
            return Err(ContractError::UnknownUser {});
        }
        self.compounded = self.compounded + amount;
        let rate = self.config.commission_rate;
        let one_minus = RATIO_ONE - rate;
        proof {
            lemma_mul_inequality(rate as int, RATIO_ONE as int, RATIO_ONE as int);
            lemma_div_nonincreasing(rate as int * RATIO_ONE as int, one_minus as int);
        }
        let grossed = from_ratio(rate, one_minus);
        let commission = mul_floor(amount, grossed);
        let mut instrs: Vec<ProxyInstruction> = Vec::new();
        instrs.push(
            ProxyInstruction::Delegate {
                validator,
                amount: Coin { denom: self.config.denom.clone(), amount },
            },
        );
        instrs.push(
            ProxyInstruction::Send {
                to_address: self.config.community_pool.clone(),
                amount: Coin { denom: self.config.denom.clone(), amount: commission },
            },
        );
        Ok(instrs)
    }

    /// Redelegate `amount` from one validator to another; the principal
    /// stays bonded.
    pub fn restake(&self, sender: &String, from: String, to: String, amount: u128) -> (r: Result<
        Vec<ProxyInstruction>,
        ContractError,
    >)
        ensures
            restake_spec(*self, sender@, from, to, amount, r),
    {
        if !string_eq(sender, &self.config.admin) {
            return Err(ContractError::UnknownUser {});
        }
        let mut instrs: Vec<ProxyInstruction> = Vec::new();
        instrs.push(
            ProxyInstruction::Redelegate {
                from,
                to,
                amount: Coin { denom: self.config.denom.clone(), amount },
            },
        );
        Ok(instrs)
    }

    /// Ask the chain to pay out the accrued delegator reward for one
    /// validator; no counter moves.
    pub fn claim(&self, sender: &String, validator: String) -> (r: Result<
        Vec<ProxyInstruction>,
        ContractError,
    >)
        ensures
            claim_spec(*self, sender@, validator, r),
    {
        if !string_eq(sender, &self.config.admin) {
            return Err(ContractError::UnknownUser {});
        }
        let mut instrs: Vec<ProxyInstruction> = Vec::new();
        instrs.push(ProxyInstruction::WithdrawReward { validator });
        Ok(instrs)
    }

    /// Sum of everything waiting in the unbonding queue.
    pub fn get_unbonded_amount(&self) -> (t: u128)
        requires
            self.wf(),
        ensures
            t == unbonded_total(self.unbonded@),
    {
        let ghost q = self.unbonded@;
        let n = self.unbonded.len();
        let mut total: u128 = 0;
        let mut i: usize = 0;
        while i < n
            invariant
                i <= n,
                n == q.len(),
                q == self.unbonded@,
                unbonded_total(q) <= u128::MAX,
                total == unbonded_total(q.take(i as int)),
            decreases n - i,
        {
            proof {
                lemma_take_step(q, i as int, 0, 0);
                lemma_take_le(q, i as int + 1);
            }
            total = total + self.unbonded[i].amount;
            i = i + 1;
        }
        proof {
            assert(q.take(n as int) =~= q);
        }
        total
    }

    /// Sum of the queue entries already matured at `now`.
    pub fn matured_amount(&self, now: u64) -> (m: u128)
        requires
            self.wf(),
        ensures
            m == matured_total(self.unbonded@, now, self.config.unbond_period),
    {
        let ghost q = self.unbonded@;
        let period = self.config.unbond_period;
        let n = self.unbonded.len();
        let mut matured: u128 = 0;
        let mut i: usize = 0;
        while i < n
            invariant
                i <= n,
                n == q.len(),
                q == self.unbonded@,
                period == self.config.unbond_period,
                unbonded_total(q) <= u128::MAX,
                matured == matured_total(q.take(i as int), now, period),
            decreases n - i,
        {
            proof {
                lemma_take_step(q, i as int, now, period);
                lemma_take_le(q, i as int + 1);
                lemma_matured_le_total(q.take(i as int + 1), now, period);
                lemma_matured_le_total(q.take(i as int), now, period);
            }
            let e = &self.unbonded[i];
            if e.date as u128 + period as u128 <= now as u128 {
                matured = matured + e.amount;
            }
            i = i + 1;
        }
        proof {
            assert(q.take(n as int) =~= q);
        }
        matured
    }

    /// Sweep the queue: drop every matured entry, keep the pending ones
    /// in order, and report the matured sum.
    fn resolve_unbondings(&mut self, now: u64) -> (m: u128)
        requires
            old(self).wf(),
        ensures
            m == matured_total(old(self).unbonded@, now, old(self).config.unbond_period),
            final(self).unbonded@ == pending_after(
                old(self).unbonded@,
                now,
                old(self).config.unbond_period,
            ),
            final(self).config == old(self).config,
            final(self).bonded == old(self).bonded,
            final(self).compounded == old(self).compounded,
            final(self).wf(),
    {
        let ghost q = self.unbonded@;
        let period = self.config.unbond_period;
        let n = self.unbonded.len();
        let mut matured: u128 = 0;
        let mut kept: Vec<Unbonded> = Vec::new();
        let mut i: usize = 0;
        while i < n
            invariant
                i <= n,
                n == q.len(),
                q == self.unbonded@,
                period == self.config.unbond_period,
                unbonded_total(q) <= u128::MAX,
                matured == matured_total(q.take(i as int), now, period),
                kept@ == pending_after(q.take(i as int), now, period),
            decreases n - i,
        {
            proof {
                lemma_take_step(q, i as int, now, period);
                lemma_take_le(q, i as int + 1);
                lemma_matured_le_total(q.take(i as int + 1), now, period);
                lemma_matured_le_total(q.take(i as int), now, period);
            }
            let e = &self.unbonded[i];
            if e.date as u128 + period as u128 <= now as u128 {
                matured = matured + e.amount;
            } else {
                kept.push(
                    Unbonded { amount: e.amount, date: e.date, validator: e.validator.clone() },
                );
            }
            i = i + 1;
        }
        proof {
            assert(q.take(n as int) =~= q);
            lemma_pending_total(q, now, period);
            lemma_matured_le_total(q, now, period);
        }
        self.unbonded = kept;
        matured
    }

    /// Pay out what has matured.  The caller supplies the proxy's
    /// current native-asset `balance` and the block time `now`; the
    /// split is computed from one consistent snapshot of `bonded`, the
    /// pre-sweep queue and that balance, and the queue is swept exactly
    /// once.
    pub fn withdraw(&mut self, sender: &String, now: u64, balance: u128) -> (r: Result<
        Vec<ProxyInstruction>,
        ContractError,
    >)
        requires
            old(self).wf(),
            old(self).bonded + unbonded_total(old(self).unbonded@) <= u128::MAX,
            matured_total(old(self).unbonded@, now, old(self).config.unbond_period) <= balance,
        ensures
            withdraw_spec(*old(self), *final(self), sender@, now, balance, r),
            final(self).wf(),
    {
        if !string_eq(sender, &self.config.admin) {
            return Err(ContractError::UnknownUser {});
        }
        let probe = self.matured_amount(now);
        if probe == 0 {
            return Err(ContractError::InvalidZeroAmount {});
        }
        let ghost q = self.unbonded@;
        let period = self.config.unbond_period;
        let total = self.get_unbonded_amount();
        let matured = self.resolve_unbondings(now);
        proof {
            lemma_matured_le_total(q, now, period);
        }
        let denom_sum = self.bonded + total;
        proof {
            lemma_ratio_of_le_one(matured as int, denom_sum as int);
        }
        let rate = from_ratio(matured, denom_sum);
        let extra = balance - matured;
        proof {
            lemma_scale_down(extra as int, rate as int, RATIO_ONE as int);
        }
        let yield_part = mul_floor(extra, rate);
        let one_minus = RATIO_ONE - self.config.commission_rate;
        proof {
            lemma_scale_down(yield_part as int, one_minus as int, RATIO_ONE as int);
            lemma_scale_down(yield_part as int, self.config.commission_rate as int, RATIO_ONE as int);
            lemma_complement_split(yield_part as int, self.config.commission_rate as int);
        }
        let owner_extra = mul_floor(yield_part, one_minus);
        let commission = mul_floor(yield_part, self.config.commission_rate);
        let owner_pay = matured + owner_extra;
        let mut instrs: Vec<ProxyInstruction> = Vec::new();
        instrs.push(
            ProxyInstruction::Send {
                to_address: self.config.owner.clone(),
                amount: Coin { denom: self.config.denom.clone(), amount: owner_pay },
            },
        );
        instrs.push(
            ProxyInstruction::Send {
                to_address: self.config.community_pool.clone(),
                amount: Coin { denom: self.config.denom.clone(), amount: commission },
            },
        );
        Ok(instrs)
    }

    /// What a withdrawal evaluated at `now` against `balance` would pay
    /// the owner; zero while nothing has matured.  Does not mutate.
    pub fn query_rewards(&self, now: u64, balance: u128) -> (r: u128)
        requires
            self.wf(),
            self.bonded + unbonded_total(self.unbonded@) <= u128::MAX,
            matured_total(self.unbonded@, now, self.config.unbond_period) <= balance,
        ensures
            r == rewards_amount(*self, now, balance),
    {
        let matured = self.matured_amount(now);
        if matured == 0 {
            return 0;
        }
        let total = self.get_unbonded_amount();
        proof {
            lemma_matured_le_total(self.unbonded@, now, self.config.unbond_period);
        }
        let denom_sum = self.bonded + total;
        proof {
            lemma_ratio_of_le_one(matured as int, denom_sum as int);
        }
        let rate = from_ratio(matured, denom_sum);
        let extra = balance - matured;
        proof {
            lemma_scale_down(extra as int, rate as int, RATIO_ONE as int);
        }
        let yield_part = mul_floor(extra, rate);
        let one_minus = RATIO_ONE - self.config.commission_rate;
        proof {
            lemma_scale_down(yield_part as int, one_minus as int, RATIO_ONE as int);
        }
        let owner_extra = mul_floor(yield_part, one_minus);
        matured + owner_extra
    }
}

/// Exact equality of two strings.
/// Answers to the read-only queries.
#[derive(Debug, PartialEq, Eq)]
pub enum QueryAnswer {
    ConfigInfo(Config),
    Unbondings(Vec<Unbonded>),
    Rewards(u128),
}

/// What each operation asks of its caller before it can run: at least
/// one attached coin where one is read, counters and queue totals that
/// stay within 128 bits, and a balance that covers the matured payout.
pub open spec fn execute_req(
    pre: Proxy,
    now: u64,
    balance: u128,
    funds: Seq<Coin>,
    msg: ExecuteMsg,
) -> bool {
    match msg {
        ExecuteMsg::Stake { .. } => funds.len() >= 1 && pre.bonded + funds[0].amount
            <= u128::MAX,
        ExecuteMsg::Unstake { amount, .. } => unbonded_total(pre.unbonded@) + amount
            <= u128::MAX,
        ExecuteMsg::Restake { .. } => true,
        ExecuteMsg::Withdraw { .. } => pre.bonded + unbonded_total(pre.unbonded@) <= u128::MAX
            && matured_total(pre.unbonded@, now, pre.config.unbond_period) <= balance,
        ExecuteMsg::Claim { .. } => true,
        ExecuteMsg::Compound { amount, .. } => pre.compounded + amount <= u128::MAX
            && grossed_commission(amount as int, pre.config.commission_rate as int)
            <= u128::MAX,
        ExecuteMsg::Decompound { amount, .. } => unbonded_total(pre.unbonded@) + amount
            <= u128::MAX,
    }
}

impl Proxy {
    /// One call, one state transition: dispatch a router intent.
    /// `now` is the block time and `balance` the proxy's native-asset
    /// balance, both supplied by the host.
    pub fn execute(&mut self, info: &MessageInfo, now: u64, balance: u128, msg: ExecuteMsg) -> (r:
        Result<Vec<ProxyInstruction>, ContractError>)
        requires
            old(self).wf(),
            execute_req(*old(self), now, balance, info.funds@, msg),
        ensures
            final(self).wf(),
            match msg {
                ExecuteMsg::Stake { validator } => stake_spec(
                    *old(self),
                    *final(self),
                    info.sender@,
                    info.funds@,
                    validator,
                    r,
                ),
                ExecuteMsg::Unstake { validator, amount } => unstake_spec(
                    *old(self),
                    *final(self),
                    info.sender@,
                    now,
                    validator,
                    amount,
                    r,
                ),
                ExecuteMsg::Restake { from, to, amount } => restake_spec(
                    *old(self),
                    info.sender@,
                    from,
                    to,
                    amount,
                    r,
                ) && *final(self) == *old(self),
                ExecuteMsg::Withdraw {  } => withdraw_spec(
                    *old(self),
                    *final(self),
                    info.sender@,
                    now,
                    balance,
                    r,
                ),
                ExecuteMsg::Claim { validator } => claim_spec(
                    *old(self),
                    info.sender@,
                    validator,
                    r,
                ) && *final(self) == *old(self),
                ExecuteMsg::Compound { validator, amount } => compound_spec(
                    *old(self),
                    *final(self),
                    info.sender@,
                    validator,
                    amount,
                    r,
                ),
                ExecuteMsg::Decompound { validator, amount } => decompound_spec(
                    *old(self),
                    *final(self),
                    info.sender@,
                    now,
                    validator,
                    amount,
                    r,
                ),
            },
    {
        match msg {
            ExecuteMsg::Stake { validator } => self.stake(&info.sender, &info.funds, validator),
            ExecuteMsg::Unstake { validator, amount } => self.unstake(
                &info.sender,
                now,
                validator,
                amount,
            ),
            ExecuteMsg::Restake { from, to, amount } => self.restake(
                &info.sender,
                from,
                to,
                amount,
            ),
            ExecuteMsg::Withdraw {  } => self.withdraw(&info.sender, now, balance),
            ExecuteMsg::Claim { validator } => self.claim(&info.sender, validator),
            ExecuteMsg::Compound { validator, amount } => self.compound(
                &info.sender,
                validator,
                amount,
            ),
            ExecuteMsg::Decompound { validator, amount } => self.decompound(
                &info.sender,
                now,
                validator,
                amount,
            ),
        }
    }

    /// The proxy's configuration, for the config query.
    pub fn query_config(&self) -> (c: &Config)
        ensures
            c == self.config,
    {
        &self.config
    }

    /// The unbonding queue, for the unbondings query.
    pub fn query_unbondings(&self) -> (u: &Vec<Unbonded>)
        ensures
            u == self.unbonded,
    {
        &self.unbonded
    }

    /// Answer a read-only query.  `now` and `balance` matter only for
    /// the rewards query, which prices a hypothetical withdrawal.
    pub fn query(&self, now: u64, balance: u128, msg: &QueryMsg) -> (a: QueryAnswer)
        requires
            self.wf(),
            (msg is Rewards) ==> self.bonded + unbonded_total(self.unbonded@) <= u128::MAX
                && matured_total(self.unbonded@, now, self.config.unbond_period) <= balance,
        ensures
            match msg {
                QueryMsg::ConfigInfo {  } => a matches QueryAnswer::ConfigInfo(c) && c
                    == self.config,
                QueryMsg::Unbondings {  } => a matches QueryAnswer::Unbondings(v) && v@
                    == self.unbonded@,
                QueryMsg::Rewards {  } => a == QueryAnswer::Rewards(
                    rewards_amount(*self, now, balance) as u128,
                ),
            },
    {
        match msg {
            QueryMsg::ConfigInfo {  } => QueryAnswer::ConfigInfo(clone_config(&self.config)),
            QueryMsg::Unbondings {  } => QueryAnswer::Unbondings(
                clone_unbondings(&self.unbonded),
            ),
            QueryMsg::Rewards {  } => QueryAnswer::Rewards(self.query_rewards(now, balance)),
        }
    }
}

/// A field-for-field copy of a configuration.
fn clone_config(c: &Config) -> (r: Config)
    ensures
        r == *c,
{
    Config {
        owner: c.owner.clone(),
        admin: c.admin.clone(),
        denom: c.denom.clone(),
        community_pool: c.community_pool.clone(),
        unbond_period: c.unbond_period,
        commission_rate: c.commission_rate,
    }
}

/// An entry-for-entry copy of an unbonding queue.
fn clone_unbondings(v: &Vec<Unbonded>) -> (r: Vec<Unbonded>)
    ensures
        r@ == v@,
{
    let mut r: Vec<Unbonded> = Vec::new();
    let mut i: usize = 0;
    while i < v.len()
        invariant
            i <= v@.len(),
            r@ == v@.take(i as int),
        decreases v@.len() - i,
    {
        let e = &v[i];
        r.push(Unbonded { amount: e.amount, date: e.date, validator: e.validator.clone() });
        proof {
            assert(r@ =~= v@.take(i as int + 1));
        }
        i = i + 1;
    }
    proof {
        assert(v@.take(v@.len() as int) =~= v@);
    }
    r
}

/// Exact equality of two strings.
fn string_eq(a: &String, b: &String) -> (r: bool)
    ensures
        r == (a@ == b@),
{
    *a == *b
}

} // verus!
