//! The delegation router: the shared participant-facing component.
//!
//! The router owns the participant → (validator → position) ledger and
//! the receipt-credit totals, validates incoming funds, mints and burns
//! receipt credit, and forwards each intent to the participant's stake
//! proxy.  It also drives the asynchronous provisioning protocol that
//! creates the credit issuer once and one proxy per participant,
//! correlating completion notifications by request id.

use vstd::prelude::*;

verus! {

use crate::coin::{Coin, MessageInfo};
use crate::proxy;
use crate::ratio::{RATIO_ONE, from_ratio, lemma_ratio_of_le_one, lemma_scale_down, mul_floor,
    ratio_mul, ratio_of};

/// Static router configuration.  Only the issuer address changes after
/// instantiation, back-filled exactly once by provisioning.
#[derive(Debug, PartialEq, Eq)]
pub struct Config {
    /// Denomination of the stakeable native asset.
    pub native_denom: String,
    /// Address of the receipt-credit issuer; empty until provisioning
    /// completes.
    pub cw20contract: String,
    /// Host code id used to instantiate a stake proxy.
    pub stake_contract_id: u64,
    /// Host label given to each stake proxy.
    pub stake_contract_label: String,
    /// Commission rate in atomics of `RATIO_ONE`; below 1.0.
    pub commission_rate: u128,
    /// Seconds an undelegated amount waits before it is payable.
    pub unbond_period: u64,
}

/// Amounts of one position: staked principal, and the part of it that
/// came from reinvested rewards.
#[derive(Clone, Copy, Debug, PartialEq, Eq)]
pub struct StakeInfo {
    pub staked: u128,
    pub compounded: u128,
}

/// One position of a participant with one validator.
#[derive(Debug, PartialEq, Eq)]
pub struct StakeEntry {
    pub validator: String,
    pub info: StakeInfo,
}

/// Everything the router keeps for one participant: the proxy address
/// once provisioning has delivered it, the receipt credit minted so
/// far, and the per-validator positions.
pub struct ParticipantLedger {
    pub addr: String,
    pub proxy: Option<String>,
    pub minted: u128,
    pub stakes: Vec<StakeEntry>,
}

/// What a pending provisioning request is waiting for.
#[derive(Debug, PartialEq, Eq)]
pub enum PendingKind {
    /// The receipt-credit issuer is being created.
    Issuer {},
    /// A stake proxy for `owner` is being created.
    Proxy { owner: String },
}

/// Correlation state for one in-flight creation request, keyed by a
/// locally unique id and destroyed when the completion arrives.
#[derive(Debug, PartialEq, Eq)]
pub struct PendingProvisioning {
    pub id: u64,
    pub kind: PendingKind,
}

/// The shared router state.
pub struct Router {
    pub config: Config,
    pub ledgers: Vec<ParticipantLedger>,
    pub pending: Vec<PendingProvisioning>,
    /// Next correlation id to hand out.
    pub next_id: u64,
}

/// What instantiates a router.
pub struct InstantiateMsg {
    pub denom: String,
    pub cw20_id: u64,
    pub cw20_label: String,
    pub token_name: String,
    pub token_symbol: String,
    pub proxy_id: u64,
    pub proxy_label: String,
    pub commission_rate: u128,
    pub unbond_period: u64,
}

/// Operations a participant can ask of the router.
pub enum ExecuteMsg {
    Register {},
    Stake { validator: String },
    Unstake { validator: String, amount: u128 },
    Restake { from: String, to: String, amount: u128 },
    Collect { validator: String },
    CollectAll {},
    Withdraw {},
    Compound { validator: String, amount: u128 },
}

/// Read-only queries against the router.
pub enum QueryMsg {
    ConfigInfo {},
    AccountInfo { address: String },
    Staked { address: String },
    TokenInfo { address: String },
}

/// The query surface of a stake proxy as the router sees it.
pub enum StakeQueryMsg {
    ConfigInfo {},
}

/// One row of the staked-positions query.
#[derive(Debug, PartialEq, Eq)]
pub struct QueryStaked {
    pub validator: String,
    pub staked: u128,
    pub compounded: u128,
}

/// Why a router operation was rejected.
#[derive(Debug, PartialEq, Eq)]
pub enum ContractError {
    /// A completion notification carried an unknown correlation id.
    Unauthorized {},
    /// Register was called while a proxy already exists.
    AlreadyRegistered {},
    /// The participant has no provisioned proxy yet.
    UnregisteredUser {},
    /// More than one denomination was attached.
    InvalidMultipleTokens {},
    /// The attached denomination is not the stakeable asset.
    UnstakeableTokenSent { denom: String },
    /// An unstake asks for more than the position holds, or names no
    /// position.
    InvalidUnstakeAmount {},
    /// A restake names a source position that does not exist.
    InvalidRequest {},
    /// A restake asks for more than the source position holds.
    TooFewTokens {},
    /// A completion notification lacked a usable owner tag.
    InvalidSubmsg {},
}

/// An outbound instruction of the router: creation requests toward the
/// host, credit-issuer calls, and intents forwarded to a stake proxy —
/// applied atomically with the call that produced them.
#[derive(Debug, PartialEq, Eq)]
pub enum RouterInstruction {
    InstantiateIssuer {
        id: u64,
        code_id: u64,
        label: String,
        token_name: String,
        token_symbol: String,
    },
    InstantiateProxy {
        id: u64,
        code_id: u64,
        label: String,
        denom: String,
        owner: String,
        commission_rate: u128,
        unbond_period: u64,
    },
    Mint { recipient: String, amount: u128 },
    Burn { owner: String, amount: u128 },
    Forward { contract: String, msg: proxy::ExecuteMsg, funds: Vec<Coin> },
}

/// Sum of the staked amounts over a position list.
pub open spec fn sum_staked(s: Seq<StakeEntry>) -> int
    decreases s.len(),
{
    if s.len() == 0 {
        0
    } else {
        sum_staked(s.drop_last()) + s.last().info.staked
    }
}

/// No two positions name the same validator.
pub open spec fn distinct_validators(s: Seq<StakeEntry>) -> bool {
    forall|i: int, j: int| 0 <= i < j < s.len() ==> s[i].validator@ != s[j].validator@
}

/// No two ledgers name the same participant.
pub open spec fn distinct_addrs(ls: Seq<ParticipantLedger>) -> bool {
    forall|i: int, j: int| 0 <= i < j < ls.len() ==> ls[i].addr@ != ls[j].addr@
}

/// No two pending requests share a correlation id.
pub open spec fn distinct_ids(ps: Seq<PendingProvisioning>) -> bool {
    forall|i: int, j: int| 0 <= i < j < ps.len() ==> ps[i].id != ps[j].id
}

/// Whether some position names `v`.
pub open spec fn has_validator(s: Seq<StakeEntry>, v: Seq<char>) -> bool {
    exists|i: int| 0 <= i < s.len() && s[i].validator@ == v
}

/// Index of the position naming `v`; meaningful when `has_validator`.
pub open spec fn stake_index(s: Seq<StakeEntry>, v: Seq<char>) -> int {
    choose|i: int| 0 <= i < s.len() && s[i].validator@ == v
}

/// Amounts of the position naming `v`; zeroes when there is none.
pub open spec fn stake_info_of(s: Seq<StakeEntry>, v: Seq<char>) -> StakeInfo {
    if has_validator(s, v) {
        s[stake_index(s, v)].info
    } else {
        StakeInfo { staked: 0, compounded: 0 }
    }
}

/// Whether some ledger belongs to `addr`.
pub open spec fn has_ledger(ls: Seq<ParticipantLedger>, addr: Seq<char>) -> bool {
    exists|i: int| 0 <= i < ls.len() && ls[i].addr@ == addr
}

/// Index of the ledger of `addr`; meaningful when `has_ledger`.
pub open spec fn ledger_index(ls: Seq<ParticipantLedger>, addr: Seq<char>) -> int {
    choose|i: int| 0 <= i < ls.len() && ls[i].addr@ == addr
}

/// Whether `addr` has a provisioned proxy.
pub open spec fn has_proxy(ls: Seq<ParticipantLedger>, addr: Seq<char>) -> bool {
    has_ledger(ls, addr) && ls[ledger_index(ls, addr)].proxy is Some
}

/// Receipt credit minted for `addr`; zero when unknown.
pub open spec fn minted_of(ls: Seq<ParticipantLedger>, addr: Seq<char>) -> int {
    if has_ledger(ls, addr) {
        ls[ledger_index(ls, addr)].minted as int
    } else {
        0
    }
}

/// Whether some pending request carries `id`.
pub open spec fn has_pending(ps: Seq<PendingProvisioning>, id: u64) -> bool {
    exists|i: int| 0 <= i < ps.len() && ps[i].id == id
}

/// Index of the pending request carrying `id`; meaningful when
/// `has_pending`.
pub open spec fn pending_index(ps: Seq<PendingProvisioning>, id: u64) -> int {
    choose|i: int| 0 <= i < ps.len() && ps[i].id == id
}

impl ParticipantLedger {
    /// Internal consistency of one ledger: positions name distinct
    /// validators, and the minted receipt credit equals the staked
    /// principal summed over all positions — conservation.
    pub open spec fn wf(self) -> bool {
        &&& distinct_validators(self.stakes@)
        &&& self.minted == sum_staked(self.stakes@)
    }
}

impl Router {
    /// Internal consistency of the router: a true commission rate,
    /// distinct participants, each ledger conserving its credit,
    /// distinct pending ids, and ids never reused.
    pub open spec fn wf(self) -> bool {
        &&& self.config.commission_rate < RATIO_ONE
        &&& distinct_addrs(self.ledgers@)
        &&& forall|i: int| 0 <= i < self.ledgers@.len() ==> (#[trigger] self.ledgers@[i]).wf()
        &&& distinct_ids(self.pending@)
        &&& forall|i: int|
            0 <= i < self.pending@.len() ==> (#[trigger] self.pending@[i]).id < self.next_id
    }
}

/// **Conservation.**  In a well-formed router every participant's
/// minted receipt credit equals the sum of their staked amounts; every
/// operation of the router preserves well-formedness, so the equality
/// holds across any sequence of calls.
pub proof fn lemma_conservation(r: Router, addr: Seq<char>)
    requires
        r.wf(),
        has_ledger(r.ledgers@, addr),
    ensures
        minted_of(r.ledgers@, addr) == sum_staked(r.ledgers@[ledger_index(r.ledgers@, addr)].stakes@),
{
}

/// Every summand is bounded by the whole sum.
proof fn lemma_entry_le_sum(s: Seq<StakeEntry>, j: int)
    requires
        0 <= j < s.len(),
    ensures
        s[j].info.staked <= sum_staked(s),
        0 <= sum_staked(s),
    decreases s.len(),
{
    if s.len() > 0 {
        if j == s.len() - 1 {
            lemma_sum_nonneg(s.drop_last());
        } else {
            lemma_entry_le_sum(s.drop_last(), j);
        }
    }
}

/// A sum of machine amounts is never negative.
proof fn lemma_sum_nonneg(s: Seq<StakeEntry>)
    ensures
        0 <= sum_staked(s),
    decreases s.len(),
{
    if s.len() > 0 {
        lemma_sum_nonneg(s.drop_last());
    }
}

/// Updating one entry moves the sum by the difference at that entry.
proof fn lemma_sum_update(s: Seq<StakeEntry>, j: int, e: StakeEntry)
    requires
        0 <= j < s.len(),
    ensures
        sum_staked(s.update(j, e)) == sum_staked(s) - s[j].info.staked + e.info.staked,
    decreases s.len(),
{
    if s.len() > 0 {
        if j == s.len() - 1 {
            assert(s.update(j, e).drop_last() =~= s.drop_last());
        } else {
            assert(s.update(j, e).drop_last() =~= s.drop_last().update(j, e));
            lemma_sum_update(s.drop_last(), j, e);
        }
    }
}

/// Appending an entry adds its staked amount to the sum.
proof fn lemma_sum_push(s: Seq<StakeEntry>, e: StakeEntry)
    ensures
        sum_staked(s.push(e)) == sum_staked(s) + e.info.staked,
{
    assert(s.push(e).drop_last() =~= s);
}

/// Find the position naming `v`, if any.
fn find_stake(s: &Vec<StakeEntry>, v: &String) -> (r: Option<usize>)
    ensures
        match r {
            Some(j) => j < s@.len() && s@[j as int].validator@ == v@,
            None => !has_validator(s@, v@),
        },
{
    let mut j: usize = 0;
    while j < s.len()
        invariant
            j <= s@.len(),
            forall|k: int| 0 <= k < j ==> s@[k].validator@ != v@,
        decreases s@.len() - j,
    {
        if string_eq(&s[j].validator, v) {
            return Some(j);
        }
        j = j + 1;
    }
    None
}

/// Find the ledger of `addr`, if any.
fn find_ledger(ls: &Vec<ParticipantLedger>, addr: &String) -> (r: Option<usize>)
    ensures
        match r {
            Some(i) => i < ls@.len() && ls@[i as int].addr@ == addr@,
            None => !has_ledger(ls@, addr@),
        },
{
    let mut i: usize = 0;
    while i < ls.len()
        invariant
            i <= ls@.len(),
            forall|k: int| 0 <= k < i ==> ls@[k].addr@ != addr@,
        decreases ls@.len() - i,
    {
        if string_eq(&ls[i].addr, addr) {
            return Some(i);
        }
        i = i + 1;
    }
    None
}

/// Find the pending request carrying `id`, if any.
fn find_pending(ps: &Vec<PendingProvisioning>, id: u64) -> (r: Option<usize>)
    ensures
        match r {
            Some(i) => i < ps@.len() && ps@[i as int].id == id,
            None => !has_pending(ps@, id),
        },
{
    let mut i: usize = 0;
    while i < ps.len()
        invariant
            i <= ps@.len(),
            forall|k: int| 0 <= k < i ==> ps@[k].id != id,
        decreases ps@.len() - i,
    {
        if ps[i].id == id {
            return Some(i);
        }
        i = i + 1;
    }
    None
}

/// With distinct validators the index naming `v` is unique, so the
/// chosen index is the found one.
proof fn lemma_stake_index_is(s: Seq<StakeEntry>, v: Seq<char>, j: int)
    requires
        distinct_validators(s),
        0 <= j < s.len(),
        s[j].validator@ == v,
    ensures
        has_validator(s, v),
        stake_index(s, v) == j,
{
    assert(has_validator(s, v));
    let k = stake_index(s, v);
    if k != j {
        if k < j {
            assert(s[k].validator@ != s[j].validator@);
        } else {
            assert(s[j].validator@ != s[k].validator@);
        }
    }
}

/// With distinct participants the ledger index of `addr` is unique.
proof fn lemma_ledger_index_is(ls: Seq<ParticipantLedger>, addr: Seq<char>, i: int)
    requires
        distinct_addrs(ls),
        0 <= i < ls.len(),
        ls[i].addr@ == addr,
    ensures
        has_ledger(ls, addr),
        ledger_index(ls, addr) == i,
{
    assert(has_ledger(ls, addr));
    let k = ledger_index(ls, addr);
    if k != i {
        if k < i {
            assert(ls[k].addr@ != ls[i].addr@);
        } else {
            assert(ls[i].addr@ != ls[k].addr@);
        }
    }
}

/// With distinct ids the pending index of `id` is unique.
proof fn lemma_pending_index_is(ps: Seq<PendingProvisioning>, id: u64, i: int)
    requires
        distinct_ids(ps),
        0 <= i < ps.len(),
        ps[i].id == id,
    ensures
        has_pending(ps, id),
        pending_index(ps, id) == i,
{
    assert(has_pending(ps, id));
    let k = pending_index(ps, id);
    if k != i {
        if k < i {
            assert(ps[k].id != ps[i].id);
        } else {
            assert(ps[i].id != ps[k].id);
        }
    }
}

/// Exact equality of two strings.
fn string_eq(a: &String, b: &String) -> (r: bool)
    ensures
        r == (a@ == b@),
{
    *a == *b
}

/// How a stake credit changes one ledger: `amount` joins the position's
/// staked principal — created fresh when absent — and the minted
/// receipt credit grows by the same amount.
pub open spec fn ledger_stake_post(
    pre: ParticipantLedger,
    post: ParticipantLedger,
    validator: String,
    amount: u128,
) -> bool {
    &&& post.addr == pre.addr
    &&& post.proxy == pre.proxy
    &&& post.minted == pre.minted + amount
    &&& if has_validator(pre.stakes@, validator@) {
        let j = stake_index(pre.stakes@, validator@);
        post.stakes@ == pre.stakes@.update(
            j,
            (StakeEntry {
                validator: pre.stakes@[j].validator,
                info: StakeInfo {
                    staked: (pre.stakes@[j].info.staked + amount) as u128,
                    compounded: pre.stakes@[j].info.compounded,
                },
            }),
        )
    } else {
        post.stakes@ == pre.stakes@.push(
            (StakeEntry { validator, info: StakeInfo { staked: amount, compounded: 0 } }),
        )
    }
}

/// How an unstake debit changes one ledger, and the proportional
/// de-compound it computes: with pre-update amounts `staked` and
/// `compounded`, unstaking `amount` removes `amount` from `staked` and
/// the minted credit, and removes
/// `compounded * (amount / staked)` — the fixed-point ratio, rounded
/// toward zero — from `compounded`.  The de-compounded amount is handed
/// back so the caller can instruct the proxy.  Asking for more than the
/// position holds, or naming no position, is rejected unchanged.
pub open spec fn ledger_unstake_spec(
    pre: ParticipantLedger,
    post: ParticipantLedger,
    validator: Seq<char>,
    amount: u128,
    r: Result<u128, ContractError>,
) -> bool {
    let inf = stake_info_of(pre.stakes@, validator);
    if !has_validator(pre.stakes@, validator) || amount > inf.staked {
        r == Result::<u128, ContractError>::Err(ContractError::InvalidUnstakeAmount {}) && post
            == pre
    } else {
        let j = stake_index(pre.stakes@, validator);
        let d = if inf.compounded == 0 {
            0
        } else {
            ratio_mul(inf.compounded as int, ratio_of(amount as int, inf.staked as int))
        };
        &&& post.addr == pre.addr
        &&& post.proxy == pre.proxy
        &&& post.minted == pre.minted - amount
        &&& post.stakes@ == pre.stakes@.update(
            j,
            (StakeEntry {
                validator: pre.stakes@[j].validator,
                info: StakeInfo {
                    staked: (inf.staked - amount) as u128,
                    compounded: (inf.compounded - d) as u128,
                },
            }),
        )
        &&& r == Result::<u128, ContractError>::Ok(d as u128)
    }
}

/// How a restake moves principal between two positions of one ledger:
/// `amount` leaves the source position and joins the target position —
/// created fresh when absent — with minted credit and compounded
/// amounts untouched.  A missing source or a short source is rejected
/// unchanged.
pub open spec fn ledger_restake_spec(
    pre: ParticipantLedger,
    post: ParticipantLedger,
    from: Seq<char>,
    to: String,
    amount: u128,
    r: Result<(), ContractError>,
) -> bool {
    let finf = stake_info_of(pre.stakes@, from);
    if !has_validator(pre.stakes@, from) {
        r == Result::<(), ContractError>::Err(ContractError::InvalidRequest {}) && post == pre
    } else if finf.staked < amount {
        r == Result::<(), ContractError>::Err(ContractError::TooFewTokens {}) && post == pre
    } else {
        let j = stake_index(pre.stakes@, from);
        let mid = pre.stakes@.update(
            j,
            (StakeEntry {
                validator: pre.stakes@[j].validator,
                info: StakeInfo {
                    staked: (finf.staked - amount) as u128,
                    compounded: finf.compounded,
                },
            }),
        );
        &&& post.addr == pre.addr
        &&& post.proxy == pre.proxy
        &&& post.minted == pre.minted
        &&& if has_validator(mid, to@) {
            let k = stake_index(mid, to@);
            post.stakes@ == mid.update(
                k,
                (StakeEntry {
                    validator: mid[k].validator,
                    info: StakeInfo {
                        staked: (mid[k].info.staked + amount) as u128,
                        compounded: mid[k].info.compounded,
                    },
                }),
            )
        } else {
            post.stakes@ == mid.push(
                (StakeEntry { validator: to, info: StakeInfo { staked: amount, compounded: 0 } }),
            )
        }
        &&& r == Result::<(), ContractError>::Ok(())
    }
}

/// How a compound credit changes one ledger: `amount` joins the
/// position's compounded share — the position is created fresh when
/// absent — while staked principal and minted credit stay put.
pub open spec fn ledger_compound_post(
    pre: ParticipantLedger,
    post: ParticipantLedger,
    validator: String,
    amount: u128,
) -> bool {
    &&& post.addr == pre.addr
    &&& post.proxy == pre.proxy
    &&& post.minted == pre.minted
    &&& if has_validator(pre.stakes@, validator@) {
        let j = stake_index(pre.stakes@, validator@);
        post.stakes@ == pre.stakes@.update(
            j,
            (StakeEntry {
                validator: pre.stakes@[j].validator,
                info: StakeInfo {
                    staked: pre.stakes@[j].info.staked,
                    compounded: (pre.stakes@[j].info.compounded + amount) as u128,
                },
            }),
        )
    } else {
        post.stakes@ == pre.stakes@.push(
            (StakeEntry { validator, info: StakeInfo { staked: 0, compounded: amount } }),
        )
    }
}

impl ParticipantLedger {
    /// Record a fresh deposit: upsert the position and mint credit 1:1.
    fn credit_stake(&mut self, validator: String, amount: u128)
        requires
            old(self).wf(),
            old(self).minted + amount <= u128::MAX,
        ensures
            ledger_stake_post(*old(self), *final(self), validator, amount),
            final(self).wf(),
    {
        self.minted = self.minted + amount;
        match find_stake(&self.stakes, &validator) {
            Some(j) => {
                proof {
                    lemma_stake_index_is(self.stakes@, validator@, j as int);
                    lemma_entry_le_sum(self.stakes@, j as int);
                    lemma_sum_update(
                        self.stakes@,
                        j as int,
                        (StakeEntry {
                            validator: self.stakes@[j as int].validator,
                            info: StakeInfo {
                                staked: (self.stakes@[j as int].info.staked + amount) as u128,
                                compounded: self.stakes@[j as int].info.compounded,
                            },
                        }),
                    );
                }
                let e = &mut self.stakes[j];
                e.info = StakeInfo { staked: e.info.staked + amount, compounded: e.info.compounded };
            },
            None => {
                proof {
                    lemma_sum_push(
                        self.stakes@,
                        (StakeEntry {
                            validator,
                            info: StakeInfo { staked: amount, compounded: 0 },
                        }),
                    );
                }
                self.stakes.push(
                    StakeEntry { validator, info: StakeInfo { staked: amount, compounded: 0 } },
                );
            },
        }
    }

    /// Record an unstake: debit the position and the minted credit, and
    /// report the proportional de-compound amount.
    fn debit_unstake(&mut self, validator: &String, amount: u128) -> (r: Result<
        u128,
        ContractError,
    >)
        requires
            old(self).wf(),
            has_validator(old(self).stakes@, validator@) && stake_info_of(
                old(self).stakes@,
                validator@,
            ).staked == 0 ==> amount > 0,
        ensures
            ledger_unstake_spec(*old(self), *final(self), validator@, amount, r),
            final(self).wf(),
    {
        match find_stake(&self.stakes, validator) {
            None => Err(ContractError::InvalidUnstakeAmount {}),
            Some(j) => {
                proof {
                    lemma_stake_index_is(self.stakes@, validator@, j as int);
                    lemma_entry_le_sum(self.stakes@, j as int);
                }
                let cur = self.stakes[j].info;
                if amount > cur.staked {
                    return Err(ContractError::InvalidUnstakeAmount {});
                }
                let d: u128 = if cur.compounded == 0 {
                    0
                } else {
                    proof {
                        lemma_ratio_of_le_one(amount as int, cur.staked as int);
                        lemma_scale_down(
                            cur.compounded as int,
                            ratio_of(amount as int, cur.staked as int),
                            RATIO_ONE as int,
                        );
                    }
                    let rate = from_ratio(amount, cur.staked);
                    mul_floor(cur.compounded, rate)
                };
                proof {
                    lemma_sum_update(
                        self.stakes@,
                        j as int,
                        (StakeEntry {
                            validator: self.stakes@[j as int].validator,
                            info: StakeInfo {
                                staked: (cur.staked - amount) as u128,
                                compounded: (cur.compounded - d) as u128,
                            },
                        }),
                    );
                }
                self.minted = self.minted - amount;
                let e = &mut self.stakes[j];
                e.info = StakeInfo {
                    staked: cur.staked - amount,
                    compounded: cur.compounded - d,
                };
                Ok(d)
            },
        }
    }

    /// Record a restake: move `amount` from one position to another.
    fn move_stake(&mut self, from: &String, to: String, amount: u128) -> (r: Result<
        (),
        ContractError,
    >)
        requires
            old(self).wf(),
            from@ != to@ ==> stake_info_of(old(self).stakes@, to@).staked + amount <= u128::MAX,
        ensures
            ledger_restake_spec(*old(self), *final(self), from@, to, amount, r),
            final(self).wf(),
    {
        match find_stake(&self.stakes, from) {
            None => Err(ContractError::InvalidRequest {}),
            Some(j) => {
                proof {
                    lemma_stake_index_is(self.stakes@, from@, j as int);
                }
                let cur = self.stakes[j].info;
                if cur.staked < amount {
                    return Err(ContractError::TooFewTokens {});
                }
                proof {
                    lemma_sum_update(
                        self.stakes@,
                        j as int,
                        (StakeEntry {
                            validator: self.stakes@[j as int].validator,
                            info: StakeInfo {
                                staked: (cur.staked - amount) as u128,
                                compounded: cur.compounded,
                            },
                        }),
                    );
                }
                {
                    let e = &mut self.stakes[j];
                    e.info = StakeInfo { staked: cur.staked - amount, compounded: cur.compounded };
                }
                let ghost mid = self.stakes@;
                match find_stake(&self.stakes, &to) {
                    Some(k) => {
                        proof {
                            lemma_stake_index_is(mid, to@, k as int);
                            lemma_entry_le_sum(mid, k as int);
                            if from@ != to@ {
                                assert(mid[k as int] == old(self).stakes@[k as int]);
                                lemma_stake_index_is(old(self).stakes@, to@, k as int);
                            }
                            lemma_sum_update(
                                mid,
                                k as int,
                                (StakeEntry {
                                    validator: mid[k as int].validator,
                                    info: StakeInfo {
                                        staked: (mid[k as int].info.staked + amount) as u128,
                                        compounded: mid[k as int].info.compounded,
                                    },
                                }),
                            );
                        }
                        let e2 = &mut self.stakes[k];
                        e2.info = StakeInfo {
                            staked: e2.info.staked + amount,
                            compounded: e2.info.compounded,
                        };
                    },
                    None => {
                        proof {
                            lemma_sum_push(
                                mid,
                                (StakeEntry {
                                    validator: to,
                                    info: StakeInfo { staked: amount, compounded: 0 },
                                }),
                            );
                        }
                        self.stakes.push(
                            StakeEntry {
                                validator: to,
                                info: StakeInfo { staked: amount, compounded: 0 },
                            },
                        );
                    },
                }
                Ok(())
            },
        }
    }

    /// Record a compound: upsert the position's compounded share.
    fn credit_compound(&mut self, validator: String, amount: u128)
        requires
            old(self).wf(),
            stake_info_of(old(self).stakes@, validator@).compounded + amount <= u128::MAX,
        ensures
            ledger_compound_post(*old(self), *final(self), validator, amount),
            final(self).wf(),
    {
        match find_stake(&self.stakes, &validator) {
            Some(j) => {
                proof {
                    lemma_stake_index_is(self.stakes@, validator@, j as int);
                    lemma_sum_update(
                        self.stakes@,
                        j as int,
                        (StakeEntry {
                            validator: self.stakes@[j as int].validator,
                            info: StakeInfo {
                                staked: self.stakes@[j as int].info.staked,
                                compounded: (self.stakes@[j as int].info.compounded
                                    + amount) as u128,
                            },
                        }),
                    );
                }
                let e = &mut self.stakes[j];
                e.info = StakeInfo {
                    staked: e.info.staked,
                    compounded: e.info.compounded + amount,
                };
            },
            None => {
                proof {
                    lemma_sum_push(
                        self.stakes@,
                        (StakeEntry {
                            validator,
                            info: StakeInfo { staked: 0, compounded: amount },
                        }),
                    );
                }
                self.stakes.push(
                    StakeEntry { validator, info: StakeInfo { staked: 0, compounded: amount } },
                );
            },
        }
    }
}

/// The positions of `addr`; empty when unknown.
pub open spec fn stakes_of(ls: Seq<ParticipantLedger>, addr: Seq<char>) -> Seq<StakeEntry> {
    if has_ledger(ls, addr) {
        ls[ledger_index(ls, addr)].stakes@
    } else {
        Seq::empty()
    }
}

/// Everything but the ledger at index `i` stays put.
pub open spec fn only_ledger_changed(pre: Router, post: Router, i: int) -> bool {
    &&& post.config == pre.config
    &&& post.pending == pre.pending
    &&& post.next_id == pre.next_id
    &&& post.ledgers@.len() == pre.ledgers@.len()
    &&& forall|k: int|
        0 <= k < pre.ledgers@.len() && k != i ==> post.ledgers@[k] == pre.ledgers@[k]
}

/// How register must behave: a participant with a provisioned proxy is
/// turned away; anyone else gets a ledger (if they lack one), a pending
/// provisioning entry under a fresh correlation id, and a single
/// proxy-creation request toward the host.
pub open spec fn register_spec(
    pre: Router,
    post: Router,
    sender: String,
    r: Result<Vec<RouterInstruction>, ContractError>,
) -> bool {
    if has_proxy(pre.ledgers@, sender@) {
        r == Result::<Vec<RouterInstruction>, ContractError>::Err(
            ContractError::AlreadyRegistered {},
        ) && post == pre
    } else {
        &&& post.config == pre.config
        &&& post.next_id == pre.next_id + 1
        &&& post.pending@ == pre.pending@.push(
            (PendingProvisioning { id: pre.next_id, kind: PendingKind::Proxy { owner: sender } }),
        )
        &&& if has_ledger(pre.ledgers@, sender@) {
            post.ledgers == pre.ledgers
        } else {
            &&& post.ledgers@.len() == pre.ledgers@.len() + 1
            &&& post.ledgers@.drop_last() == pre.ledgers@
            &&& post.ledgers@.last().addr == sender
            &&& post.ledgers@.last().proxy is None
            &&& post.ledgers@.last().minted == 0
            &&& post.ledgers@.last().stakes@.len() == 0
        }
        &&& r matches Ok(instrs) && instrs@ =~= seq![
            RouterInstruction::InstantiateProxy {
                id: pre.next_id,
                code_id: pre.config.stake_contract_id,
                label: pre.config.stake_contract_label,
                denom: pre.config.native_denom,
                owner: sender,
                commission_rate: pre.config.commission_rate,
                unbond_period: pre.config.unbond_period,
            },
        ]
    }
}

/// How a router stake must behave: it demands a provisioned proxy and
/// exactly one coin of the native denomination; on success the ledger
/// is credited 1:1 (`ledger_stake_post`), the funds are forwarded to
/// the proxy as a stake intent, and the same amount of receipt credit
/// is minted to the sender.
pub open spec fn stake_spec(
    pre: Router,
    post: Router,
    sender: String,
    funds: Seq<Coin>,
    validator: String,
    r: Result<Vec<RouterInstruction>, ContractError>,
) -> bool {
    if !has_proxy(pre.ledgers@, sender@) {
        r == Result::<Vec<RouterInstruction>, ContractError>::Err(
            ContractError::UnregisteredUser {},
        ) && post == pre
    } else if funds.len() > 1 {
        r == Result::<Vec<RouterInstruction>, ContractError>::Err(
            ContractError::InvalidMultipleTokens {},
        ) && post == pre
    } else if funds[0].denom@ != pre.config.native_denom@ {
        r == Result::<Vec<RouterInstruction>, ContractError>::Err(
            ContractError::UnstakeableTokenSent { denom: funds[0].denom },
        ) && post == pre
    } else {
        let i = ledger_index(pre.ledgers@, sender@);
        &&& only_ledger_changed(pre, post, i)
        &&& ledger_stake_post(pre.ledgers@[i], post.ledgers@[i], validator, funds[0].amount)
        &&& pre.ledgers@[i].proxy matches Some(paddr)
            && r matches Ok(instrs)
            && instrs@.len() == 2
            && (instrs@[0] matches RouterInstruction::Forward { contract, msg, funds: fw }
                && contract == paddr
                && msg == (proxy::ExecuteMsg::Stake { validator })
                && fw@ == funds)
            && instrs@[1] == (RouterInstruction::Mint { recipient: sender, amount: funds[0].amount })
    }
}

/// How a router unstake must behave: it demands a provisioned proxy and
/// an amount within the position; on success the ledger is debited and
/// de-compounded proportionally (`ledger_unstake_spec`), a decompound
/// intent for the proportional amount precedes the unstake intent
/// whenever the position carried a compounded share, and the unstaked
/// amount of receipt credit is burned from the sender.
pub open spec fn unstake_spec(
    pre: Router,
    post: Router,
    sender: String,
    validator: String,
    amount: u128,
    r: Result<Vec<RouterInstruction>, ContractError>,
) -> bool {
    if !has_proxy(pre.ledgers@, sender@) {
        r == Result::<Vec<RouterInstruction>, ContractError>::Err(
            ContractError::UnregisteredUser {},
        ) && post == pre
    } else {
        let i = ledger_index(pre.ledgers@, sender@);
        let l = pre.ledgers@[i];
        let inf = stake_info_of(l.stakes@, validator@);
        if !has_validator(l.stakes@, validator@) || amount > inf.staked {
            r == Result::<Vec<RouterInstruction>, ContractError>::Err(
                ContractError::InvalidUnstakeAmount {},
            ) && post == pre
        } else {
            let d = if inf.compounded == 0 {
                0
            } else {
                ratio_mul(inf.compounded as int, ratio_of(amount as int, inf.staked as int))
            };
            &&& only_ledger_changed(pre, post, i)
            &&& ledger_unstake_spec(
                l,
                post.ledgers@[i],
                validator@,
                amount,
                Result::<u128, ContractError>::Ok(d as u128),
            )
            &&& l.proxy matches Some(paddr)
                && r matches Ok(instrs)
                && if inf.compounded == 0 {
                    instrs@.len() == 2
                    && (instrs@[0] matches RouterInstruction::Forward { contract, msg, funds }
                        && contract == paddr
                        && msg == (proxy::ExecuteMsg::Unstake { validator, amount })
                        && funds@.len() == 0)
                    && instrs@[1] == (RouterInstruction::Burn { owner: sender, amount })
                } else {
                    instrs@.len() == 3
                    && (instrs@[0] matches RouterInstruction::Forward { contract, msg, funds }
                        && contract == paddr
                        && msg == (proxy::ExecuteMsg::Decompound {
                            validator,
                            amount: d as u128,
                        })
                        && funds@.len() == 0)
                    && (instrs@[1] matches RouterInstruction::Forward { contract, msg, funds }
                        && contract == paddr
                        && msg == (proxy::ExecuteMsg::Unstake { validator, amount })
                        && funds@.len() == 0)
                    && instrs@[2] == (RouterInstruction::Burn { owner: sender, amount })
                }
        }
    }
}

/// A coin-for-coin copy of attached funds.
fn clone_coins(v: &Vec<Coin>) -> (r: Vec<Coin>)
    ensures
        r@ == v@,
{
    let mut r: Vec<Coin> = Vec::new();
    let mut i: usize = 0;
    while i < v.len()
        invariant
            i <= v@.len(),
            r@ == v@.take(i as int),
        decreases v@.len() - i,
    {
        let c = &v[i];
        r.push(Coin { denom: c.denom.clone(), amount: c.amount });
        proof {
            assert(r@ =~= v@.take(i as int + 1));
        }
        i = i + 1;
    }
    proof {
        assert(v@.take(v@.len() as int) =~= v@);
    }
    r
}

impl Router {
    /// Begin provisioning a stake proxy for the sender.  Re-registering
    /// after a failed provisioning is allowed; a participant whose
    /// proxy already exists is turned away with `AlreadyRegistered`.
    pub fn register(&mut self, sender: &String) -> (r: Result<
        Vec<RouterInstruction>,
        ContractError,
    >)
        requires
            old(self).wf(),
            old(self).next_id < u64::MAX,
        ensures
            register_spec(*old(self), *final(self), *sender, r),
            final(self).wf(),
    {
        match find_ledger(&self.ledgers, sender) {
            Some(i) => {
                proof {
                    lemma_ledger_index_is(self.ledgers@, sender@, i as int);
                }
                if self.ledgers[i].proxy.is_some() {
                    return Err(ContractError::AlreadyRegistered {});
                }
            },
            None => {
                self.ledgers.push(
                    ParticipantLedger {
                        addr: sender.clone(),
                        proxy: None,
                        minted: 0,
                        stakes: Vec::new(),
                    },
                );
            },
        }
        let id = self.next_id;
        self.next_id = self.next_id + 1;
        self.pending.push(
            PendingProvisioning { id, kind: PendingKind::Proxy { owner: sender.clone() } },
        );
        let mut instrs: Vec<RouterInstruction> = Vec::new();
        instrs.push(
            RouterInstruction::InstantiateProxy {
                id,
                code_id: self.config.stake_contract_id,
                label: self.config.stake_contract_label.clone(),
                denom: self.config.native_denom.clone(),
                owner: sender.clone(),
                commission_rate: self.config.commission_rate,
                unbond_period: self.config.unbond_period,
            },
        );
        proof {
            if !has_ledger(old(self).ledgers@, sender@) {
                assert(self.ledgers@.drop_last() =~= old(self).ledgers@);
            }
        }
        Ok(instrs)
    }

    /// Accept a deposit: validate the attached funds, credit the
    /// sender's position, forward the funds to their proxy as a stake
    /// intent, and mint receipt credit 1:1.
    pub fn stake(&mut self, info: &MessageInfo, validator: String) -> (r: Result<
        Vec<RouterInstruction>,
        ContractError,
    >)
        requires
            old(self).wf(),
            info.funds@.len() >= 1,
            minted_of(old(self).ledgers@, info.sender@) + info.funds@[0].amount <= u128::MAX,
        ensures
            stake_spec(*old(self), *final(self), info.sender, info.funds@, validator, r),
            final(self).wf(),
    {
        let i = match find_ledger(&self.ledgers, &info.sender) {
            None => {
                return Err(ContractError::UnregisteredUser {});
            },
            Some(i) => i,
        };
        proof {
            lemma_ledger_index_is(self.ledgers@, info.sender@, i as int);
        }
        let proxy_addr = match &self.ledgers[i].proxy {
            None => {
                return Err(ContractError::UnregisteredUser {});
            },
            Some(p) => p.clone(),
        };
        if info.funds.len() > 1 {
            return Err(ContractError::InvalidMultipleTokens {});
        }
        let received = &info.funds[0];
        if !string_eq(&received.denom, &self.config.native_denom) {
            return Err(ContractError::UnstakeableTokenSent { denom: received.denom.clone() });
        }
        let amount = received.amount;
        let fw_funds = clone_coins(&info.funds);
        let msg_validator = validator.clone();
        let l = &mut self.ledgers[i];
        l.credit_stake(validator, amount);
        let mut instrs: Vec<RouterInstruction> = Vec::new();
        instrs.push(
            RouterInstruction::Forward {
                contract: proxy_addr,
                msg: proxy::ExecuteMsg::Stake { validator: msg_validator },
                funds: fw_funds,
            },
        );
        instrs.push(RouterInstruction::Mint { recipient: info.sender.clone(), amount });
        Ok(instrs)
    }

    /// Undo a deposit in part or in full: debit the sender's position,
    /// instruct their proxy — decompound first when a compounded share
    /// exists, then unstake — and burn the receipt credit.
    pub fn unstake(&mut self, sender: &String, validator: String, amount: u128) -> (r: Result<
        Vec<RouterInstruction>,
        ContractError,
    >)
        requires
            old(self).wf(),
            has_validator(stakes_of(old(self).ledgers@, sender@), validator@) && stake_info_of(
                stakes_of(old(self).ledgers@, sender@),
                validator@,
            ).staked == 0 ==> amount > 0,
        ensures
            unstake_spec(*old(self), *final(self), *sender, validator, amount, r),
            final(self).wf(),
    {
        let i = match find_ledger(&self.ledgers, sender) {
            None => {
                return Err(ContractError::UnregisteredUser {});
            },
            Some(i) => i,
        };
        proof {
            lemma_ledger_index_is(self.ledgers@, sender@, i as int);
        }
        let proxy_addr = match &self.ledgers[i].proxy {
            None => {
                return Err(ContractError::UnregisteredUser {});
            },
            Some(p) => p.clone(),
        };
        let cur = match find_stake(&self.ledgers[i].stakes, &validator) {
            Some(j) => {
                proof {
                    lemma_stake_index_is(self.ledgers@[i as int].stakes@, validator@, j as int);
                }
                self.ledgers[i].stakes[j].info
            },
            None => {
                return Err(ContractError::InvalidUnstakeAmount {});
            },
        };
        if amount > cur.staked {
            return Err(ContractError::InvalidUnstakeAmount {});
        }
        let had_compounded = cur.compounded > 0;
        let msg_validator = validator.clone();
        let l = &mut self.ledgers[i];
        let d = match l.debit_unstake(&validator, amount) {
            Ok(d) => d,
            Err(e) => {
                // the checks above rule this arm out
                proof {
                    assert(false);
                }
                return Err(e);
            },
        };
        let mut instrs: Vec<RouterInstruction> = Vec::new();
        if had_compounded {
            instrs.push(
                RouterInstruction::Forward {
                    contract: proxy_addr.clone(),
                    msg: proxy::ExecuteMsg::Decompound {
                        validator: msg_validator.clone(),
                        amount: d,
                    },
                    funds: Vec::new(),
                },
            );
        }
        instrs.push(
            RouterInstruction::Forward {
                contract: proxy_addr,
                msg: proxy::ExecuteMsg::Unstake { validator: msg_validator, amount },
                funds: Vec::new(),
            },
        );
        instrs.push(RouterInstruction::Burn { owner: sender.clone(), amount });
        Ok(instrs)
    }
}

/// How a router restake must behave: the ledger moves `amount` between
/// the two positions (`ledger_restake_spec`) and the proxy is told to
/// redelegate; the receipt-credit supply is untouched.
pub open spec fn restake_spec(
    pre: Router,
    post: Router,
    sender: Seq<char>,
    from: String,
    to: String,
    amount: u128,
    r: Result<Vec<RouterInstruction>, ContractError>,
) -> bool {
    if !has_proxy(pre.ledgers@, sender) {
        r == Result::<Vec<RouterInstruction>, ContractError>::Err(
            ContractError::UnregisteredUser {},
        ) && post == pre
    } else {
        let i = ledger_index(pre.ledgers@, sender);
        let l = pre.ledgers@[i];
        if !has_validator(l.stakes@, from@) {
            r == Result::<Vec<RouterInstruction>, ContractError>::Err(
                ContractError::InvalidRequest {},
            ) && post == pre
        } else if stake_info_of(l.stakes@, from@).staked < amount {
            r == Result::<Vec<RouterInstruction>, ContractError>::Err(
                ContractError::TooFewTokens {},
            ) && post == pre
        } else {
            &&& only_ledger_changed(pre, post, i)
            &&& ledger_restake_spec(
                l,
                post.ledgers@[i],
                from@,
                to,
                amount,
                Result::<(), ContractError>::Ok(()),
            )
            &&& l.proxy matches Some(paddr)
                && r matches Ok(instrs)
                && instrs@.len() == 1
                && (instrs@[0] matches RouterInstruction::Forward { contract, msg, funds }
                    && contract == paddr
                    && msg == (proxy::ExecuteMsg::Restake { from, to, amount })
                    && funds@.len() == 0)
        }
    }
}

/// How a router compound must behave: the position's compounded share
/// grows (`ledger_compound_post`) — no receipt credit is minted, since
/// compounding reinvests value the participant already owns — and the
/// attached funds travel with the compound intent to the proxy.
pub open spec fn compound_spec(
    pre: Router,
    post: Router,
    sender: Seq<char>,
    funds: Seq<Coin>,
    validator: String,
    amount: u128,
    r: Result<Vec<RouterInstruction>, ContractError>,
) -> bool {
    if !has_proxy(pre.ledgers@, sender) {
        r == Result::<Vec<RouterInstruction>, ContractError>::Err(
            ContractError::UnregisteredUser {},
        ) && post == pre
    } else {
        let i = ledger_index(pre.ledgers@, sender);
        &&& only_ledger_changed(pre, post, i)
        &&& ledger_compound_post(pre.ledgers@[i], post.ledgers@[i], validator, amount)
        &&& pre.ledgers@[i].proxy matches Some(paddr)
            && r matches Ok(instrs)
            && instrs@.len() == 1
            && (instrs@[0] matches RouterInstruction::Forward { contract, msg, funds: fw }
                && contract == paddr
                && msg == (proxy::ExecuteMsg::Compound { validator, amount })
                && fw@ == funds)
    }
}

/// How a collect must behave: one claim intent toward the proxy for the
/// named validator; no ledger mutation.
pub open spec fn collect_spec(
    pre: Router,
    sender: Seq<char>,
    validator: String,
    r: Result<Vec<RouterInstruction>, ContractError>,
) -> bool {
    if !has_proxy(pre.ledgers@, sender) {
        r == Result::<Vec<RouterInstruction>, ContractError>::Err(
            ContractError::UnregisteredUser {},
        )
    } else {
        pre.ledgers@[ledger_index(pre.ledgers@, sender)].proxy matches Some(paddr)
            && r matches Ok(instrs)
            && instrs@.len() == 1
            && (instrs@[0] matches RouterInstruction::Forward { contract, msg, funds }
                && contract == paddr
                && msg == (proxy::ExecuteMsg::Claim { validator })
                && funds@.len() == 0)
    }
}

/// The positions that still hold staked principal, in ledger order.
pub open spec fn nonzero_stakes(s: Seq<StakeEntry>) -> Seq<StakeEntry>
    decreases s.len(),
{
    if s.len() == 0 {
        Seq::empty()
    } else {
        nonzero_stakes(s.drop_last()) + if s.last().info.staked != 0 {
            seq![s.last()]
        } else {
            Seq::empty()
        }
    }
}

/// One claim intent toward `paddr` for validator `v`, with no funds.
pub open spec fn is_claim_forward(instr: RouterInstruction, paddr: String, v: String) -> bool {
    instr matches RouterInstruction::Forward { contract, msg, funds } && contract == paddr && msg
        == (proxy::ExecuteMsg::Claim { validator: v }) && funds@.len() == 0
}

/// How a collect-all must behave: one claim intent per position with
/// nonzero staked principal, in order; no ledger mutation.
pub open spec fn collect_all_spec(
    pre: Router,
    sender: Seq<char>,
    r: Result<Vec<RouterInstruction>, ContractError>,
) -> bool {
    if !has_proxy(pre.ledgers@, sender) {
        r == Result::<Vec<RouterInstruction>, ContractError>::Err(
            ContractError::UnregisteredUser {},
        )
    } else {
        let l = pre.ledgers@[ledger_index(pre.ledgers@, sender)];
        let nz = nonzero_stakes(l.stakes@);
        l.proxy matches Some(paddr) && r matches Ok(instrs) && instrs@.len() == nz.len()
            && forall|k: int|
            0 <= k < nz.len() ==> is_claim_forward(#[trigger] instrs@[k], paddr, nz[k].validator)
    }
}

/// How a router withdraw must behave: a single withdraw intent toward
/// the proxy, which does the payout arithmetic; no ledger mutation.
pub open spec fn withdraw_spec(
    pre: Router,
    sender: Seq<char>,
    r: Result<Vec<RouterInstruction>, ContractError>,
) -> bool {
    if !has_proxy(pre.ledgers@, sender) {
        r == Result::<Vec<RouterInstruction>, ContractError>::Err(
            ContractError::UnregisteredUser {},
        )
    } else {
        pre.ledgers@[ledger_index(pre.ledgers@, sender)].proxy matches Some(paddr)
            && r matches Ok(instrs)
            && instrs@.len() == 1
            && (instrs@[0] matches RouterInstruction::Forward { contract, msg, funds }
                && contract == paddr
                && msg == (proxy::ExecuteMsg::Withdraw {})
                && funds@.len() == 0)
    }
}

/// How a completion notification must be handled.  An unknown
/// correlation id is a hard authorization failure that touches nothing.
/// An issuer completion back-fills the issuer address exactly once.  A
/// proxy completion demands an owner tag equal to the pending request's
/// participant, with a ledger to attach to — anything else is a
/// submessage failure that touches nothing — and persists the new proxy
/// address on that ledger.  Either success consumes the pending entry,
/// so a second notification with the same id is turned away.
pub open spec fn reply_spec(
    pre: Router,
    post: Router,
    id: u64,
    contract_address: String,
    owner_tag: Option<String>,
    r: Result<(), ContractError>,
) -> bool {
    if !has_pending(pre.pending@, id) {
        r == Result::<(), ContractError>::Err(ContractError::Unauthorized {}) && post == pre
    } else {
        let pi = pending_index(pre.pending@, id);
        match pre.pending@[pi].kind {
            PendingKind::Issuer {  } => {
                &&& post.config.native_denom == pre.config.native_denom
                &&& post.config.cw20contract == contract_address
                &&& post.config.stake_contract_id == pre.config.stake_contract_id
                &&& post.config.stake_contract_label == pre.config.stake_contract_label
                &&& post.config.commission_rate == pre.config.commission_rate
                &&& post.config.unbond_period == pre.config.unbond_period
                &&& post.ledgers == pre.ledgers
                &&& post.pending@ == pre.pending@.remove(pi)
                &&& post.next_id == pre.next_id
                &&& r == Result::<(), ContractError>::Ok(())
            },
            PendingKind::Proxy { owner } => {
                if owner_tag matches Some(tag) && tag@ == owner@ && has_ledger(
                    pre.ledgers@,
                    owner@,
                ) {
                    let i = ledger_index(pre.ledgers@, owner@);
                    &&& post.config == pre.config
                    &&& post.next_id == pre.next_id
                    &&& post.pending@ == pre.pending@.remove(pi)
                    &&& post.ledgers@.len() == pre.ledgers@.len()
                    &&& forall|k: int|
                        0 <= k < pre.ledgers@.len() && k != i ==> post.ledgers@[k]
                            == pre.ledgers@[k]
                    &&& post.ledgers@[i].addr == pre.ledgers@[i].addr
                    &&& post.ledgers@[i].minted == pre.ledgers@[i].minted
                    &&& post.ledgers@[i].stakes == pre.ledgers@[i].stakes
                    &&& post.ledgers@[i].proxy == Some(contract_address)
                    &&& r == Result::<(), ContractError>::Ok(())
                } else {
                    r == Result::<(), ContractError>::Err(ContractError::InvalidSubmsg {})
                        && post == pre
                }
            },
        }
    }
}

/// Removing a pending entry keeps the remaining ids distinct and below
/// the same bound.
proof fn lemma_remove_pending(ps: Seq<PendingProvisioning>, i: int, bound: u64)
    requires
        distinct_ids(ps),
        0 <= i < ps.len(),
        forall|k: int| 0 <= k < ps.len() ==> (#[trigger] ps[k]).id < bound,
    ensures
        distinct_ids(ps.remove(i)),
        forall|k: int| 0 <= k < ps.remove(i).len() ==> (#[trigger] ps.remove(i)[k]).id < bound,
{
    let q = ps.remove(i);
    assert forall|a: int, b: int| 0 <= a < b < q.len() implies q[a].id != q[b].id by {
        let a0 = if a < i {
            a
        } else {
            a + 1
        };
        let b0 = if b < i {
            b
        } else {
            b + 1
        };
        assert(q[a] == ps[a0]);
        assert(q[b] == ps[b0]);
    }
    assert forall|k: int| 0 <= k < q.len() implies q[k].id < bound by {
        let k0 = if k < i {
            k
        } else {
            k + 1
        };
        assert(q[k] == ps[k0]);
    }
}

impl Router {
    /// Move staked principal from one validator to another for the
    /// sender, and tell their proxy to redelegate it.
    pub fn restake(&mut self, sender: &String, from: String, to: String, amount: u128) -> (r:
        Result<Vec<RouterInstruction>, ContractError>)
        requires
            old(self).wf(),
            from@ != to@ ==> stake_info_of(stakes_of(old(self).ledgers@, sender@), to@).staked
                + amount <= u128::MAX,
        ensures
            restake_spec(*old(self), *final(self), sender@, from, to, amount, r),
            final(self).wf(),
    {
        let i = match find_ledger(&self.ledgers, sender) {
            None => {
                return Err(ContractError::UnregisteredUser {});
            },
            Some(i) => i,
        };
        proof {
            lemma_ledger_index_is(self.ledgers@, sender@, i as int);
        }
        let proxy_addr = match &self.ledgers[i].proxy {
            None => {
                return Err(ContractError::UnregisteredUser {});
            },
            Some(p) => p.clone(),
        };
        let cur = match find_stake(&self.ledgers[i].stakes, &from) {
            Some(j) => {
                proof {
                    lemma_stake_index_is(self.ledgers@[i as int].stakes@, from@, j as int);
                }
                self.ledgers[i].stakes[j].info
            },
            None => {
                return Err(ContractError::InvalidRequest {});
            },
        };
        if cur.staked < amount {
            return Err(ContractError::TooFewTokens {});
        }
        let l = &mut self.ledgers[i];
        match l.move_stake(&from, to.clone(), amount) {
            Ok(()) => (),
            Err(e) => {
                // the checks above rule this arm out
                proof {
                    assert(false);
                }
                return Err(e);
            },
        }
        let mut instrs: Vec<RouterInstruction> = Vec::new();
        instrs.push(
            RouterInstruction::Forward {
                contract: proxy_addr,
                msg: proxy::ExecuteMsg::Restake { from, to, amount },
                funds: Vec::new(),
            },
        );
        Ok(instrs)
    }

    /// Record reinvested reward on the sender's position and forward
    /// the compound intent, funds and all, to their proxy.
    pub fn compound(&mut self, info: &MessageInfo, validator: String, amount: u128) -> (r: Result<
        Vec<RouterInstruction>,
        ContractError,
    >)
        requires
            old(self).wf(),
            stake_info_of(stakes_of(old(self).ledgers@, info.sender@), validator@).compounded
                + amount <= u128::MAX,
        ensures
            compound_spec(
                *old(self),
                *final(self),
                info.sender@,
                info.funds@,
                validator,
                amount,
                r,
            ),
            final(self).wf(),
    {
        let i = match find_ledger(&self.ledgers, &info.sender) {
            None => {
                return Err(ContractError::UnregisteredUser {});
            },
            Some(i) => i,
        };
        proof {
            lemma_ledger_index_is(self.ledgers@, info.sender@, i as int);
        }
        let proxy_addr = match &self.ledgers[i].proxy {
            None => {
                return Err(ContractError::UnregisteredUser {});
            },
            Some(p) => p.clone(),
        };
        let fw_funds = clone_coins(&info.funds);
        let msg_validator = validator.clone();
        let l = &mut self.ledgers[i];
        l.credit_compound(validator, amount);
        let mut instrs: Vec<RouterInstruction> = Vec::new();
        instrs.push(
            RouterInstruction::Forward {
                contract: proxy_addr,
                msg: proxy::ExecuteMsg::Compound { validator: msg_validator, amount },
                funds: fw_funds,
            },
        );
        Ok(instrs)
    }

    /// Forward a single reward-claim intent for one validator.
    pub fn collect(&self, sender: &String, validator: String) -> (r: Result<
        Vec<RouterInstruction>,
        ContractError,
    >)
        requires
            self.wf(),
        ensures
            collect_spec(*self, sender@, validator, r),
    {
        let i = match find_ledger(&self.ledgers, sender) {
            None => {
                return Err(ContractError::UnregisteredUser {});
            },
            Some(i) => i,
        };
        proof {
            lemma_ledger_index_is(self.ledgers@, sender@, i as int);
        }
        let proxy_addr = match &self.ledgers[i].proxy {
            None => {
                return Err(ContractError::UnregisteredUser {});
            },
            Some(p) => p.clone(),
        };
        let mut instrs: Vec<RouterInstruction> = Vec::new();
        instrs.push(
            RouterInstruction::Forward {
                contract: proxy_addr,
                msg: proxy::ExecuteMsg::Claim { validator },
                funds: Vec::new(),
            },
        );
        Ok(instrs)
    }

    /// Forward one reward-claim intent per position of the sender that
    /// still holds staked principal.
    pub fn collect_all(&self, sender: &String) -> (r: Result<
        Vec<RouterInstruction>,
        ContractError,
    >)
        requires
            self.wf(),
        ensures
            collect_all_spec(*self, sender@, r),
    {
        let i = match find_ledger(&self.ledgers, sender) {
            None => {
                return Err(ContractError::UnregisteredUser {});
            },
            Some(i) => i,
        };
        proof {
            lemma_ledger_index_is(self.ledgers@, sender@, i as int);
        }
        let proxy_addr = match &self.ledgers[i].proxy {
            None => {
                return Err(ContractError::UnregisteredUser {});
            },
            Some(p) => p.clone(),
        };
        let stakes = &self.ledgers[i].stakes;
        let ghost s = stakes@;
        let mut instrs: Vec<RouterInstruction> = Vec::new();
        let mut j: usize = 0;
        while j < stakes.len()
            invariant
                j <= s.len(),
                s == stakes@,
                instrs@.len() == nonzero_stakes(s.take(j as int)).len(),
                forall|k: int|
                    0 <= k < instrs@.len() ==> is_claim_forward(
                        #[trigger] instrs@[k],
                        proxy_addr,
                        nonzero_stakes(s.take(j as int))[k].validator,
                    ),
            decreases s.len() - j,
        {
            proof {
                assert(s.take(j as int + 1).drop_last() =~= s.take(j as int));
                if s[j as int].info.staked != 0 {
                    assert(nonzero_stakes(s.take(j as int + 1)) =~= nonzero_stakes(
                        s.take(j as int),
                    ).push(s[j as int]));
                } else {
                    assert(nonzero_stakes(s.take(j as int + 1)) =~= nonzero_stakes(
                        s.take(j as int),
                    ));
                }
            }
            let e = &stakes[j];
            if e.info.staked != 0 {
                instrs.push(
                    RouterInstruction::Forward {
                        contract: proxy_addr.clone(),
                        msg: proxy::ExecuteMsg::Claim { validator: e.validator.clone() },
                        funds: Vec::new(),
                    },
                );
            }
            j = j + 1;
        }
        proof {
            assert(s.take(s.len() as int) =~= s);
        }
        Ok(instrs)
    }

    /// Forward a withdraw intent to the sender's proxy; the proxy does
    /// the payout arithmetic.
    pub fn withdraw(&self, sender: &String) -> (r: Result<Vec<RouterInstruction>, ContractError>)
        requires
            self.wf(),
        ensures
            withdraw_spec(*self, sender@, r),
    {
        let i = match find_ledger(&self.ledgers, sender) {
            None => {
                return Err(ContractError::UnregisteredUser {});
            },
            Some(i) => i,
        };
        proof {
            lemma_ledger_index_is(self.ledgers@, sender@, i as int);
        }
        let proxy_addr = match &self.ledgers[i].proxy {
            None => {
                return Err(ContractError::UnregisteredUser {});
            },
            Some(p) => p.clone(),
        };
        let mut instrs: Vec<RouterInstruction> = Vec::new();
        instrs.push(
            RouterInstruction::Forward {
                contract: proxy_addr,
                msg: proxy::ExecuteMsg::Withdraw {},
                funds: Vec::new(),
            },
        );
        Ok(instrs)
    }

    /// Resume the provisioning state machine when the host reports a
    /// completed creation, correlated by `id`.  `contract_address` is
    /// the new contract and `owner_tag` the owner attribute from the
    /// notification's events, if any.
    pub fn reply(&mut self, id: u64, contract_address: String, owner_tag: Option<String>) -> (r:
        Result<(), ContractError>)
        requires
            old(self).wf(),
        ensures
            reply_spec(*old(self), *final(self), id, contract_address, owner_tag, r),
            final(self).wf(),
    {
        let pi = match find_pending(&self.pending, id) {
            None => {
                return Err(ContractError::Unauthorized {});
            },
            Some(p) => p,
        };
        proof {
            lemma_pending_index_is(self.pending@, id, pi as int);
            lemma_remove_pending(self.pending@, pi as int, self.next_id);
        }
        let is_issuer = match &self.pending[pi].kind {
            PendingKind::Issuer {  } => true,
            PendingKind::Proxy { .. } => false,
        };
        if is_issuer {
            self.pending.remove(pi);
            self.config.cw20contract = contract_address;
            Ok(())
        } else {
            let owner = match &self.pending[pi].kind {
                PendingKind::Proxy { owner } => owner.clone(),
                PendingKind::Issuer {  } => {
                    // the kind was read above; this arm cannot be reached
                    proof {
                        assert(false);
                    }
                    return Err(ContractError::InvalidSubmsg {});
                },
            };
            let tag = match owner_tag {
                Some(t) => t,
                None => {
                    return Err(ContractError::InvalidSubmsg {});
                },
            };
            if !string_eq(&tag, &owner) {
                return Err(ContractError::InvalidSubmsg {});
            }
            let i = match find_ledger(&self.ledgers, &owner) {
                None => {
                    return Err(ContractError::InvalidSubmsg {});
                },
                Some(i) => i,
            };
            proof {
                lemma_ledger_index_is(self.ledgers@, owner@, i as int);
            }
            self.pending.remove(pi);
            let l = &mut self.ledgers[i];
            l.proxy = Some(contract_address);
            Ok(())
        }
    }

    /// Set up a fresh router and ask the host to create the
    /// receipt-credit issuer, correlated by the first request id.
    pub fn instantiate(msg: InstantiateMsg) -> (res: (Router, Vec<RouterInstruction>))
        requires
            msg.commission_rate < RATIO_ONE,
        ensures
            res.0.wf(),
            res.0.config.native_denom == msg.denom,
            res.0.config.cw20contract@.len() == 0,
            res.0.config.stake_contract_id == msg.proxy_id,
            res.0.config.stake_contract_label == msg.proxy_label,
            res.0.config.commission_rate == msg.commission_rate,
            res.0.config.unbond_period == msg.unbond_period,
            res.0.ledgers@.len() == 0,
            res.0.pending@ =~= seq![
                (PendingProvisioning { id: 1u64, kind: PendingKind::Issuer {} }),
            ],
            res.0.next_id == 2,
            res.1@ =~= seq![
                (RouterInstruction::InstantiateIssuer {
                    id: 1u64,
                    code_id: msg.cw20_id,
                    label: msg.cw20_label,
                    token_name: msg.token_name,
                    token_symbol: msg.token_symbol,
                }),
            ],
    {
        let config = Config {
            native_denom: msg.denom,
            cw20contract: String::new(),
            stake_contract_id: msg.proxy_id,
            stake_contract_label: msg.proxy_label,
            commission_rate: msg.commission_rate,
            unbond_period: msg.unbond_period,
        };
        let mut pending: Vec<PendingProvisioning> = Vec::new();
        pending.push(PendingProvisioning { id: 1, kind: PendingKind::Issuer {} });
        let router = Router { config, ledgers: Vec::new(), pending, next_id: 2 };
        let mut instrs: Vec<RouterInstruction> = Vec::new();
        instrs.push(
            RouterInstruction::InstantiateIssuer {
                id: 1,
                code_id: msg.cw20_id,
                label: msg.cw20_label,
                token_name: msg.token_name,
                token_symbol: msg.token_symbol,
            },
        );
        (router, instrs)
    }
}

/// Answers to the read-only queries.
#[derive(Debug, PartialEq, Eq)]
pub enum QueryAnswer {
    ConfigInfo(Config),
    AccountInfo(bool),
    Staked(Vec<QueryStaked>),
    TokenInfo(u128),
}

/// What each operation asks of its caller before it can run: a fresh
/// correlation id must exist, at least one coin must be attached where
/// one is read, 128-bit counters must not overflow, and the one
/// degenerate unstake — nothing staked and nothing asked — whose
/// redeem ratio is undefined is left out.
pub open spec fn execute_req(pre: Router, sender: Seq<char>, funds: Seq<Coin>, msg: ExecuteMsg) -> bool {
    match msg {
        ExecuteMsg::Register {  } => pre.next_id < u64::MAX,
        ExecuteMsg::Stake { .. } => funds.len() >= 1 && minted_of(pre.ledgers@, sender)
            + funds[0].amount <= u128::MAX,
        ExecuteMsg::Unstake { validator, amount } => has_validator(
            stakes_of(pre.ledgers@, sender),
            validator@,
        ) && stake_info_of(stakes_of(pre.ledgers@, sender), validator@).staked == 0 ==> amount
            > 0,
        ExecuteMsg::Restake { from, to, amount } => from@ != to@ ==> stake_info_of(
            stakes_of(pre.ledgers@, sender),
            to@,
        ).staked + amount <= u128::MAX,
        ExecuteMsg::Collect { .. } => true,
        ExecuteMsg::CollectAll {  } => true,
        ExecuteMsg::Withdraw {  } => true,
        ExecuteMsg::Compound { validator, amount } => stake_info_of(
            stakes_of(pre.ledgers@, sender),
            validator@,
        ).compounded + amount <= u128::MAX,
    }
}

impl Router {
    /// One call, one state transition: dispatch a participant's
    /// request.
    pub fn execute(&mut self, info: &MessageInfo, msg: ExecuteMsg) -> (r: Result<
        Vec<RouterInstruction>,
        ContractError,
    >)
        requires
            old(self).wf(),
            execute_req(*old(self), info.sender@, info.funds@, msg),
        ensures
            final(self).wf(),
            match msg {
                ExecuteMsg::Register {  } => register_spec(
                    *old(self),
                    *final(self),
                    info.sender,
                    r,
                ),
                ExecuteMsg::Stake { validator } => stake_spec(
                    *old(self),
                    *final(self),
                    info.sender,
                    info.funds@,
                    validator,
                    r,
                ),
                ExecuteMsg::Unstake { validator, amount } => unstake_spec(
                    *old(self),
                    *final(self),
                    info.sender,
                    validator,
                    amount,
                    r,
                ),
                ExecuteMsg::Restake { from, to, amount } => restake_spec(
                    *old(self),
                    *final(self),
                    info.sender@,
                    from,
                    to,
                    amount,
                    r,
                ),
                ExecuteMsg::Collect { validator } => collect_spec(
                    *old(self),
                    info.sender@,
                    validator,
                    r,
                ) && *final(self) == *old(self),
                ExecuteMsg::CollectAll {  } => collect_all_spec(*old(self), info.sender@, r)
                    && *final(self) == *old(self),
                ExecuteMsg::Withdraw {  } => withdraw_spec(*old(self), info.sender@, r)
                    && *final(self) == *old(self),
                ExecuteMsg::Compound { validator, amount } => compound_spec(
                    *old(self),
                    *final(self),
                    info.sender@,
                    info.funds@,
                    validator,
                    amount,
                    r,
                ),
            },
    {
        match msg {
            ExecuteMsg::Register {  } => self.register(&info.sender),
            ExecuteMsg::Stake { validator } => self.stake(info, validator),
            ExecuteMsg::Unstake { validator, amount } => self.unstake(
                &info.sender,
                validator,
                amount,
            ),
            ExecuteMsg::Restake { from, to, amount } => self.restake(
                &info.sender,
                from,
                to,
                amount,
            ),
            ExecuteMsg::Collect { validator } => self.collect(&info.sender, validator),
            ExecuteMsg::CollectAll {  } => self.collect_all(&info.sender),
            ExecuteMsg::Withdraw {  } => self.withdraw(&info.sender),
            ExecuteMsg::Compound { validator, amount } => self.compound(info, validator, amount),
        }
    }

    /// The router's configuration, for the config query.
    pub fn query_config(&self) -> (c: &Config)
        ensures
            c == self.config,
    {
        &self.config
    }

    /// Whether `address` has a provisioned proxy.
    pub fn query_account_info(&self, address: &String) -> (b: bool)
        requires
            self.wf(),
        ensures
            b == has_proxy(self.ledgers@, address@),
    {
        match find_ledger(&self.ledgers, address) {
            None => false,
            Some(i) => {
                proof {
                    lemma_ledger_index_is(self.ledgers@, address@, i as int);
                }
                self.ledgers[i].proxy.is_some()
            },
        }
    }

    /// The positions of `address`, one row per validator.
    pub fn query_stake_amount(&self, address: &String) -> (rows: Vec<QueryStaked>)
        requires
            self.wf(),
        ensures
            rows@.len() == stakes_of(self.ledgers@, address@).len(),
            forall|k: int|
                0 <= k < rows@.len() ==> (#[trigger] rows@[k]).validator == stakes_of(
                    self.ledgers@,
                    address@,
                )[k].validator && rows@[k].staked == stakes_of(self.ledgers@, address@)[k].info.staked
                    && rows@[k].compounded == stakes_of(
                    self.ledgers@,
                    address@,
                )[k].info.compounded,
    {
        let mut rows: Vec<QueryStaked> = Vec::new();
        let i = match find_ledger(&self.ledgers, address) {
            None => {
                return rows;
            },
            Some(i) => i,
        };
        proof {
            lemma_ledger_index_is(self.ledgers@, address@, i as int);
        }
        let stakes = &self.ledgers[i].stakes;
        let mut j: usize = 0;
        while j < stakes.len()
            invariant
                j <= stakes@.len(),
                stakes@ == stakes_of(self.ledgers@, address@),
                rows@.len() == j,
                forall|k: int|
                    0 <= k < j ==> (#[trigger] rows@[k]).validator == stakes@[k].validator
                        && rows@[k].staked == stakes@[k].info.staked && rows@[k].compounded
                        == stakes@[k].info.compounded,
            decreases stakes@.len() - j,
        {
            let e = &stakes[j];
            rows.push(
                QueryStaked {
                    validator: e.validator.clone(),
                    staked: e.info.staked,
                    compounded: e.info.compounded,
                },
            );
            j = j + 1;
        }
        rows
    }

    /// The receipt credit minted for `address` — the router's model of
    /// the participant's balance with the credit issuer.
    pub fn query_reward_token_amount(&self, address: &String) -> (m: u128)
        requires
            self.wf(),
        ensures
            m == minted_of(self.ledgers@, address@),
    {
        match find_ledger(&self.ledgers, address) {
            None => 0,
            Some(i) => {
                proof {
                    lemma_ledger_index_is(self.ledgers@, address@, i as int);
                }
                self.ledgers[i].minted
            },
        }
    }

    /// Answer a read-only query.
    pub fn query(&self, msg: &QueryMsg) -> (a: QueryAnswer)
        requires
            self.wf(),
        ensures
            match msg {
                QueryMsg::ConfigInfo {  } => a matches QueryAnswer::ConfigInfo(c) && c
                    == self.config,
                QueryMsg::AccountInfo { address } => a == QueryAnswer::AccountInfo(
                    has_proxy(self.ledgers@, address@),
                ),
                QueryMsg::Staked { address } => a matches QueryAnswer::Staked(rows) && rows@.len()
                    == stakes_of(self.ledgers@, address@).len() && forall|k: int|
                    0 <= k < rows@.len() ==> (#[trigger] rows@[k]).validator == stakes_of(
                        self.ledgers@,
                        address@,
                    )[k].validator && rows@[k].staked == stakes_of(
                        self.ledgers@,
                        address@,
                    )[k].info.staked && rows@[k].compounded == stakes_of(
                        self.ledgers@,
                        address@,
                    )[k].info.compounded,
                QueryMsg::TokenInfo { address } => a == QueryAnswer::TokenInfo(
                    minted_of(self.ledgers@, address@) as u128,
                ),
            },
    {
        match msg {
            QueryMsg::ConfigInfo {  } => QueryAnswer::ConfigInfo(clone_router_config(&self.config)),
            QueryMsg::AccountInfo { address } => QueryAnswer::AccountInfo(
                self.query_account_info(address),
            ),
            QueryMsg::Staked { address } => QueryAnswer::Staked(self.query_stake_amount(address)),
            QueryMsg::TokenInfo { address } => QueryAnswer::TokenInfo(
                self.query_reward_token_amount(address),
            ),
        }
    }
}

/// A field-for-field copy of a router configuration.
fn clone_router_config(c: &Config) -> (r: Config)
    ensures
        r == *c,
{
    Config {
        native_denom: c.native_denom.clone(),
        cw20contract: c.cw20contract.clone(),
        stake_contract_id: c.stake_contract_id,
        stake_contract_label: c.stake_contract_label.clone(),
        commission_rate: c.commission_rate,
        unbond_period: c.unbond_period,
    }
}

} // verus!
