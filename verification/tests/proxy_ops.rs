use qstaking::coin::{Coin, MessageInfo};
use qstaking::proxy::{
    ContractError, ExecuteMsg, InstantiateMsg, Proxy, ProxyInstruction, QueryAnswer, QueryMsg,
    Unbonded,
};
use qstaking::ratio::RATIO_ONE;

const TENTH: u128 = RATIO_ONE / 10;

fn router_s() -> String {
    String::from("router")
}

fn proxy() -> Proxy {
    Proxy::instantiate(
        InstantiateMsg {
            denom: String::from("uknstl"),
            owner: String::from("alice"),
            unbond_period: 10,
            community_pool: String::from("pool"),
            commission_rate: TENTH,
        },
        router_s(),
    )
}

fn coins(amount: u128) -> Vec<Coin> {
    vec![Coin { denom: String::from("uknstl"), amount }]
}

#[test]
fn instantiate_starts_empty() {
    let p = proxy();
    assert_eq!(p.config.owner.as_str(), "alice");
    assert_eq!(p.config.admin.as_str(), "router");
    assert_eq!(p.config.denom.as_str(), "uknstl");
    assert_eq!(p.config.community_pool.as_str(), "pool");
    assert_eq!(p.config.unbond_period, 10);
    assert_eq!(p.config.commission_rate, TENTH);
    assert_eq!(p.bonded, 0);
    assert_eq!(p.compounded, 0);
    assert!(p.unbonded.is_empty());
}

#[test]
fn stake_delegates_and_bonds() {
    let mut p = proxy();
    let instrs = p.stake(&router_s(), &coins(100), String::from("val1")).unwrap();
    assert_eq!(p.bonded, 100);
    assert_eq!(
        instrs,
        vec![ProxyInstruction::Delegate {
            validator: String::from("val1"),
            amount: Coin { denom: String::from("uknstl"), amount: 100 },
        }]
    );
}

#[test]
fn stake_rejects_foreign_caller() {
    let mut p = proxy();
    let r = p.stake(&String::from("mallory"), &coins(100), String::from("val1"));
    assert_eq!(r.unwrap_err(), ContractError::UnknownUser {});
    assert_eq!(p.bonded, 0);
    assert!(p.unbonded.is_empty());
}

#[test]
fn proxy_stake_rejects_wrong_denom() {
    let mut p = proxy();
    let funds = vec![Coin { denom: String::from("uatom"), amount: 100 }];
    let r = p.stake(&router_s(), &funds, String::from("val1"));
    assert_eq!(
        r.unwrap_err(),
        ContractError::UnstakeableTokenSent { denom: String::from("uatom") }
    );
    assert_eq!(p.bonded, 0);
}

#[test]
fn unstake_queues_and_undelegates() {
    let mut p = proxy();
    p.stake(&router_s(), &coins(100), String::from("val1")).unwrap();
    let instrs = p.unstake(&router_s(), 5, String::from("val1"), 40).unwrap();
    assert_eq!(p.bonded, 60);
    assert_eq!(
        p.unbonded,
        vec![Unbonded { amount: 40, date: 5, validator: String::from("val1") }]
    );
    assert_eq!(
        instrs,
        vec![ProxyInstruction::Undelegate {
            validator: String::from("val1"),
            amount: Coin { denom: String::from("uknstl"), amount: 40 },
        }]
    );
}

#[test]
fn unstake_saturates_bonded() {
    let mut p = proxy();
    p.stake(&router_s(), &coins(30), String::from("val1")).unwrap();
    p.unstake(&router_s(), 5, String::from("val1"), 50).unwrap();
    assert_eq!(p.bonded, 0);
    assert_eq!(p.unbonded.len(), 1);
    assert_eq!(p.unbonded[0].amount, 50);
}

#[test]
fn unstake_rejects_foreign_caller() {
    let mut p = proxy();
    p.stake(&router_s(), &coins(100), String::from("val1")).unwrap();
    let r = p.unstake(&String::from("mallory"), 5, String::from("val1"), 40);
    assert_eq!(r.unwrap_err(), ContractError::UnknownUser {});
    assert_eq!(p.bonded, 100);
    assert!(p.unbonded.is_empty());
}

#[test]
fn compound_pays_grossed_commission() {
    let mut p = proxy();
    let instrs = p.compound(&router_s(), String::from("val1"), 90).unwrap();
    assert_eq!(p.compounded, 90);
    // 0.1 / 0.9 floors to 0.111111111111111111, and 90 of that floors to 9.
    assert_eq!(
        instrs,
        vec![
            ProxyInstruction::Delegate {
                validator: String::from("val1"),
                amount: Coin { denom: String::from("uknstl"), amount: 90 },
            },
            ProxyInstruction::Send {
                to_address: String::from("pool"),
                amount: Coin { denom: String::from("uknstl"), amount: 9 },
            },
        ]
    );
}

#[test]
fn compound_rejects_foreign_caller() {
    let mut p = proxy();
    let r = p.compound(&String::from("mallory"), String::from("val1"), 90);
    assert_eq!(r.unwrap_err(), ContractError::UnknownUser {});
    assert_eq!(p.compounded, 0);
}

#[test]
fn decompound_moves_compounded_to_queue() {
    let mut p = proxy();
    p.compound(&router_s(), String::from("val1"), 50).unwrap();
    let instrs = p.decompound(&router_s(), 7, String::from("val1"), 20).unwrap();
    assert_eq!(p.compounded, 30);
    assert_eq!(
        p.unbonded,
        vec![Unbonded { amount: 20, date: 7, validator: String::from("val1") }]
    );
    assert_eq!(
        instrs,
        vec![ProxyInstruction::Undelegate {
            validator: String::from("val1"),
            amount: Coin { denom: String::from("uknstl"), amount: 20 },
        }]
    );
}

#[test]
fn decompound_rejects_excess() {
    let mut p = proxy();
    p.compound(&router_s(), String::from("val1"), 50).unwrap();
    let r = p.decompound(&router_s(), 7, String::from("val1"), 51);
    assert_eq!(r.unwrap_err(), ContractError::InvalidUnstakeAmount {});
    assert_eq!(p.compounded, 50);
    assert!(p.unbonded.is_empty());
}

#[test]
fn restake_redelegates_without_counters() {
    let mut p = proxy();
    p.stake(&router_s(), &coins(100), String::from("val1")).unwrap();
    let instrs = p
        .restake(&router_s(), String::from("val1"), String::from("val2"), 60)
        .unwrap();
    assert_eq!(p.bonded, 100);
    assert_eq!(
        instrs,
        vec![ProxyInstruction::Redelegate {
            from: String::from("val1"),
            to: String::from("val2"),
            amount: Coin { denom: String::from("uknstl"), amount: 60 },
        }]
    );
}

#[test]
fn claim_emits_withdraw_reward() {
    let p = proxy();
    let instrs = p.claim(&router_s(), String::from("val1")).unwrap();
    assert_eq!(
        instrs,
        vec![ProxyInstruction::WithdrawReward { validator: String::from("val1") }]
    );
}

#[test]
fn claim_rejects_foreign_caller() {
    let p = proxy();
    let r = p.claim(&String::from("mallory"), String::from("val1"));
    assert_eq!(r.unwrap_err(), ContractError::UnknownUser {});
}

#[test]
fn withdraw_commission_split() {
    // bonded 900, pre-sweep queue total 100 (all matured), balance 1000,
    // commission 0.1: ratio 0.1, owner 100 + 900*0.1*0.9 = 181, pool 9.
    let mut p = proxy();
    p.stake(&router_s(), &coins(1000), String::from("val1")).unwrap();
    p.unstake(&router_s(), 0, String::from("val1"), 100).unwrap();
    assert_eq!(p.bonded, 900);
    let instrs = p.withdraw(&router_s(), 10, 1000).unwrap();
    assert_eq!(
        instrs,
        vec![
            ProxyInstruction::Send {
                to_address: String::from("alice"),
                amount: Coin { denom: String::from("uknstl"), amount: 181 },
            },
            ProxyInstruction::Send {
                to_address: String::from("pool"),
                amount: Coin { denom: String::from("uknstl"), amount: 9 },
            },
        ]
    );
    assert!(p.unbonded.is_empty());
    assert_eq!(p.bonded, 900);
}

#[test]
fn withdraw_gates_on_maturity() {
    let mut p = proxy();
    p.stake(&router_s(), &coins(1000), String::from("val1")).unwrap();
    p.unstake(&router_s(), 5, String::from("val1"), 100).unwrap();
    // One tick before maturity: the only entry does not count.
    let early = p.withdraw(&router_s(), 14, 1000);
    assert_eq!(early.unwrap_err(), ContractError::InvalidZeroAmount {});
    assert_eq!(p.unbonded.len(), 1);
    // At exactly date + period the entry is payable.
    let due = p.withdraw(&router_s(), 15, 1000);
    assert!(due.is_ok());
    assert!(p.unbonded.is_empty());
}

#[test]
fn withdraw_twice_pays_once() {
    let mut p = proxy();
    p.stake(&router_s(), &coins(1000), String::from("val1")).unwrap();
    p.unstake(&router_s(), 0, String::from("val1"), 100).unwrap();
    p.withdraw(&router_s(), 10, 1000).unwrap();
    let again = p.withdraw(&router_s(), 10, 900);
    assert_eq!(again.unwrap_err(), ContractError::InvalidZeroAmount {});
    assert!(p.unbonded.is_empty());
    assert_eq!(p.bonded, 900);
}

#[test]
fn withdraw_rejects_foreign_caller() {
    let mut p = proxy();
    p.stake(&router_s(), &coins(1000), String::from("val1")).unwrap();
    p.unstake(&router_s(), 0, String::from("val1"), 100).unwrap();
    let r = p.withdraw(&String::from("mallory"), 10, 1000);
    assert_eq!(r.unwrap_err(), ContractError::UnknownUser {});
    assert_eq!(p.unbonded.len(), 1);
    assert_eq!(p.bonded, 900);
}

#[test]
fn withdraw_keeps_pending_entries() {
    let mut p = proxy();
    p.stake(&router_s(), &coins(1000), String::from("val1")).unwrap();
    p.unstake(&router_s(), 0, String::from("val1"), 100).unwrap();
    p.unstake(&router_s(), 8, String::from("val1"), 50).unwrap();
    assert_eq!(p.bonded, 850);
    // denominator 850 + 150 = 1000, matured 100, ratio 0.1; extra 100,
    // yield 10, owner 100 + 9 = 109, pool 1.
    let instrs = p.withdraw(&router_s(), 10, 200).unwrap();
    assert_eq!(
        instrs,
        vec![
            ProxyInstruction::Send {
                to_address: String::from("alice"),
                amount: Coin { denom: String::from("uknstl"), amount: 109 },
            },
            ProxyInstruction::Send {
                to_address: String::from("pool"),
                amount: Coin { denom: String::from("uknstl"), amount: 1 },
            },
        ]
    );
    assert_eq!(
        p.unbonded,
        vec![Unbonded { amount: 50, date: 8, validator: String::from("val1") }]
    );
}

#[test]
fn rewards_query_prices_withdrawal() {
    let mut p = proxy();
    p.stake(&router_s(), &coins(1000), String::from("val1")).unwrap();
    p.unstake(&router_s(), 0, String::from("val1"), 100).unwrap();
    assert_eq!(p.query_rewards(10, 1000), 181);
    assert_eq!(p.query_rewards(9, 1000), 0);
}

#[test]
fn execute_dispatches_stake() {
    let mut p = proxy();
    let info = MessageInfo { sender: router_s(), funds: coins(100) };
    let instrs = p
        .execute(&info, 0, 0, ExecuteMsg::Stake { validator: String::from("val1") })
        .unwrap();
    assert_eq!(p.bonded, 100);
    assert_eq!(instrs.len(), 1);
}

#[test]
fn execute_rejects_foreign_caller_everywhere() {
    let mut p = proxy();
    p.stake(&router_s(), &coins(100), String::from("val1")).unwrap();
    let info = MessageInfo { sender: String::from("mallory"), funds: vec![] };
    let msgs = vec![
        ExecuteMsg::Unstake { validator: String::from("val1"), amount: 10 },
        ExecuteMsg::Restake {
            from: String::from("val1"),
            to: String::from("val2"),
            amount: 10,
        },
        ExecuteMsg::Withdraw {},
        ExecuteMsg::Claim { validator: String::from("val1") },
        ExecuteMsg::Compound { validator: String::from("val1"), amount: 10 },
        ExecuteMsg::Decompound { validator: String::from("val1"), amount: 10 },
    ];
    for msg in msgs {
        let r = p.execute(&info, 5, 1000, msg);
        assert_eq!(r.unwrap_err(), ContractError::UnknownUser {});
        assert_eq!(p.bonded, 100);
        assert_eq!(p.compounded, 0);
        assert!(p.unbonded.is_empty());
    }
}

#[test]
fn query_reports_state() {
    let mut p = proxy();
    p.stake(&router_s(), &coins(1000), String::from("val1")).unwrap();
    p.unstake(&router_s(), 0, String::from("val1"), 100).unwrap();
    match p.query(10, 1000, &QueryMsg::ConfigInfo {}) {
        QueryAnswer::ConfigInfo(c) => assert_eq!(c, p.config),
        other => panic!("wrong answer: {:?}", other),
    }
    match p.query(10, 1000, &QueryMsg::Unbondings {}) {
        QueryAnswer::Unbondings(v) => assert_eq!(v, p.unbonded),
        other => panic!("wrong answer: {:?}", other),
    }
    match p.query(10, 1000, &QueryMsg::Rewards {}) {
        QueryAnswer::Rewards(a) => assert_eq!(a, 181),
        other => panic!("wrong answer: {:?}", other),
    }
}

#[test]
fn stake_handles_extreme_amounts() {
    let mut p = proxy();
    p.stake(&router_s(), &coins(u128::MAX), String::from("val1")).unwrap();
    assert_eq!(p.bonded, u128::MAX);
}

#[test]
fn rewards_query_is_zero_on_fresh_proxy() {
    let p = proxy();
    assert_eq!(p.query_rewards(100, 1_000_000), 0);
}
