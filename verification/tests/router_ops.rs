use qstaking::coin::{Coin, MessageInfo};
use qstaking::proxy;
use qstaking::ratio::RATIO_ONE;
use qstaking::router::{
    ContractError, ExecuteMsg, InstantiateMsg, QueryAnswer, QueryMsg, Router, RouterInstruction,
};

const TENTH: u128 = RATIO_ONE / 10;

fn fresh_router() -> (Router, Vec<RouterInstruction>) {
    Router::instantiate(InstantiateMsg {
        denom: String::from("uknstl"),
        cw20_id: 10,
        cw20_label: String::from("credit"),
        token_name: String::from("Quick Stake"),
        token_symbol: String::from("QSTK"),
        proxy_id: 11,
        proxy_label: String::from("stakeproxy"),
        commission_rate: TENTH,
        unbond_period: 10,
    })
}

fn registered_router() -> Router {
    let (mut r, _) = fresh_router();
    r.reply(1, String::from("cw20addr"), None).unwrap();
    r.register(&String::from("alice")).unwrap();
    r.reply(2, String::from("proxyaddr"), Some(String::from("alice"))).unwrap();
    r
}

fn alice_info(funds: Vec<Coin>) -> MessageInfo {
    MessageInfo { sender: String::from("alice"), funds }
}

fn coins(amount: u128) -> Vec<Coin> {
    vec![Coin { denom: String::from("uknstl"), amount }]
}

fn staked_rows(r: &Router) -> Vec<(String, u128, u128)> {
    r.query_stake_amount(&String::from("alice"))
        .into_iter()
        .map(|row| (row.validator, row.staked, row.compounded))
        .collect()
}

#[test]
fn instantiate_requests_issuer() {
    let (r, instrs) = fresh_router();
    assert_eq!(r.config.native_denom.as_str(), "uknstl");
    assert_eq!(r.config.cw20contract.as_str(), "");
    assert_eq!(r.config.stake_contract_id, 11);
    assert_eq!(r.config.commission_rate, TENTH);
    assert_eq!(r.config.unbond_period, 10);
    assert!(r.ledgers.is_empty());
    assert_eq!(r.pending.len(), 1);
    assert_eq!(r.pending[0].id, 1);
    assert_eq!(r.next_id, 2);
    assert_eq!(
        instrs,
        vec![RouterInstruction::InstantiateIssuer {
            id: 1,
            code_id: 10,
            label: String::from("credit"),
            token_name: String::from("Quick Stake"),
            token_symbol: String::from("QSTK"),
        }]
    );
}

#[test]
fn reply_issuer_fills_contract() {
    let (mut r, _) = fresh_router();
    r.reply(1, String::from("cw20addr"), None).unwrap();
    assert_eq!(r.config.cw20contract.as_str(), "cw20addr");
    assert!(r.pending.is_empty());
}

#[test]
fn reply_unknown_id_is_unauthorized() {
    let mut r = registered_router();
    let before = staked_rows(&r);
    let res = r.reply(99, String::from("other"), Some(String::from("alice")));
    assert_eq!(res.unwrap_err(), ContractError::Unauthorized {});
    assert_eq!(staked_rows(&r), before);
    assert!(r.query_account_info(&String::from("alice")));
}

#[test]
fn register_provisions_proxy() {
    let (mut r, _) = fresh_router();
    r.reply(1, String::from("cw20addr"), None).unwrap();
    let instrs = r.register(&String::from("alice")).unwrap();
    assert_eq!(
        instrs,
        vec![RouterInstruction::InstantiateProxy {
            id: 2,
            code_id: 11,
            label: String::from("stakeproxy"),
            denom: String::from("uknstl"),
            owner: String::from("alice"),
            commission_rate: TENTH,
            unbond_period: 10,
        }]
    );
    // Until the completion notification arrives the proxy is unusable.
    assert!(!r.query_account_info(&String::from("alice")));
    let res = r.stake(&alice_info(coins(5)), String::from("val1"));
    assert_eq!(res.unwrap_err(), ContractError::UnregisteredUser {});
}

#[test]
fn reply_proxy_missing_tag_is_submsg_error() {
    let (mut r, _) = fresh_router();
    r.reply(1, String::from("cw20addr"), None).unwrap();
    r.register(&String::from("alice")).unwrap();
    let res = r.reply(2, String::from("proxyaddr"), None);
    assert_eq!(res.unwrap_err(), ContractError::InvalidSubmsg {});
    assert!(!r.query_account_info(&String::from("alice")));
}

#[test]
fn reply_proxy_wrong_tag_is_submsg_error() {
    let (mut r, _) = fresh_router();
    r.reply(1, String::from("cw20addr"), None).unwrap();
    r.register(&String::from("alice")).unwrap();
    let res = r.reply(2, String::from("proxyaddr"), Some(String::from("bob")));
    assert_eq!(res.unwrap_err(), ContractError::InvalidSubmsg {});
    assert!(!r.query_account_info(&String::from("alice")));
}

#[test]
fn reply_proxy_completes_registration() {
    let r = registered_router();
    assert!(r.query_account_info(&String::from("alice")));
    assert!(r.pending.is_empty());
}

#[test]
fn reply_same_id_twice_is_unauthorized() {
    let mut r = registered_router();
    let res = r.reply(2, String::from("elsewhere"), Some(String::from("alice")));
    assert_eq!(res.unwrap_err(), ContractError::Unauthorized {});
}

#[test]
fn register_twice_is_rejected() {
    let mut r = registered_router();
    let res = r.register(&String::from("alice"));
    assert_eq!(res.unwrap_err(), ContractError::AlreadyRegistered {});
}

#[test]
fn stake_requires_registration() {
    let (mut r, _) = fresh_router();
    r.reply(1, String::from("cw20addr"), None).unwrap();
    let res = r.stake(&alice_info(coins(100)), String::from("val1"));
    assert_eq!(res.unwrap_err(), ContractError::UnregisteredUser {});
}

#[test]
fn stake_mints_and_forwards() {
    let mut r = registered_router();
    let instrs = r.stake(&alice_info(coins(100)), String::from("val1")).unwrap();
    assert_eq!(
        instrs,
        vec![
            RouterInstruction::Forward {
                contract: String::from("proxyaddr"),
                msg: proxy::ExecuteMsg::Stake { validator: String::from("val1") },
                funds: coins(100),
            },
            RouterInstruction::Mint { recipient: String::from("alice"), amount: 100 },
        ]
    );
    assert_eq!(staked_rows(&r), vec![(String::from("val1"), 100, 0)]);
    assert_eq!(r.query_reward_token_amount(&String::from("alice")), 100);
}

#[test]
fn stake_rejects_multiple_coins() {
    let mut r = registered_router();
    let funds = vec![
        Coin { denom: String::from("uknstl"), amount: 100 },
        Coin { denom: String::from("uatom"), amount: 5 },
    ];
    let res = r.stake(&alice_info(funds), String::from("val1"));
    assert_eq!(res.unwrap_err(), ContractError::InvalidMultipleTokens {});
    assert_eq!(staked_rows(&r), vec![]);
}

#[test]
fn stake_rejects_wrong_denom() {
    let mut r = registered_router();
    let funds = vec![Coin { denom: String::from("uatom"), amount: 100 }];
    let res = r.stake(&alice_info(funds), String::from("val1"));
    assert_eq!(
        res.unwrap_err(),
        ContractError::UnstakeableTokenSent { denom: String::from("uatom") }
    );
}

#[test]
fn unstake_decompounds_proportionally() {
    // staked 100, compounded 40: unstaking 25 de-compounds 40 * 25/100 = 10.
    let mut r = registered_router();
    r.stake(&alice_info(coins(100)), String::from("val1")).unwrap();
    r.compound(&alice_info(vec![]), String::from("val1"), 40).unwrap();
    let instrs = r
        .unstake(&String::from("alice"), String::from("val1"), 25)
        .unwrap();
    assert_eq!(
        instrs,
        vec![
            RouterInstruction::Forward {
                contract: String::from("proxyaddr"),
                msg: proxy::ExecuteMsg::Decompound {
                    validator: String::from("val1"),
                    amount: 10,
                },
                funds: vec![],
            },
            RouterInstruction::Forward {
                contract: String::from("proxyaddr"),
                msg: proxy::ExecuteMsg::Unstake { validator: String::from("val1"), amount: 25 },
                funds: vec![],
            },
            RouterInstruction::Burn { owner: String::from("alice"), amount: 25 },
        ]
    );
    assert_eq!(staked_rows(&r), vec![(String::from("val1"), 75, 30)]);
    assert_eq!(r.query_reward_token_amount(&String::from("alice")), 75);
}

#[test]
fn unstake_without_compound_skips_decompound() {
    let mut r = registered_router();
    r.stake(&alice_info(coins(100)), String::from("val1")).unwrap();
    let instrs = r
        .unstake(&String::from("alice"), String::from("val1"), 30)
        .unwrap();
    assert_eq!(instrs.len(), 2);
    assert_eq!(
        instrs[1],
        RouterInstruction::Burn { owner: String::from("alice"), amount: 30 }
    );
    assert_eq!(staked_rows(&r), vec![(String::from("val1"), 70, 0)]);
}

#[test]
fn unstake_rejects_excess() {
    let mut r = registered_router();
    r.stake(&alice_info(coins(100)), String::from("val1")).unwrap();
    let res = r.unstake(&String::from("alice"), String::from("val1"), 101);
    assert_eq!(res.unwrap_err(), ContractError::InvalidUnstakeAmount {});
    assert_eq!(staked_rows(&r), vec![(String::from("val1"), 100, 0)]);
}

#[test]
fn unstake_unknown_position_is_rejected() {
    let mut r = registered_router();
    let res = r.unstake(&String::from("alice"), String::from("val9"), 1);
    assert_eq!(res.unwrap_err(), ContractError::InvalidUnstakeAmount {});
}

#[test]
fn conservation_of_minted_credit() {
    // Through stakes, unstakes, restakes and compounds, the minted
    // credit always equals the sum of staked amounts.
    let mut r = registered_router();
    let alice = String::from("alice");
    let check = |r: &Router| {
        let total: u128 = r
            .query_stake_amount(&alice)
            .iter()
            .map(|row| row.staked)
            .sum();
        assert_eq!(r.query_reward_token_amount(&alice), total);
    };
    r.stake(&alice_info(coins(100)), String::from("val1")).unwrap();
    check(&r);
    r.stake(&alice_info(coins(50)), String::from("val2")).unwrap();
    check(&r);
    r.unstake(&alice, String::from("val1"), 40).unwrap();
    check(&r);
    r.restake(&alice, String::from("val2"), String::from("val3"), 20).unwrap();
    check(&r);
    r.compound(&alice_info(vec![]), String::from("val3"), 15).unwrap();
    check(&r);
    r.unstake(&alice, String::from("val3"), 20).unwrap();
    check(&r);
}

#[test]
fn restake_moves_between_validators() {
    let mut r = registered_router();
    r.stake(&alice_info(coins(100)), String::from("val1")).unwrap();
    let instrs = r
        .restake(
            &String::from("alice"),
            String::from("val1"),
            String::from("val2"),
            30,
        )
        .unwrap();
    assert_eq!(
        instrs,
        vec![RouterInstruction::Forward {
            contract: String::from("proxyaddr"),
            msg: proxy::ExecuteMsg::Restake {
                from: String::from("val1"),
                to: String::from("val2"),
                amount: 30,
            },
            funds: vec![],
        }]
    );
    assert_eq!(
        staked_rows(&r),
        vec![(String::from("val1"), 70, 0), (String::from("val2"), 30, 0)]
    );
}

#[test]
fn restake_missing_source_is_rejected() {
    let mut r = registered_router();
    let res = r.restake(
        &String::from("alice"),
        String::from("val9"),
        String::from("val2"),
        30,
    );
    assert_eq!(res.unwrap_err(), ContractError::InvalidRequest {});
}

#[test]
fn restake_excess_is_rejected() {
    let mut r = registered_router();
    r.stake(&alice_info(coins(10)), String::from("val1")).unwrap();
    let res = r.restake(
        &String::from("alice"),
        String::from("val1"),
        String::from("val2"),
        30,
    );
    assert_eq!(res.unwrap_err(), ContractError::TooFewTokens {});
    assert_eq!(staked_rows(&r), vec![(String::from("val1"), 10, 0)]);
}

#[test]
fn collect_forwards_one_claim() {
    let r = registered_router();
    let instrs = r
        .collect(&String::from("alice"), String::from("val1"))
        .unwrap();
    assert_eq!(
        instrs,
        vec![RouterInstruction::Forward {
            contract: String::from("proxyaddr"),
            msg: proxy::ExecuteMsg::Claim { validator: String::from("val1") },
            funds: vec![],
        }]
    );
}

#[test]
fn collect_all_skips_empty_positions() {
    let mut r = registered_router();
    r.stake(&alice_info(coins(100)), String::from("val1")).unwrap();
    r.stake(&alice_info(coins(50)), String::from("val2")).unwrap();
    r.unstake(&String::from("alice"), String::from("val2"), 50).unwrap();
    let instrs = r.collect_all(&String::from("alice")).unwrap();
    assert_eq!(
        instrs,
        vec![RouterInstruction::Forward {
            contract: String::from("proxyaddr"),
            msg: proxy::ExecuteMsg::Claim { validator: String::from("val1") },
            funds: vec![],
        }]
    );
}

#[test]
fn withdraw_forwards_to_proxy() {
    let r = registered_router();
    let instrs = r.withdraw(&String::from("alice")).unwrap();
    assert_eq!(
        instrs,
        vec![RouterInstruction::Forward {
            contract: String::from("proxyaddr"),
            msg: proxy::ExecuteMsg::Withdraw {},
            funds: vec![],
        }]
    );
}

#[test]
fn compound_creates_position_and_forwards_funds() {
    let mut r = registered_router();
    let instrs = r
        .compound(&alice_info(coins(20)), String::from("val3"), 20)
        .unwrap();
    assert_eq!(
        instrs,
        vec![RouterInstruction::Forward {
            contract: String::from("proxyaddr"),
            msg: proxy::ExecuteMsg::Compound { validator: String::from("val3"), amount: 20 },
            funds: coins(20),
        }]
    );
    assert_eq!(staked_rows(&r), vec![(String::from("val3"), 0, 20)]);
    assert_eq!(r.query_reward_token_amount(&String::from("alice")), 0);
}

#[test]
fn execute_dispatches_register_and_stake() {
    let (mut r, _) = fresh_router();
    r.reply(1, String::from("cw20addr"), None).unwrap();
    r.execute(&alice_info(vec![]), ExecuteMsg::Register {}).unwrap();
    r.reply(2, String::from("proxyaddr"), Some(String::from("alice"))).unwrap();
    let instrs = r
        .execute(
            &alice_info(coins(100)),
            ExecuteMsg::Stake { validator: String::from("val1") },
        )
        .unwrap();
    assert_eq!(instrs.len(), 2);
    assert_eq!(staked_rows(&r), vec![(String::from("val1"), 100, 0)]);
}

#[test]
fn query_reports_router_state() {
    let mut r = registered_router();
    r.stake(&alice_info(coins(100)), String::from("val1")).unwrap();
    match r.query(&QueryMsg::ConfigInfo {}) {
        QueryAnswer::ConfigInfo(c) => assert_eq!(c, r.config),
        other => panic!("wrong answer: {:?}", other),
    }
    match r.query(&QueryMsg::AccountInfo { address: String::from("alice") }) {
        QueryAnswer::AccountInfo(b) => assert!(b),
        other => panic!("wrong answer: {:?}", other),
    }
    match r.query(&QueryMsg::AccountInfo { address: String::from("bob") }) {
        QueryAnswer::AccountInfo(b) => assert!(!b),
        other => panic!("wrong answer: {:?}", other),
    }
    match r.query(&QueryMsg::Staked { address: String::from("alice") }) {
        QueryAnswer::Staked(rows) => {
            assert_eq!(rows.len(), 1);
            assert_eq!(rows[0].validator.as_str(), "val1");
            assert_eq!(rows[0].staked, 100);
            assert_eq!(rows[0].compounded, 0);
        },
        other => panic!("wrong answer: {:?}", other),
    }
    match r.query(&QueryMsg::TokenInfo { address: String::from("alice") }) {
        QueryAnswer::TokenInfo(m) => assert_eq!(m, 100),
        other => panic!("wrong answer: {:?}", other),
    }
}

#[test]
fn restake_onto_itself_changes_nothing() {
    let mut r = registered_router();
    r.stake(&alice_info(coins(100)), String::from("val1")).unwrap();
    r.restake(
        &String::from("alice"),
        String::from("val1"),
        String::from("val1"),
        40,
    )
    .unwrap();
    assert_eq!(staked_rows(&r), vec![(String::from("val1"), 100, 0)]);
    assert_eq!(r.query_reward_token_amount(&String::from("alice")), 100);
}
