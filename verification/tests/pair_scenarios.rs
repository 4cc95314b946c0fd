use tfi_pair::asset::Asset;
use tfi_pair::asset::AssetInfo;
use tfi_pair::asset::Coin;
use tfi_pair::asset::Instruction;
use tfi_pair::asset::PairInfo;
use tfi_pair::contract::authorize;
use tfi_pair::contract::execute;
use tfi_pair::contract;
use tfi_pair::contract::query_reverse_simulation;
use tfi_pair::contract::query_simulation;
use tfi_pair::contract::receive_cw20;
use tfi_pair::contract::Cw20HookMsg;
use tfi_pair::contract::Cw20ReceiveMsg;
use tfi_pair::contract::ExecuteMsg;
use tfi_pair::contract::ExecuteResponse;
use tfi_pair::contract::SimulationResponse;
use tfi_pair::decimal::Decimal;
use tfi_pair::error::ContractError;
use tfi_pair::tax::TaxPolicy;

const PAIR: &str = "pair";
const LT: &str = "lt";
const CASH: &str = "cash";
const BTC: &str = "btc";

fn btc() -> AssetInfo {
    AssetInfo::Native(BTC.to_string())
}

fn cash() -> AssetInfo {
    AssetInfo::Token(CASH.to_string())
}

fn pair_info() -> PairInfo {
    PairInfo::new([btc(), cash()], PAIR.to_string(), LT.to_string())
}

fn coins(amount: u128, denom: &str) -> Vec<Coin> {
    vec![Coin { denom: denom.to_string(), amount }]
}

/// The pair's balances, as the two ledgers would report them.
struct Ledgers {
    btc: u128,
    cash: u128,
    total_share: u128,
}

impl Ledgers {
    fn provide(&mut self, info: &PairInfo, lp: &str, btc_amount: u128, cash_amount: u128) -> u128 {
        self.btc += btc_amount;
        let done = contract::provide_liquidity(
            info,
            [self.btc, self.cash],
            self.total_share,
            &coins(btc_amount, BTC),
            lp.to_string(),
            [
                Asset { info: btc(), amount: btc_amount },
                Asset { info: cash(), amount: cash_amount },
            ],
            None,
        )
        .unwrap();
        assert_eq!(
            done.messages,
            vec![
                Instruction::TransferFrom {
                    ledger: CASH.to_string(),
                    owner: lp.to_string(),
                    recipient: PAIR.to_string(),
                    amount: cash_amount,
                },
                Instruction::Mint {
                    ledger: LT.to_string(),
                    recipient: lp.to_string(),
                    amount: done.share,
                },
            ]
        );
        self.cash += cash_amount;
        self.total_share += done.share;
        done.share
    }

    fn swap_btc(&mut self, info: &PairInfo, trader: &str, amount: u128) -> u128 {
        self.btc += amount;
        let done = execute(
            info,
            [self.btc, self.cash],
            self.total_share,
            &coins(amount, BTC),
            trader.to_string(),
            ExecuteMsg::Swap {
                offer_asset: Asset { info: btc(), amount },
                belief_price: None,
                max_spread: None,
                to: None,
            },
            &[None, None],
        )
        .unwrap();
        let done = match done {
            ExecuteResponse::Swap(done) => done,
            other => panic!("not a swap: {:?}", other),
        };
        assert_eq!(
            done.message,
            Instruction::Transfer {
                ledger: CASH.to_string(),
                recipient: trader.to_string(),
                amount: done.return_amount,
            }
        );
        self.cash -= done.return_amount;
        done.return_amount
    }

    fn swap_cash(&mut self, info: &PairInfo, trader: &str, amount: u128, to: Option<&str>) -> u128 {
        self.cash += amount;
        let done = receive_cw20(
            info,
            [self.btc, self.cash],
            self.total_share,
            &vec![],
            CASH.to_string(),
            Cw20ReceiveMsg {
                sender: trader.to_string(),
                amount,
                msg: Cw20HookMsg::Swap {
                    belief_price: None,
                    max_spread: None,
                    to: to.map(|addr| addr.to_string()),
                },
            },
            &[None, None],
        )
        .unwrap();
        let done = match done {
            ExecuteResponse::Swap(done) => done,
            other => panic!("not a swap: {:?}", other),
        };
        assert_eq!(
            done.message,
            Instruction::Send {
                to_address: to.unwrap_or(trader).to_string(),
                coin: Coin { denom: BTC.to_string(), amount: done.return_amount },
            }
        );
        self.btc -= done.return_amount;
        done.return_amount
    }

    fn withdraw(&mut self, info: &PairInfo, lp: &str, amount: u128) -> [u128; 2] {
        let done = receive_cw20(
            info,
            [self.btc, self.cash],
            self.total_share,
            &vec![],
            LT.to_string(),
            Cw20ReceiveMsg {
                sender: lp.to_string(),
                amount,
                msg: Cw20HookMsg::WithdrawLiquidity,
            },
            &[None, None],
        )
        .unwrap();
        let done = match done {
            ExecuteResponse::WithdrawLiquidity(done) => done,
            other => panic!("not a withdrawal: {:?}", other),
        };
        assert_eq!(done.withdrawn_share, amount);
        let refunds = [done.refund_assets[0].amount, done.refund_assets[1].amount];
        assert_eq!(
            done.messages,
            vec![
                Instruction::Send {
                    to_address: lp.to_string(),
                    coin: Coin { denom: BTC.to_string(), amount: refunds[0] },
                },
                Instruction::Transfer {
                    ledger: CASH.to_string(),
                    recipient: lp.to_string(),
                    amount: refunds[1],
                },
                Instruction::Burn { ledger: LT.to_string(), amount },
            ]
        );
        self.btc -= refunds[0];
        self.cash -= refunds[1];
        self.total_share -= amount;
        refunds
    }
}

#[test]
fn setup_liquidity_pool() {
    let info = pair_info();

    // a simulation with an asset that the pair does not hold
    let err = query_simulation(
        &info,
        [0, 0],
        Asset { info: AssetInfo::Native("foobar".to_string()), amount: 1000 },
    )
    .unwrap_err();
    assert_eq!(err, ContractError::AssetMismatch("foobar".to_string()));

    // a simulation against empty reserves
    let err = query_simulation(&info, [0, 0], Asset { info: cash(), amount: 7000 }).unwrap_err();
    assert_eq!(err, ContractError::DivideByZero);

    let mut ledgers = Ledgers { btc: 0, cash: 0, total_share: 0 };
    ledgers.provide(&info, "owner", 10, 7000);

    // doubling the amount of cash returns half the btc
    let res = query_simulation(
        &info,
        [ledgers.btc, ledgers.cash],
        Asset { info: cash(), amount: 7000 },
    )
    .unwrap();
    assert_eq!(res.return_amount, 5);
}

#[test]
fn multitest_swap() {
    let info = pair_info();
    let mut ledgers = Ledgers { btc: 0, cash: 0, total_share: 0 };

    let share = ledgers.provide(&info, "liquidity-provider", 2000, 6000);
    assert_eq!(share, 3464);
    assert_eq!((ledgers.btc, ledgers.cash), (2000, 6000));

    let received = ledgers.swap_btc(&info, "trader", 1000);
    assert_eq!(received, 1994);
    assert_eq!((ledgers.btc, ledgers.cash), (3000, 4006));

    let received = ledgers.swap_cash(&info, "trader", 1000, Some("trader-recv"));
    assert_eq!(received, 599);
    assert_eq!((ledgers.btc, ledgers.cash), (2401, 5006));

    let refunds = ledgers.withdraw(&info, "liquidity-provider", 3464);
    assert_eq!(refunds, [2401, 5006]);
    assert_eq!((ledgers.btc, ledgers.cash, ledgers.total_share), (0, 0, 0));
}

#[test]
fn multitest_simulate() {
    let info = pair_info();
    let mut ledgers = Ledgers { btc: 0, cash: 0, total_share: 0 };
    ledgers.provide(&info, "liquidity-provider", 2000, 6000);

    let res = query_simulation(&info, [2000, 6000], Asset { info: btc(), amount: 1000 }).unwrap();
    assert_eq!(
        res,
        SimulationResponse { return_amount: 1994, spread_amount: 1000, commission_amount: 6 }
    );

    let res = query_simulation(&info, [2000, 6000], Asset { info: cash(), amount: 14000 }).unwrap();
    assert_eq!(
        res,
        SimulationResponse { return_amount: 1396, spread_amount: 3266, commission_amount: 4 }
    );
}

fn reverse_then_forward(info: &PairInfo, ask: AssetInfo, offer: AssetInfo) {
    let rev = query_reverse_simulation(info, [2000, 6000], Asset { info: ask, amount: 1000 }).unwrap();
    let sim = query_simulation(info, [2000, 6000], Asset { info: offer, amount: rev.offer_amount })
        .unwrap();
    assert_eq!(sim.return_amount, 1000);
    assert_eq!(sim.spread_amount, rev.spread_amount);
    assert_eq!(sim.commission_amount, rev.commission_amount);
}

#[test]
fn multitest_reverse_simulate() {
    let info = pair_info();
    reverse_then_forward(&info, btc(), cash());
    reverse_then_forward(&info, cash(), btc());
}

#[test]
fn custom_commission_swap() {
    let info = pair_info().with_commission(Decimal::permille(5));
    let mut ledgers = Ledgers { btc: 0, cash: 0, total_share: 0 };

    let share = ledgers.provide(&info, "liquidity-provider", 2000, 6000);
    assert_eq!(share, 3464);

    let received = ledgers.swap_btc(&info, "trader", 1000);
    assert_eq!(received, 1990);
    assert_eq!((ledgers.btc, ledgers.cash), (3000, 4010));

    let received = ledgers.swap_cash(&info, "trader", 1000, None);
    assert_eq!(received, 597);
    assert_eq!((ledgers.btc, ledgers.cash), (2403, 5010));
}

#[test]
fn custom_commission_simulate() {
    let info = pair_info().with_commission(Decimal::permille(5));

    let res = query_simulation(&info, [2000, 6000], Asset { info: btc(), amount: 1000 }).unwrap();
    assert_eq!(
        res,
        SimulationResponse { return_amount: 1990, spread_amount: 1000, commission_amount: 10 }
    );

    let res = query_simulation(&info, [2000, 6000], Asset { info: cash(), amount: 14000 }).unwrap();
    assert_eq!(
        res,
        SimulationResponse { return_amount: 1393, spread_amount: 3266, commission_amount: 7 }
    );
}

#[test]
fn custom_commission_reverse_simulate() {
    let info = pair_info().with_commission(Decimal::permille(5));
    reverse_then_forward(&info, btc(), cash());
    reverse_then_forward(&info, cash(), btc());
}

#[test]
fn provide_liquidity() {
    let info = PairInfo::new(
        [AssetInfo::Native("uusd".to_string()), AssetInfo::Token("asset0000".to_string())],
        "cosmos2contract".to_string(),
        "liquidity0000".to_string(),
    );
    let assets = |token: u128, native: u128| {
        [
            Asset { info: AssetInfo::Token("asset0000".to_string()), amount: token },
            Asset { info: AssetInfo::Native("uusd".to_string()), amount: native },
        ]
    };

    // the first deposit: 100 of each side mints 100 shares
    let done = contract::provide_liquidity(
        &info,
        [100, 0],
        0,
        &coins(100, "uusd"),
        "addr0000".to_string(),
        assets(100, 100),
        None,
    )
    .unwrap();
    assert_eq!(
        done.messages,
        vec![
            Instruction::TransferFrom {
                ledger: "asset0000".to_string(),
                owner: "addr0000".to_string(),
                recipient: "cosmos2contract".to_string(),
                amount: 100,
            },
            Instruction::Mint {
                ledger: "liquidity0000".to_string(),
                recipient: "addr0000".to_string(),
                amount: 100,
            },
        ]
    );

    // a deposit at 1:2 into reserves of 1:1 is taken at 1:1; the rest is a donation
    let done = contract::provide_liquidity(
        &info,
        [200 + 200, 200],
        100,
        &coins(200, "uusd"),
        "addr0000".to_string(),
        assets(100, 200),
        None,
    )
    .unwrap();
    assert_eq!(done.share, 50);
    assert_eq!(
        done.messages[1],
        Instruction::Mint {
            ledger: "liquidity0000".to_string(),
            recipient: "addr0000".to_string(),
            amount: 50,
        }
    );

    // one side alone mints nothing
    let done = contract::provide_liquidity(
        &info,
        [400, 200],
        100,
        &vec![],
        "addr0001".to_string(),
        assets(100, 0),
        None,
    )
    .unwrap();
    assert_eq!(done.share, 0);

    // the funds do not hold what the assets claim
    let err = contract::provide_liquidity(
        &info,
        [400, 200],
        100,
        &coins(100, "uusd"),
        "addr0000".to_string(),
        assets(100, 50),
        None,
    )
    .unwrap_err();
    assert_eq!(
        err,
        ContractError::Std(
            "Native token balance mismatch between the argument and the transferred".to_string()
        )
    );
}

#[test]
fn withdraw_liquidity() {
    let info = PairInfo::new(
        [AssetInfo::Native("uusd".to_string()), AssetInfo::Token("asset0000".to_string())],
        "cosmos2contract".to_string(),
        "liquidity0000".to_string(),
    );
    let done = contract::withdraw_liquidity(&info, [100, 100], 100, "addr0000".to_string(), 100, &[None, None])
        .unwrap();
    assert_eq!(done.withdrawn_share, 100);
    assert_eq!(
        done.refund_assets,
        [
            Asset { info: AssetInfo::Native("uusd".to_string()), amount: 100 },
            Asset { info: AssetInfo::Token("asset0000".to_string()), amount: 100 },
        ]
    );
    assert_eq!(
        done.messages,
        vec![
            Instruction::Send {
                to_address: "addr0000".to_string(),
                coin: Coin { denom: "uusd".to_string(), amount: 100 },
            },
            Instruction::Transfer {
                ledger: "asset0000".to_string(),
                recipient: "addr0000".to_string(),
                amount: 100,
            },
            Instruction::Burn { ledger: "liquidity0000".to_string(), amount: 100 },
        ]
    );
}

#[test]
fn hooks_are_taken_from_the_right_ledgers_only() {
    let info = pair_info();
    let swap = |ledger: &str| {
        receive_cw20(
            &info,
            [2000, 7000],
            3464,
            &vec![],
            ledger.to_string(),
            Cw20ReceiveMsg {
                sender: "trader".to_string(),
                amount: 1000,
                msg: Cw20HookMsg::Swap { belief_price: None, max_spread: None, to: None },
            },
            &[None, None],
        )
    };
    assert_eq!(swap("other"), Err(ContractError::Unauthorized));
    assert_eq!(swap(LT), Err(ContractError::Unauthorized));
    assert!(swap(CASH).is_ok());

    let withdraw = |ledger: &str| {
        receive_cw20(
            &info,
            [2000, 6000],
            3464,
            &vec![],
            ledger.to_string(),
            Cw20ReceiveMsg {
                sender: "lp".to_string(),
                amount: 10,
                msg: Cw20HookMsg::WithdrawLiquidity,
            },
            &[None, None],
        )
    };
    assert_eq!(withdraw(CASH), Err(ContractError::Unauthorized));
    assert!(withdraw(LT).is_ok());
}

#[test]
fn a_token_cannot_be_offered_directly() {
    let info = pair_info();
    let res = execute(
        &info,
        [2000, 6000],
        3464,
        &vec![],
        "trader".to_string(),
        ExecuteMsg::Swap {
            offer_asset: Asset { info: cash(), amount: 10 },
            belief_price: None,
            max_spread: None,
            to: None,
        },
        &[None, None],
    );
    assert_eq!(res, Err(ContractError::Unauthorized));
}

#[test]
fn a_swap_of_more_than_the_balance_underflows() {
    let info = pair_info();
    let res = execute(
        &info,
        [500, 6000],
        3464,
        &coins(1000, BTC),
        "trader".to_string(),
        ExecuteMsg::Swap {
            offer_asset: Asset { info: btc(), amount: 1000 },
            belief_price: None,
            max_spread: None,
            to: None,
        },
        &[None, None],
    );
    assert_eq!(res, Err(ContractError::Underflow));
}

#[test]
fn a_deposit_must_name_both_assets() {
    let info = pair_info();
    let res = contract::provide_liquidity(
        &info,
        [10, 0],
        0,
        &coins(10, BTC),
        "lp".to_string(),
        [
            Asset { info: btc(), amount: 10 },
            Asset { info: AssetInfo::Token("other".to_string()), amount: 10 },
        ],
        None,
    );
    assert_eq!(res, Err(ContractError::AssetMismatch(CASH.to_string())));
}

#[test]
fn a_lopsided_deposit_is_refused_under_a_tolerance() {
    let info = pair_info();
    let res = contract::provide_liquidity(
        &info,
        [2000 + 100, 6000],
        3464,
        &coins(100, BTC),
        "lp".to_string(),
        [Asset { info: btc(), amount: 100 }, Asset { info: cash(), amount: 100 }],
        Some(Decimal::percent(1)),
    );
    assert!(matches!(res, Err(ContractError::MaxSlippageAssertion { .. })), "{:?}", res);

    let res = contract::provide_liquidity(
        &info,
        [2000 + 100, 6000],
        3464,
        &coins(100, BTC),
        "lp".to_string(),
        [Asset { info: btc(), amount: 100 }, Asset { info: cash(), amount: 300 }],
        Some(Decimal::percent(1)),
    )
    .unwrap();
    assert_eq!(res.share, 173);
}

#[test]
fn the_first_deposit_is_trusted_whatever_the_tolerance() {
    let info = pair_info();
    for tolerance in [None, Some(Decimal::percent(1)), Some(Decimal::zero()), Some(Decimal::percent(200))] {
        let done = contract::provide_liquidity(
            &info,
            [2000, 0],
            0,
            &coins(2000, BTC),
            "lp".to_string(),
            [Asset { info: btc(), amount: 2000 }, Asset { info: cash(), amount: 6000 }],
            tolerance,
        )
        .unwrap();
        assert_eq!(done.share, 3464);
    }
    // a later deposit under a tolerance that leaves nothing of one is refused
    let res = contract::provide_liquidity(
        &info,
        [2000 + 100, 6000],
        3464,
        &coins(100, BTC),
        "lp".to_string(),
        [Asset { info: btc(), amount: 100 }, Asset { info: cash(), amount: 300 }],
        Some(Decimal::percent(200)),
    );
    assert_eq!(res.unwrap_err(), ContractError::Underflow);
}

#[test]
fn a_request_is_held_against_its_sender_first() {
    let info = pair_info();
    let swap = |offer: AssetInfo| ExecuteMsg::Swap {
        offer_asset: Asset { info: offer, amount: 10 },
        belief_price: None,
        max_spread: None,
        to: Some("not an address".to_string()),
    };
    assert_eq!(authorize(&info, &"trader".to_string(), &swap(btc())), Ok(()));
    assert_eq!(
        authorize(&info, &"trader".to_string(), &swap(cash())),
        Err(ContractError::Unauthorized)
    );
    let notice = |msg: Cw20HookMsg| {
        ExecuteMsg::Receive(Cw20ReceiveMsg { sender: "trader".to_string(), amount: 10, msg })
    };
    let hook_swap = || Cw20HookMsg::Swap { belief_price: None, max_spread: None, to: None };
    assert_eq!(authorize(&info, &CASH.to_string(), &notice(hook_swap())), Ok(()));
    assert_eq!(
        authorize(&info, &LT.to_string(), &notice(hook_swap())),
        Err(ContractError::Unauthorized)
    );
    assert_eq!(authorize(&info, &LT.to_string(), &notice(Cw20HookMsg::WithdrawLiquidity)), Ok(()));
    assert_eq!(
        authorize(&info, &CASH.to_string(), &notice(Cw20HookMsg::WithdrawLiquidity)),
        Err(ContractError::Unauthorized)
    );
    let deposit = ExecuteMsg::ProvideLiquidity {
        assets: [Asset { info: btc(), amount: 1 }, Asset { info: cash(), amount: 1 }],
        slippage_tolerance: None,
    };
    assert_eq!(authorize(&info, &"anyone".to_string(), &deposit), Ok(()));
}

fn uusd_pair() -> PairInfo {
    PairInfo::new(
        [AssetInfo::Native("uusd".to_string()), AssetInfo::Token("asset0000".to_string())],
        "cosmos2contract".to_string(),
        "liquidity0000".to_string(),
    )
    .with_commission(Decimal::permille(3))
}

#[test]
fn try_native_to_token() {
    let total_share: u128 = 30000000000;
    let asset_pool_amount: u128 = 20000000000;
    let collateral_pool_amount: u128 = 30000000000;
    let offer_amount: u128 = 1500000000;
    let info = uusd_pair();
    let uusd = || AssetInfo::Native("uusd".to_string());
    let asset0000 = || AssetInfo::Token("asset0000".to_string());
    let taxes = [Some(TaxPolicy { rate: Decimal::zero(), cap: 1000000 }), None];

    // normal swap; the deposit is already in the balance
    let res = execute(
        &info,
        [collateral_pool_amount + offer_amount, asset_pool_amount],
        total_share,
        &coins(offer_amount, "uusd"),
        "addr0000".to_string(),
        ExecuteMsg::Swap {
            offer_asset: Asset { info: uusd(), amount: offer_amount },
            belief_price: None,
            max_spread: None,
            to: None,
        },
        &taxes,
    )
    .unwrap();
    let res = match res {
        ExecuteResponse::Swap(done) => done,
        other => panic!("not a swap: {:?}", other),
    };

    // current price is 1.5, so expected return without spread is 1000
    // 952.380953 = 20000 - 20000 * 30000 / (30000 + 1500)
    let expected_ret_amount: u128 = 952_380_953;
    let expected_spread_amount = offer_amount * 666_666_666 / 1_000_000_000 - expected_ret_amount;
    // this pair keeps one commission, all of it for the liquidity providers
    let expected_commission_amount = expected_ret_amount * 3 / 1000;
    let expected_return_amount = expected_ret_amount - expected_commission_amount;
    let expected_tax_amount: u128 = 0; // no tax for token

    let simulation_res = query_simulation(
        &info,
        [collateral_pool_amount, asset_pool_amount],
        Asset { info: uusd(), amount: offer_amount },
    )
    .unwrap();
    assert_eq!(expected_return_amount, simulation_res.return_amount);
    assert_eq!(expected_commission_amount, simulation_res.commission_amount);
    assert_eq!(expected_spread_amount, simulation_res.spread_amount);

    let reverse_simulation_res = query_reverse_simulation(
        &info,
        [collateral_pool_amount, asset_pool_amount],
        Asset { info: asset0000(), amount: expected_return_amount },
    )
    .unwrap();
    assert!(offer_amount.abs_diff(reverse_simulation_res.offer_amount) < 5);
    assert!(expected_commission_amount.abs_diff(reverse_simulation_res.commission_amount) < 5);
    assert!(expected_spread_amount.abs_diff(reverse_simulation_res.spread_amount) < 5);

    assert_eq!(res.offer_asset, uusd());
    assert_eq!(res.ask_asset, asset0000());
    assert_eq!(res.offer_amount, offer_amount);
    assert_eq!(res.return_amount, expected_return_amount);
    assert_eq!(res.tax_amount, expected_tax_amount);
    assert_eq!(res.spread_amount, expected_spread_amount);
    assert_eq!(res.commission_amount, expected_commission_amount);
    assert_eq!(
        res.message,
        Instruction::Transfer {
            ledger: "asset0000".to_string(),
            recipient: "addr0000".to_string(),
            amount: expected_return_amount,
        }
    );
}

#[test]
fn try_token_to_native() {
    let total_share: u128 = 20000000000;
    let asset_pool_amount: u128 = 30000000000;
    let collateral_pool_amount: u128 = 20000000000;
    let offer_amount: u128 = 1500000000;
    let info = uusd_pair();
    let uusd = || AssetInfo::Native("uusd".to_string());
    let asset0000 = || AssetInfo::Token("asset0000".to_string());
    let taxes = [Some(TaxPolicy { rate: Decimal::percent(1), cap: 1000000 }), None];
    let balances = [collateral_pool_amount, asset_pool_amount + offer_amount];

    // unauthorized access; can not execute swap directly for token swap
    let res = execute(
        &info,
        balances,
        total_share,
        &vec![],
        "addr0000".to_string(),
        ExecuteMsg::Swap {
            offer_asset: Asset { info: asset0000(), amount: offer_amount },
            belief_price: None,
            max_spread: None,
            to: None,
        },
        &taxes,
    );
    assert_eq!(res, Err(ContractError::Unauthorized));

    // normal sell
    let sell = |ledger: &str| {
        receive_cw20(
            &info,
            balances,
            total_share,
            &vec![],
            ledger.to_string(),
            Cw20ReceiveMsg {
                sender: "addr0000".to_string(),
                amount: offer_amount,
                msg: Cw20HookMsg::Swap { belief_price: None, max_spread: None, to: None },
            },
            &taxes,
        )
    };
    let res = match sell("asset0000").unwrap() {
        ExecuteResponse::Swap(done) => done,
        other => panic!("not a swap: {:?}", other),
    };

    // current price is 1.5, so expected return without spread is 1000
    // 952.380953 = 20000 - 20000 * 30000 / (30000 + 1500)
    let expected_ret_amount: u128 = 952_380_953;
    let expected_spread_amount = offer_amount * 666_666_666 / 1_000_000_000 - expected_ret_amount;
    // this pair keeps one commission, all of it for the liquidity providers
    let expected_commission_amount = expected_ret_amount * 3 / 1000;
    let expected_return_amount = expected_ret_amount - expected_commission_amount;
    let expected_tax_amount =
        std::cmp::min(1000000, expected_return_amount - expected_return_amount * 100 / 101);

    let simulation_res = query_simulation(
        &info,
        [collateral_pool_amount, asset_pool_amount],
        Asset { info: asset0000(), amount: offer_amount },
    )
    .unwrap();
    assert_eq!(expected_return_amount, simulation_res.return_amount);
    assert_eq!(expected_commission_amount, simulation_res.commission_amount);
    assert_eq!(expected_spread_amount, simulation_res.spread_amount);

    let reverse_simulation_res = query_reverse_simulation(
        &info,
        [collateral_pool_amount, asset_pool_amount],
        Asset { info: uusd(), amount: expected_return_amount },
    )
    .unwrap();
    assert!(offer_amount.abs_diff(reverse_simulation_res.offer_amount) < 5);
    assert!(expected_commission_amount.abs_diff(reverse_simulation_res.commission_amount) < 5);
    assert!(expected_spread_amount.abs_diff(reverse_simulation_res.spread_amount) < 5);

    assert_eq!(res.offer_asset, asset0000());
    assert_eq!(res.ask_asset, uusd());
    assert_eq!(res.offer_amount, offer_amount);
    assert_eq!(res.return_amount, expected_return_amount);
    assert_eq!(res.tax_amount, expected_tax_amount);
    assert_eq!(res.spread_amount, expected_spread_amount);
    assert_eq!(res.commission_amount, expected_commission_amount);
    assert_eq!(
        res.message,
        Instruction::Send {
            to_address: "addr0000".to_string(),
            coin: Coin {
                denom: "uusd".to_string(),
                amount: expected_return_amount - expected_tax_amount,
            },
        }
    );

    // failed due to non asset token contract try to execute sell
    assert_eq!(sell("liquidtity0000"), Err(ContractError::Unauthorized));
}
