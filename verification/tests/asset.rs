use tfi_pair::asset::amount_of;
use tfi_pair::asset::default_commission;
use tfi_pair::asset::find_amount;
use tfi_pair::asset::Asset;
use tfi_pair::asset::AssetInfo;
use tfi_pair::asset::Coin;
use tfi_pair::asset::Instruction;
use tfi_pair::asset::PairInfo;
use tfi_pair::collaborators::assert_error;
use tfi_pair::contract::query_pool;
use tfi_pair::decimal::Decimal;
use tfi_pair::error::ContractError;
use tfi_pair::tax::TaxPolicy;

#[test]
fn test_asset_info() {
    let token_info = AssetInfo::Token("asset0000".to_string());
    let native_token_info = AssetInfo::Native("uusd".to_string());

    assert_eq!(false, token_info.equal(&native_token_info));
    assert_eq!(false, token_info.equal(&AssetInfo::Token("asset0001".to_string())));
    assert_eq!(true, token_info.equal(&AssetInfo::Token("asset0000".to_string())));

    assert_eq!(true, native_token_info.is_native_token());
    assert_eq!(false, token_info.is_native_token());

    let info = PairInfo::new(
        [token_info.clone(), native_token_info.clone()],
        "cosmos2contract".to_string(),
        "liquidity0000".to_string(),
    );
    let pools = info.query_pools([123, 123]);
    assert_eq!(pools[0], Asset { info: token_info, amount: 123 });
    assert_eq!(pools[1], Asset { info: native_token_info, amount: 123 });
}

#[test]
fn test_asset() {
    let token_asset = Asset { amount: 123123, info: AssetInfo::Token("asset0000".to_string()) };
    let native_token_asset = Asset { amount: 123123, info: AssetInfo::Native("uusd".to_string()) };

    assert_eq!(
        native_token_asset.deduct_tax(&None).unwrap(),
        Coin { denom: "uusd".to_string(), amount: 123123 }
    );

    assert_eq!(
        token_asset.into_msg("rcpt".to_string()).unwrap(),
        Instruction::Transfer {
            ledger: "asset0000".to_string(),
            recipient: "rcpt".to_string(),
            amount: 123123,
        }
    );

    assert_eq!(
        native_token_asset.into_msg("rcpt".to_string()).unwrap(),
        Instruction::Send {
            to_address: "rcpt".to_string(),
            coin: Coin { denom: "uusd".to_string(), amount: 123123 },
        }
    );
}

#[test]
fn test_deduct() {
    let tax_rate = Decimal::percent(2);
    let tax_cap: u128 = 1_000_000;
    let policy = Some(TaxPolicy { rate: tax_rate, cap: tax_cap });

    let amount: u128 = 1_000_000_000;
    let expected_after_amount = std::cmp::max(amount - amount * 2 / 100, amount - tax_cap);

    let after_amount =
        (Asset { info: AssetInfo::Native("uusd".to_string()), amount }).deduct_tax(&policy).unwrap();

    assert_eq!(expected_after_amount, after_amount.amount);
}

#[test]
fn test_query_pool() {
    let info = PairInfo::new(
        [AssetInfo::Native("uusd".to_string()), AssetInfo::Token("asset0000".to_string())],
        "cosmos2contract".to_string(),
        "liquidity0000".to_string(),
    );
    let res = query_pool(&info, [222, 333], 111);
    assert_eq!(
        res.assets,
        [
            Asset { info: AssetInfo::Native("uusd".to_string()), amount: 222 },
            Asset { info: AssetInfo::Token("asset0000".to_string()), amount: 333 },
        ]
    );
    assert_eq!(res.total_share, 111);
}

#[test]
fn the_tax_is_proportional_below_the_cap() {
    let policy = Some(TaxPolicy { rate: Decimal::percent(2), cap: 1_000_000 });
    let asset = Asset { info: AssetInfo::Native("uusd".to_string()), amount: 1020 };
    // 1020 - floor(1020 / 1.02) = 1020 - 1000
    assert_eq!(asset.compute_tax(&policy), Ok(20));
    assert_eq!(asset.deduct_tax(&policy).unwrap().amount, 1000);
}

#[test]
fn a_token_is_never_taxed() {
    let policy = Some(TaxPolicy { rate: Decimal::percent(2), cap: 1_000_000 });
    let asset = Asset { info: AssetInfo::Token("asset0000".to_string()), amount: 1020 };
    assert_eq!(asset.compute_tax(&policy), Ok(0));
    assert_eq!(
        asset.deduct_tax(&policy),
        Err(ContractError::Std("cannot deduct tax from token asset".to_string()))
    );
}

#[test]
fn a_tax_rate_without_room_overflows() {
    let policy = Some(TaxPolicy { rate: Decimal { atomics: u128::MAX }, cap: 1 });
    let asset = Asset { info: AssetInfo::Native("uusd".to_string()), amount: 10 };
    assert_eq!(asset.compute_tax(&policy), Err(ContractError::Overflow));
}

#[test]
fn a_token_is_no_coin() {
    let token = Asset { info: AssetInfo::Token("asset0000".to_string()), amount: 5 };
    assert_eq!(
        token.to_coin(),
        Err(ContractError::Std("cannot convert cw20 asset to native Coin".to_string()))
    );
    let native = Asset { info: AssetInfo::Native("uusd".to_string()), amount: 5 };
    assert_eq!(native.to_coin(), Ok(Coin { denom: "uusd".to_string(), amount: 5 }));
}

#[test]
fn the_first_coin_of_a_denomination_counts() {
    let funds = vec![
        Coin { denom: "ukrw".to_string(), amount: 300 },
        Coin { denom: "uusd".to_string(), amount: 200 },
        Coin { denom: "uusd".to_string(), amount: 7 },
    ];
    assert_eq!(find_amount(&funds, &"uusd".to_string()), Some(200));
    assert_eq!(find_amount(&funds, &"uluna".to_string()), None);
    assert_eq!(amount_of(&funds, "ukrw".to_string()), 300);
    assert_eq!(amount_of(&funds, "uluna".to_string()), 0);
}

#[test]
fn funds_are_held_against_the_asset() {
    let funds = vec![Coin { denom: "uusd".to_string(), amount: 200 }];
    let native = |amount: u128| Asset { info: AssetInfo::Native("uusd".to_string()), amount };
    assert_eq!(native(200).assert_sent_native_token_balance(&funds), Ok(()));
    assert!(native(199).assert_sent_native_token_balance(&funds).is_err());
    assert!(native(1).assert_sent_native_token_balance(&vec![]).is_err());
    assert_eq!(native(0).assert_sent_native_token_balance(&vec![]), Ok(()));
    let token = Asset { info: AssetInfo::Token("asset0000".to_string()), amount: 5 };
    assert_eq!(token.assert_sent_native_token_balance(&funds), Ok(()));
}

#[test]
fn names_and_bytes() {
    let token = AssetInfo::Token("asset0000".to_string());
    assert_eq!(token.to_string(), "asset0000");
    assert_eq!(token.as_bytes(), b"asset0000");
    let native = AssetInfo::Native("uusd".to_string());
    assert_eq!(native.to_string(), "uusd");
    assert_eq!(native.as_bytes(), b"uusd");
}

#[test]
fn a_pair_starts_with_the_default_commission() {
    let info = PairInfo::new(
        [AssetInfo::Native("uusd".to_string()), AssetInfo::Token("asset0000".to_string())],
        "pair0000".to_string(),
        "liquidity0000".to_string(),
    );
    assert_eq!(info.commission, default_commission());
    assert_eq!(info.commission, Decimal::permille(3));
    let info = info.with_commission(Decimal::permille(5));
    assert_eq!(info.commission.atomics(), 5_000_000_000_000_000);
    assert_eq!(info.contract_addr, "pair0000");
    assert_eq!(info.liquidity_token, "liquidity0000");
}

#[test]
fn errors_are_compared_as_text() {
    let received = ContractError::AssetMismatch("foobar".to_string());
    let text = match received {
        ContractError::AssetMismatch(name) => format!("Asset mismatch: {}", name),
        other => panic!("received error {:?}", other),
    };
    let expected = "Asset mismatch: foobar".to_string();
    if text != expected {
        panic!("received error {:?} while expected {:?}", text, expected);
    }
    assert_error(&text, &expected);
}
