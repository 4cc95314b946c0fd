use tfi_pair::asset::AssetInfo;
use tfi_pair::asset::Instruction;
use tfi_pair::asset::PairInfo;
use tfi_pair::decimal::Decimal;
use tfi_pair::error::ContractError;
use tfi_pair::lifecycle::instantiate;
use tfi_pair::lifecycle::parse_init_addr;
use tfi_pair::lifecycle::reply;
use tfi_pair::lifecycle::InstantiateMsg;
use tfi_pair::lifecycle::PairLifecycle;
use tfi_pair::lifecycle::Reply;
use tfi_pair::lifecycle::SubMsgResult;

fn asset_infos() -> [AssetInfo; 2] {
    [AssetInfo::Token("asset0000".to_string()), AssetInfo::Token("asset0001".to_string())]
}

fn awaiting() -> PairLifecycle {
    let msg = InstantiateMsg { asset_infos: asset_infos(), token_code_id: 123, commission: None };
    instantiate("pair0000".to_string(), msg).unwrap().0
}

#[test]
fn reply_test() {
    let state = awaiting();
    let reply_msg = Reply {
        id: 1,
        result: SubMsgResult::Success(Some(vec![10, 8, 112, 97, 105, 114, 48, 48, 48, 48])),
    };
    let state = reply(&state, reply_msg).unwrap();
    let mut expected =
        PairInfo::new(asset_infos(), "pair0000".to_string(), "pair0000".to_string());
    expected.liquidity_token = "pair0000".to_string();
    assert_eq!(state, PairLifecycle::Ready(expected));
}

#[test]
fn instantiation_asks_for_the_ledger() {
    let msg = InstantiateMsg {
        asset_infos: asset_infos(),
        token_code_id: 123,
        commission: Some(Decimal::permille(5)),
    };
    let (state, request) = instantiate("pair0000".to_string(), msg).unwrap();
    assert_eq!(
        request,
        Instruction::CreateLedger { code_id: 123, minter: "pair0000".to_string() }
    );
    assert_eq!(
        state,
        PairLifecycle::AwaitingLedgerCreation(
            PairInfo::new(asset_infos(), "pair0000".to_string(), String::new())
                .with_commission(Decimal::permille(5))
        )
    );
}

#[test]
fn a_commission_above_one_is_refused() {
    let msg = InstantiateMsg {
        asset_infos: asset_infos(),
        token_code_id: 123,
        commission: Some(Decimal::permille(1001)),
    };
    assert_eq!(
        instantiate("pair0000".to_string(), msg),
        Err(ContractError::InvalidCommission(Decimal::permille(1001)))
    );
    let msg = InstantiateMsg {
        asset_infos: asset_infos(),
        token_code_id: 123,
        commission: Some(Decimal::one()),
    };
    assert!(instantiate("pair0000".to_string(), msg).is_ok());
}

#[test]
fn a_malformed_acknowledgment_leaves_the_pair_waiting() {
    let state = awaiting();
    let ack = |id: u64, result: SubMsgResult| reply(&state, Reply { id, result });

    assert_eq!(
        ack(2, SubMsgResult::Success(Some(vec![10, 1, 97]))),
        Err(ContractError::Std("Unsupported reply id".to_string()))
    );
    assert_eq!(
        ack(1, SubMsgResult::Failure("out of gas".to_string())),
        Err(ContractError::MessageFailure("out of gas".to_string()))
    );
    assert_eq!(ack(1, SubMsgResult::Success(None)), Err(ContractError::MissingData));
    assert_eq!(
        ack(1, SubMsgResult::Success(Some(vec![10]))),
        Err(ContractError::InvalidAddressLength(1))
    );
    assert_eq!(
        ack(1, SubMsgResult::Success(Some(vec![18, 1, 97]))),
        Err(ContractError::Std("Unexpected field, must be 10".to_string()))
    );
    assert_eq!(
        ack(1, SubMsgResult::Success(Some(vec![10, 5, 97, 98]))),
        Err(ContractError::InvalidAddressLength(4))
    );
    assert_eq!(
        ack(1, SubMsgResult::Success(Some(vec![10, 2, 0xff, 0xfe]))),
        Err(ContractError::InvalidUtf8)
    );
    assert!(matches!(state, PairLifecycle::AwaitingLedgerCreation(_)));
}

#[test]
fn only_a_waiting_pair_binds_a_ledger() {
    let ack = || Reply { id: 1, result: SubMsgResult::Success(Some(vec![10, 2, 108, 116])) };
    assert_eq!(
        reply(&PairLifecycle::Uninitialized, ack()),
        Err(ContractError::Std("pair_info not found".to_string()))
    );
    let ready = reply(&awaiting(), ack()).unwrap();
    match &ready {
        PairLifecycle::Ready(info) => assert_eq!(info.liquidity_token, "lt"),
        other => panic!("not ready: {:?}", other),
    }
    assert_eq!(reply(&ready, ack()), Err(ContractError::Unauthorized));
}

#[test]
fn the_address_is_read_out_of_its_frame() {
    assert_eq!(parse_init_addr(&[10, 3, 97, 98, 99]), Ok("abc".to_string()));
    // bytes after the address belong to the next field
    assert_eq!(parse_init_addr(&[10, 2, 97, 98, 18, 0]), Ok("ab".to_string()));
    assert_eq!(parse_init_addr(&[10, 0]), Ok(String::new()));
    assert_eq!(parse_init_addr(&[10, 2, 0xc3, 0xa9]), Ok("\u{e9}".to_string()));
    assert_eq!(parse_init_addr(&[]), Err(ContractError::InvalidAddressLength(0)));
}

#[test]
fn proper_initialization() {
    let infos =
        || [AssetInfo::Native("uusd".to_string()), AssetInfo::Token("asset0000".to_string())];
    let msg = InstantiateMsg {
        asset_infos: infos(),
        token_code_id: 10,
        commission: Some(Decimal::permille(3)),
    };
    let (state, request) = instantiate("cosmos2contract".to_string(), msg).unwrap();
    assert_eq!(
        request,
        Instruction::CreateLedger { code_id: 10, minter: "cosmos2contract".to_string() }
    );

    // the ledger reports its address
    let ack = |addr: &str| {
        let mut data = vec![10, addr.len() as u8];
        data.extend_from_slice(addr.as_bytes());
        Reply { id: 1, result: SubMsgResult::Success(Some(data)) }
    };
    let state = reply(&state, ack("liquidity0000")).unwrap();

    // it cannot be changed afterwards
    reply(&state, ack("liquidity0001")).unwrap_err();

    let info = match state {
        PairLifecycle::Ready(info) => info,
        other => panic!("not ready: {:?}", other),
    };
    assert_eq!("cosmos2contract", info.contract_addr.as_str());
    assert_eq!("liquidity0000", info.liquidity_token.as_str());
    assert_eq!(info.asset_infos, infos());
    assert_eq!(Decimal::permille(3), info.commission);
}

#[test]
fn the_stored_configuration_tells_where_the_pair_stands() {
    assert_eq!(PairLifecycle::from_stored(None), PairLifecycle::Uninitialized);
    let waiting = || PairInfo::new(asset_infos(), "pair0000".to_string(), String::new());
    assert_eq!(
        PairLifecycle::from_stored(Some(waiting())),
        PairLifecycle::AwaitingLedgerCreation(waiting())
    );
    let bound = || PairInfo::new(asset_infos(), "pair0000".to_string(), "lt".to_string());
    assert_eq!(PairLifecycle::from_stored(Some(bound())), PairLifecycle::Ready(bound()));
    assert_eq!(PairLifecycle::from_stored(Some(awaiting_info())), awaiting());
}

fn awaiting_info() -> PairInfo {
    match awaiting() {
        PairLifecycle::AwaitingLedgerCreation(info) => info,
        other => panic!("not waiting: {:?}", other),
    }
}
