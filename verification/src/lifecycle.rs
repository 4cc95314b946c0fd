use vstd::prelude::*;
use vstd::slice::slice_subrange;
use vstd::string::StringExecFns;
use vstd::utf8::decode_utf8;
use vstd::utf8::valid_utf8;
use crate::asset::default_commission;
use crate::asset::AssetInfo;
use crate::asset::Instruction;
use crate::asset::PairInfo;
use crate::decimal::unit;
use crate::decimal::Decimal;
use crate::decimal::DECIMAL_FRACTIONAL;
use crate::error::ContractError;

verus! {

/// The id under which the pair asks for its liquidity ledger, and the only
/// one it accepts an acknowledgment for.
pub const INSTANTIATE_REPLY_ID: u64 = 1;

/// Calls `core::str::from_utf8`. Trusted: the bytes are accepted exactly
/// where they are valid UTF-8, and the text then holds the characters that
/// they encode.
#[verifier::external_body]
pub(crate) fn text_from_utf8(bytes: &[u8]) -> (r: Option<String>)
    ensures
        r is Some <==> valid_utf8(bytes@),
        r matches Some(text) ==> text@ == decode_utf8(bytes@),
{
    match core::str::from_utf8(bytes) {
        Ok(text) => Some(String::from(text)),
        Err(_) => None,
    }
}

/// The bytes of the address inside an acknowledgment, where it has the
/// expected frame: the tag 10, a length in one byte, and at least that many
/// bytes after it.
pub open spec fn framed_address(ack: Seq<u8>) -> Option<Seq<u8>> {
    if ack.len() >= 2 && ack[0] == 10 && ack.len() >= 2 + ack[1] {
        Some(ack.subrange(2, 2 + ack[1]))
    } else {
        None
    }
}

/// Whether `e` is the failure that an acknowledgment without the expected
/// frame is refused with: one that is too short for its tag and length, or
/// for the length it announces, is refused for its length; any other for its
/// tag.
pub open spec fn is_frame_error(ack: Seq<u8>, e: ContractError) -> bool {
    if ack.len() < 2 || ack[0] == 10 {
        e == ContractError::InvalidAddressLength(ack.len() as usize)
    } else {
        e matches ContractError::Std(text) && text@ == "Unexpected field, must be 10"@
    }
}

/// Whether `r` is what reading the address out of `ack` gives.
pub open spec fn is_parsed_addr(ack: Seq<u8>, r: Result<String, ContractError>) -> bool {
    match framed_address(ack) {
        None => r matches Err(e) && is_frame_error(ack, e),
        Some(bytes) => if valid_utf8(bytes) {
            r matches Ok(addr) && addr@ == decode_utf8(bytes)
        } else {
            r == Err::<String, ContractError>(ContractError::InvalidUtf8)
        },
    }
}

/// Reads the address of the new ledger out of the acknowledgment of its
/// creation: a record whose first field is a string.
pub fn parse_init_addr(init_result: &[u8]) -> (r: Result<String, ContractError>)
    ensures
        is_parsed_addr(init_result@, r),
{
    if init_result.len() < 2 {
        return Err(ContractError::InvalidAddressLength(init_result.len()));
    }
    if init_result[0] != 10 {
        return Err(ContractError::Std(String::from_str("Unexpected field, must be 10")));
    }
    let length: usize = init_result[1] as usize;
    if init_result.len() - 2 < length {
        return Err(ContractError::InvalidAddressLength(init_result.len()));
    }
    let addr_bytes = slice_subrange(init_result, 2, 2 + length);
    match text_from_utf8(addr_bytes) {
        Some(addr) => Ok(addr),
        None => Err(ContractError::InvalidUtf8),
    }
}

/// What creates a pair: its two assets, the code of the liquidity ledger to
/// create, and the commission, where it is not the default.
#[derive(Debug, PartialEq, Eq)]
pub struct InstantiateMsg {
    pub asset_infos: [AssetInfo; 2],
    pub token_code_id: u64,
    pub commission: Option<Decimal>,
}

/// How the creation of a sub-message's contract ended: the data it handed
/// back, if any, or the failure's text.
#[derive(Debug, PartialEq, Eq)]
pub enum SubMsgResult {
    Success(Option<Vec<u8>>),
    Failure(String),
}

/// The acknowledgment of a request that the pair made.
#[derive(Debug, PartialEq, Eq)]
pub struct Reply {
    pub id: u64,
    pub result: SubMsgResult,
}

/// Where a pair stands between its creation and the binding of its
/// liquidity ledger. Only a `Ready` pair trades.
#[derive(Debug, PartialEq, Eq)]
pub enum PairLifecycle {
    Uninitialized,
    /// The ledger was asked for; its address is not known yet.
    AwaitingLedgerCreation(PairInfo),
    /// The ledger's address is bound.
    Ready(PairInfo),
}

/// Where a pair with the stored configuration `stored` stands: a pair that
/// stored none is uninitialized, one whose ledger address is still empty is
/// waiting for it, and any other is ready.
pub open spec fn stored_lifecycle(stored: Option<PairInfo>) -> PairLifecycle {
    match stored {
        None => PairLifecycle::Uninitialized,
        Some(info) => if info.liquidity_token@.len() == 0 {
            PairLifecycle::AwaitingLedgerCreation(info)
        } else {
            PairLifecycle::Ready(info)
        },
    }
}

impl PairLifecycle {
    /// Reads where a pair stands off its stored configuration.
    pub fn from_stored(stored: Option<PairInfo>) -> (r: PairLifecycle)
        ensures
            r == stored_lifecycle(stored),
    {
        match stored {
            None => PairLifecycle::Uninitialized,
            Some(info) => {
                if info.liquidity_token.as_str().is_empty() {
                    PairLifecycle::AwaitingLedgerCreation(info)
                } else {
                    PairLifecycle::Ready(info)
                }
            },
        }
    }
}

/// The commission that a pair is created with.
pub open spec fn chosen_commission(commission: Option<Decimal>) -> Decimal {
    match commission {
        Some(rate) => rate,
        None => Decimal { atomics: 3_000_000_000_000_000 },
    }
}

/// Creates a pair: checks the commission, records the configuration with the
/// ledger's address still empty, and asks for the liquidity ledger.
pub fn instantiate(contract_addr: String, msg: InstantiateMsg) -> (r: Result<
    (PairLifecycle, Instruction),
    ContractError,
>)
    ensures
        chosen_commission(msg.commission).atomics > unit() ==> r == Err::<
            (PairLifecycle, Instruction),
            ContractError,
        >(ContractError::InvalidCommission(chosen_commission(msg.commission))),
        chosen_commission(msg.commission).atomics <= unit() ==> (r matches Ok((state, request))
            && request == (Instruction::CreateLedger {
            code_id: msg.token_code_id,
            minter: contract_addr,
        }) && (state matches PairLifecycle::AwaitingLedgerCreation(info) && info.asset_infos
            == msg.asset_infos && info.contract_addr == contract_addr && info.liquidity_token@
            == Seq::<char>::empty() && info.commission == chosen_commission(msg.commission)
            && info.well_formed())),
{
    let commission: Decimal = match msg.commission {
        Some(rate) => rate,
        None => default_commission(),
    };
    if commission.atomics > DECIMAL_FRACTIONAL {
        return Err(ContractError::InvalidCommission(commission));
    }
    let minter: String = contract_addr.clone();
    let info = PairInfo {
        asset_infos: msg.asset_infos,
        contract_addr,
        liquidity_token: String::new(),
        commission,
    };
    Ok(
        (
            PairLifecycle::AwaitingLedgerCreation(info),
            Instruction::CreateLedger { code_id: msg.token_code_id, minter },
        ),
    )
}

/// The bytes that an acknowledgment carries, where it is one that the pair
/// can read an address from.
pub open spec fn acknowledged_data(msg: Reply) -> Option<Seq<u8>> {
    if msg.id != INSTANTIATE_REPLY_ID {
        None
    } else {
        match msg.result {
            SubMsgResult::Success(Some(data)) => Some(data@),
            _ => None,
        }
    }
}

/// Takes the acknowledgment of the ledger's creation and binds the ledger's
/// address. The pair becomes `Ready`; on any failure its state stays as it
/// was. A pair that is `Ready` binds no second ledger.
pub fn reply(state: &PairLifecycle, msg: Reply) -> (r: Result<PairLifecycle, ContractError>)
    ensures
        msg.id != INSTANTIATE_REPLY_ID ==> (r matches Err(ContractError::Std(text)) && text@
            == "Unsupported reply id"@),
        msg.id == INSTANTIATE_REPLY_ID ==> match msg.result {
            SubMsgResult::Failure(failure) => r == Err::<PairLifecycle, ContractError>(
                ContractError::MessageFailure(failure),
            ),
            SubMsgResult::Success(None) => r == Err::<PairLifecycle, ContractError>(
                ContractError::MissingData,
            ),
            SubMsgResult::Success(Some(data)) => true,
        },
        acknowledged_data(msg) matches Some(data) ==> (match framed_address(data) {
            Some(bytes) => if !valid_utf8(bytes) {
                r == Err::<PairLifecycle, ContractError>(ContractError::InvalidUtf8)
            } else {
                match *state {
                    PairLifecycle::AwaitingLedgerCreation(info) => (r matches Ok(
                        PairLifecycle::Ready(bound),
                    ) && bound.asset_infos == info.asset_infos && bound.contract_addr
                        == info.contract_addr && bound.commission == info.commission
                        && bound.liquidity_token@ == decode_utf8(bytes) && (info.well_formed()
                        ==> bound.well_formed())),
                    PairLifecycle::Uninitialized => (r matches Err(ContractError::Std(text))
                        && text@ == "pair_info not found"@),
                    PairLifecycle::Ready(_) => r == Err::<PairLifecycle, ContractError>(
                        ContractError::Unauthorized,
                    ),
                }
            },
            None => r matches Err(e) && is_frame_error(data, e),
        }),
{
    if msg.id != INSTANTIATE_REPLY_ID {
        return Err(ContractError::Std(String::from_str("Unsupported reply id")));
    }
    let data: Vec<u8> = match msg.result {
        SubMsgResult::Failure(failure) => { return Err(ContractError::MessageFailure(failure)); },
        SubMsgResult::Success(None) => { return Err(ContractError::MissingData); },
        SubMsgResult::Success(Some(data)) => data,
    };
    let liquidity_token: String = match parse_init_addr(data.as_slice()) {
        Ok(addr) => addr,
        Err(e) => { return Err(e); },
    };
    match state {
        PairLifecycle::AwaitingLedgerCreation(info) => Ok(
            PairLifecycle::Ready(
                PairInfo {
                    asset_infos: [info.asset_infos[0].clone(), info.asset_infos[1].clone()],
                    contract_addr: info.contract_addr.clone(),
                    liquidity_token,
                    commission: info.commission,
                },
            ),
        ),
        PairLifecycle::Uninitialized => Err(
            ContractError::Std(String::from_str("pair_info not found")),
        ),
        PairLifecycle::Ready(_) => Err(ContractError::Unauthorized),
    }
}

} // verus!
