use vstd::prelude::*;
use crate::asset::funds_match;
use crate::asset::Asset;
use crate::asset::AssetInfo;
use crate::asset::AssetInfoView;
use crate::asset::Coin;
use crate::asset::Instruction;
use crate::asset::PairInfo;
use crate::decimal::Decimal;
use crate::error::ContractError;
use crate::guard::assert_max_spread;
use crate::guard::assert_max_spread_outcome;
use crate::guard::assert_slippage_tolerance;
use crate::guard::slippage_outcome;
use crate::liquidity::is_minted_share;
use crate::math::is_floor_sqrt;
use crate::liquidity::withdraw_liquidity_outcome;
use crate::swap::compute_offer_amount;
use crate::swap::compute_offer_amount_outcome;
use crate::swap::compute_swap;
use crate::swap::compute_swap_outcome;
use crate::swap::SwapQuote;
use crate::tax::compute_tax_outcome;
use crate::tax::TaxPolicy;

verus! {

/// Which of the pair's two assets `info` names: 0, 1, or neither.
pub open spec fn matching_side(info: AssetInfo, asset_infos: [AssetInfo; 2]) -> Option<int> {
    if info@ == asset_infos[0]@ {
        Some(0)
    } else if info@ == asset_infos[1]@ {
        Some(1)
    } else {
        None
    }
}

fn find_side(info: &AssetInfo, asset_infos: &[AssetInfo; 2]) -> (r: Option<usize>)
    ensures
        match matching_side(*info, *asset_infos) {
            Some(side) => r == Some(side as usize),
            None => r is None,
        },
{
    if info.equal(&asset_infos[0]) {
        Some(0)
    } else if info.equal(&asset_infos[1]) {
        Some(1)
    } else {
        None
    }
}

/// The answer to a simulated swap.
pub type SimulationResponse = SwapQuote;

/// The answer to a swap simulated backwards.
#[derive(Clone, Copy, Debug, PartialEq, Eq, Structural)]
pub struct ReverseSimulationResponse {
    pub offer_amount: u128,
    pub spread_amount: u128,
    pub commission_amount: u128,
}

/// The pair's reserves and the liquidity shares outstanding.
#[derive(Debug, PartialEq, Eq)]
pub struct PoolResponse {
    pub assets: [Asset; 2],
    pub total_share: u128,
}

/// The reserves as they are read from the ledgers, with the shares outstanding.
pub fn query_pool(pair_info: &PairInfo, balances: [u128; 2], total_share: u128) -> (r: PoolResponse)
    ensures
        r.assets[0] == (Asset { info: pair_info.asset_infos[0], amount: balances[0] }),
        r.assets[1] == (Asset { info: pair_info.asset_infos[1], amount: balances[1] }),
        r.total_share == total_share,
{
    PoolResponse { assets: pair_info.query_pools(balances), total_share }
}

/// A swap priced against the reserves as they stand, failures included.
pub open spec fn query_simulation_outcome(
    pair_info: PairInfo,
    balances: [u128; 2],
    offer_asset: Asset,
) -> Result<SwapQuote, ContractError> {
    match matching_side(offer_asset.info, pair_info.asset_infos) {
        None => Err(ContractError::AssetMismatch(offer_asset.info.name())),
        Some(side) => compute_swap_outcome(
            balances[side] as int,
            balances[1 - side] as int,
            offer_asset.amount as int,
            pair_info.commission,
        ),
    }
}

/// What a swap of `offer_asset` would pay, with nothing moved.
pub fn query_simulation(pair_info: &PairInfo, balances: [u128; 2], offer_asset: Asset) -> (r: Result<
    SimulationResponse,
    ContractError,
>)
    ensures
        r == query_simulation_outcome(*pair_info, balances, offer_asset),
{
    let side: usize = match find_side(&offer_asset.info, &pair_info.asset_infos) {
        Some(side) => side,
        None => { return Err(ContractError::AssetMismatch(offer_asset.info.to_string())); },
    };
    compute_swap(balances[side], balances[1 - side], offer_asset.amount, pair_info.commission)
}

/// A swap priced backwards against the reserves as they stand, failures
/// included.
pub open spec fn query_reverse_simulation_outcome(
    pair_info: PairInfo,
    balances: [u128; 2],
    ask_asset: Asset,
) -> Result<ReverseSimulationResponse, ContractError> {
    match matching_side(ask_asset.info, pair_info.asset_infos) {
        None => Err(ContractError::AssetMismatch(ask_asset.info.name())),
        Some(side) => match compute_offer_amount_outcome(
            balances[1 - side] as int,
            balances[side] as int,
            ask_asset.amount as int,
            pair_info.commission,
        ) {
            Err(e) => Err(e),
            Ok((offer_amount, spread_amount, commission_amount)) => Ok(
                ReverseSimulationResponse { offer_amount, spread_amount, commission_amount },
            ),
        },
    }
}

/// What would have to be offered to receive `ask_asset`, with nothing moved.
pub fn query_reverse_simulation(pair_info: &PairInfo, balances: [u128; 2], ask_asset: Asset) -> (r:
    Result<ReverseSimulationResponse, ContractError>)
    ensures
        r == query_reverse_simulation_outcome(*pair_info, balances, ask_asset),
{
    let side: usize = match find_side(&ask_asset.info, &pair_info.asset_infos) {
        Some(side) => side,
        None => { return Err(ContractError::AssetMismatch(ask_asset.info.to_string())); },
    };
    match compute_offer_amount(
        balances[1 - side],
        balances[side],
        ask_asset.amount,
        pair_info.commission,
    ) {
        Ok((offer_amount, spread_amount, commission_amount)) => Ok(
            ReverseSimulationResponse { offer_amount, spread_amount, commission_amount },
        ),
        Err(e) => Err(e),
    }
}

/// What a completed swap reports, with the one instruction that pays the
/// trader.
#[derive(Debug, PartialEq, Eq)]
pub struct SwapResponse {
    pub offer_asset: AssetInfo,
    pub ask_asset: AssetInfo,
    pub offer_amount: u128,
    pub return_amount: u128,
    pub tax_amount: u128,
    pub spread_amount: u128,
    pub commission_amount: u128,
    pub message: Instruction,
}

/// The one who is paid: the named recipient, or else the sender.
pub open spec fn recipient_of(to: Option<String>, sender: String) -> String {
    match to {
        Some(addr) => addr,
        None => sender,
    }
}

/// A swap whose funds have arrived, failures included. `balances` are the
/// reserves as the ledgers report them, the offer already among them: it is
/// taken off the offer side before the swap is priced. The spread is checked
/// on the amounts before tax; the tax comes off what is paid out.
pub open spec fn swap_outcome(
    pair_info: PairInfo,
    balances: [u128; 2],
    sender: String,
    offer_asset: Asset,
    belief_price: Option<Decimal>,
    max_spread: Option<Decimal>,
    to: Option<String>,
    taxes: [Option<TaxPolicy>; 2],
) -> Result<SwapResponse, ContractError> {
    match matching_side(offer_asset.info, pair_info.asset_infos) {
        None => Err(ContractError::AssetMismatch(offer_asset.info.name())),
        Some(side) => if balances[side] < offer_asset.amount {
            Err(ContractError::Underflow)
        } else {
            match compute_swap_outcome(
                balances[side] - offer_asset.amount,
                balances[1 - side] as int,
                offer_asset.amount as int,
                pair_info.commission,
            ) {
                Err(e) => Err(e),
                Ok(quote) => match assert_max_spread_outcome(
                    belief_price,
                    max_spread,
                    offer_asset.amount as int,
                    quote.return_amount + quote.commission_amount,
                    quote.spread_amount as int,
                ) {
                    Err(e) => Err(e),
                    Ok(_) => match compute_tax_outcome(
                        Asset { info: pair_info.asset_infos[1 - side], amount: quote.return_amount },
                        taxes[1 - side],
                    ) {
                        Err(e) => Err(e),
                        Ok(tax_amount) => Ok(
                            SwapResponse {
                                offer_asset: offer_asset.info,
                                ask_asset: pair_info.asset_infos[1 - side],
                                offer_amount: offer_asset.amount,
                                return_amount: quote.return_amount,
                                tax_amount,
                                spread_amount: quote.spread_amount,
                                commission_amount: quote.commission_amount,
                                message: (Asset {
                                    info: pair_info.asset_infos[1 - side],
                                    amount: (quote.return_amount - tax_amount) as u128,
                                }).instruction_to(recipient_of(to, sender)),
                            },
                        ),
                    },
                },
            }
        },
    }
}

/// What `swap` returns: an offer that the funds do not match is refused
/// first, and then the swap is `swap_outcome`.
pub open spec fn is_swap(
    pair_info: PairInfo,
    balances: [u128; 2],
    funds: Seq<Coin>,
    sender: String,
    offer_asset: Asset,
    belief_price: Option<Decimal>,
    max_spread: Option<Decimal>,
    to: Option<String>,
    taxes: [Option<TaxPolicy>; 2],
    r: Result<SwapResponse, ContractError>,
) -> bool {
    if funds_match(offer_asset, funds) {
        r == swap_outcome(
            pair_info,
            balances,
            sender,
            offer_asset,
            belief_price,
            max_spread,
            to,
            taxes,
        )
    } else {
        r matches Err(ContractError::Std(text)) && text@
            == "Native token balance mismatch between the argument and the transferred"@
    }
}

/// Sells `offer_asset` into the pair for `sender`, and pays `to`, or else
/// the sender. `funds` are the native coins that came with the call, and
/// `taxes` the network's deductions on the pair's two assets, if any.
pub fn swap(
    pair_info: &PairInfo,
    balances: [u128; 2],
    funds: &Vec<Coin>,
    sender: String,
    offer_asset: Asset,
    belief_price: Option<Decimal>,
    max_spread: Option<Decimal>,
    to: Option<String>,
    taxes: &[Option<TaxPolicy>; 2],
) -> (r: Result<SwapResponse, ContractError>)
    ensures
        is_swap(
            *pair_info,
            balances,
            funds@,
            sender,
            offer_asset,
            belief_price,
            max_spread,
            to,
            *taxes,
            r,
        ),
{
    match offer_asset.assert_sent_native_token_balance(funds) {
        Ok(_) => {},
        Err(e) => { return Err(e); },
    }
    let side: usize = match find_side(&offer_asset.info, &pair_info.asset_infos) {
        Some(side) => side,
        None => { return Err(ContractError::AssetMismatch(offer_asset.info.to_string())); },
    };
    if balances[side] < offer_asset.amount {
        return Err(ContractError::Underflow);
    }
    let offer_pool: u128 = balances[side] - offer_asset.amount;
    let ask_pool: u128 = balances[1 - side];
    let offer_amount: u128 = offer_asset.amount;
    let quote: SwapQuote = match compute_swap(offer_pool, ask_pool, offer_amount, pair_info.commission) {
        Ok(v) => v,
        Err(e) => { return Err(e); },
    };
    match assert_max_spread(
        belief_price,
        max_spread,
        offer_amount,
        quote.return_amount + quote.commission_amount,
        quote.spread_amount,
    ) {
        Ok(_) => {},
        Err(e) => { return Err(e); },
    }
    let return_asset = Asset { info: pair_info.asset_infos[1 - side].clone(), amount: quote.return_amount };
    let tax_amount: u128 = match return_asset.compute_tax(&taxes[1 - side]) {
        Ok(v) => v,
        Err(e) => { return Err(e); },
    };
    let recipient: String = match to {
        Some(addr) => addr,
        None => sender,
    };
    let paid = Asset { info: return_asset.info.clone(), amount: quote.return_amount - tax_amount };
    let message: Instruction = match paid.into_msg(recipient) {
        Ok(v) => v,
        Err(e) => { return Err(e); },
    };
    Ok(
        SwapResponse {
            offer_asset: offer_asset.info,
            ask_asset: return_asset.info,
            offer_amount,
            return_amount: quote.return_amount,
            tax_amount,
            spread_amount: quote.spread_amount,
            commission_amount: quote.commission_amount,
            message,
        },
    )
}

/// What a completed deposit reports, with the instructions that collect the
/// token sides and mint the shares.
#[derive(Debug, PartialEq, Eq)]
pub struct ProvideLiquidityResponse {
    pub assets: [Asset; 2],
    pub share: u128,
    pub messages: Vec<Instruction>,
}

/// The amount that `assets` bring of the asset `info`: that of the first of
/// the two that names it.
pub open spec fn deposit_of(assets: [Asset; 2], info: AssetInfo) -> Option<u128> {
    if assets[0].info@ == info@ {
        Some(assets[0].amount)
    } else if assets[1].info@ == info@ {
        Some(assets[1].amount)
    } else {
        None
    }
}

fn find_deposit(assets: &[Asset; 2], info: &AssetInfo) -> (r: Option<u128>)
    ensures
        r == deposit_of(*assets, *info),
{
    if assets[0].info.equal(info) {
        Some(assets[0].amount)
    } else if assets[1].info.equal(info) {
        Some(assets[1].amount)
    } else {
        None
    }
}

/// The reserve that a deposit meets. A native deposit has already arrived in
/// the balance and is taken off it; a token deposit is still to be collected.
pub open spec fn reserve_before(info: AssetInfo, balance: u128, deposit: u128) -> Result<
    u128,
    ContractError,
> {
    if info is Native {
        if balance < deposit {
            Err(ContractError::Underflow)
        } else {
            Ok((balance - deposit) as u128)
        }
    } else {
        Ok(balance)
    }
}

/// The instruction that collects a deposit: a token is transferred from its
/// owner on the allowance given to the pair, a native asset needs none.
pub open spec fn collection(info: AssetInfo, owner: String, recipient: String, amount: u128) -> Seq<
    Instruction,
> {
    match info {
        AssetInfo::Token(addr) => seq![
            Instruction::TransferFrom { ledger: addr, owner, recipient, amount },
        ],
        AssetInfo::Native(_) => seq![],
    }
}

/// The two deposits and the two reserves that a deposit is judged on, in the
/// order of the pair's assets, or the failure that comes before any share is
/// computed. The first deposit into a pool sets its ratio and is taken as it
/// is; every later one has to pass the slippage check.
pub open spec fn deposit_terms(
    pair_info: PairInfo,
    balances: [u128; 2],
    total_share: u128,
    assets: [Asset; 2],
    slippage_tolerance: Option<Decimal>,
) -> Result<(u128, u128, u128, u128), ContractError> {
    match deposit_of(assets, pair_info.asset_infos[0]) {
        None => Err(ContractError::AssetMismatch(pair_info.asset_infos[0].name())),
        Some(d0) => match deposit_of(assets, pair_info.asset_infos[1]) {
            None => Err(ContractError::AssetMismatch(pair_info.asset_infos[1].name())),
            Some(d1) => match reserve_before(pair_info.asset_infos[0], balances[0], d0) {
                Err(e) => Err(e),
                Ok(p0) => match reserve_before(pair_info.asset_infos[1], balances[1], d1) {
                    Err(e) => Err(e),
                    Ok(p1) => if total_share == 0 {
                        Ok((d0, d1, p0, p1))
                    } else {
                        match slippage_outcome(slippage_tolerance, d0, d1, p0, p1) {
                            Err(e) => Err(e),
                            Ok(_) => Ok((d0, d1, p0, p1)),
                        }
                    },
                },
            },
        },
    }
}

/// The instructions of a deposit that mints `share`: the token sides are
/// collected in the order of the pair's assets, then the shares are minted
/// to the provider.
pub open spec fn deposit_instructions(
    pair_info: PairInfo,
    sender: String,
    d0: u128,
    d1: u128,
    share: u128,
) -> Seq<Instruction> {
    collection(pair_info.asset_infos[0], sender, pair_info.contract_addr, d0) + collection(
        pair_info.asset_infos[1],
        sender,
        pair_info.contract_addr,
        d1,
    ) + seq![
        Instruction::Mint { ledger: pair_info.liquidity_token, recipient: sender, amount: share },
    ]
}

fn push_collection(
    messages: &mut Vec<Instruction>,
    info: &AssetInfo,
    owner: &String,
    recipient: &String,
    amount: u128,
)
    ensures
        final(messages)@ == old(messages)@ + collection(*info, *owner, *recipient, amount),
{
    match info {
        AssetInfo::Token(addr) => {
            messages.push(
                Instruction::TransferFrom {
                    ledger: addr.clone(),
                    owner: owner.clone(),
                    recipient: recipient.clone(),
                    amount,
                },
            );
            assert(messages@ =~= old(messages)@ + collection(*info, *owner, *recipient, amount));
        },
        AssetInfo::Native(_) => {
            assert(messages@ =~= old(messages)@ + collection(*info, *owner, *recipient, amount));
        },
    }
}

fn reserve_for(info: &AssetInfo, balance: u128, deposit: u128) -> (r: Result<u128, ContractError>)
    ensures
        r == reserve_before(*info, balance, deposit),
{
    if info.is_native_token() {
        if balance < deposit {
            Err(ContractError::Underflow)
        } else {
            Ok(balance - deposit)
        }
    } else {
        Ok(balance)
    }
}

/// What `provide_liquidity` returns: assets that the funds do not match are
/// refused first; then come the failures of `deposit_terms`, and then the
/// share is minted.
pub open spec fn is_deposit(
    pair_info: PairInfo,
    balances: [u128; 2],
    total_share: u128,
    funds: Seq<Coin>,
    sender: String,
    assets: [Asset; 2],
    slippage_tolerance: Option<Decimal>,
    r: Result<ProvideLiquidityResponse, ContractError>,
) -> bool {
    if !(funds_match(assets[0], funds) && funds_match(assets[1], funds)) {
        r matches Err(ContractError::Std(text)) && text@
            == "Native token balance mismatch between the argument and the transferred"@
    } else {
        match deposit_terms(pair_info, balances, total_share, assets, slippage_tolerance) {
            Err(e) => r == Err::<ProvideLiquidityResponse, ContractError>(e),
            Ok((d0, d1, p0, p1)) => match r {
                Err(e) => is_minted_share(d0, d1, p0, p1, total_share, Err(e)),
                Ok(done) => is_minted_share(d0, d1, p0, p1, total_share, Ok(done.share))
                    && done.assets == assets && done.messages@ == deposit_instructions(
                    pair_info,
                    sender,
                    d0,
                    d1,
                    done.share,
                ),
            },
        }
    }
}

/// The first deposit into a pool is trusted: whatever the tolerance, it
/// mints the integer square root of the product of its two sides, where the
/// funds match, both assets are the pair's, the reserves hold the native
/// deposits, and the product fits 128 bits.
pub proof fn lemma_first_deposit_trusted(
    pair_info: PairInfo,
    balances: [u128; 2],
    funds: Seq<Coin>,
    sender: String,
    assets: [Asset; 2],
    slippage_tolerance: Option<Decimal>,
    r: Result<ProvideLiquidityResponse, ContractError>,
)
    requires
        is_deposit(pair_info, balances, 0, funds, sender, assets, slippage_tolerance, r),
        funds_match(assets[0], funds),
        funds_match(assets[1], funds),
        deposit_of(assets, pair_info.asset_infos[0]) is Some,
        deposit_of(assets, pair_info.asset_infos[1]) is Some,
        reserve_before(
            pair_info.asset_infos[0],
            balances[0],
            deposit_of(assets, pair_info.asset_infos[0]).unwrap(),
        ) is Ok,
        reserve_before(
            pair_info.asset_infos[1],
            balances[1],
            deposit_of(assets, pair_info.asset_infos[1]).unwrap(),
        ) is Ok,
        deposit_of(assets, pair_info.asset_infos[0]).unwrap() * deposit_of(
            assets,
            pair_info.asset_infos[1],
        ).unwrap() <= u128::MAX,
    ensures
        r matches Ok(done) && is_floor_sqrt(
            deposit_of(assets, pair_info.asset_infos[0]).unwrap() * deposit_of(
                assets,
                pair_info.asset_infos[1],
            ).unwrap(),
            done.share as int,
        ),
{
}

/// Deposits `assets` for `sender` and mints the liquidity shares they are
/// worth. `balances` are the reserves as the ledgers report them, `funds` the
/// native coins that came with the call, and `total_share` the shares
/// outstanding. Both assets are held against the funds first, the first
/// asset first.
pub fn provide_liquidity(
    pair_info: &PairInfo,
    balances: [u128; 2],
    total_share: u128,
    funds: &Vec<Coin>,
    sender: String,
    assets: [Asset; 2],
    slippage_tolerance: Option<Decimal>,
) -> (r: Result<ProvideLiquidityResponse, ContractError>)
    ensures
        is_deposit(
            *pair_info,
            balances,
            total_share,
            funds@,
            sender,
            assets,
            slippage_tolerance,
            r,
        ),
{
    match assets[0].assert_sent_native_token_balance(funds) {
        Ok(_) => {},
        Err(e) => { return Err(e); },
    }
    match assets[1].assert_sent_native_token_balance(funds) {
        Ok(_) => {},
        Err(e) => { return Err(e); },
    }
    let d0: u128 = match find_deposit(&assets, &pair_info.asset_infos[0]) {
        Some(v) => v,
        None => { return Err(ContractError::AssetMismatch(pair_info.asset_infos[0].to_string())); },
    };
    let d1: u128 = match find_deposit(&assets, &pair_info.asset_infos[1]) {
        Some(v) => v,
        None => { return Err(ContractError::AssetMismatch(pair_info.asset_infos[1].to_string())); },
    };
    let p0: u128 = match reserve_for(&pair_info.asset_infos[0], balances[0], d0) {
        Ok(v) => v,
        Err(e) => { return Err(e); },
    };
    let p1: u128 = match reserve_for(&pair_info.asset_infos[1], balances[1], d1) {
        Ok(v) => v,
        Err(e) => { return Err(e); },
    };
    let deposits: [u128; 2] = [d0, d1];
    let pools: [u128; 2] = [p0, p1];
    if total_share != 0 {
        match assert_slippage_tolerance(slippage_tolerance, &deposits, &pools) {
            Ok(_) => {},
            Err(e) => { return Err(e); },
        }
    }
    let share: u128 = match crate::liquidity::provide_liquidity(&deposits, &pools, total_share) {
        Ok(v) => v,
        Err(e) => { return Err(e); },
    };
    let mut messages: Vec<Instruction> = Vec::new();
    push_collection(&mut messages, &pair_info.asset_infos[0], &sender, &pair_info.contract_addr, d0);
    push_collection(&mut messages, &pair_info.asset_infos[1], &sender, &pair_info.contract_addr, d1);
    messages.push(
        Instruction::Mint {
            ledger: pair_info.liquidity_token.clone(),
            recipient: sender,
            amount: share,
        },
    );
    assert(messages@ =~= deposit_instructions(*pair_info, sender, d0, d1, share));
    Ok(ProvideLiquidityResponse { assets, share, messages })
}

/// What a completed withdrawal reports, with the instructions that pay the
/// two refunds and burn the shares.
#[derive(Debug, PartialEq, Eq)]
pub struct WithdrawLiquidityResponse {
    pub withdrawn_share: u128,
    pub refund_assets: [Asset; 2],
    pub messages: Vec<Instruction>,
}

/// The tax on each of the two refunds, failures included.
pub open spec fn refund_taxes(
    pair_info: PairInfo,
    first: u128,
    second: u128,
    taxes: [Option<TaxPolicy>; 2],
) -> Result<(u128, u128), ContractError> {
    match compute_tax_outcome(Asset { info: pair_info.asset_infos[0], amount: first }, taxes[0]) {
        Err(e) => Err(e),
        Ok(t0) => match compute_tax_outcome(
            Asset { info: pair_info.asset_infos[1], amount: second },
            taxes[1],
        ) {
            Err(e) => Err(e),
            Ok(t1) => Ok((t0, t1)),
        },
    }
}

/// The instructions of a withdrawal: the two refunds, each less its tax, are
/// paid to the holder, and the shares are burned.
pub open spec fn withdrawal_instructions(
    pair_info: PairInfo,
    sender: String,
    amount: u128,
    paid0: u128,
    paid1: u128,
) -> Seq<Instruction> {
    seq![
        (Asset { info: pair_info.asset_infos[0], amount: paid0 }).instruction_to(sender),
        (Asset { info: pair_info.asset_infos[1], amount: paid1 }).instruction_to(sender),
        Instruction::Burn { ledger: pair_info.liquidity_token, amount },
    ]
}

/// What `withdraw_liquidity` returns: the refunds are computed, then their
/// taxes, and the response reports the refunds before tax.
pub open spec fn is_withdrawal(
    pair_info: PairInfo,
    balances: [u128; 2],
    total_share: u128,
    sender: String,
    amount: u128,
    taxes: [Option<TaxPolicy>; 2],
    r: Result<WithdrawLiquidityResponse, ContractError>,
) -> bool {
    match withdraw_liquidity_outcome(amount, total_share, balances) {
        Err(e) => r == Err::<WithdrawLiquidityResponse, ContractError>(e),
        Ok((first, second)) => match refund_taxes(pair_info, first, second, taxes) {
            Err(e) => r == Err::<WithdrawLiquidityResponse, ContractError>(e),
            Ok((t0, t1)) => (r matches Ok(done) && done.withdrawn_share == amount
                && done.refund_assets[0] == (Asset { info: pair_info.asset_infos[0], amount: first })
                && done.refund_assets[1] == (Asset {
                info: pair_info.asset_infos[1],
                amount: second,
            }) && done.messages@ == withdrawal_instructions(
                pair_info,
                sender,
                amount,
                (first - t0) as u128,
                (second - t1) as u128,
            )),
        },
    }
}

/// Burns `amount` shares that `sender` gave up and refunds their part of the
/// reserves. `taxes` are the network's deductions on the two assets, if any.
pub fn withdraw_liquidity(
    pair_info: &PairInfo,
    balances: [u128; 2],
    total_share: u128,
    sender: String,
    amount: u128,
    taxes: &[Option<TaxPolicy>; 2],
) -> (r: Result<WithdrawLiquidityResponse, ContractError>)
    ensures
        is_withdrawal(*pair_info, balances, total_share, sender, amount, *taxes, r),
{
    let refunds: [u128; 2] = match crate::liquidity::withdraw_liquidity(amount, total_share, &balances) {
        Ok(v) => v,
        Err(e) => { return Err(e); },
    };
    let refund0 = Asset { info: pair_info.asset_infos[0].clone(), amount: refunds[0] };
    let refund1 = Asset { info: pair_info.asset_infos[1].clone(), amount: refunds[1] };
    let t0: u128 = match refund0.compute_tax(&taxes[0]) {
        Ok(v) => v,
        Err(e) => { return Err(e); },
    };
    let t1: u128 = match refund1.compute_tax(&taxes[1]) {
        Ok(v) => v,
        Err(e) => { return Err(e); },
    };
    let paid0 = Asset { info: refund0.info.clone(), amount: refunds[0] - t0 };
    let paid1 = Asset { info: refund1.info.clone(), amount: refunds[1] - t1 };
    let holder: String = sender.clone();
    let m0: Instruction = match paid0.into_msg(holder) {
        Ok(v) => v,
        Err(e) => { return Err(e); },
    };
    let m1: Instruction = match paid1.into_msg(sender) {
        Ok(v) => v,
        Err(e) => { return Err(e); },
    };
    let mut messages: Vec<Instruction> = Vec::new();
    messages.push(m0);
    messages.push(m1);
    messages.push(Instruction::Burn { ledger: pair_info.liquidity_token.clone(), amount });
    assert(messages@ =~= withdrawal_instructions(
        *pair_info,
        sender,
        amount,
        (refunds[0] - t0) as u128,
        (refunds[1] - t1) as u128,
    ));
    Ok(
        WithdrawLiquidityResponse {
            withdrawn_share: amount,
            refund_assets: [refund0, refund1],
            messages,
        },
    )
}

/// What a token ledger's hook asks of the pair.
#[derive(Debug, PartialEq, Eq)]
pub enum Cw20HookMsg {
    /// Sell the tokens that were sent.
    Swap { belief_price: Option<Decimal>, max_spread: Option<Decimal>, to: Option<String> },
    /// Give the liquidity shares that were sent up for their part of the
    /// reserves.
    WithdrawLiquidity,
}

/// A token ledger's notice that `sender` sent `amount` to the pair.
#[derive(Debug, PartialEq, Eq)]
pub struct Cw20ReceiveMsg {
    pub sender: String,
    pub amount: u128,
    pub msg: Cw20HookMsg,
}

/// What is asked of the pair.
#[derive(Debug, PartialEq, Eq)]
pub enum ExecuteMsg {
    Receive(Cw20ReceiveMsg),
    ProvideLiquidity { assets: [Asset; 2], slippage_tolerance: Option<Decimal> },
    Swap {
        offer_asset: Asset,
        belief_price: Option<Decimal>,
        max_spread: Option<Decimal>,
        to: Option<String>,
    },
}

/// What the pair did.
#[derive(Debug, PartialEq, Eq)]
pub enum ExecuteResponse {
    ProvideLiquidity(ProvideLiquidityResponse),
    Swap(SwapResponse),
    WithdrawLiquidity(WithdrawLiquidityResponse),
}

/// Whether `addr` is the ledger of one of the pair's two assets.
pub open spec fn is_pair_token(pair_info: PairInfo, addr: Seq<char>) -> bool {
    pair_info.asset_infos[0]@ == AssetInfoView::Token(addr) || pair_info.asset_infos[1]@
        == AssetInfoView::Token(addr)
}

/// The swap inside an `ExecuteResponse`, where it holds one.
pub open spec fn as_swap(r: Result<ExecuteResponse, ContractError>) -> Option<
    Result<SwapResponse, ContractError>,
> {
    match r {
        Ok(ExecuteResponse::Swap(done)) => Some(Ok(done)),
        Ok(_) => None,
        Err(e) => Some(Err(e)),
    }
}

/// The withdrawal inside an `ExecuteResponse`, where it holds one.
pub open spec fn as_withdrawal(r: Result<ExecuteResponse, ContractError>) -> Option<
    Result<WithdrawLiquidityResponse, ContractError>,
> {
    match r {
        Ok(ExecuteResponse::WithdrawLiquidity(done)) => Some(Ok(done)),
        Ok(_) => None,
        Err(e) => Some(Err(e)),
    }
}

/// The deposit inside an `ExecuteResponse`, where it holds one.
pub open spec fn as_deposit(r: Result<ExecuteResponse, ContractError>) -> Option<
    Result<ProvideLiquidityResponse, ContractError>,
> {
    match r {
        Ok(ExecuteResponse::ProvideLiquidity(done)) => Some(Ok(done)),
        Ok(_) => None,
        Err(e) => Some(Err(e)),
    }
}

/// What `receive_cw20` returns. A swap is taken only from the ledger of one
/// of the pair's tokens, and sells that token for the one who sent it; a
/// withdrawal is taken only from the pair's liquidity ledger.
pub open spec fn is_received(
    pair_info: PairInfo,
    balances: [u128; 2],
    total_share: u128,
    funds: Seq<Coin>,
    ledger: String,
    cw20_msg: Cw20ReceiveMsg,
    taxes: [Option<TaxPolicy>; 2],
    r: Result<ExecuteResponse, ContractError>,
) -> bool {
    match cw20_msg.msg {
        Cw20HookMsg::Swap { belief_price, max_spread, to } => if !is_pair_token(
            pair_info,
            ledger@,
        ) {
            r == Err::<ExecuteResponse, ContractError>(ContractError::Unauthorized)
        } else {
            as_swap(r) matches Some(inner) && is_swap(
                pair_info,
                balances,
                funds,
                cw20_msg.sender,
                Asset { info: AssetInfo::Token(ledger), amount: cw20_msg.amount },
                belief_price,
                max_spread,
                to,
                taxes,
                inner,
            )
        },
        Cw20HookMsg::WithdrawLiquidity => if ledger@ != pair_info.liquidity_token@ {
            r == Err::<ExecuteResponse, ContractError>(ContractError::Unauthorized)
        } else {
            as_withdrawal(r) matches Some(inner) && is_withdrawal(
                pair_info,
                balances,
                total_share,
                cw20_msg.sender,
                cw20_msg.amount,
                taxes,
                inner,
            )
        },
    }
}

/// Takes the notice of the token ledger `ledger` that tokens were sent to
/// the pair, and does what the notice asks.
pub fn receive_cw20(
    pair_info: &PairInfo,
    balances: [u128; 2],
    total_share: u128,
    funds: &Vec<Coin>,
    ledger: String,
    cw20_msg: Cw20ReceiveMsg,
    taxes: &[Option<TaxPolicy>; 2],
) -> (r: Result<ExecuteResponse, ContractError>)
    ensures
        is_received(*pair_info, balances, total_share, funds@, ledger, cw20_msg, *taxes, r),
{
    match cw20_msg.msg {
        Cw20HookMsg::Swap { belief_price, max_spread, to } => {
            let offer_info = AssetInfo::Token(ledger);
            let authorized: bool = offer_info.equal(&pair_info.asset_infos[0]) || offer_info.equal(
                &pair_info.asset_infos[1],
            );
            if !authorized {
                return Err(ContractError::Unauthorized);
            }
            match swap(
                pair_info,
                balances,
                funds,
                cw20_msg.sender,
                Asset { info: offer_info, amount: cw20_msg.amount },
                belief_price,
                max_spread,
                to,
                taxes,
            ) {
                Ok(done) => Ok(ExecuteResponse::Swap(done)),
                Err(e) => Err(e),
            }
        },
        Cw20HookMsg::WithdrawLiquidity => {
            if ledger != pair_info.liquidity_token {
                return Err(ContractError::Unauthorized);
            }
            match withdraw_liquidity(
                pair_info,
                balances,
                total_share,
                cw20_msg.sender,
                cw20_msg.amount,
                taxes,
            ) {
                Ok(done) => Ok(ExecuteResponse::WithdrawLiquidity(done)),
                Err(e) => Err(e),
            }
        },
    }
}

/// Whether `sender` may ask `msg` of the pair. Anyone may deposit; only a
/// native asset is offered directly; the notice of a swap is taken from the
/// ledger of one of the pair's tokens only, and the notice of a withdrawal
/// from the pair's liquidity ledger only.
pub open spec fn is_authorized(pair_info: PairInfo, sender: String, msg: ExecuteMsg) -> bool {
    match msg {
        ExecuteMsg::Receive(cw20_msg) => match cw20_msg.msg {
            Cw20HookMsg::Swap { .. } => is_pair_token(pair_info, sender@),
            Cw20HookMsg::WithdrawLiquidity => sender@ == pair_info.liquidity_token@,
        },
        ExecuteMsg::ProvideLiquidity { .. } => true,
        ExecuteMsg::Swap { offer_asset, .. } => offer_asset.info is Native,
    }
}

/// Refuses a request that `sender` may not make, before anything in it is
/// looked at more closely.
pub fn authorize(pair_info: &PairInfo, sender: &String, msg: &ExecuteMsg) -> (r: Result<
    (),
    ContractError,
>)
    ensures
        is_authorized(*pair_info, *sender, *msg) ==> r is Ok,
        !is_authorized(*pair_info, *sender, *msg) ==> r == Err::<(), ContractError>(
            ContractError::Unauthorized,
        ),
{
    let allowed: bool = match msg {
        ExecuteMsg::Receive(cw20_msg) => match &cw20_msg.msg {
            Cw20HookMsg::Swap { .. } => {
                let offered = AssetInfo::Token(sender.clone());
                offered.equal(&pair_info.asset_infos[0]) || offered.equal(
                    &pair_info.asset_infos[1],
                )
            },
            Cw20HookMsg::WithdrawLiquidity => *sender == pair_info.liquidity_token,
        },
        ExecuteMsg::ProvideLiquidity { .. } => true,
        ExecuteMsg::Swap { offer_asset, .. } => offer_asset.is_native_token(),
    };
    if allowed {
        Ok(())
    } else {
        Err(ContractError::Unauthorized)
    }
}

/// What `execute` returns: a notice goes to `receive_cw20`, a deposit to
/// `provide_liquidity`, and a swap, which only a native asset may be offered
/// to directly, to `swap`.
pub open spec fn is_executed(
    pair_info: PairInfo,
    balances: [u128; 2],
    total_share: u128,
    funds: Seq<Coin>,
    sender: String,
    msg: ExecuteMsg,
    taxes: [Option<TaxPolicy>; 2],
    r: Result<ExecuteResponse, ContractError>,
) -> bool {
    match msg {
        ExecuteMsg::Receive(cw20_msg) => is_received(
            pair_info,
            balances,
            total_share,
            funds,
            sender,
            cw20_msg,
            taxes,
            r,
        ),
        ExecuteMsg::ProvideLiquidity { assets, slippage_tolerance } => as_deposit(r) matches Some(
            inner,
        ) && is_deposit(
            pair_info,
            balances,
            total_share,
            funds,
            sender,
            assets,
            slippage_tolerance,
            inner,
        ),
        ExecuteMsg::Swap { offer_asset, belief_price, max_spread, to } => if !(offer_asset.info
            is Native) {
            r == Err::<ExecuteResponse, ContractError>(ContractError::Unauthorized)
        } else {
            as_swap(r) matches Some(inner) && is_swap(
                pair_info,
                balances,
                funds,
                sender,
                offer_asset,
                belief_price,
                max_spread,
                to,
                taxes,
                inner,
            )
        },
    }
}

/// Does what `msg` asks of the pair for `sender`.
pub fn execute(
    pair_info: &PairInfo,
    balances: [u128; 2],
    total_share: u128,
    funds: &Vec<Coin>,
    sender: String,
    msg: ExecuteMsg,
    taxes: &[Option<TaxPolicy>; 2],
) -> (r: Result<ExecuteResponse, ContractError>)
    ensures
        is_executed(*pair_info, balances, total_share, funds@, sender, msg, *taxes, r),
        !is_authorized(*pair_info, sender, msg) ==> r == Err::<ExecuteResponse, ContractError>(
            ContractError::Unauthorized,
        ),
{
    match msg {
        ExecuteMsg::Receive(cw20_msg) => receive_cw20(
            pair_info,
            balances,
            total_share,
            funds,
            sender,
            cw20_msg,
            taxes,
        ),
        ExecuteMsg::ProvideLiquidity { assets, slippage_tolerance } => match provide_liquidity(
            pair_info,
            balances,
            total_share,
            funds,
            sender,
            assets,
            slippage_tolerance,
        ) {
            Ok(done) => Ok(ExecuteResponse::ProvideLiquidity(done)),
            Err(e) => Err(e),
        },
        ExecuteMsg::Swap { offer_asset, belief_price, max_spread, to } => {
            if !offer_asset.is_native_token() {
                return Err(ContractError::Unauthorized);
            }
            match swap(
                pair_info,
                balances,
                funds,
                sender,
                offer_asset,
                belief_price,
                max_spread,
                to,
                taxes,
            ) {
                Ok(done) => Ok(ExecuteResponse::Swap(done)),
                Err(e) => Err(e),
            }
        },
    }
}

} // verus!
