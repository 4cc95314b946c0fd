use vstd::prelude::*;
use vstd::string::StringExecFns;
use crate::decimal::unit;
use crate::decimal::Decimal;
use crate::error::ContractError;

verus! {

/// An amount of a native ledger asset.
#[derive(Debug, PartialEq, Eq)]
pub struct Coin {
    pub denom: String,
    pub amount: u128,
}

impl Clone for Coin {
    fn clone(&self) -> (r: Self)
        ensures
            r == *self,
    {
        Coin { denom: self.denom.clone(), amount: self.amount }
    }
}

/// An instruction that the pair hands to a ledger it does not own.
#[derive(Debug, PartialEq, Eq)]
pub enum Instruction {
    /// The token ledger moves `amount` from the pair to `recipient`.
    Transfer { ledger: String, recipient: String, amount: u128 },
    /// The token ledger moves `amount` from `owner` to `recipient`, on the
    /// allowance that `owner` gave the pair.
    TransferFrom { ledger: String, owner: String, recipient: String, amount: u128 },
    /// The native ledger sends `coin` from the pair to `to_address`.
    Send { to_address: String, coin: Coin },
    /// The liquidity ledger mints `amount` shares to `recipient`.
    Mint { ledger: String, recipient: String, amount: u128 },
    /// The liquidity ledger burns `amount` shares that the pair holds.
    Burn { ledger: String, amount: u128 },
    /// A new liquidity ledger is created from `code_id`, with the pair as its
    /// only minter.
    CreateLedger { code_id: u64, minter: String },
}

/// What an asset is: a token on a ledger of its own, named by the ledger's
/// address, or a native asset, named by its denomination.
#[derive(Debug, PartialEq, Eq)]
pub enum AssetInfo {
    Token(String),
    Native(String),
}

/// An `AssetInfo` with its name as a sequence of characters.
pub enum AssetInfoView {
    Token(Seq<char>),
    Native(Seq<char>),
}

impl View for AssetInfo {
    type V = AssetInfoView;

    open spec fn view(&self) -> AssetInfoView {
        match self {
            AssetInfo::Token(addr) => AssetInfoView::Token(addr@),
            AssetInfo::Native(denom) => AssetInfoView::Native(denom@),
        }
    }
}

impl Clone for AssetInfo {
    fn clone(&self) -> (r: Self)
        ensures
            r == *self,
    {
        match self {
            AssetInfo::Token(addr) => AssetInfo::Token(addr.clone()),
            AssetInfo::Native(denom) => AssetInfo::Native(denom.clone()),
        }
    }
}

impl AssetInfo {
    /// The ledger address or the denomination.
    pub open spec fn name(&self) -> String {
        match self {
            AssetInfo::Token(addr) => *addr,
            AssetInfo::Native(denom) => *denom,
        }
    }

    /// The name as text.
    pub fn to_string(&self) -> (r: String)
        ensures
            r == self.name(),
    {
        match self {
            AssetInfo::Token(addr) => addr.clone(),
            AssetInfo::Native(denom) => denom.clone(),
        }
    }

    /// The name as bytes.
    pub fn as_bytes(&self) -> (r: &[u8])
        ensures
            r@ == vstd::utf8::encode_utf8(self.name()@),
    {
        match self {
            AssetInfo::Token(addr) => addr.as_str().as_bytes(),
            AssetInfo::Native(denom) => denom.as_str().as_bytes(),
        }
    }

    pub fn is_native_token(&self) -> (r: bool)
        ensures
            r == (self is Native),
    {
        match self {
            AssetInfo::Native(_) => true,
            AssetInfo::Token(_) => false,
        }
    }

    /// Whether two infos name the same asset: the same kind and the same name.
    pub fn equal(&self, asset: &AssetInfo) -> (r: bool)
        ensures
            r == (self@ == asset@),
    {
        match self {
            AssetInfo::Token(addr) => match asset {
                AssetInfo::Token(other) => *addr == *other,
                AssetInfo::Native(_) => false,
            },
            AssetInfo::Native(denom) => match asset {
                AssetInfo::Token(_) => false,
                AssetInfo::Native(other) => *denom == *other,
            },
        }
    }
}

/// The amount that `coins` hold of `denom`: that of the first coin with this
/// denomination, if there is one.
pub open spec fn sent_amount(coins: Seq<Coin>, denom: Seq<char>) -> Option<u128>
    decreases coins.len(),
{
    if coins.len() == 0 {
        None
    } else if coins[0].denom@ == denom {
        Some(coins[0].amount)
    } else {
        sent_amount(coins.drop_first(), denom)
    }
}

/// Looks `denom` up in `coins`.
pub fn find_amount(coins: &Vec<Coin>, denom: &String) -> (r: Option<u128>)
    ensures
        r == sent_amount(coins@, denom@),
{
    let mut found: Option<u128> = None;
    let mut i: usize = coins.len();
    while i > 0
        invariant
            i <= coins.len(),
            found == sent_amount(coins@.subrange(i as int, coins.len() as int), denom@),
        decreases i,
    {
        i = i - 1;
        proof {
            assert(coins@.subrange(i as int, coins.len() as int).drop_first() =~= coins@.subrange(
                i + 1,
                coins.len() as int,
            ));
        }
        if coins[i].denom == *denom {
            found = Some(coins[i].amount);
        }
    }
    proof {
        assert(coins@.subrange(0, coins.len() as int) =~= coins@);
    }
    found
}

/// The amount that `coins` hold of `denom`, and zero where they hold none.
pub fn amount_of(coins: &Vec<Coin>, denom: String) -> (r: u128)
    ensures
        r == match sent_amount(coins@, denom@) {
            Some(amount) => amount,
            None => 0,
        },
{
    match find_amount(coins, &denom) {
        Some(amount) => amount,
        None => 0,
    }
}

/// An amount of one asset.
#[derive(Debug, PartialEq, Eq)]
pub struct Asset {
    pub info: AssetInfo,
    pub amount: u128,
}

impl Clone for Asset {
    fn clone(&self) -> (r: Self)
        ensures
            r == *self,
    {
        Asset { info: self.info.clone(), amount: self.amount }
    }
}

/// Whether the funds that came with a call match what `asset` claims. A token
/// is not sent as funds and always passes; a native asset passes where the
/// funds hold exactly its amount, or where they hold none of it and the
/// amount is zero.
pub open spec fn funds_match(asset: Asset, funds: Seq<Coin>) -> bool {
    match asset.info {
        AssetInfo::Token(_) => true,
        AssetInfo::Native(denom) => match sent_amount(funds, denom@) {
            Some(amount) => asset.amount == amount,
            None => asset.amount == 0,
        },
    }
}

impl Asset {
    pub fn is_native_token(&self) -> (r: bool)
        ensures
            r == (self.info is Native),
    {
        self.info.is_native_token()
    }

    /// The instruction that pays this asset out to `recipient`.
    pub open spec fn instruction_to(self, recipient: String) -> Instruction {
        match self.info {
            AssetInfo::Token(addr) => Instruction::Transfer {
                ledger: addr,
                recipient,
                amount: self.amount,
            },
            AssetInfo::Native(denom) => Instruction::Send {
                to_address: recipient,
                coin: Coin { denom, amount: self.amount },
            },
        }
    }

    /// The instruction that pays this asset out to `recipient`: a transfer
    /// on the token's ledger, or a send on the native ledger.
    pub fn into_msg(self, recipient: String) -> (r: Result<Instruction, ContractError>)
        ensures
            r == Ok::<Instruction, ContractError>(self.instruction_to(recipient)),
    {
        let amount: u128 = self.amount;
        match self.info {
            AssetInfo::Token(addr) => Ok(Instruction::Transfer { ledger: addr, recipient, amount }),
            AssetInfo::Native(denom) => Ok(
                Instruction::Send { to_address: recipient, coin: Coin { denom, amount } },
            ),
        }
    }

    /// This asset as a coin of the native ledger; a token is refused.
    pub fn to_coin(&self) -> (r: Result<Coin, ContractError>)
        ensures
            match self.info {
                AssetInfo::Native(denom) => r == Ok::<Coin, ContractError>(
                    Coin { denom, amount: self.amount },
                ),
                AssetInfo::Token(_) => (r matches Err(ContractError::Std(text)) && text@
                    == "cannot convert cw20 asset to native Coin"@),
            },
    {
        match &self.info {
            AssetInfo::Native(denom) => Ok(Coin { denom: denom.clone(), amount: self.amount }),
            AssetInfo::Token(_) => Err(
                ContractError::Std(String::from_str("cannot convert cw20 asset to native Coin")),
            ),
        }
    }

    /// Refuses a native asset whose amount differs from what came as funds.
    pub fn assert_sent_native_token_balance(&self, funds: &Vec<Coin>) -> (r: Result<
        (),
        ContractError,
    >)
        ensures
            funds_match(*self, funds@) ==> r is Ok,
            !funds_match(*self, funds@) ==> (r matches Err(ContractError::Std(text)) && text@
                == "Native token balance mismatch between the argument and the transferred"@),
    {
        match &self.info {
            AssetInfo::Native(denom) => {
                let sent: u128 = match find_amount(funds, denom) {
                    Some(amount) => amount,
                    None => 0,
                };
                if self.amount == sent {
                    Ok(())
                } else {
                    Err(
                        ContractError::Std(
                            String::from_str(
                                "Native token balance mismatch between the argument and the transferred",
                            ),
                        ),
                    )
                }
            },
            AssetInfo::Token(_) => Ok(()),
        }
    }
}

/// The commission of a pair that names none: three thousandths.
pub fn default_commission() -> (r: Decimal)
    ensures
        r.atomics == 3_000_000_000_000_000,
{
    Decimal::permille(3)
}

/// A pair's configuration: its two assets, its own address, the address of
/// its liquidity ledger (empty until the ledger exists) and its commission.
#[derive(Debug, PartialEq, Eq)]
pub struct PairInfo {
    pub asset_infos: [AssetInfo; 2],
    pub contract_addr: String,
    pub liquidity_token: String,
    pub commission: Decimal,
}

impl PairInfo {
    /// A pair's commission is at most one: a swap then never charges more
    /// than it pays.
    pub open spec fn well_formed(&self) -> bool {
        self.commission.atomics <= unit()
    }

    pub fn new(asset_infos: [AssetInfo; 2], contract_addr: String, liquidity_token: String) -> (r:
        Self)
        ensures
            r == (PairInfo {
                asset_infos,
                contract_addr,
                liquidity_token,
                commission: Decimal { atomics: 3_000_000_000_000_000 },
            }),
            r.well_formed(),
    {
        PairInfo { asset_infos, contract_addr, liquidity_token, commission: default_commission() }
    }

    pub fn with_commission(self, commission: Decimal) -> (r: Self)
        ensures
            r == (PairInfo { commission, ..self }),
    {
        let mut info = self;
        info.commission = commission;
        info
    }

    /// The pair's reserves: each of its two assets with the balance that its
    /// ledger reports for the pair.
    pub fn query_pools(&self, balances: [u128; 2]) -> (r: [Asset; 2])
        ensures
            r[0] == (Asset { info: self.asset_infos[0], amount: balances[0] }),
            r[1] == (Asset { info: self.asset_infos[1], amount: balances[1] }),
    {
        [
            Asset { info: self.asset_infos[0].clone(), amount: balances[0] },
            Asset { info: self.asset_infos[1].clone(), amount: balances[1] },
        ]
    }
}

} // verus!
