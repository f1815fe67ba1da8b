use vstd::prelude::*;

verus! {

/// Identifier of an asset class.
pub type AssetId = u64;

/// Identifier of an account holder.
pub type AccountId = u64;

/// Amounts of an asset, and amounts of the native currency held as deposits.
pub type Balance = u64;

/// The ledger's fixed parameters: deposit sizes and the metadata length bound.
#[derive(Clone, Copy, Debug, PartialEq, Eq, Structural)]
pub struct Config {
    /// Deposit reserved for an asset class regardless of its zombie capacity.
    pub asset_deposit_base: Balance,
    /// Additional deposit reserved for each zombie slot of an asset class.
    pub asset_deposit_per_zombie: Balance,
    /// Deposit reserved for a metadata record regardless of its size.
    pub metadata_deposit_base: Balance,
    /// Additional metadata deposit for each byte of name and symbol.
    pub metadata_deposit_per_byte: Balance,
    /// Longest accepted name or symbol, in bytes.
    pub string_limit: u32,
}

/// The record of one asset class.
#[derive(Clone, Copy, Debug, PartialEq, Eq, Structural)]
pub struct AssetDetails {
    pub owner: AccountId,
    pub supply: Balance,
    pub deposit: Balance,
    pub max_zombies: u32,
    pub min_balance: Balance,
    pub zombies: u32,
    pub accounts: u32,
    pub is_frozen: bool,
    pub is_featured: bool,
}

/// The record of one holder's balance in one asset class.
#[derive(Clone, Copy, Debug, PartialEq, Eq, Structural)]
pub struct AssetBalance {
    pub balance: Balance,
    pub is_frozen: bool,
    pub is_zombie: bool,
}

/// Descriptive data attached to an asset class by its owner.
#[derive(Clone, Debug, PartialEq, Eq)]
pub struct AssetMetadata {
    pub deposit: Balance,
    pub name: Vec<u8>,
    pub symbol: Vec<u8>,
    pub decimals: u8,
}

/// The mathematical content of an `AssetMetadata`.
pub struct MetadataView {
    pub deposit: Balance,
    pub name: Seq<u8>,
    pub symbol: Seq<u8>,
    pub decimals: u8,
}

impl View for AssetMetadata {
    type V = MetadataView;

    open spec fn view(&self) -> MetadataView {
        MetadataView {
            deposit: self.deposit,
            name: self.name@,
            symbol: self.symbol@,
            decimals: self.decimals,
        }
    }
}

/// Decorative attributes of an asset class, unpacked from a 32-bit code.
#[derive(Clone, Copy, Debug, PartialEq, Eq, Structural)]
pub struct AssetFeature {
    /// Bits 28..32 of the code.
    pub destiny: u8,
    /// Bits 0..16 of the code.
    pub elements: u16,
    /// Bits 16..24 of the code.
    pub saturation: u8,
    /// Bits 24..28 of the code.
    pub lightness: u8,
}

/// Why an operation was refused. A refused operation changes nothing.
#[derive(Clone, Copy, Debug, PartialEq, Eq, Structural)]
pub enum Error {
    AmountZero,
    BalanceLow,
    BalanceZero,
    NoPermission,
    Unknown,
    Frozen,
    InUse,
    TooManyZombies,
    RefsLeft,
    BadWitness,
    MinBalanceZero,
    Overflow,
    BadState,
    BadMetadata,
    BadFeaturePoint,
    /// The currency could not reserve the deposit that the operation needs.
    InsufficientBalance,
    /// The currency could not move the reserved deposit to the new owner.
    DepositNotMoved,
}

/// The notification that a successful operation emits.
#[derive(Clone, Debug, PartialEq, Eq)]
pub enum Event {
    Created(AssetId, AccountId),
    Issued(AssetId, AccountId, Balance),
    Transferred(AssetId, AccountId, AccountId, Balance),
    Burned(AssetId, AccountId, Balance),
    OwnerChanged(AssetId, AccountId),
    ForceTransferred(AssetId, AccountId, AccountId, Balance),
    Frozen(AssetId, AccountId),
    Thawed(AssetId, AccountId),
    AssetFrozen(AssetId),
    AssetThawed(AssetId),
    Destroyed(AssetId),
    ForceCreated(AssetId, AccountId),
    MaxZombiesChanged(AssetId, u32),
    MetadataSet(AssetId, Vec<u8>, Vec<u8>, u8),
}

/// A request to the ledger's collaborators that a successful operation leaves
/// for its caller to carry out.
#[derive(Clone, Copy, Debug, PartialEq, Eq, Structural)]
pub enum Effect {
    /// Reserve this much of the account's currency.
    Reserve(AccountId, Balance),
    /// Release this much of the account's reserved currency.
    Unreserve(AccountId, Balance),
    /// Move this much reserved currency from the first account to the second,
    /// where it stays reserved.
    Repatriate(AccountId, AccountId, Balance),
    /// Register a reference from this ledger on the account in the host registry.
    IncConsumers(AccountId),
    /// Drop a reference from this ledger on the account in the host registry.
    DecConsumers(AccountId),
}

/// What a successful operation reports: its notification and the effects to apply.
pub struct Receipt {
    pub event: Event,
    pub effects: Vec<Effect>,
}

} // verus!
