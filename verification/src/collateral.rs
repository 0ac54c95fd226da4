//! The collateral contract: users deposit ERC-721 tokens of registered
//! collections, each deposit raises the depositor's loan limit by the
//! token's floor price times the collection's collateral factor, and a
//! token can be taken back only while the open loan stays within the
//! lowered limit. Open loans accrue interest per block.
//!
//! A message of the contract that makes outside calls is split where the
//! call stands: the host checks with the first function, makes the call,
//! and hands what came back to the next one.
use vstd::prelude::*;
use rand_chacha::ChaChaRng;
use rand_chacha::rand_core::{RngCore, SeedableRng};
use crate::{AccountId, Balance, BlockNumber, EvmContractAddress};
use crate::encoding::{decimal_chars, decimal_text, hex_chars, hex_encode};
use crate::table::{bytes_equal, Table};

verus! {

pub type RiskFactor = u32;

pub type CollateralFactor = u32;

pub type LoanLimit = Balance;

pub type LoanOpen = Balance;

pub type LoanLastChange = BlockNumber;

/// Interest per block, in millionths of the open loan.
pub type InterestRate = u32;

pub type AssetId = u128;

pub type NftId = u32;

pub type FloorPrice = Balance;

/// The interest rate of a contract instantiated without one.
pub const DEFAULT_INTEREST_RATE: InterestRate = 15;

/// The stable-coin asset of a contract instantiated without one.
pub const DEFAULT_SCOIN_ASSET_ID: AssetId = 4242;

/// Lower bound of the prices that the mock oracle is filled with.
pub const MOCK_PRICE_MIN: u64 = 1_000_000;

/// Upper bound of the prices that the mock oracle is filled with.
pub const MOCK_PRICE_MAX: u64 = 2_000_000;

/// The event emitted whenever a user's loan limit or open loan is written.
#[derive(Debug, Clone, Copy, PartialEq, Eq)]
pub struct BalanceUpdate {
    pub account: AccountId,
    pub loan_limit: LoanLimit,
    pub loan_open: LoanOpen,
}

/// A transfer of a fungible asset that the host asks the assets pallet for.
#[derive(Debug, Clone, Copy, PartialEq, Eq)]
pub struct LoanPayout {
    pub asset_id: AssetId,
    pub to: AccountId,
    pub amount: Balance,
}

/// A value to store in the oracle.
#[derive(Debug)]
pub struct OracleEntry {
    pub key: String,
    pub value: String,
}

/// The contract's errors.
#[derive(Debug)]
pub enum CollateralError {
    UnknownCollection,
    TransferFailed,
    FloorPriceRetrievalFailed,
    NotOwnerOfNft,
    OpenLoanTooLarge,
    ApproveFailed,
    AmountCannotBeZero,
    UnknownUser,
    CallerIsNotOwner,
    InsufficientLoanBalance,
    Custom(String),
}

/// The text of an error.
pub open spec fn error_message(e: CollateralError) -> Seq<char> {
    match e {
        CollateralError::UnknownCollection => "Unknown Collection"@,
        CollateralError::TransferFailed => "transfer failed"@,
        CollateralError::FloorPriceRetrievalFailed => "floor price retrieval failed"@,
        CollateralError::NotOwnerOfNft => "Not owner of NFT."@,
        CollateralError::OpenLoanTooLarge => "open loan is too large to allow withdrawal of nft"@,
        CollateralError::ApproveFailed => "approve failed"@,
        CollateralError::AmountCannotBeZero => "Amount cannot be 0"@,
        CollateralError::UnknownUser => "Unknown User"@,
        CollateralError::CallerIsNotOwner => "CallerIsNotOwner"@,
        CollateralError::InsufficientLoanBalance => "Insufficient loan balance"@,
        CollateralError::Custom(s) => s@,
    }
}

impl CollateralError {
    /// The text of the error.
    pub fn message(&self) -> (m: String)
        ensures
            m@ == error_message(*self),
    {
        match self {
            CollateralError::UnknownCollection => "Unknown Collection".to_string(),
            CollateralError::TransferFailed => "transfer failed".to_string(),
            CollateralError::FloorPriceRetrievalFailed => "floor price retrieval failed".to_string(),
            CollateralError::NotOwnerOfNft => "Not owner of NFT.".to_string(),
            CollateralError::OpenLoanTooLarge => "open loan is too large to allow withdrawal of nft".to_string(),
            CollateralError::ApproveFailed => "approve failed".to_string(),
            CollateralError::AmountCannotBeZero => "Amount cannot be 0".to_string(),
            CollateralError::UnknownUser => "Unknown User".to_string(),
            CollateralError::CallerIsNotOwner => "CallerIsNotOwner".to_string(),
            CollateralError::InsufficientLoanBalance => "Insufficient loan balance".to_string(),
            CollateralError::Custom(s) => s.clone(),
        }
    }
}

// ---------------------------------------------------------------------
// Saturating arithmetic and the interest formula
// ---------------------------------------------------------------------

pub open spec fn sat_add_u128(a: u128, b: u128) -> u128 {
    if a + b > u128::MAX {
        u128::MAX
    } else {
        (a + b) as u128
    }
}

pub open spec fn sat_sub_u128(a: u128, b: u128) -> u128 {
    if a >= b {
        (a - b) as u128
    } else {
        0
    }
}

pub open spec fn sat_mul_u128(a: u128, b: u128) -> u128 {
    if a * b > u128::MAX {
        u128::MAX
    } else {
        (a * b) as u128
    }
}

pub open spec fn sat_sub_u64(a: u64, b: u64) -> u64 {
    if a >= b {
        (a - b) as u64
    } else {
        0
    }
}

pub open spec fn sat_mul_u64(a: u64, b: u64) -> u64 {
    if a * b > u64::MAX {
        u64::MAX
    } else {
        (a * b) as u64
    }
}

/// The interest that an open loan accrues between the block of its last
/// change and the current block, at `rate` millionths per block:
/// `(current block - last change) * rate * open / 1_000_000`, each step
/// saturating in 64 bits, the open loan taken modulo 2^64, and the block
/// difference saturating at zero.
pub open spec fn accrued_interest(last_change: u32, current_block: u32, rate: u32, open: u128) -> u64 {
    (sat_mul_u64(sat_mul_u64(sat_sub_u64(current_block as u64, last_change as u64), rate as u64), open as u64)
        / 1_000_000) as u64
}

/// How much an NFT adds to its owner's loan limit.
pub open spec fn collateral_value(floor_price: u128, collateral_factor: u32) -> u128 {
    sat_mul_u128(floor_price, collateral_factor as u128)
}

fn saturating_mul_u64(a: u64, b: u64) -> (r: u64)
    ensures
        r == sat_mul_u64(a, b),
{
    match a.checked_mul(b) {
        Some(p) => p,
        None => u64::MAX,
    }
}

fn saturating_mul_u128(a: u128, b: u128) -> (r: u128)
    ensures
        r == sat_mul_u128(a, b),
{
    match a.checked_mul(b) {
        Some(p) => p,
        None => u128::MAX,
    }
}

/// The interest accrued by an open loan, as the contract computes it.
pub fn interest_due(last_change: LoanLastChange, current_block: BlockNumber, rate: InterestRate, open: LoanOpen) -> (r: u64)
    ensures
        r == accrued_interest(last_change, current_block, rate, open),
{
    let elapsed = (current_block as u64).saturating_sub(last_change as u64);
    let scaled = saturating_mul_u64(elapsed, rate as u64);
    let weighted = saturating_mul_u64(scaled, open as u64);
    weighted / 1_000_000
}

// ---------------------------------------------------------------------
// Oracle queries and the mock price source
// ---------------------------------------------------------------------

/// The oracle key of an NFT collection: `nft/0x` and the collection's
/// address in lowercase hexadecimal.
pub open spec fn oracle_key_of(evm_address: Seq<u8>) -> Seq<char> {
    "nft/0x"@ + hex_chars(evm_address)
}

/// The oracle key under which the floor price of a collection is kept.
pub fn oracle_query_key(evm_address: &EvmContractAddress) -> (key: String)
    ensures
        key@ == oracle_key_of(evm_address@),
{
    let hex = hex_encode(evm_address.as_slice());
    let mut key = "nft/0x".to_string();
    key.append(hex.as_str());
    key
}

/// The first 64-bit output of a ChaCha20 generator seeded with `seed`.
pub uninterp spec fn chacha20_first_u64(seed: Seq<u8>) -> u64;

/// `ChaChaRng::from_seed(seed).next_u64()` (ChaCha20, `rand_chacha`).
///
/// Trusted: the output is named by `chacha20_first_u64`, a function of the
/// seed alone, as the generator is deterministic; nothing more is claimed
/// of its value.
#[verifier::external_body]
fn chacha20_next_u64(seed: [u8; 32]) -> (r: u64)
    ensures
        r == chacha20_first_u64(seed@),
{
    ChaChaRng::from_seed(seed).next_u64()
}

/// The number that the contract derives from a random 64-bit value and a
/// range: `(r / u64::MAX) * (max - min) + min`.
pub open spec fn scaled_random(r: u64, min: u64, max: u64) -> u64 {
    ((r / u64::MAX) * (max - min) + min) as u64
}

/// The price that a mock deployment draws from a randomness seed.
pub open spec fn mock_price(seed: Seq<u8>) -> u64 {
    scaled_random(chacha20_first_u64(seed), MOCK_PRICE_MIN, MOCK_PRICE_MAX)
}

/// Scales a random 64-bit value into `[min, max]` as the contract does.
/// The integer division leaves `min` for every value but `u64::MAX`,
/// which gives `max`.
pub fn random_in_range(r: u64, min: u64, max: u64) -> (n: u64)
    requires
        min <= max,
    ensures
        n == scaled_random(r, min, max),
        min <= n <= max,
        n == (if r == u64::MAX { max } else { min }),
{
    let q = r / u64::MAX;
    assert(q == 0 || q == 1) by (nonlinear_arith)
        requires
            q == r / u64::MAX,
            r <= u64::MAX,
    ;
    assert(q == 1 <==> r == u64::MAX) by (nonlinear_arith)
        requires
            q == r / u64::MAX,
            r <= u64::MAX,
    ;
    q * (max - min) + min
}

/// A number in `[min, max]` drawn from a ChaCha20 generator seeded with the
/// chain's randomness.
pub fn get_random_number(seed: [u8; 32], min: u64, max: u64) -> (n: u64)
    requires
        min <= max,
    ensures
        n == scaled_random(chacha20_first_u64(seed@), min, max),
        min <= n <= max,
{
    let r = chacha20_next_u64(seed);
    random_in_range(r, min, max)
}

// ---------------------------------------------------------------------
// The contract's state
// ---------------------------------------------------------------------

/// The collateral contract's state.
pub struct Collateral {
    collections: Table<EvmContractAddress, (RiskFactor, CollateralFactor)>,
    loans: Table<AccountId, (LoanLimit, LoanOpen, LoanLastChange)>,
    collaterals: Table<(AccountId, EvmContractAddress, NftId), FloorPrice>,
    interest_rate: InterestRate,
    scoin_asset_id: AssetId,
    using_mock: bool,
    owner: AccountId,
    events: Vec<BalanceUpdate>,
}

impl Collateral {
    /// The state is well formed: no table holds a key twice.
    pub closed spec fn wf(&self) -> bool {
        &&& self.collections.wf()
        &&& self.loans.wf()
        &&& self.collaterals.wf()
    }

    /// Registered collections: risk factor and collateral factor.
    pub closed spec fn collections_view(&self) -> Map<Seq<u8>, (RiskFactor, CollateralFactor)> {
        self.collections@
    }

    /// Users' loans: limit, open amount and block of the last change.
    pub closed spec fn loans_view(&self) -> Map<Seq<u8>, (LoanLimit, LoanOpen, LoanLastChange)> {
        self.loans@
    }

    /// Deposited NFTs, by owner, collection and token: floor price at deposit.
    pub closed spec fn collaterals_view(&self) -> Map<(Seq<u8>, Seq<u8>, NftId), FloorPrice> {
        self.collaterals@
    }

    /// Events emitted and not yet handed to the host.
    pub closed spec fn events_view(&self) -> Seq<BalanceUpdate> {
        self.events@
    }

    pub closed spec fn interest_rate_view(&self) -> InterestRate {
        self.interest_rate
    }

    pub closed spec fn scoin_asset_id_view(&self) -> AssetId {
        self.scoin_asset_id
    }

    pub closed spec fn using_mock_view(&self) -> bool {
        self.using_mock
    }

    pub closed spec fn owner_view(&self) -> AccountId {
        self.owner
    }

    /// The settings that are fixed at instantiation.
    pub open spec fn same_settings(&self, other: &Self) -> bool {
        &&& self.interest_rate_view() == other.interest_rate_view()
        &&& self.scoin_asset_id_view() == other.scoin_asset_id_view()
        &&& self.using_mock_view() == other.using_mock_view()
        &&& self.owner_view() == other.owner_view()
    }

    /// Every deposited NFT belongs to a registered collection, and its owner
    /// has a loan record.
    pub open spec fn consistent(&self) -> bool {
        forall|k: (Seq<u8>, Seq<u8>, NftId)| #[trigger]
            self.collaterals_view().contains_key(k) ==> self.collections_view().contains_key(k.1)
                && self.loans_view().contains_key(k.0)
    }

    /// A user's loan after it was brought up to date in `block`: the limit
    /// stays, the open loan grows by the accrued interest (saturating), the
    /// last change becomes `block`. A user without a loan has `(0, 0, block)`.
    pub open spec fn loan_after_update(&self, user: AccountId, block: BlockNumber) -> (LoanLimit, LoanOpen, LoanLastChange) {
        if self.loans_view().contains_key(user@) {
            let e = self.loans_view()[user@];
            (e.0, sat_add_u128(e.1, accrued_interest(e.2, block, self.interest_rate_view(), e.1) as u128), block)
        } else {
            (0, 0, block)
        }
    }

    /// `new` is `self` with the user's loan brought up to date in `block`:
    /// for a user with a loan, the updated loan is written and announced.
    pub open spec fn loan_updated_to(&self, new: &Self, user: AccountId, block: BlockNumber) -> bool {
        &&& new.same_settings(self)
        &&& new.collections_view() == self.collections_view()
        &&& new.collaterals_view() == self.collaterals_view()
        &&& if self.loans_view().contains_key(user@) {
            let e = self.loan_after_update(user, block);
            &&& new.loans_view() == self.loans_view().insert(user@, e)
            &&& new.events_view() == self.events_view().push(
                BalanceUpdate { account: user, loan_limit: e.0, loan_open: e.1 },
            )
        } else {
            &&& new.loans_view() == self.loans_view()
            &&& new.events_view() == self.events_view()
        }
    }

    /// The events after the user's loan was brought up to date.
    pub open spec fn events_after_update(&self, user: AccountId, block: BlockNumber) -> Seq<BalanceUpdate> {
        if self.loans_view().contains_key(user@) {
            let e = self.loan_after_update(user, block);
            self.events_view().push(BalanceUpdate { account: user, loan_limit: e.0, loan_open: e.1 })
        } else {
            self.events_view()
        }
    }

    /// `new` is `self` after a deposit of the token `id` of the registered
    /// collection `evm_address` by `caller`, at `floor_price`, in `block`.
    pub open spec fn deposited(
        &self,
        new: &Self,
        caller: AccountId,
        evm_address: EvmContractAddress,
        id: NftId,
        floor_price: FloorPrice,
        block: BlockNumber,
    ) -> bool {
        let cf = self.collections_view()[evm_address@].1;
        let e = self.loan_after_update(caller, block);
        let limit = sat_add_u128(e.0, collateral_value(floor_price, cf));
        &&& new.same_settings(self)
        &&& new.collections_view() == self.collections_view()
        &&& new.loans_view() == self.loans_view().insert(caller@, (limit, e.1, block))
        &&& new.collaterals_view() == self.collaterals_view().insert((caller@, evm_address@, id), floor_price)
        &&& new.events_view() == self.events_after_update(caller, block).push(
            BalanceUpdate { account: caller, loan_limit: limit, loan_open: e.1 },
        )
    }

    /// The loan limit that remains when the deposited token is taken back,
    /// from the loan as brought up to date in `block`.
    pub open spec fn limit_after_withdrawal(
        &self,
        caller: AccountId,
        evm_address: EvmContractAddress,
        id: NftId,
        block: BlockNumber,
    ) -> LoanLimit {
        let price = self.collaterals_view()[(caller@, evm_address@, id)];
        let cf = self.collections_view()[evm_address@].1;
        sat_sub_u128(self.loan_after_update(caller, block).0, collateral_value(price, cf))
    }

    /// What `withdraw_nft` answers and leaves behind.
    pub open spec fn withdrawal_checked(
        &self,
        new: &Self,
        caller: AccountId,
        evm_address: EvmContractAddress,
        id: NftId,
        block: BlockNumber,
        r: Result<LoanLimit, CollateralError>,
    ) -> bool {
        if !self.collections_view().contains_key(evm_address@) {
            r == Err::<LoanLimit, CollateralError>(CollateralError::UnknownCollection) && *new == *self
        } else if !self.collaterals_view().contains_key((caller@, evm_address@, id)) {
            r == Err::<LoanLimit, CollateralError>(CollateralError::NotOwnerOfNft) && *new == *self
        } else {
            let limit = self.limit_after_withdrawal(caller, evm_address, id, block);
            &&& self.loan_updated_to(new, caller, block)
            &&& if limit < self.loan_after_update(caller, block).1 {
                r == Err::<LoanLimit, CollateralError>(CollateralError::OpenLoanTooLarge)
            } else {
                r == Ok::<LoanLimit, CollateralError>(limit)
            }
        }
    }

    /// `new` is `self` once the token has left the contract: the deposit
    /// record is gone and the caller's loan limit is `new_loan_limit`.
    pub open spec fn withdrawal_completed(
        &self,
        new: &Self,
        caller: AccountId,
        evm_address: EvmContractAddress,
        id: NftId,
        new_loan_limit: LoanLimit,
        block: BlockNumber,
    ) -> bool {
        let open = if self.loans_view().contains_key(caller@) {
            self.loans_view()[caller@].1
        } else {
            0
        };
        &&& new.same_settings(self)
        &&& new.collections_view() == self.collections_view()
        &&& new.collaterals_view() == self.collaterals_view().remove((caller@, evm_address@, id))
        &&& new.loans_view() == self.loans_view().insert(caller@, (new_loan_limit, open, block))
        &&& new.events_view() == self.events_view().push(
            BalanceUpdate { account: caller, loan_limit: new_loan_limit, loan_open: open },
        )
    }
}

impl Collateral {
    /// A new contract owned by `caller`, with the interest rate and the
    /// stable-coin asset given or their defaults, and no collections, loans
    /// or deposits.
    pub fn new(
        caller: AccountId,
        using_mock: bool,
        scoin_asset_id: Option<AssetId>,
        interest_rate: Option<InterestRate>,
    ) -> (c: Self)
        ensures
            c.wf(),
            c.consistent(),
            c.owner_view() == caller,
            c.using_mock_view() == using_mock,
            c.interest_rate_view() == (match interest_rate {
                Some(r) => r,
                None => DEFAULT_INTEREST_RATE,
            }),
            c.scoin_asset_id_view() == (match scoin_asset_id {
                Some(a) => a,
                None => DEFAULT_SCOIN_ASSET_ID,
            }),
            c.collections_view() == Map::<Seq<u8>, (RiskFactor, CollateralFactor)>::empty(),
            c.loans_view() == Map::<Seq<u8>, (LoanLimit, LoanOpen, LoanLastChange)>::empty(),
            c.collaterals_view() == Map::<(Seq<u8>, Seq<u8>, NftId), FloorPrice>::empty(),
            c.events_view() == Seq::<BalanceUpdate>::empty(),
    {
        let rate = match interest_rate {
            Some(r) => r,
            None => DEFAULT_INTEREST_RATE,
        };
        let asset = match scoin_asset_id {
            Some(a) => a,
            None => DEFAULT_SCOIN_ASSET_ID,
        };
        Collateral {
            collections: Table::new(),
            loans: Table::new(),
            collaterals: Table::new(),
            interest_rate: rate,
            scoin_asset_id: asset,
            using_mock,
            owner: caller,
            events: Vec::new(),
        }
    }

    pub fn owner(&self) -> (r: AccountId)
        ensures
            r == self.owner_view(),
    {
        self.owner
    }

    pub fn interest_rate(&self) -> (r: InterestRate)
        ensures
            r == self.interest_rate_view(),
    {
        self.interest_rate
    }

    pub fn scoin_asset_id(&self) -> (r: AssetId)
        ensures
            r == self.scoin_asset_id_view(),
    {
        self.scoin_asset_id
    }

    pub fn using_mock(&self) -> (r: bool)
        ensures
            r == self.using_mock_view(),
    {
        self.using_mock
    }

    /// Hands the pending events to the host, oldest first.
    pub fn take_events(&mut self) -> (r: Vec<BalanceUpdate>)
        ensures
            r@ == old(self).events_view(),
            final(self).events_view() == Seq::<BalanceUpdate>::empty(),
            final(self).same_settings(old(self)),
            final(self).collections_view() == old(self).collections_view(),
            final(self).loans_view() == old(self).loans_view(),
            final(self).collaterals_view() == old(self).collaterals_view(),
            final(self).wf() == old(self).wf(),
    {
        let mut taken: Vec<BalanceUpdate> = Vec::new();
        std::mem::swap(&mut taken, &mut self.events);
        taken
    }

    /// Adds a collection to those accepted as collateral, or changes its
    /// factors. Only the owner may do so. A mock deployment also answers the
    /// oracle entry to store for the collection, with a price drawn from
    /// `seed`, the chain's randomness for the caller.
    pub fn register_nft_collection(
        &mut self,
        caller: AccountId,
        evm_address: EvmContractAddress,
        risk_factor: RiskFactor,
        collateral_factor: CollateralFactor,
        seed: [u8; 32],
    ) -> (r: Result<Option<OracleEntry>, CollateralError>)
        requires
            old(self).wf(),
        ensures
            final(self).wf(),
            old(self).consistent() ==> final(self).consistent(),
            caller != old(self).owner_view() ==> (r matches Err(CollateralError::CallerIsNotOwner)),
            caller != old(self).owner_view() ==> *final(self) == *old(self),
            caller == old(self).owner_view() && old(self).using_mock_view() ==> (r matches Ok(Some(w))
                && w.key@ == oracle_key_of(evm_address@) && w.value@ == decimal_chars(mock_price(seed@) as nat)),
            caller == old(self).owner_view() && !old(self).using_mock_view() ==> (r matches Ok(None)),
            caller == old(self).owner_view() ==> {
                &&& final(self).same_settings(old(self))
                &&& final(self).collections_view() == old(self).collections_view().insert(
                    evm_address@,
                    (risk_factor, collateral_factor),
                )
                &&& final(self).loans_view() == old(self).loans_view()
                &&& final(self).collaterals_view() == old(self).collaterals_view()
                &&& final(self).events_view() == old(self).events_view()
            },
    {
        if !bytes_equal(&self.owner, &caller) {
            return Err(CollateralError::CallerIsNotOwner);
        }
        let entry = if self.using_mock {
            Some(self.mock_populate_oracle(evm_address, seed))
        } else {
            None
        };
        self.collections.insert(evm_address, (risk_factor, collateral_factor));
        assert(old(self).consistent() ==> self.consistent()) by {
            if old(self).consistent() {
                assert forall|k: (Seq<u8>, Seq<u8>, NftId)| #[trigger]
                    self.collaterals_view().contains_key(k) implies self.collections_view().contains_key(k.1)
                    && self.loans_view().contains_key(k.0) by {
                    assert(old(self).collaterals_view().contains_key(k));
                }
            }
        }
        Ok(entry)
    }

    /// The risk factor and collateral factor of a registered collection.
    pub fn registered_nft_collection(&self, evm_address: EvmContractAddress) -> (r: Result<
        (RiskFactor, CollateralFactor),
        CollateralError,
    >)
        requires
            self.wf(),
        ensures
            self.collections_view().contains_key(evm_address@) ==> r == Ok::<
                (RiskFactor, CollateralFactor),
                CollateralError,
            >(self.collections_view()[evm_address@]),
            !self.collections_view().contains_key(evm_address@) ==> r == Err::<
                (RiskFactor, CollateralFactor),
                CollateralError,
            >(CollateralError::UnknownCollection),
    {
        match self.collections.get(&evm_address) {
            Some(f) => Ok(*f),
            None => Err(CollateralError::UnknownCollection),
        }
    }

    /// A user's loan: limit, open amount and block of the last change.
    pub fn loan_status(&self, user: AccountId) -> (r: Result<(LoanLimit, LoanOpen, LoanLastChange), CollateralError>)
        requires
            self.wf(),
        ensures
            r == self.loan_status_spec(user),
    {
        match self.loans.get(&user) {
            Some(e) => Ok(*e),
            None => Err(CollateralError::UnknownUser),
        }
    }

    /// The caller's own loan.
    pub fn my_loan_status(&self, caller: AccountId) -> (r: Result<(LoanLimit, LoanOpen, LoanLastChange), CollateralError>)
        requires
            self.wf(),
        ensures
            r == self.loan_status_spec(caller),
    {
        self.loan_status(caller)
    }

    /// What `loan_status` answers.
    pub open spec fn loan_status_spec(&self, user: AccountId) -> Result<(LoanLimit, LoanOpen, LoanLastChange), CollateralError> {
        if self.loans_view().contains_key(user@) {
            Ok(self.loans_view()[user@])
        } else {
            Err(CollateralError::UnknownUser)
        }
    }

    /// Writes a user's loan and announces it.
    pub fn loans_insert(
        &mut self,
        account: &AccountId,
        loan_limit: LoanLimit,
        loan_open: LoanOpen,
        block: BlockNumber,
    )
        requires
            old(self).wf(),
        ensures
            final(self).wf(),
            final(self).same_settings(old(self)),
            final(self).collections_view() == old(self).collections_view(),
            final(self).collaterals_view() == old(self).collaterals_view(),
            final(self).loans_view() == old(self).loans_view().insert(account@, (loan_limit, loan_open, block)),
            final(self).events_view() == old(self).events_view().push(
                BalanceUpdate { account: *account, loan_limit, loan_open },
            ),
    {
        self.loans.insert(*account, (loan_limit, loan_open, block));
        self.events.push(BalanceUpdate { account: *account, loan_limit, loan_open });
    }

    /// Brings a user's open loan up to date in the current block by adding
    /// the interest accrued since its last change, and returns the loan.
    /// A user without a loan gets `(0, 0, current_block)` and nothing is
    /// written.
    pub fn update_loan_status(&mut self, user: AccountId, current_block: BlockNumber) -> (r: Result<
        (LoanLimit, LoanOpen, LoanLastChange),
        CollateralError,
    >)
        requires
            old(self).wf(),
        ensures
            final(self).wf(),
            old(self).consistent() ==> final(self).consistent(),
            old(self).loan_updated_to(final(self), user, current_block),
            r == Ok::<(LoanLimit, LoanOpen, LoanLastChange), CollateralError>(
                old(self).loan_after_update(user, current_block),
            ),
    {
        let (loan_limit, loan_open, loan_last_change) = match self.loans.get(&user) {
            Some(e) => *e,
            None => {
                return Ok((0, 0, current_block));
            },
        };
        let interest = interest_due(loan_last_change, current_block, self.interest_rate, loan_open);
        let new_loan_open = loan_open.saturating_add(interest as u128);
        self.loans_insert(&user, loan_limit, new_loan_open, current_block);
        Ok((loan_limit, new_loan_open, current_block))
    }
}

impl Collateral {
    /// Records the deposit of the token `id` of the collection at
    /// `evm_address` by `caller`, once the token has been transferred to
    /// the contract and the oracle has given its floor price: the caller's
    /// loan is brought up to date, its limit raised by the floor price times
    /// the collection's collateral factor (saturating), and the deposit
    /// recorded. A collection that is not registered is refused.
    pub fn deposit_nft(
        &mut self,
        caller: AccountId,
        evm_address: EvmContractAddress,
        id: NftId,
        floor_price: FloorPrice,
        current_block: BlockNumber,
    ) -> (r: Result<(), CollateralError>)
        requires
            old(self).wf(),
        ensures
            final(self).wf(),
            old(self).consistent() ==> final(self).consistent(),
            !old(self).collections_view().contains_key(evm_address@) ==> r == Err::<(), CollateralError>(
                CollateralError::UnknownCollection,
            ) && *final(self) == *old(self),
            old(self).collections_view().contains_key(evm_address@) ==> r is Ok && old(self).deposited(
                final(self),
                caller,
                evm_address,
                id,
                floor_price,
                current_block,
            ),
    {
        let (_risk_factor, collateral_factor) = match self.registered_nft_collection(evm_address) {
            Ok(f) => f,
            Err(e) => {
                return Err(e);
            },
        };
        let ghost s0 = *self;
        let (loan_limit, loan_open, block) = match self.update_loan_status(caller, current_block) {
            Ok(status) => status,
            Err(e) => {
                return Err(e);
            },
        };
        let ghost s1 = *self;
        let new_loan_limit = loan_limit.saturating_add(
            saturating_mul_u128(floor_price, collateral_factor as u128),
        );
        self.loans_insert(&caller, new_loan_limit, loan_open, block);
        self.collaterals.insert((caller, evm_address, id), floor_price);
        proof {
            assert(s0.loan_updated_to(&s1, caller, current_block));
            if s0.consistent() {
                assert forall|k: (Seq<u8>, Seq<u8>, NftId)| #[trigger]
                    self.collaterals_view().contains_key(k) implies self.collections_view().contains_key(k.1)
                    && self.loans_view().contains_key(k.0) by {
                    if k != (caller@, evm_address@, id) {
                        assert(s0.collaterals_view().contains_key(k));
                    }
                }
            }
            assert(self.events_view() =~= s0.events_after_update(caller, current_block).push(
                BalanceUpdate { account: caller, loan_limit: new_loan_limit, loan_open: loan_open },
            ));
            assert(self.loans_view() =~= s0.loans_view().insert(caller@, (new_loan_limit, loan_open, block)));
            assert(s0.deposited(self, caller, evm_address, id, floor_price, current_block));
        }
        Ok(())
    }

    /// Checks whether `caller` may take back the token `id` of the
    /// collection at `evm_address`: the collection must be registered and
    /// the token deposited by the caller. The caller's loan is then brought
    /// up to date, and the limit that would remain without the token must
    /// still cover the open loan. On success the host transfers the token
    /// back and calls `complete_withdrawal` with the returned limit.
    pub fn withdraw_nft(
        &mut self,
        caller: AccountId,
        evm_address: EvmContractAddress,
        id: NftId,
        current_block: BlockNumber,
    ) -> (r: Result<LoanLimit, CollateralError>)
        requires
            old(self).wf(),
        ensures
            final(self).wf(),
            old(self).consistent() ==> final(self).consistent(),
            old(self).withdrawal_checked(final(self), caller, evm_address, id, current_block, r),
    {
        let (_risk_factor, collateral_factor) = match self.registered_nft_collection(evm_address) {
            Ok(f) => f,
            Err(e) => {
                return Err(e);
            },
        };
        let floor_price = match self.collaterals.get(&(caller, evm_address, id)) {
            Some(p) => *p,
            None => {
                return Err(CollateralError::NotOwnerOfNft);
            },
        };
        let (loan_limit, loan_open, _block) = match self.update_loan_status(caller, current_block) {
            Ok(status) => status,
            Err(e) => {
                return Err(e);
            },
        };
        let new_loan_limit = loan_limit.saturating_sub(saturating_mul_u128(floor_price, collateral_factor as u128));
        if new_loan_limit < loan_open {
            return Err(CollateralError::OpenLoanTooLarge);
        }
        Ok(new_loan_limit)
    }

    /// Completes a withdrawal once the token has been transferred back:
    /// the deposit record is removed and the caller's loan limit set to
    /// the limit that `withdraw_nft` returned.
    pub fn complete_withdrawal(
        &mut self,
        caller: AccountId,
        evm_address: EvmContractAddress,
        id: NftId,
        new_loan_limit: LoanLimit,
        current_block: BlockNumber,
    )
        requires
            old(self).wf(),
        ensures
            final(self).wf(),
            old(self).consistent() ==> final(self).consistent(),
            old(self).withdrawal_completed(final(self), caller, evm_address, id, new_loan_limit, current_block),
    {
        let loan_open = match self.loans.get(&caller) {
            Some(e) => e.1,
            None => 0,
        };
        let ghost s0 = *self;
        self.collaterals.remove(&(caller, evm_address, id));
        self.loans_insert(&caller, new_loan_limit, loan_open, current_block);
        proof {
            if s0.consistent() {
                assert forall|k: (Seq<u8>, Seq<u8>, NftId)| #[trigger]
                    self.collaterals_view().contains_key(k) implies self.collections_view().contains_key(k.1)
                    && self.loans_view().contains_key(k.0) by {
                    assert(s0.collaterals_view().contains_key(k));
                }
            }
        }
    }

    /// Starts a repayment by `caller`: the loan is brought up to date and
    /// the amount to transfer is the amount asked for, or the whole open
    /// loan when none is given, but never more than the open loan. A zero
    /// amount is refused. The host then transfers that amount to the
    /// contract and calls `record_repayment`.
    pub fn repay_loan(&mut self, caller: AccountId, amount: Option<Balance>, current_block: BlockNumber) -> (r: Result<
        Balance,
        CollateralError,
    >)
        requires
            old(self).wf(),
        ensures
            final(self).wf(),
            old(self).consistent() ==> final(self).consistent(),
            old(self).loan_updated_to(final(self), caller, current_block),
            r == old(self).repayment_amount(caller, amount, current_block),
    {
        let (_loan_limit, loan_open, _last_change) = match self.update_loan_status(caller, current_block) {
            Ok(status) => status,
            Err(e) => {
                return Err(e);
            },
        };
        let mut amount_to_transfer = match amount {
            Some(a) => a,
            None => loan_open,
        };
        if amount_to_transfer > loan_open {
            amount_to_transfer = loan_open;
        }
        if amount_to_transfer == 0 {
            return Err(CollateralError::AmountCannotBeZero);
        }
        Ok(amount_to_transfer)
    }

    /// The amount that a repayment transfers, or its refusal.
    pub open spec fn repayment_amount(&self, caller: AccountId, amount: Option<Balance>, block: BlockNumber) -> Result<
        Balance,
        CollateralError,
    > {
        let open = self.loan_after_update(caller, block).1;
        let asked = match amount {
            Some(a) => a,
            None => open,
        };
        let due = if asked > open {
            open
        } else {
            asked
        };
        if due == 0 {
            Err(CollateralError::AmountCannotBeZero)
        } else {
            Ok(due)
        }
    }

    /// `new` is `self` with `amount` taken off the caller's open loan.
    pub open spec fn repayment_recorded(&self, new: &Self, caller: AccountId, amount: Balance) -> bool {
        let e = self.loans_view()[caller@];
        &&& new.same_settings(self)
        &&& new.collections_view() == self.collections_view()
        &&& new.collaterals_view() == self.collaterals_view()
        &&& new.events_view() == self.events_view()
        &&& new.loans_view() == self.loans_view().insert(caller@, (e.0, (e.1 - amount) as u128, e.2))
    }

    /// Records a repayment once the amount has been transferred: the open
    /// loan shrinks by it; the limit and the block of the last change stay,
    /// and no event is emitted.
    pub fn record_repayment(&mut self, caller: AccountId, amount: Balance)
        requires
            old(self).wf(),
            old(self).loans_view().contains_key(caller@),
            amount <= old(self).loans_view()[caller@].1,
        ensures
            final(self).wf(),
            old(self).consistent() ==> final(self).consistent(),
            old(self).repayment_recorded(final(self), caller, amount),
    {
        let (loan_limit, loan_open, last_change) = match self.loans.get(&caller) {
            Some(e) => *e,
            None => {
                return;
            },
        };
        self.loans.insert(caller, (loan_limit, loan_open - amount, last_change));
        assert(old(self).consistent() ==> self.consistent()) by {
            if old(self).consistent() {
                assert forall|k: (Seq<u8>, Seq<u8>, NftId)| #[trigger]
                    self.collaterals_view().contains_key(k) implies self.collections_view().contains_key(k.1)
                    && self.loans_view().contains_key(k.0) by {
                    assert(old(self).collaterals_view().contains_key(k));
                }
            }
        }
    }

    /// What a loan request of `amount` answers, from the caller's loan as
    /// brought up to date in `block`: refused when the open loan plus the
    /// amount (saturating) exceeds the limit, else the stable-coin payout.
    pub open spec fn loan_request(&self, caller: AccountId, amount: Balance, block: BlockNumber) -> Result<
        LoanPayout,
        CollateralError,
    > {
        let e = self.loan_after_update(caller, block);
        if sat_add_u128(e.1, amount) > e.0 {
            Err(CollateralError::InsufficientLoanBalance)
        } else {
            Ok(LoanPayout { asset_id: self.scoin_asset_id_view(), to: caller, amount })
        }
    }

    /// Starts a loan request by `caller`: the loan is brought up to date,
    /// and the request is granted only as far as the loan limit allows it:
    /// it is refused when the open loan plus `amount` (saturating) exceeds
    /// the limit. When granted, the host approves and transfers `amount` of
    /// the contract's stable coin to the caller, then calls `record_loan`.
    pub fn take_loan(&mut self, caller: AccountId, amount: Balance, current_block: BlockNumber) -> (r: Result<
        LoanPayout,
        CollateralError,
    >)
        requires
            old(self).wf(),
        ensures
            final(self).wf(),
            old(self).consistent() ==> final(self).consistent(),
            old(self).loan_updated_to(final(self), caller, current_block),
            r == old(self).loan_request(caller, amount, current_block),
    {
        let (loan_limit, loan_open, _block) = match self.update_loan_status(caller, current_block) {
            Ok(status) => status,
            Err(e) => {
                return Err(e);
            },
        };
        if loan_open.saturating_add(amount) > loan_limit {
            return Err(CollateralError::InsufficientLoanBalance);
        }
        Ok(LoanPayout { asset_id: self.scoin_asset_id, to: caller, amount })
    }

    /// `new` is `self` with `amount` added (saturating) to the caller's open
    /// loan and stamped with `block`, without an event; a caller without a
    /// loan counts as `(0, 0)`.
    pub open spec fn loan_recorded(&self, new: &Self, caller: AccountId, amount: Balance, block: BlockNumber) -> bool {
        let e = if self.loans_view().contains_key(caller@) {
            self.loans_view()[caller@]
        } else {
            (0u128, 0u128, 0u32)
        };
        let open = sat_add_u128(e.1, amount);
        &&& new.same_settings(self)
        &&& new.collections_view() == self.collections_view()
        &&& new.collaterals_view() == self.collaterals_view()
        &&& new.loans_view() == self.loans_view().insert(caller@, (e.0, open, block))
        &&& new.events_view() == self.events_view()
    }

    /// Records a loan once its payout has been transferred: the amount is
    /// added to the caller's open loan. The loan is written directly, and no
    /// event is emitted.
    pub fn record_loan(&mut self, caller: AccountId, amount: Balance, current_block: BlockNumber)
        requires
            old(self).wf(),
        ensures
            final(self).wf(),
            old(self).consistent() ==> final(self).consistent(),
            old(self).loan_recorded(final(self), caller, amount, current_block),
    {
        let (loan_limit, loan_open) = match self.loans.get(&caller) {
            Some(e) => (e.0, e.1),
            None => (0, 0),
        };
        let ghost s0 = *self;
        self.loans.insert(caller, (loan_limit, loan_open.saturating_add(amount), current_block));
        proof {
            if s0.consistent() {
                assert forall|k: (Seq<u8>, Seq<u8>, NftId)| #[trigger]
                    self.collaterals_view().contains_key(k) implies self.collections_view().contains_key(k.1)
                    && self.loans_view().contains_key(k.0) by {
                    assert(s0.collaterals_view().contains_key(k));
                }
            }
        }
    }

    /// The entry with which a mock deployment fills the oracle for a newly
    /// registered collection: the collection's oracle key, and the decimal
    /// text of a price in `[1_000_000, 2_000_000]` drawn from the chain's
    /// randomness.
    pub fn mock_populate_oracle(&self, evm_address: EvmContractAddress, seed: [u8; 32]) -> (w: OracleEntry)
        ensures
            w.key@ == oracle_key_of(evm_address@),
            w.value@ == decimal_chars(mock_price(seed@) as nat),
    {
        let key = oracle_query_key(&evm_address);
        let price = get_random_number(seed, MOCK_PRICE_MIN, MOCK_PRICE_MAX);
        OracleEntry { key, value: decimal_text(price) }
    }

    /// The diagnostic answer to an oracle query for a collection: always an
    /// error whose text is the oracle key, ` : `, and the oracle's value.
    pub fn test_query_oracle(&self, evm_address: EvmContractAddress, value: String) -> (r: Result<u128, CollateralError>)
        ensures
            r matches Err(CollateralError::Custom(m)) && m@ == oracle_key_of(evm_address@) + " : "@ + value@,
    {
        let mut msg = oracle_query_key(&evm_address);
        msg.append(" : ");
        msg.append(value.as_str());
        Err(CollateralError::Custom(msg))
    }
}

// ---------------------------------------------------------------------
// Laws
// ---------------------------------------------------------------------

/// No interest accrues while no block has passed since the loan's last
/// change.
pub proof fn law_no_interest_without_elapsed_blocks(last_change: u32, current_block: u32, rate: u32, open: u128)
    requires
        current_block <= last_change,
    ensures
        accrued_interest(last_change, current_block, rate, open) == 0,
{
    assert(sat_sub_u64(current_block as u64, last_change as u64) == 0);
    assert(sat_mul_u64(0, rate as u64) == 0);
    assert(sat_mul_u64(0, open as u64) == 0);
}

/// Bringing a loan up to date keeps its limit, never lowers its open
/// amount, and stamps it with the current block.
pub proof fn law_update_keeps_limit_and_never_lowers_open(s: Collateral, user: AccountId, block: BlockNumber)
    requires
        s.loans_view().contains_key(user@),
    ensures
        s.loan_after_update(user, block).0 == s.loans_view()[user@].0,
        s.loan_after_update(user, block).1 >= s.loans_view()[user@].1,
        s.loan_after_update(user, block).2 == block,
{
}

/// Bringing a loan up to date a second time in the same block leaves it as
/// the first time left it.
pub proof fn law_update_idempotent_within_block(s0: Collateral, s1: Collateral, user: AccountId, block: BlockNumber)
    requires
        s0.loan_updated_to(&s1, user, block),
    ensures
        s1.loan_after_update(user, block) == s0.loan_after_update(user, block),
{
    if s0.loans_view().contains_key(user@) {
        let e = s0.loan_after_update(user, block);
        assert(s1.loans_view()[user@] == e);
        law_no_interest_without_elapsed_blocks(block, block, s1.interest_rate_view(), e.1);
    }
}

/// Depositing a token and taking it back in the same block, while the loan
/// stays within its limit and the raised limit does not saturate: the
/// withdrawal is allowed, its limit is the limit before the deposit, and
/// once completed the deposit records are as before the deposit and the
/// depositor's loan is as bringing it up to date would have left it.
pub proof fn law_deposit_then_withdraw_restores(
    s0: Collateral,
    s1: Collateral,
    s2: Collateral,
    s3: Collateral,
    caller: AccountId,
    evm_address: EvmContractAddress,
    id: NftId,
    floor_price: FloorPrice,
    block: BlockNumber,
    r: Result<LoanLimit, CollateralError>,
)
    requires
        s0.collections_view().contains_key(evm_address@),
        !s0.collaterals_view().contains_key((caller@, evm_address@, id)),
        s0.loan_after_update(caller, block).1 <= s0.loan_after_update(caller, block).0,
        s0.loan_after_update(caller, block).0 + collateral_value(
            floor_price,
            s0.collections_view()[evm_address@].1,
        ) <= u128::MAX,
        s0.deposited(&s1, caller, evm_address, id, floor_price, block),
        s1.withdrawal_checked(&s2, caller, evm_address, id, block, r),
        s2.withdrawal_completed(&s3, caller, evm_address, id, s0.loan_after_update(caller, block).0, block),
    ensures
        r == Ok::<LoanLimit, CollateralError>(s0.loan_after_update(caller, block).0),
        s3.collaterals_view() == s0.collaterals_view(),
        s3.collections_view() == s0.collections_view(),
        s3.loans_view() == s0.loans_view().insert(caller@, s0.loan_after_update(caller, block)),
{
    let e = s0.loan_after_update(caller, block);
    let v = collateral_value(floor_price, s0.collections_view()[evm_address@].1);
    let limit = sat_add_u128(e.0, v);
    assert(limit == e.0 + v);
    assert(s1.loans_view()[caller@] == (limit, e.1, block));
    law_no_interest_without_elapsed_blocks(block, block, s1.interest_rate_view(), e.1);
    assert(s1.loan_after_update(caller, block) == (limit, e.1, block));
    assert(s1.collaterals_view()[(caller@, evm_address@, id)] == floor_price);
    assert(s1.limit_after_withdrawal(caller, evm_address, id, block) == e.0);
    assert(s2.loans_view()[caller@] == (limit, e.1, block));
    assert(s3.collaterals_view() =~= s0.collaterals_view());
    assert(s3.loans_view() =~= s0.loans_view().insert(caller@, e));
}

/// A repayment takes a positive amount, at most the open loan, off the open
/// loan; a repayment that names no amount clears the open loan.
pub proof fn law_repayment_reduces_open_loan(
    s0: Collateral,
    s1: Collateral,
    s2: Collateral,
    caller: AccountId,
    amount: Option<Balance>,
    block: BlockNumber,
    paid: Balance,
)
    requires
        s0.loans_view().contains_key(caller@),
        s0.loan_updated_to(&s1, caller, block),
        s0.repayment_amount(caller, amount, block) == Ok::<Balance, CollateralError>(paid),
        s1.repayment_recorded(&s2, caller, paid),
    ensures
        0 < paid <= s0.loan_after_update(caller, block).1,
        s2.loans_view()[caller@].0 == s0.loans_view()[caller@].0,
        s2.loans_view()[caller@].1 == s0.loan_after_update(caller, block).1 - paid,
        amount is None ==> s2.loans_view()[caller@].1 == 0,
{
    assert(s1.loans_view()[caller@] == s0.loan_after_update(caller, block));
}

/// A loan is paid only within the loan limit: once a granted request is
/// recorded, the open loan is the brought-up-to-date open loan plus the
/// amount (saturating), it stays within the unchanged limit, and a request
/// beyond the limit is refused.
pub proof fn law_loan_paid_only_within_limit(
    s0: Collateral,
    s1: Collateral,
    s2: Collateral,
    caller: AccountId,
    amount: Balance,
    block: BlockNumber,
)
    requires
        s0.loan_updated_to(&s1, caller, block),
        s1.loan_recorded(&s2, caller, amount, block),
    ensures
        s0.loan_request(caller, amount, block) is Ok ==> {
            let e = s0.loan_after_update(caller, block);
            &&& s2.loans_view()[caller@] == (e.0, sat_add_u128(e.1, amount), block)
            &&& s2.loans_view()[caller@].1 <= s2.loans_view()[caller@].0
        },
        sat_add_u128(s0.loan_after_update(caller, block).1, amount) > s0.loan_after_update(caller, block).0
            ==> s0.loan_request(caller, amount, block) == Err::<LoanPayout, CollateralError>(
            CollateralError::InsufficientLoanBalance,
        ),
{
    let e = s0.loan_after_update(caller, block);
    if s0.loans_view().contains_key(caller@) {
        assert(s1.loans_view()[caller@] == e);
    } else {
        assert(s1.loans_view() == s0.loans_view());
        assert(!s1.loans_view().contains_key(caller@));
    }
    assert(s2.loans_view()[caller@] == (e.0, sat_add_u128(e.1, amount), block));
}

/// While nothing saturates, an open loan accrues `rate` millionths of
/// itself per elapsed block, rounded down.
pub proof fn law_interest_per_elapsed_block(last_change: u32, current_block: u32, rate: u32, open: u128)
    requires
        last_change <= current_block,
        open <= u64::MAX,
        (current_block - last_change) * rate * open <= u64::MAX,
    ensures
        accrued_interest(last_change, current_block, rate, open) == ((current_block - last_change) * rate * open)
            / 1_000_000,
{
    let e: u64 = (current_block - last_change) as u64;
    let r: u64 = rate as u64;
    let o: u64 = open as u64;
    assert(sat_sub_u64(current_block as u64, last_change as u64) == e);
    assert(o == open);
    if o == 0 {
        assert(sat_mul_u64(sat_mul_u64(e, r), 0) == 0) by (nonlinear_arith);
        assert((e * r * open) == 0) by (nonlinear_arith)
            requires
                open == 0,
        ;
    } else {
        assert(e * r <= e * r * o) by (nonlinear_arith)
            requires
                o >= 1,
        ;
        assert(sat_mul_u64(e, r) == e * r);
        assert(sat_mul_u64((e * r) as u64, o) == e * r * o);
    }
}

/// A deposit raises the depositor's loan limit by the floor price times the
/// collection's collateral factor, capped at `u128::MAX`, records the
/// deposit at that floor price and stamps the loan with the current block.
pub proof fn law_deposit_raises_limit_by_price_times_factor(
    s0: Collateral,
    s1: Collateral,
    caller: AccountId,
    evm_address: EvmContractAddress,
    id: NftId,
    floor_price: FloorPrice,
    block: BlockNumber,
)
    requires
        s0.collections_view().contains_key(evm_address@),
        s0.deposited(&s1, caller, evm_address, id, floor_price, block),
    ensures
        ({
            let before = if s0.loans_view().contains_key(caller@) {
                s0.loans_view()[caller@].0 as int
            } else {
                0int
            };
            let raised = before + floor_price * s0.collections_view()[evm_address@].1;
            s1.loans_view()[caller@].0 == if raised > u128::MAX {
                u128::MAX as int
            } else {
                raised
            }
        }),
        s1.loans_view()[caller@].2 == block,
        s1.collaterals_view()[(caller@, evm_address@, id)] == floor_price,
{
    let cf = s0.collections_view()[evm_address@].1;
    let v = floor_price * cf;
    assert(0 <= v) by (nonlinear_arith)
        requires
            v == floor_price * cf,
    ;
}

/// Taking a deposited token back is refused exactly when the limit that
/// would remain is below the open loan (brought up to date); otherwise it
/// answers that remaining limit: the limit less the floor price times the
/// collateral factor, or zero where that product is not below the limit.
/// This holds in every block, whatever the loan's last change.
pub proof fn law_withdrawal_refused_only_below_open_loan(
    s0: Collateral,
    s1: Collateral,
    caller: AccountId,
    evm_address: EvmContractAddress,
    id: NftId,
    block: BlockNumber,
    r: Result<LoanLimit, CollateralError>,
)
    requires
        s0.collections_view().contains_key(evm_address@),
        s0.collaterals_view().contains_key((caller@, evm_address@, id)),
        s0.withdrawal_checked(&s1, caller, evm_address, id, block, r),
    ensures
        ({
            let limit = if s0.loans_view().contains_key(caller@) {
                s0.loans_view()[caller@].0 as int
            } else {
                0int
            };
            let open = if s1.loans_view().contains_key(caller@) {
                s1.loans_view()[caller@].1 as int
            } else {
                0int
            };
            let value = s0.collaterals_view()[(caller@, evm_address@, id)] * s0.collections_view()[evm_address@].1;
            let remaining = if limit > value {
                limit - value
            } else {
                0int
            };
            &&& remaining >= open ==> r == Ok::<LoanLimit, CollateralError>(remaining as u128)
            &&& remaining < open ==> r == Err::<LoanLimit, CollateralError>(CollateralError::OpenLoanTooLarge)
        }),
{
    let p = s0.collaterals_view()[(caller@, evm_address@, id)];
    let cf = s0.collections_view()[evm_address@].1;
    let v = p * cf;
    assert(0 <= v) by (nonlinear_arith)
        requires
            v == p * cf,
    ;
    if s0.loans_view().contains_key(caller@) {
        assert(s1.loans_view()[caller@] == s0.loan_after_update(caller, block));
    }
}

/// A repayment transfers the amount asked for when it is positive and at
/// most the open loan (brought up to date), the whole open loan when the
/// amount asked is larger or not given, and is refused when that comes to
/// zero.
pub proof fn law_repayment_amount(
    s0: Collateral,
    s1: Collateral,
    caller: AccountId,
    amount: Option<Balance>,
    block: BlockNumber,
    r: Result<Balance, CollateralError>,
)
    requires
        s0.loan_updated_to(&s1, caller, block),
        r == s0.repayment_amount(caller, amount, block),
    ensures
        ({
            let open = if s1.loans_view().contains_key(caller@) {
                s1.loans_view()[caller@].1
            } else {
                0u128
            };
            &&& amount is Some && 0 < amount->0 <= open ==> r == Ok::<Balance, CollateralError>(amount->0)
            &&& amount is Some && amount->0 > open && open > 0 ==> r == Ok::<Balance, CollateralError>(open)
            &&& amount is None && open > 0 ==> r == Ok::<Balance, CollateralError>(open)
            &&& (open == 0 || amount == Some(0u128)) ==> r == Err::<Balance, CollateralError>(
                CollateralError::AmountCannotBeZero,
            )
        }),
{
    if s0.loans_view().contains_key(caller@) {
        assert(s1.loans_view()[caller@] == s0.loan_after_update(caller, block));
    }
}

/// A loan request is granted, as a payout of exactly the amount asked in
/// the contract's stable coin to the caller, exactly when the open loan
/// (brought up to date) plus the amount, capped at `u128::MAX`, stays within
/// the loan limit; otherwise it is refused.
pub proof fn law_loan_granted_iff_within_limit(
    s0: Collateral,
    s1: Collateral,
    caller: AccountId,
    amount: Balance,
    block: BlockNumber,
    r: Result<LoanPayout, CollateralError>,
)
    requires
        s0.loan_updated_to(&s1, caller, block),
        r == s0.loan_request(caller, amount, block),
    ensures
        ({
            let (limit, open) = if s1.loans_view().contains_key(caller@) {
                (s1.loans_view()[caller@].0 as int, s1.loans_view()[caller@].1 as int)
            } else {
                (0int, 0int)
            };
            let total = if open + amount > u128::MAX {
                u128::MAX as int
            } else {
                open + amount
            };
            &&& total <= limit ==> r == Ok::<LoanPayout, CollateralError>(
                LoanPayout { asset_id: s0.scoin_asset_id_view(), to: caller, amount },
            )
            &&& total > limit ==> r == Err::<LoanPayout, CollateralError>(CollateralError::InsufficientLoanBalance)
        }),
{
    if s0.loans_view().contains_key(caller@) {
        assert(s1.loans_view()[caller@] == s0.loan_after_update(caller, block));
    }
}

/// Bringing a loan up to date accrues interest at the contract's own rate:
/// while nothing saturates, the open loan grows by the elapsed blocks times
/// the rate times the open loan, in millionths, rounded down; the limit
/// stays and the last change becomes the current block.
pub proof fn law_update_accrues_at_contract_rate(s0: Collateral, s1: Collateral, user: AccountId, block: BlockNumber)
    requires
        s0.loan_updated_to(&s1, user, block),
        s0.loans_view().contains_key(user@),
        s0.loans_view()[user@].2 <= block,
        s0.loans_view()[user@].1 <= u64::MAX,
        (block - s0.loans_view()[user@].2) * s0.interest_rate_view() * s0.loans_view()[user@].1 <= u64::MAX,
    ensures
        s1.loans_view()[user@] == (
            s0.loans_view()[user@].0,
            (s0.loans_view()[user@].1 + (block - s0.loans_view()[user@].2) * s0.interest_rate_view()
                * s0.loans_view()[user@].1 / 1_000_000) as u128,
            block,
        ),
{
    let e = s0.loans_view()[user@];
    let rate = s0.interest_rate_view();
    law_interest_per_elapsed_block(e.2, block, rate, e.1);
    let i = (block - e.2) * rate * e.1;
    assert(i / 1_000_000 <= i) by (nonlinear_arith)
        requires
            i >= 0,
    ;
    assert(0 <= i) by (nonlinear_arith)
        requires
            i == (block - e.2) * rate * e.1,
            block - e.2 >= 0,
            rate >= 0,
            e.1 >= 0,
    ;
}

/// Completing a withdrawal sets the caller's loan limit to the given limit,
/// keeps the open loan (zero for a caller without a loan), stamps the loan
/// with the current block, and forgets exactly the returned token.
pub proof fn law_withdrawal_completion(
    s0: Collateral,
    s1: Collateral,
    caller: AccountId,
    evm_address: EvmContractAddress,
    id: NftId,
    new_loan_limit: LoanLimit,
    block: BlockNumber,
    other: (Seq<u8>, Seq<u8>, NftId),
)
    requires
        s0.withdrawal_completed(&s1, caller, evm_address, id, new_loan_limit, block),
    ensures
        s1.loans_view()[caller@].0 == new_loan_limit,
        s0.loans_view().contains_key(caller@) ==> s1.loans_view()[caller@].1 == s0.loans_view()[caller@].1,
        !s0.loans_view().contains_key(caller@) ==> s1.loans_view()[caller@].1 == 0,
        s1.loans_view()[caller@].2 == block,
        !s1.collaterals_view().contains_key((caller@, evm_address@, id)),
        other != (caller@, evm_address@, id) ==> (s1.collaterals_view().contains_key(other)
            == s0.collaterals_view().contains_key(other)),
{
}

} // verus!
