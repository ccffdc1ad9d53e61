//! The value types every builder speaks in. Coins, CATs and hashes are held as plain values
//! (byte arrays and integers); NFTs, public keys and the SDK's spend artifacts are carried
//! through unchanged.
use vstd::prelude::*;
use chia_wallet_sdk::chia::bls::PublicKey;
use chia_wallet_sdk::chia::protocol::CoinSpend;
use chia_wallet_sdk::driver::{AssetInfo, Nft, NftAssetInfo, Offer, RequestedPayments};
use indexmap::IndexMap;

verus! {

/// A 32-byte hash: a coin id, puzzle hash, asset id or launcher id.
pub type Bytes32 = [u8; 32];

/// A coin: its parent coin id, its puzzle hash and its amount (mojos or CAT base units).
#[derive(Debug, Clone, Copy, PartialEq, Eq)]
pub struct Coin {
    pub parent_coin_info: Bytes32,
    pub puzzle_hash: Bytes32,
    pub amount: u64,
}

/// The proof that a CAT coin's parent was a CAT of the same asset.
#[derive(Debug, Clone, Copy, PartialEq, Eq)]
pub struct LineageProof {
    pub parent_parent_coin_info: Bytes32,
    pub parent_inner_puzzle_hash: Bytes32,
    pub parent_amount: u64,
}

/// A spendable CAT coin: the coin, its lineage proof, and the CAT's asset id, hidden puzzle
/// hash (revocable CATs only) and inner (p2) puzzle hash.
#[derive(Debug, Clone, Copy, PartialEq, Eq)]
pub struct Cat {
    pub coin: Coin,
    pub lineage_proof: Option<LineageProof>,
    pub asset_id: Bytes32,
    pub hidden_puzzle_hash: Option<Bytes32>,
    pub p2_puzzle_hash: Bytes32,
}

/// The asset an action moves: XCH, or an existing CAT or singleton (NFT) by its asset or
/// launcher id.
#[derive(Debug, Clone, Copy, PartialEq, Eq)]
pub enum AssetRef {
    Xch,
    Existing(Bytes32),
}

/// A coin condition a reclaim spend outputs.
#[derive(Debug, Clone, Copy, PartialEq, Eq)]
pub enum CoinCondition {
    /// Create a coin of `amount` at `puzzle_hash`, with no memos.
    CreateCoin { puzzle_hash: Bytes32, amount: u64 },
    /// Reserve `0` as the transaction fee.
    ReserveFee(u64),
}

/// A single asset leg of an offer, as reported by a summary. Amounts are base units; an NFT is
/// always quantity one and identified by its launcher id.
#[derive(Debug, Clone, Copy, PartialEq, Eq)]
pub enum OfferAsset {
    /// XCH, amount in mojos.
    Xch(u64),
    /// A CAT identified by its asset id (TAIL hash), amount in base units.
    Cat { asset_id: Bytes32, amount: u64 },
    /// An NFT identified by its launcher id.
    Nft { launcher_id: Bytes32 },
}

impl OfferAsset {
    /// The fungible amount of a leg: the amount of an XCH or CAT leg, zero for an NFT.
    pub open spec fn fungible_amount(self) -> u64 {
        match self {
            OfferAsset::Xch(amount) => amount,
            OfferAsset::Cat { amount, .. } => amount,
            OfferAsset::Nft { .. } => 0,
        }
    }

    /// The fungible amount this leg carries (zero for an NFT, which is not fungible).
    pub fn amount(&self) -> (r: u64)
        ensures
            r == self.fungible_amount(),
    {
        match self {
            OfferAsset::Xch(amount) => *amount,
            OfferAsset::Cat { amount, .. } => *amount,
            OfferAsset::Nft { .. } => 0,
        }
    }
}

/// The maker's side of a make-offer: its funding coins (XCH, CAT, NFT), the amounts it offers
/// and where change returns. `owner_keys` maps each funding coin's p2 puzzle hash to the
/// public key that authorizes it.
pub struct OfferedSide {
    /// Where offered-coin change (and fee surplus) returns.
    pub change_puzzle_hash: Bytes32,
    /// Every funding coin's p2 puzzle hash and the public key authorizing it.
    pub owner_keys: IndexMap<chia_protocol::Bytes32, PublicKey>,
    /// Spendable XCH coins available to fund the offered XCH and the fee.
    pub xch_coins: Vec<Coin>,
    /// Spendable CAT coins available to fund the offered CAT legs.
    pub cat_coins: Vec<Cat>,
    /// The NFTs to offer, each spent whole into settlement (parsed in the build context).
    pub nfts: Vec<Nft>,
    /// The XCH (mojos) to offer.
    pub offer_xch: u64,
    /// The CATs to offer, as `(asset_id, amount)` in base units.
    pub offer_cats: Vec<(Bytes32, u64)>,
}

/// The maker's requested side: what the taker must pay, and where it is paid.
pub struct RequestedSide {
    /// The address every requested payment is paid to.
    pub payee_puzzle_hash: Bytes32,
    /// The XCH (mojos) requested.
    pub xch: u64,
    /// The CATs requested, as `(asset_id, amount)` in base units.
    pub cats: Vec<(Bytes32, u64)>,
    /// The NFTs requested, as `(launcher_id, asset_info)`.
    pub nfts: Vec<(Bytes32, NftAssetInfo)>,
}

/// The taker's funding coins, and where change and received assets return.
pub struct TakerFunds {
    /// Where change, surplus, and received assets return.
    pub change_puzzle_hash: Bytes32,
    /// Every funding coin's p2 puzzle hash and the public key authorizing it.
    pub owner_keys: IndexMap<chia_protocol::Bytes32, PublicKey>,
    /// Spendable XCH coins available to fund the requested XCH and the fee.
    pub xch_coins: Vec<Coin>,
    /// Spendable CAT coins available to fund requested CAT payments.
    pub cat_coins: Vec<Cat>,
    /// NFTs the taker gives up to fulfil a requested-NFT leg.
    pub nfts: Vec<Nft>,
}

/// What a taker must fund to take an offer: the requested-over-offered surplus.
#[derive(Debug, Default, Clone, PartialEq, Eq)]
pub struct OfferCost {
    /// XCH (mojos) the taker must pay.
    pub xch: u64,
    /// Per-asset-id CAT base units the taker must pay.
    pub cats: Vec<(Bytes32, u64)>,
}

/// A read-only summary of an offer: what it offers, what it requests, the taker's cost and the
/// NFT royalties it carries.
#[derive(Debug, Default, Clone, PartialEq, Eq)]
pub struct OfferSummary {
    /// Assets the offer gives the taker.
    pub offered: Vec<OfferAsset>,
    /// Assets the offer asks the taker to pay.
    pub requested: Vec<OfferAsset>,
    /// The net the taker must fund.
    pub arbitrage: OfferCost,
    /// Royalty legs: `(NFT launcher id, royalty basis points)`.
    pub royalties: Vec<(Bytes32, u16)>,
}

/// The unsigned artifact of `make_build`: the coin spends the caller must sign, and the
/// requested-payment context to hand back to `make_assemble` once signed.
#[derive(Debug)]
pub struct UnsignedMake {
    /// The unsigned coin spends the caller must sign.
    pub coin_spends: Vec<CoinSpend>,
    /// The requested payments (what the taker will pay).
    pub requested_payments: RequestedPayments,
    /// The requested asset metadata.
    pub requested_asset_info: AssetInfo,
    /// The offer nonce derived from the offered coins.
    pub nonce: Bytes32,
}

/// The unsigned artifact of `take_build`: the taker's coin spends to sign, the maker's signed
/// offer, and the cost the take funds.
#[derive(Debug)]
pub struct UnsignedTake {
    /// The taker's unsigned coin spends.
    pub coin_spends: Vec<CoinSpend>,
    /// The maker's already-signed offer.
    pub offer: Offer,
    /// What the taker funds to take the offer.
    pub cost: OfferCost,
}

/// The unsigned artifact of `cancel_build`: the reclaim coin spends the maker must sign.
#[derive(Debug)]
pub struct UnsignedCancel {
    /// The unsigned coin spends that reclaim the offered coins.
    pub coin_spends: Vec<CoinSpend>,
}

} // verus!
