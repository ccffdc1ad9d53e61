//! Key-free, network-free builder for Chia offers: make, take, combine, cancel and summarize
//! offers over XCH, CAT and NFT assets. The builders construct unsigned coin spends and never
//! hold a secret key, sign, or touch the network.
use vstd::prelude::*;

pub mod cancel;
pub mod combine;
pub mod error;
pub mod hydrate;
pub mod make;
pub mod offer_id;
pub mod select;
pub mod summarize;
pub mod take;
pub mod sdk;
pub mod text;
pub mod types;

pub use cancel::{build_reclaims, cancel_build, reclaim_plan, Reclaim};
pub use combine::{combine, reject_shared_offered_coins};
pub use error::Error;
pub use hydrate::{decode, decoded_offer, encoded_offer, offer_text, parse};
pub use make::{
    ensure_non_empty, fill_requested, make_actions, make_assemble, make_build, select_cats,
    select_xch, MakeAction,
};
pub use offer_id::{offer_id, offer_id_of_bytes};
pub use summarize::{fungible_assets, offer_cost, side_assets, summarize};
pub use take::{ensure_funds_cover, take_build, take_combine};
pub use types::{
    AssetRef, Bytes32, Cat, Coin, LineageProof, OfferAsset, OfferCost, OfferSummary, OfferedSide,
    RequestedSide, TakerFunds, UnsignedCancel, UnsignedMake, UnsignedTake,
};

// The SDK surface a caller needs alongside the builders.
pub use chia_wallet_sdk::driver::{
    AssetInfo, CatAssetInfo, Nft, NftAssetInfo, Offer, RequestedPayments, SpendContext,
};
pub use chia_wallet_sdk::signer::RequiredSignature;

verus! {

/// The crate's semantic version, so a consumer can record which builder version produced a
/// spend.
pub fn version() -> (v: &'static str)
    ensures
        v@ == "0.1.0"@,
{
    "0.1.0"
}

} // verus!
