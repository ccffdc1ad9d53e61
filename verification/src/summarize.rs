//! Inspecting an offer without committing to it: what it offers, what it requests, the taker's
//! cost, and the NFT royalties it carries.
use vstd::prelude::*;
use crate::error::Error;
use crate::hydrate::{parse, parse_failure_prefix};
use crate::sdk::{
    parses_in, pending_spends_of,
    arbitrage_cats_of, arbitrage_xch_of, bundle_offer_of, offered_amounts_of, offered_nfts_of,
    offered_royalties_of, requested_amounts_of, requested_nfts_of, requested_royalties_of,
    coin_amount, context_new, offer_arbitrage_offered, offer_offered_amounts, offer_offered_nfts,
    offer_offered_royalties, offer_requested_amounts, offer_requested_nfts,
    offer_requested_royalties,
};
use crate::types::{Bytes32, OfferAsset, OfferCost, OfferSummary};
use chia_protocol::SpendBundle;
use chia_wallet_sdk::driver::{Offer, SpendContext};

verus! {

/// Every aggregate amount fits in a `u64`.
pub open spec fn amounts_fit(amounts: Seq<(Bytes32, u128)>) -> bool {
    forall|k: int| 0 <= k < amounts.len() ==> #[trigger] amounts[k].1 <= u64::MAX
}

/// The same amounts as `u64`s.
pub open spec fn amounts_as_u64(amounts: Seq<(Bytes32, u128)>) -> Seq<(Bytes32, u64)> {
    amounts.map_values(|a: (Bytes32, u128)| (a.0, a.1 as u64))
}

/// One CAT leg per CAT amount, in order, omitting zero amounts.
pub open spec fn cat_legs(cats: Seq<(Bytes32, u64)>) -> Seq<OfferAsset>
    decreases cats.len(),
{
    if cats.len() == 0 {
        Seq::empty()
    } else if cats.last().1 > 0 {
        cat_legs(cats.drop_last()).push(
            OfferAsset::Cat { asset_id: cats.last().0, amount: cats.last().1 },
        )
    } else {
        cat_legs(cats.drop_last())
    }
}

/// The fungible legs: XCH first, then each CAT in order; zero amounts are omitted.
pub open spec fn fungible_legs(xch: u64, cats: Seq<(Bytes32, u64)>) -> Seq<OfferAsset> {
    let head = if xch > 0 {
        seq![OfferAsset::Xch(xch)]
    } else {
        Seq::empty()
    };
    head + cat_legs(cats)
}

/// One NFT leg per launcher id, in order.
pub open spec fn nft_legs(launcher_ids: Seq<Bytes32>) -> Seq<OfferAsset> {
    launcher_ids.map_values(|id: Bytes32| OfferAsset::Nft { launcher_id: id })
}

/// The legs of one side of an offer: its fungible legs, then its NFT legs.
pub open spec fn side_legs(xch: u64, cats: Seq<(Bytes32, u64)>, launcher_ids: Seq<Bytes32>) -> Seq<
    OfferAsset,
> {
    fungible_legs(xch, cats) + nft_legs(launcher_ids)
}

/// Every amount a summary of `o` reports fits in a `u64`, and its offered royalties can be read.
pub open spec fn readings_fit(o: Offer) -> bool {
    &&& offered_amounts_of(o).0 <= u64::MAX
    &&& amounts_fit(offered_amounts_of(o).1)
    &&& requested_amounts_of(o).0 <= u64::MAX
    &&& amounts_fit(requested_amounts_of(o).1)
    &&& arbitrage_xch_of(o) <= u64::MAX
    &&& amounts_fit(arbitrage_cats_of(o))
    &&& offered_royalties_of(o) is Some
}

/// `s` is the summary of `o`: its offered and requested legs, the taker's cost (the arbitrage's
/// offered side) and every royalty leg, offered side first.
pub open spec fn is_summary_of(s: OfferSummary, o: Offer) -> bool {
    &&& s.offered@ == side_legs(
        offered_amounts_of(o).0 as u64,
        amounts_as_u64(offered_amounts_of(o).1),
        offered_nfts_of(o),
    )
    &&& s.requested@ == side_legs(
        requested_amounts_of(o).0 as u64,
        amounts_as_u64(requested_amounts_of(o).1),
        requested_nfts_of(o),
    )
    &&& s.arbitrage.xch == arbitrage_xch_of(o)
    &&& s.arbitrage.cats@ == amounts_as_u64(arbitrage_cats_of(o))
    &&& s.royalties@ == offered_royalties_of(o)->0 + requested_royalties_of(o)
}

/// A summary's royalty legs are every royalty leg of the offer: the legs the offered side pays,
/// then the legs the requested side pays, none left out.
pub proof fn lemma_summary_reports_both_sides_royalties(s: OfferSummary, o: Offer)
    requires
        is_summary_of(s, o),
    ensures
        s.royalties@.len() == offered_royalties_of(o)->0.len() + requested_royalties_of(o).len(),
        forall|i: int|
            0 <= i < offered_royalties_of(o)->0.len() ==> s.royalties@[i] == #[trigger] offered_royalties_of(o)->0[i],
        forall|j: int|
            0 <= j < requested_royalties_of(o).len() ==> s.royalties@[offered_royalties_of(o)->0.len() + j]
                == #[trigger] requested_royalties_of(o)[j],
{
}

/// Converts aggregate amounts to `u64`, failing with the driver's overflow error if one does
/// not fit.
pub fn amounts_to_u64(amounts: &Vec<(Bytes32, u128)>) -> (r: Result<Vec<(Bytes32, u64)>, Error>)
    ensures
        r is Ok <==> amounts_fit(amounts@),
        r matches Ok(v) ==> v@ == amounts_as_u64(amounts@),
        r matches Err(e) ==> e is Driver,
{
    let mut out: Vec<(Bytes32, u64)> = Vec::new();
    let n = amounts.len();
    let mut i: usize = 0;
    while i < n
        invariant
            n == amounts@.len(),
            i <= n,
            forall|k: int| 0 <= k < i ==> #[trigger] amounts@[k].1 <= u64::MAX,
            out@ == amounts_as_u64(amounts@.take(i as int)),
        decreases n - i,
    {
        let (id, amount) = amounts[i];
        let a = match coin_amount(amount) {
            Ok(a) => a,
            Err(e) => return Err(Error::Driver(e)),
        };
        out.push((id, a));
        assert(amounts_as_u64(amounts@.take(i + 1)) =~= amounts_as_u64(amounts@.take(i as int)).push(
            (id, a),
        ));
        i = i + 1;
    }
    assert(amounts@.take(n as int) =~= amounts@);
    Ok(out)
}

/// The fungible legs: XCH first, then each CAT leg in order; zero amounts are omitted.
pub fn fungible_assets(xch: u64, cats: &Vec<(Bytes32, u64)>) -> (r: Vec<OfferAsset>)
    ensures
        r@ == fungible_legs(xch, cats@),
{
    let mut assets: Vec<OfferAsset> = Vec::new();
    if xch > 0 {
        assets.push(OfferAsset::Xch(xch));
    }
    let ghost head = assets@;
    let n = cats.len();
    let mut i: usize = 0;
    assert(cats@.take(0) =~= Seq::<(Bytes32, u64)>::empty());
    while i < n
        invariant
            n == cats@.len(),
            i <= n,
            head == (if xch > 0 { seq![OfferAsset::Xch(xch)] } else { Seq::empty() }),
            assets@ == head + cat_legs(cats@.take(i as int)),
        decreases n - i,
    {
        let (asset_id, amount) = cats[i];
        assert(cats@.take(i + 1).drop_last() =~= cats@.take(i as int));
        assert(cats@.take(i + 1).last() == cats@[i as int]);
        if amount > 0 {
            assets.push(OfferAsset::Cat { asset_id, amount });
            assert(assets@ =~= head + cat_legs(cats@.take(i + 1)));
        }
        i = i + 1;
    }
    assert(cats@.take(n as int) =~= cats@);
    assets
}

/// The legs of one side of an offer from its aggregate amounts and NFT launcher ids: the
/// fungible legs, then one NFT leg per launcher id. Fails if an amount does not fit in a `u64`.
pub fn side_assets(xch: u128, cats: &Vec<(Bytes32, u128)>, launcher_ids: &Vec<Bytes32>) -> (r:
    Result<Vec<OfferAsset>, Error>)
    ensures
        r is Ok <==> xch <= u64::MAX && amounts_fit(cats@),
        r matches Ok(v) ==> v@ == side_legs(xch as u64, amounts_as_u64(cats@), launcher_ids@),
        r matches Err(e) ==> e is Driver,
{
    let xch = match coin_amount(xch) {
        Ok(a) => a,
        Err(e) => return Err(Error::Driver(e)),
    };
    let cats = match amounts_to_u64(cats) {
        Ok(c) => c,
        Err(e) => return Err(e),
    };
    let mut assets = fungible_assets(xch, &cats);
    let ghost fungible = assets@;
    let n = launcher_ids.len();
    let mut i: usize = 0;
    while i < n
        invariant
            n == launcher_ids@.len(),
            i <= n,
            assets@ == fungible + nft_legs(launcher_ids@.take(i as int)),
        decreases n - i,
    {
        assets.push(OfferAsset::Nft { launcher_id: launcher_ids[i] });
        assert(nft_legs(launcher_ids@.take(i + 1)) =~= nft_legs(launcher_ids@.take(i as int)).push(
            OfferAsset::Nft { launcher_id: launcher_ids@[i as int] },
        ));
        i = i + 1;
    }
    assert(launcher_ids@.take(n as int) =~= launcher_ids@);
    Ok(assets)
}

/// The taker's cost from the offer's arbitrage (the requested-over-offered surplus): the same
/// amounts as `u64`s. Fails if one does not fit.
pub fn offer_cost(xch: u128, cats: &Vec<(Bytes32, u128)>) -> (r: Result<OfferCost, Error>)
    ensures
        r is Ok <==> xch <= u64::MAX && amounts_fit(cats@),
        r matches Ok(c) ==> c.xch == xch && c.cats@ == amounts_as_u64(cats@),
        r matches Err(e) ==> e is Driver,
{
    let x = match coin_amount(xch) {
        Ok(a) => a,
        Err(e) => return Err(Error::Driver(e)),
    };
    let c = match amounts_to_u64(cats) {
        Ok(c) => c,
        Err(e) => return Err(e),
    };
    Ok(OfferCost { xch: x, cats: c })
}

/// Every royalty leg: the offered side's legs, then the requested side's.
pub fn royalty_legs(offered: Vec<(Bytes32, u16)>, requested: &Vec<(Bytes32, u16)>) -> (r: Vec<
    (Bytes32, u16),
>)
    ensures
        r@ == offered@ + requested@,
{
    let mut out = offered;
    let ghost start = out@;
    let n = requested.len();
    let mut i: usize = 0;
    while i < n
        invariant
            n == requested@.len(),
            i <= n,
            out@ == start + requested@.take(i as int),
        decreases n - i,
    {
        out.push(requested[i]);
        assert(requested@.take(i + 1) =~= requested@.take(i as int).push(requested@[i as int]));
        i = i + 1;
    }
    assert(requested@.take(n as int) =~= requested@);
    out
}

/// Summarizes a decoded offer bundle: its offered and requested legs, the taker's cost and its
/// royalty legs, exactly as the parsed offer carries them.
pub fn summarize(spend_bundle: &SpendBundle) -> (r: Result<OfferSummary, Error>)
    ensures
        r matches Ok(s) ==> is_summary_of(s, bundle_offer_of(*spend_bundle)),
        r matches Err(e) ==> (e.is_decode_with_prefix(parse_failure_prefix()) && exists|
            c: SpendContext,
        |
            #![trigger parses_in(*spend_bundle, c)]
            pending_spends_of(c).len() == 0 && !parses_in(*spend_bundle, c)) || (e is Driver
            && !readings_fit(bundle_offer_of(*spend_bundle))),
        (forall|c: SpendContext|
            pending_spends_of(c).len() == 0 ==> #[trigger] parses_in(*spend_bundle, c))
            && readings_fit(bundle_offer_of(*spend_bundle)) ==> r is Ok,
{
    let mut ctx = context_new();
    let ghost c0 = ctx;
    let offer = match parse(&mut ctx, spend_bundle) {
        Ok(o) => o,
        Err(e) => {
            assert(!parses_in(*spend_bundle, c0));
            return Err(e);
        },
    };
    let (ox, oc) = offer_offered_amounts(&offer);
    let on = offer_offered_nfts(&offer);
    let offered = match side_assets(ox, &oc, &on) {
        Ok(a) => a,
        Err(e) => return Err(e),
    };
    let (rx, rc) = offer_requested_amounts(&offer);
    let rn = offer_requested_nfts(&offer);
    let requested = match side_assets(rx, &rc, &rn) {
        Ok(a) => a,
        Err(e) => return Err(e),
    };
    let (ax, ac) = offer_arbitrage_offered(&offer);
    let arbitrage = match offer_cost(ax, &ac) {
        Ok(c) => c,
        Err(e) => return Err(e),
    };
    let offered_royalties = match offer_offered_royalties(&offer) {
        Ok(r) => r,
        Err(e) => return Err(Error::Driver(e)),
    };
    let requested_royalties = offer_requested_royalties(&offer);
    let royalties = royalty_legs(offered_royalties, &requested_royalties);
    Ok(OfferSummary { offered, requested, arbitrage, royalties })
}

} // verus!
