//! The maker's side of an offer: spend the offered coins into settlement, assert (never fund)
//! the requested payments, and assemble the signed half into an offer bundle.
use vstd::prelude::*;
use vstd::multiset::Multiset;
use vstd::seq_lib::lemma_multiset_commutative;
use crate::error::Error;
use crate::sdk::{
    action_fee, action_send, all_carriers, applied_spends_of, asset_info_cats_of,
    asset_info_nfts_of, carrier_count, no_cat_info, no_nft_info, asset_info_insert_cat,
    asset_info_insert_nft, asset_info_new, bundle_coins_of, cat_requests_of, coin_id, coin_id_of,
    context_hint, context_take, fee_action_of, finished_spends_of, hash_views, nft_coin,
    nft_coin_of, nft_launcher_id, nft_launcher_id_of, nft_requests_of, no_keyed_payments,
    no_payments, offer_from_input_spend_bundle, offer_nonce, offer_nonce_of, offer_to_spend_bundle,
    one_payment, payment_assertions, payment_assertions_of, pending_spends_of, request_cat,
    request_nft, request_xch, requested_payments_new, send_action_of, settlement_hash,
    settlement_payment_hash, spends_add_cat, spends_add_coin, spends_add_nft, spends_apply,
    spends_finish, spends_new, spends_require, xch_requests_of, SpendInput, adds_of, applies,
    bundles_in, finishes, hint_memos_of, hint_ok, input_parses_in, payment_hints_of,
    spends_after_add, spends_after_apply, spends_after_require, fresh_log, LoggedSpends, SpendsLog,
    bundle_signature_of, offer_bundle_coins_of, offer_requests_of, offer_signature_of,
    ctx_extends, offer_bundle_in, carrier_coins_of, offer_asset_info_of,
};
use crate::select::{
    covering_prefix, is_largest_first, largest_first, lemma_covering_all_when_short,
    lemma_covering_prefix, lemma_largest_first_permutes, lemma_selection, sort_largest_first,
    take_covering, total,
};
use crate::text::{bytes32_eq, shortfall_message, shortfall_text};
use crate::types::{AssetRef, Bytes32, Cat, Coin, OfferedSide, RequestedSide, UnsignedMake};
use chia_protocol::{CoinSpend, SpendBundle};
use chia_puzzle_types::Memos;
use chia_wallet_sdk::driver::{
    Action, AssetInfo, Deltas, Nft, NftAssetInfo, Offer, RequestedPayments, SpendContext,
};

verus! {

// ---------------------------------------------------------------------------------------------
// What a make selects and requires.
// ---------------------------------------------------------------------------------------------

/// The offered side offers no asset at all.
pub open spec fn offers_nothing(offered: &OfferedSide) -> bool {
    offered.offer_xch == 0 && offered.offer_cats@.len() == 0 && offered.nfts@.len() == 0
}

/// The requested side requests no asset at all.
pub open spec fn requests_nothing(requested: &RequestedSide) -> bool {
    requested.xch == 0 && requested.cats@.len() == 0 && requested.nfts@.len() == 0
}

pub open spec fn offer_nothing_text() -> Seq<char> {
    "make must offer at least one asset"@
}

pub open spec fn request_nothing_text() -> Seq<char> {
    "make must request at least one asset"@
}

pub open spec fn no_coins_text() -> Seq<char> {
    "make selected no offered coins to spend"@
}

pub open spec fn zero_cat_text() -> Seq<char> {
    "requested CAT amount must be greater than zero"@
}

/// The id of a coin.
pub open spec fn coin_id_view(c: Coin) -> Seq<u8> {
    coin_id_of(c.parent_coin_info@, c.puzzle_hash@, c.amount)
}

/// The ids of a list of coins.
pub open spec fn coin_ids(cs: Seq<Coin>) -> Seq<Seq<u8>> {
    cs.map_values(|c: Coin| coin_id_view(c))
}

/// The ids of the coins of a list of CATs.
pub open spec fn cat_ids(cs: Seq<Cat>) -> Seq<Seq<u8>> {
    cs.map_values(|c: Cat| coin_id_view(c.coin))
}

/// The ids of the NFTs' current coins.
pub open spec fn nft_coin_ids(nfts: Seq<Nft>) -> Seq<Seq<u8>> {
    nfts.map_values(|n: Nft| coin_id_view(nft_coin_of(n)))
}

/// The NFTs' launcher ids.
pub open spec fn nft_launcher_ids(nfts: Seq<Nft>) -> Seq<Bytes32> {
    nfts.map_values(|n: Nft| nft_launcher_id_of(n))
}

/// The XCH the offered coins must cover: the offered XCH plus the fee, saturating.
pub open spec fn xch_need(offered: &OfferedSide, fee: u64) -> int {
    if offered.offer_xch + fee > u64::MAX {
        u64::MAX as int
    } else {
        offered.offer_xch + fee
    }
}

/// The funding coins can pay the offered XCH and the fee.
pub open spec fn xch_covered(offered: &OfferedSide, fee: u64) -> bool {
    xch_need(offered, fee) == 0 || total(offered.xch_coins@) >= xch_need(offered, fee)
}

/// The XCH coins a make spends: the largest-first covering prefix of the funding coins.
pub open spec fn xch_selection(offered: &OfferedSide, fee: u64) -> Seq<Coin> {
    if xch_need(offered, fee) > 0 {
        covering_prefix(largest_first(offered.xch_coins@), xch_need(offered, fee))
    } else {
        Seq::empty()
    }
}

/// The CAT coins of one asset, in the order given.
pub open spec fn cats_of_asset(cats: Seq<Cat>, asset_id: Seq<u8>) -> Seq<Cat> {
    cats.filter(|c: Cat| c.asset_id@ == asset_id)
}

/// The CAT coins of the leg's asset can pay the leg's amount.
pub open spec fn leg_covered(cats: Seq<Cat>, leg: (Bytes32, u64)) -> bool {
    total(cats_of_asset(cats, leg.0@)) >= leg.1
}

/// The CAT coins one leg spends: the largest-first covering prefix of that asset's coins.
pub open spec fn leg_selection(cats: Seq<Cat>, leg: (Bytes32, u64)) -> Seq<Cat> {
    covering_prefix(largest_first(cats_of_asset(cats, leg.0@)), leg.1 as int)
}

/// Every leg is covered.
pub open spec fn legs_covered(cats: Seq<Cat>, legs: Seq<(Bytes32, u64)>) -> bool {
    forall|k: int| 0 <= k < legs.len() ==> #[trigger] leg_covered(cats, legs[k])
}

/// Leg `k` is the first leg that is not covered.
pub open spec fn first_short_leg(cats: Seq<Cat>, legs: Seq<(Bytes32, u64)>, k: int) -> bool {
    &&& 0 <= k < legs.len()
    &&& !leg_covered(cats, legs[k])
    &&& forall|j: int| 0 <= j < k ==> #[trigger] leg_covered(cats, legs[j])
}

/// The ids of the CAT coins all legs spend, leg by leg.
pub open spec fn cat_selection_ids(cats: Seq<Cat>, legs: Seq<(Bytes32, u64)>) -> Seq<Seq<u8>>
    decreases legs.len(),
{
    if legs.len() == 0 {
        Seq::empty()
    } else {
        cat_selection_ids(cats, legs.drop_last()) + cat_ids(leg_selection(cats, legs.last()))
    }
}

/// The CAT coins all legs select, leg by leg.
pub open spec fn cat_selection(cats: Seq<Cat>, legs: Seq<(Bytes32, u64)>) -> Seq<Cat>
    decreases legs.len(),
{
    if legs.len() == 0 {
        Seq::empty()
    } else {
        cat_selection(cats, legs.drop_last()) + leg_selection(cats, legs.last())
    }
}

/// The XCH coins as spend inputs.
pub open spec fn xch_inputs(cs: Seq<Coin>) -> Seq<SpendInput> {
    cs.map_values(|c: Coin| SpendInput::Xch(c))
}

/// The CATs as spend inputs.
pub open spec fn cat_inputs(cs: Seq<Cat>) -> Seq<SpendInput> {
    cs.map_values(|c: Cat| SpendInput::Cat(c))
}

/// The NFTs as spend inputs.
pub open spec fn nft_inputs(ns: Seq<Nft>) -> Seq<SpendInput> {
    ns.map_values(|n: Nft| SpendInput::Nft(n))
}

/// Adding `a` and then `b` to `s` adds `a + b`.
pub proof fn lemma_adds_concat(s: SpendsLog, a: Seq<SpendInput>, b: Seq<SpendInput>)
    ensures
        adds_of(s, a + b) == adds_of(adds_of(s, a), b),
    decreases b.len(),
{
    if b.len() == 0 {
        assert(a + b =~= a);
    } else {
        lemma_adds_concat(s, a, b.drop_last());
        assert((a + b).drop_last() =~= a + b.drop_last());
        assert((a + b).last() == b.last());
    }
}

/// Adding `a` and then `x` to `s` adds `a.push(x)`.
pub proof fn lemma_adds_push(s: SpendsLog, a: Seq<SpendInput>, x: SpendInput)
    ensures
        adds_of(s, a.push(x)) == spends_after_add(adds_of(s, a), x),
{
    assert(a.push(x).drop_last() =~= a);
}

/// What a make adds to its spends: the offered NFTs, the selected XCH coins, then the selected
/// CAT coins of each leg.
pub open spec fn make_inputs(offered: &OfferedSide, fee: u64) -> Seq<SpendInput> {
    nft_inputs(offered.nfts@) + xch_inputs(xch_selection(offered, fee)) + cat_inputs(
        cat_selection(offered.cat_coins@, offered.offer_cats@),
    )
}

/// The SDK actions of a make.
pub open spec fn make_sdk_actions(offered: &OfferedSide, fee: u64) -> Seq<Action> {
    make_plan(offered, nft_launcher_ids(offered.nfts@), fee, settlement_hash()).map_values(
        |a: MakeAction| action_of(a),
    )
}

/// The nonce a make notarizes its requested payments to: that of the ids of the coins it spends.
pub open spec fn make_nonce(offered: &OfferedSide, fee: u64) -> Seq<u8> {
    offer_nonce_of(
        (nft_coin_ids(offered.nfts@) + coin_ids(xch_selection(offered, fee)) + cat_selection_ids(
            offered.cat_coins@,
            offered.offer_cats@,
        )).to_multiset(),
    )
}

/// The id of the coin an input adds to a `Spends`: the XCH coin's, the CAT's coin's, the NFT's
/// current coin's (an offer's offered coins, added as a whole, have none).
pub open spec fn input_coin_id(x: SpendInput) -> Seq<u8> {
    match x {
        SpendInput::Xch(c) => coin_id_of(c.parent_coin_info@, c.puzzle_hash@, c.amount),
        SpendInput::Cat(c) => coin_id_of(c.coin.parent_coin_info@, c.coin.puzzle_hash@, c.coin.amount),
        SpendInput::Nft(n) => coin_id_of(
            nft_coin_of(n).parent_coin_info@,
            nft_coin_of(n).puzzle_hash@,
            nft_coin_of(n).amount,
        ),
        SpendInput::Offered(_) => Seq::empty(),
    }
}

proof fn lemma_cat_selection_input_ids(cats: Seq<Cat>, legs: Seq<(Bytes32, u64)>)
    ensures
        cat_selection_ids(cats, legs) == cat_inputs(cat_selection(cats, legs)).map_values(
            |x: SpendInput| input_coin_id(x),
        ),
    decreases legs.len(),
{
    if legs.len() > 0 {
        lemma_cat_selection_input_ids(cats, legs.drop_last());
        let a = cat_selection(cats, legs.drop_last());
        let b = leg_selection(cats, legs.last());
        assert(cat_inputs(a + b).map_values(|x: SpendInput| input_coin_id(x)) =~= cat_inputs(
            a,
        ).map_values(|x: SpendInput| input_coin_id(x)) + cat_ids(b));
    } else {
        assert(cat_inputs(cat_selection(cats, legs)).map_values(|x: SpendInput| input_coin_id(x))
            =~= Seq::<Seq<u8>>::empty());
    }
}

/// A make's nonce is the nonce of exactly the coins it adds to its spends: the ids of the coins
/// of every input it adds (offered NFTs, selected XCH coins, selected CAT coins), whatever their
/// kind, and no other.
pub proof fn lemma_make_nonce_covers_every_spent_coin(offered: &OfferedSide, fee: u64)
    ensures
        make_nonce(offered, fee) == offer_nonce_of(
            make_inputs(offered, fee).map_values(|x: SpendInput| input_coin_id(x)).to_multiset(),
        ),
        make_inputs(offered, fee).len() == offered.nfts@.len() + xch_selection(offered, fee).len()
            + cat_selection(offered.cat_coins@, offered.offer_cats@).len(),
{
    let f = |x: SpendInput| input_coin_id(x);
    let n = nft_inputs(offered.nfts@);
    let x = xch_inputs(xch_selection(offered, fee));
    let c = cat_inputs(cat_selection(offered.cat_coins@, offered.offer_cats@));
    lemma_cat_selection_input_ids(offered.cat_coins@, offered.offer_cats@);
    assert(n.map_values(f) =~= nft_coin_ids(offered.nfts@));
    assert(x.map_values(f) =~= coin_ids(xch_selection(offered, fee)));
    assert((n + x + c).map_values(f) =~= n.map_values(f) + x.map_values(f) + c.map_values(f));
    assert(make_inputs(offered, fee) == n + x + c);
}

/// The SDK steps of a make once its requested payments `p` and asset info `a` are built, on a
/// fresh `Spends` returning change to the maker: add the make's inputs, apply its actions in a
/// context holding `c1`, require the assertions of `p` (computed in a context holding `c2`), and finish with the owner
/// keys and the deltas `d` in a context holding `c3`. `Some` with the coin spends applying and
/// finishing collect, or `None` where a step fails.
pub open spec fn make_steps(
    offered: &OfferedSide,
    fee: u64,
    p: RequestedPayments,
    a: AssetInfo,
    c1: SpendContext,
    c2: SpendContext,
    c3: SpendContext,
    d: Deltas,
) -> Option<Seq<CoinSpend>> {
    let added = adds_of(fresh_log(offered.change_puzzle_hash), make_inputs(offered, fee));
    let actions = make_sdk_actions(offered, fee);
    if !applies(added, actions, c1) {
        None
    } else if payment_assertions_of(p, a, c2) is None {
        None
    } else {
        let s = spends_after_require(
            spends_after_apply(added, actions, c1),
            payment_assertions_of(p, a, c2)->0,
        );
        if !finishes(s, d, offered.owner_keys, c3) {
            None
        } else {
            Some(
                applied_spends_of(added, actions, c1) + finished_spends_of(
                    s,
                    d,
                    offered.owner_keys,
                    c3,
                ),
            )
        }
    }
}

/// `p` and `a` are the requested payments and asset info of the requested side, notarized to
/// `nonce`, every payment carrying the memos `hint`.
pub open spec fn requested_built(
    p: RequestedPayments,
    a: AssetInfo,
    requested: &RequestedSide,
    nonce: Seq<u8>,
    hint: Memos,
) -> bool {
    &&& requests_match(p, requested, nonce)
    &&& asset_info_cats_of(a) == requested_cat_info_plan(requested.cats@)
    &&& asset_info_nfts_of(a) == requested_nft_info_plan(requested.nfts@)
    &&& payment_hints_of(p).subset_of(set![hint])
}

/// Every requested NFT listed twice comes with the same asset info.
pub open spec fn nft_infos_agree(nfts: Seq<(Bytes32, NftAssetInfo)>) -> bool {
    forall|i: int, j: int|
        #![trigger nfts[i], nfts[j]]
        0 <= i < nfts.len() && 0 <= j < nfts.len() && nfts[i].0@ == nfts[j].0@ ==> nfts[i].1
            == nfts[j].1
}

/// What building the requested payments gives for the hint memos `hint`: a requested CAT
/// amount of zero is refused; otherwise the payments and asset info are built, except that two
/// asset infos for one requested NFT may fail as `AssetInfo::insert_nft` fails (it compares them
/// by their metadata's tree hash).
pub open spec fn requested_outcome(
    requested: &RequestedSide,
    nonce: Seq<u8>,
    hint: Memos,
    r: Result<(RequestedPayments, AssetInfo), Error>,
) -> bool {
    &&& !requested_cats_positive(requested) ==> (r matches Err(e) && e.is_invalid_input(
        zero_cat_text(),
    ))
    &&& requested_cats_positive(requested) && nft_infos_agree(requested.nfts@) ==> r is Ok
    &&& r is Err ==> !requested_cats_positive(requested) || (r matches Err(Error::Driver(_))
        && !nft_infos_agree(requested.nfts@))
    &&& r matches Ok(pa) ==> requested_built(pa.0, pa.1, requested, nonce, hint)
}

/// The contexts a make's SDK steps saw follow from the caller's context `ctx0`, each a later
/// state of the one before, as far as the steps got: `c1` (apply) from `ctx0`, `c2`
/// (assertions) from `c1` once applying succeeded, `c3` (finish) from `c2` once the assertions
/// were computed.
pub open spec fn make_chain(
    offered: &OfferedSide,
    fee: u64,
    p: RequestedPayments,
    a: AssetInfo,
    ctx0: SpendContext,
    c1: SpendContext,
    c2: SpendContext,
    c3: SpendContext,
) -> bool {
    let added = adds_of(fresh_log(offered.change_puzzle_hash), make_inputs(offered, fee));
    &&& ctx_extends(ctx0, c1)
    &&& applies(added, make_sdk_actions(offered, fee), c1) ==> ctx_extends(c1, c2)
    &&& applies(added, make_sdk_actions(offered, fee), c1) && payment_assertions_of(p, a, c2) is Some
        ==> ctx_extends(c2, c3)
}

/// What a make that got past its checks, its hint and its requested payments gives in the
/// caller's context `ctx0`, from the payments `p`, asset info `a`, and the contexts (following
/// from `ctx0`) and deltas its SDK steps saw: `Ok` exactly when the steps succeed, with the
/// context's earlier spends and the spends the steps collect; otherwise the SDK's error.
pub open spec fn make_outcome(
    offered: &OfferedSide,
    requested: &RequestedSide,
    fee: u64,
    r: Result<UnsignedMake, Error>,
    ctx0: SpendContext,
    p: RequestedPayments,
    a: AssetInfo,
    c1: SpendContext,
    c2: SpendContext,
    c3: SpendContext,
    d: Deltas,
) -> bool {
    &&& requested_built(
        p,
        a,
        requested,
        make_nonce(offered, fee),
        hint_memos_of(requested.payee_puzzle_hash, ctx0),
    )
    &&& make_chain(offered, fee, p, a, ctx0, c1, c2, c3)
    &&& (r is Ok <==> make_steps(offered, fee, p, a, c1, c2, c3, d) is Some)
    &&& (r is Err ==> r matches Err(Error::Driver(_)))
    &&& (r matches Ok(u) ==> u.requested_payments == p && u.requested_asset_info == a && u.nonce@
        == make_nonce(offered, fee) && u.coin_spends@ == pending_spends_of(ctx0) + make_steps(
        offered,
        fee,
        p,
        a,
        c1,
        c2,
        c3,
        d,
    )->0)
}

/// The shortfall message of the first uncovered leg `k`.
pub open spec fn leg_shortfall_text(cats: Seq<Cat>, legs: Seq<(Bytes32, u64)>, k: int) -> Seq<
    char,
> {
    shortfall_text(
        Some(legs[k].0@),
        "offer"@,
        legs[k].1 as nat,
        total(cats_of_asset(cats, legs[k].0@)) as nat,
    )
}

/// Every requested CAT amount is positive.
pub open spec fn requested_cats_positive(requested: &RequestedSide) -> bool {
    forall|k: int| 0 <= k < requested.cats@.len() ==> #[trigger] requested.cats@[k].1 > 0
}

/// The checks a make runs before any SDK call that can fail, in order; `Ok` when all pass.
pub open spec fn make_precheck(offered: &OfferedSide, requested: &RequestedSide, fee: u64) -> Result<
    (),
    Seq<char>,
> {
    if offers_nothing(offered) {
        Err(offer_nothing_text())
    } else if requests_nothing(requested) {
        Err(request_nothing_text())
    } else if !xch_covered(offered, fee) {
        Err(
            shortfall_text(
                None,
                "offer"@,
                xch_need(offered, fee) as nat,
                total(offered.xch_coins@) as nat,
            ),
        )
    } else if !legs_covered(offered.cat_coins@, offered.offer_cats@) {
        Err(
            leg_shortfall_text(
                offered.cat_coins@,
                offered.offer_cats@,
                choose|k: int| first_short_leg(offered.cat_coins@, offered.offer_cats@, k),
            ),
        )
    } else if offered.nfts@.len() == 0 && xch_selection(offered, fee).len() == 0
        && cat_selection_ids(offered.cat_coins@, offered.offer_cats@).len() == 0 {
        Err(no_coins_text())
    } else {
        Ok(())
    }
}

/// The requested XCH payments of a make: one payment of the requested XCH to the payee under
/// `nonce`, when XCH is requested.
pub open spec fn requested_xch_plan(requested: &RequestedSide, nonce: Seq<u8>) -> Seq<
    (Seq<u8>, Seq<(Seq<u8>, u64)>),
> {
    if requested.xch > 0 {
        one_payment(nonce, requested.payee_puzzle_hash@, requested.xch)
    } else {
        no_payments()
    }
}

/// The requested CAT payments of a make, by asset id: one payment of the leg's amount to the
/// payee under `nonce` (a later leg for the same asset replaces an earlier one).
pub open spec fn requested_cat_plan(
    cats: Seq<(Bytes32, u64)>,
    nonce: Seq<u8>,
    payee: Seq<u8>,
) -> Map<Seq<u8>, Seq<(Seq<u8>, Seq<(Seq<u8>, u64)>)>>
    decreases cats.len(),
{
    if cats.len() == 0 {
        no_keyed_payments()
    } else {
        requested_cat_plan(cats.drop_last(), nonce, payee).insert(
            cats.last().0@,
            one_payment(nonce, payee, cats.last().1),
        )
    }
}

/// The requested NFT payments of a make, by launcher id: one payment of amount one to the payee
/// under `nonce`.
pub open spec fn requested_nft_plan(
    nfts: Seq<(Bytes32, NftAssetInfo)>,
    nonce: Seq<u8>,
    payee: Seq<u8>,
) -> Map<Seq<u8>, Seq<(Seq<u8>, Seq<(Seq<u8>, u64)>)>>
    decreases nfts.len(),
{
    if nfts.len() == 0 {
        no_keyed_payments()
    } else {
        requested_nft_plan(nfts.drop_last(), nonce, payee).insert(
            nfts.last().0@,
            one_payment(nonce, payee, 1),
        )
    }
}

/// The CAT asset info a make records: each requested asset id, with no hidden puzzle hash.
pub open spec fn requested_cat_info_plan(cats: Seq<(Bytes32, u64)>) -> Map<Seq<u8>, Option<Bytes32>>
    decreases cats.len(),
{
    if cats.len() == 0 {
        no_cat_info()
    } else {
        requested_cat_info_plan(cats.drop_last()).insert(cats.last().0@, None)
    }
}

/// The NFT asset info a make records: each requested launcher id with its asset info.
pub open spec fn requested_nft_info_plan(nfts: Seq<(Bytes32, NftAssetInfo)>) -> Map<
    Seq<u8>,
    NftAssetInfo,
>
    decreases nfts.len(),
{
    if nfts.len() == 0 {
        no_nft_info()
    } else {
        requested_nft_info_plan(nfts.drop_last()).insert(nfts.last().0@, nfts.last().1)
    }
}

/// `payments` holds exactly the requested side's payments, notarized to `nonce`.
pub open spec fn requests_match(
    payments: RequestedPayments,
    requested: &RequestedSide,
    nonce: Seq<u8>,
) -> bool {
    &&& xch_requests_of(payments) == requested_xch_plan(requested, nonce)
    &&& cat_requests_of(payments) == requested_cat_plan(
        requested.cats@,
        nonce,
        requested.payee_puzzle_hash@,
    )
    &&& nft_requests_of(payments) == requested_nft_plan(
        requested.nfts@,
        nonce,
        requested.payee_puzzle_hash@,
    )
}

/// One action a make applies to the maker's spends.
#[derive(Debug, Clone, Copy, PartialEq, Eq)]
pub enum MakeAction {
    /// Send `amount` of `asset` to `puzzle_hash`.
    Send { asset: AssetRef, puzzle_hash: Bytes32, amount: u64 },
    /// Reserve `0` as the network fee.
    Fee(u64),
}

/// The actions a make applies, in order: each offered NFT (by launcher id) whole into
/// settlement, then the offered XCH (when positive), then each offered CAT leg, then the fee
/// (when positive). The requested side appears nowhere: it is asserted, never funded.
pub open spec fn make_plan(
    offered: &OfferedSide,
    launcher_ids: Seq<Bytes32>,
    fee: u64,
    settlement: Bytes32,
) -> Seq<MakeAction> {
    launcher_ids.map_values(
        |id: Bytes32| MakeAction::Send { asset: AssetRef::Existing(id), puzzle_hash: settlement, amount: 1 },
    ) + (if offered.offer_xch > 0 {
        seq![MakeAction::Send { asset: AssetRef::Xch, puzzle_hash: settlement, amount: offered.offer_xch }]
    } else {
        Seq::empty()
    }) + offered.offer_cats@.map_values(
        |leg: (Bytes32, u64)|
            MakeAction::Send { asset: AssetRef::Existing(leg.0), puzzle_hash: settlement, amount: leg.1 },
    ) + (if fee > 0 {
        seq![MakeAction::Fee(fee)]
    } else {
        Seq::empty()
    })
}

/// The XCH a plan sends.
pub open spec fn xch_sent(plan: Seq<MakeAction>) -> int
    decreases plan.len(),
{
    if plan.len() == 0 {
        0
    } else {
        xch_sent(plan.drop_last()) + match plan.last() {
            MakeAction::Send { asset: AssetRef::Xch, amount, .. } => amount as int,
            _ => 0,
        }
    }
}

/// The fee a plan reserves.
pub open spec fn fee_reserved(plan: Seq<MakeAction>) -> int
    decreases plan.len(),
{
    if plan.len() == 0 {
        0
    } else {
        fee_reserved(plan.drop_last()) + match plan.last() {
            MakeAction::Fee(f) => f as int,
            _ => 0,
        }
    }
}

// ---------------------------------------------------------------------------------------------
// Checks and selection.
// ---------------------------------------------------------------------------------------------

/// Rejects a make with no offered asset or no requested asset: an offer must have both sides.
pub fn ensure_non_empty(offered: &OfferedSide, requested: &RequestedSide) -> (r: Result<(), Error>)
    ensures
        offers_nothing(offered) ==> (r matches Err(e) && e.is_invalid_input(offer_nothing_text())),
        !offers_nothing(offered) && requests_nothing(requested) ==> (r matches Err(e)
            && e.is_invalid_input(request_nothing_text())),
        !offers_nothing(offered) && !requests_nothing(requested) ==> r is Ok,
{
    if offered.offer_xch == 0 && offered.offer_cats.len() == 0 && offered.nfts.len() == 0 {
        return Err(Error::InvalidInput(String::from_str("make must offer at least one asset")));
    }
    if requested.xch == 0 && requested.cats.len() == 0 && requested.nfts.len() == 0 {
        return Err(Error::InvalidInput(String::from_str("make must request at least one asset")));
    }
    Ok(())
}

/// Greedily selects XCH coins, largest first, covering `need`.
pub fn select_xch(coins: &[Coin], need: u64) -> (r: Result<Vec<Coin>, Error>)
    ensures
        r is Ok <==> total(coins@) >= need,
        r matches Ok(v) ==> v@ == covering_prefix(largest_first(coins@), need as int),
        r matches Err(e) ==> e.is_invalid_input(
            shortfall_text(None, "offer"@, need as nat, total(coins@) as nat),
        ),
{
    let sorted = sort_largest_first(coins);
    let (chosen, sum) = take_covering(&sorted, need);
    proof {
        lemma_largest_first_permutes(coins@);
        lemma_covering_prefix(sorted@, need as int);
        if total(coins@) < need {
            lemma_covering_all_when_short(sorted@, need as int);
        }
    }
    if sum < need {
        return Err(Error::InvalidInput(shortfall_message(None, "offer", need as u128, sum as u128)));
    }
    Ok(chosen)
}

/// The CAT coins of `asset_id`, in the order given.
pub fn filter_asset(coins: &[Cat], asset_id: &Bytes32) -> (r: Vec<Cat>)
    ensures
        r@ == cats_of_asset(coins@, asset_id@),
{
    let mut out: Vec<Cat> = Vec::new();
    let n = coins.len();
    let mut i: usize = 0;
    let ghost pred = |c: Cat| c.asset_id@ == asset_id@;
    assert(coins@.take(0) =~= Seq::<Cat>::empty());
    while i < n
        invariant
            n == coins@.len(),
            i <= n,
            pred == (|c: Cat| c.asset_id@ == asset_id@),
            out@ == coins@.take(i as int).filter(pred),
        decreases n - i,
    {
        reveal_with_fuel(Seq::<_>::filter, 1);
        let c = coins[i];
        if bytes32_eq(&c.asset_id, asset_id) {
            out.push(c);
        }
        assert(coins@.take(i + 1).drop_last() =~= coins@.take(i as int));
        i = i + 1;
    }
    assert(coins@.take(n as int) =~= coins@);
    out
}

/// Greedily selects CAT coins of `asset_id`, largest first, covering `need`.
pub fn select_cats(coins: &[Cat], asset_id: &Bytes32, need: u64) -> (r: Result<Vec<Cat>, Error>)
    ensures
        r is Ok <==> leg_covered(coins@, (*asset_id, need)),
        r matches Ok(v) ==> v@ == leg_selection(coins@, (*asset_id, need)),
        r matches Err(e) ==> e.is_invalid_input(
            shortfall_text(
                Some(asset_id@),
                "offer"@,
                need as nat,
                total(cats_of_asset(coins@, asset_id@)) as nat,
            ),
        ),
{
    let matching = filter_asset(coins, asset_id);
    let sorted = sort_largest_first(matching.as_slice());
    let (chosen, sum) = take_covering(&sorted, need);
    proof {
        lemma_largest_first_permutes(matching@);
        lemma_covering_prefix(sorted@, need as int);
        if total(matching@) < need {
            lemma_covering_all_when_short(sorted@, need as int);
        }
    }
    if sum < need {
        return Err(
            Error::InvalidInput(
                shortfall_message(Some(asset_id), "offer", need as u128, sum as u128),
            ),
        );
    }
    Ok(chosen)
}

// ---------------------------------------------------------------------------------------------
// Building the maker's spends.
// ---------------------------------------------------------------------------------------------

/// There is at most one first uncovered leg.
pub proof fn lemma_first_short_leg_unique(
    cats: Seq<Cat>,
    legs: Seq<(Bytes32, u64)>,
    k1: int,
    k2: int,
)
    requires
        first_short_leg(cats, legs, k1),
        first_short_leg(cats, legs, k2),
    ensures
        k1 == k2,
{
    if k1 < k2 {
        assert(leg_covered(cats, legs[k1]));
    } else if k2 < k1 {
        assert(leg_covered(cats, legs[k2]));
    }
}

/// The coins one CAT leg selects are coins of the leg's asset taken from `cats`, largest first;
/// when the asset's coins can pay the leg, the selected ones do.
pub proof fn lemma_leg_selection(cats: Seq<Cat>, leg: (Bytes32, u64))
    ensures
        leg_covered(cats, leg) ==> total(leg_selection(cats, leg)) >= leg.1,
        is_largest_first(leg_selection(cats, leg)),
        forall|i: int|
            0 <= i < leg_selection(cats, leg).len() ==> (#[trigger] leg_selection(cats, leg)[i]).asset_id
                == leg.0 && cats.contains(leg_selection(cats, leg)[i]),
{
    broadcast use vstd::seq_lib::group_to_multiset_ensures;

    let pred = |c: Cat| c.asset_id@ == leg.0@;
    let mine = cats_of_asset(cats, leg.0@);
    assert(mine == cats.filter(pred));
    let sel = leg_selection(cats, leg);
    lemma_selection(mine, leg.1 as int);
    assert forall|i: int| 0 <= i < sel.len() implies (#[trigger] sel[i]).asset_id == leg.0 && cats.contains(
        sel[i],
    ) by {
        let x = sel[i];
        assert(sel.contains(x));
        assert(sel.to_multiset().count(x) > 0);
        assert(mine.to_multiset().count(x) > 0);
        assert(mine.contains(x));
        let j = choose|j: int| 0 <= j < mine.len() && mine[j] == x;
        cats.lemma_filter_pred(pred, j);
        cats.lemma_filter_contains_rev(pred, x);
        assert(x.asset_id@ == leg.0@);
        assert(x.asset_id =~= leg.0);
    }
}

/// The coins a make selects cover what it sends: the XCH coins cover the offered XCH plus the
/// fee (saturating at `u64::MAX`), and each covered CAT leg's coins cover the leg.
pub proof fn lemma_make_selection_covers(offered: &OfferedSide, fee: u64)
    ensures
        xch_covered(offered, fee) ==> total(xch_selection(offered, fee)) >= xch_need(offered, fee),
        is_largest_first(xch_selection(offered, fee)),
        xch_selection(offered, fee).to_multiset().subset_of(offered.xch_coins@.to_multiset()),
        forall|k: int|
            0 <= k < offered.offer_cats@.len() && leg_covered(
                offered.cat_coins@,
                offered.offer_cats@[k],
            ) ==> total(#[trigger] leg_selection(offered.cat_coins@, offered.offer_cats@[k]))
                >= offered.offer_cats@[k].1,
{
    broadcast use vstd::multiset::group_multiset_axioms;

    if xch_need(offered, fee) > 0 {
        lemma_selection(offered.xch_coins@, xch_need(offered, fee));
    } else {
        broadcast use vstd::seq_lib::group_to_multiset_ensures;

        assert(xch_selection(offered, fee).to_multiset().len() == 0);
        assert(xch_selection(offered, fee).to_multiset() =~= Multiset::<Coin>::empty());
    }
    assert forall|k: int|
        0 <= k < offered.offer_cats@.len() && leg_covered(
            offered.cat_coins@,
            offered.offer_cats@[k],
        ) implies total(#[trigger] leg_selection(offered.cat_coins@, offered.offer_cats@[k]))
        >= offered.offer_cats@[k].1 by {
        lemma_leg_selection(offered.cat_coins@, offered.offer_cats@[k]);
    }
}

proof fn lemma_push_id(ids: Seq<Bytes32>, id: Bytes32)
    ensures
        hash_views(ids.push(id)) == hash_views(ids).push(id@),
{
    assert(hash_views(ids.push(id)) =~= hash_views(ids).push(id@));
}

proof fn lemma_cat_selection_concat(cats: Seq<Cat>, a: Seq<(Bytes32, u64)>, b: Seq<(Bytes32, u64)>)
    ensures
        cat_selection_ids(cats, a + b) == cat_selection_ids(cats, a) + cat_selection_ids(cats, b),
    decreases b.len(),
{
    if b.len() == 0 {
        assert(a + b =~= a);
        assert(cat_selection_ids(cats, b) =~= Seq::<Seq<u8>>::empty());
        assert(cat_selection_ids(cats, a) + cat_selection_ids(cats, b) =~= cat_selection_ids(
            cats,
            a,
        ));
    } else {
        lemma_cat_selection_concat(cats, a, b.drop_last());
        assert((a + b).drop_last() =~= a + b.drop_last());
        assert((a + b).last() == b.last());
        assert(cat_selection_ids(cats, a + b) =~= cat_selection_ids(cats, a) + cat_selection_ids(
            cats,
            b,
        ));
    }
}

proof fn lemma_cat_selection_single(cats: Seq<Cat>, leg: (Bytes32, u64))
    ensures
        cat_selection_ids(cats, seq![leg]) == cat_ids(leg_selection(cats, leg)),
{
    let e = Seq::<(Bytes32, u64)>::empty();
    assert(cat_selection_ids(cats, e) == Seq::<Seq<u8>>::empty());
    assert(seq![leg].drop_last() =~= e);
    assert(seq![leg].last() == leg);
    assert(cat_selection_ids(cats, seq![leg]) == cat_selection_ids(cats, e) + cat_ids(
        leg_selection(cats, leg),
    ));
    assert(cat_selection_ids(cats, seq![leg]) =~= cat_ids(leg_selection(cats, leg)));
}

/// Listing the offered CAT legs in another order spends the same CAT coins, so the nonce a make
/// derives from its offered coin ids does not depend on the order of the legs.
pub proof fn lemma_cat_legs_order_free(
    cats: Seq<Cat>,
    legs1: Seq<(Bytes32, u64)>,
    legs2: Seq<(Bytes32, u64)>,
    nft_ids: Seq<Seq<u8>>,
    xch_ids: Seq<Seq<u8>>,
)
    requires
        legs1.to_multiset() == legs2.to_multiset(),
    ensures
        cat_selection_ids(cats, legs1).to_multiset() == cat_selection_ids(cats, legs2).to_multiset(),
        offer_nonce_of((nft_ids + xch_ids + cat_selection_ids(cats, legs1)).to_multiset())
            == offer_nonce_of((nft_ids + xch_ids + cat_selection_ids(cats, legs2)).to_multiset()),
    decreases legs1.len(),
{
    broadcast use vstd::multiset::group_multiset_axioms;
    broadcast use vstd::seq_lib::group_to_multiset_ensures;

    let s1 = cat_selection_ids(cats, legs1);
    let s2 = cat_selection_ids(cats, legs2);
    if legs1.len() == 0 {
        assert(legs1.to_multiset().len() == 0);
        assert(legs2.to_multiset().len() == legs2.len());
        assert(legs2.len() == 0);
        assert(legs1 =~= legs2);
        assert(s1 =~= s2);
    } else {
        let x = legs1.last();
        let rest1 = legs1.drop_last();
        assert(rest1.push(x) =~= legs1);
        assert(legs2.to_multiset().count(x) > 0);
        let i = choose|i: int| 0 <= i < legs2.len() && legs2[i] == x;
        let rest2 = legs2.remove(i);
        assert(rest1.to_multiset() =~= legs1.to_multiset().remove(x));
        assert(rest2.to_multiset() =~= legs2.to_multiset().remove(x));
        lemma_cat_legs_order_free(cats, rest1, rest2, nft_ids, xch_ids);
        let pre = legs2.take(i);
        let post = legs2.skip(i + 1);
        assert(legs2 =~= pre + seq![x] + post);
        assert(rest2 =~= pre + post);
        lemma_cat_selection_concat(cats, pre + seq![x], post);
        lemma_cat_selection_concat(cats, pre, seq![x]);
        lemma_cat_selection_concat(cats, pre, post);
        lemma_cat_selection_single(cats, x);
        let ix = cat_ids(leg_selection(cats, x));
        let a = cat_selection_ids(cats, pre);
        let b = cat_selection_ids(cats, post);
        assert(s2 == a + ix + b);
        assert(s1 == cat_selection_ids(cats, rest1) + ix);
        lemma_multiset_commutative(a + ix, b);
        lemma_multiset_commutative(a, ix);
        lemma_multiset_commutative(a, b);
        lemma_multiset_commutative(cat_selection_ids(cats, rest1), ix);
        assert(s1.to_multiset() =~= s2.to_multiset());
    }
    lemma_multiset_commutative(nft_ids + xch_ids, s1);
    lemma_multiset_commutative(nft_ids + xch_ids, s2);
}

/// Adds each offered NFT to the spends, recording its coin id.
fn add_offered_nfts(offered: &OfferedSide, spends: &mut LoggedSpends, ids: &mut Vec<Bytes32>)
    ensures
        hash_views(final(ids)@) == hash_views(old(ids)@) + nft_coin_ids(offered.nfts@),
        final(spends).log() == adds_of(
            old(spends).log(),
            nft_inputs(offered.nfts@),
        ),
{
    let ghost log0 = spends.log();
    let ghost start = ids@;
    let n = offered.nfts.len();
    let mut i: usize = 0;
    while i < n
        invariant
            n == offered.nfts@.len(),
            i <= n,
            hash_views(ids@) == hash_views(start) + nft_coin_ids(offered.nfts@.take(i as int)),
            spends.log() == adds_of(log0, nft_inputs(offered.nfts@.take(i as int))),
        decreases n - i,
    {
        let nft = &offered.nfts[i];
        spends_add_nft(spends, nft);
        let coin = nft_coin(nft);
        let id = coin_id(&coin);
        proof {
            lemma_push_id(ids@, id);
        }
        ids.push(id);
        assert(nft_coin_ids(offered.nfts@.take(i + 1)) =~= nft_coin_ids(offered.nfts@.take(i as int)).push(id@));
        assert(nft_inputs(offered.nfts@.take(i + 1)) =~= nft_inputs(offered.nfts@.take(i as int)).push(
            SpendInput::Nft(*nft),
        ));
        proof {
            lemma_adds_push(log0, nft_inputs(offered.nfts@.take(i as int)), SpendInput::Nft(*nft));
        }
        i = i + 1;
    }
    assert(offered.nfts@.take(n as int) =~= offered.nfts@);
}

/// Selects XCH coins covering the offered XCH plus the fee and adds them to the spends,
/// recording their coin ids.
fn add_offered_xch(offered: &OfferedSide, fee: u64, spends: &mut LoggedSpends, ids: &mut Vec<Bytes32>) -> (r: Result<(), Error>)
    ensures
        r is Ok <==> xch_covered(offered, fee),
        r matches Err(e) ==> e.is_invalid_input(
            shortfall_text(
                None,
                "offer"@,
                xch_need(offered, fee) as nat,
                total(offered.xch_coins@) as nat,
            ),
        ),
        r is Ok ==> hash_views(final(ids)@) == hash_views(old(ids)@) + coin_ids(
            xch_selection(offered, fee),
        ),
        r is Ok ==> final(spends).log() == adds_of(
            old(spends).log(),
            xch_inputs(xch_selection(offered, fee)),
        ),
{
    let need = offered.offer_xch.saturating_add(fee);
    let ghost start = ids@;
    let ghost log0 = spends.log();
    if need > 0 {
        let chosen = match select_xch(offered.xch_coins.as_slice(), need) {
            Ok(v) => v,
            Err(e) => return Err(e),
        };
        let n = chosen.len();
        let mut i: usize = 0;
        while i < n
            invariant
                n == chosen@.len(),
                i <= n,
                hash_views(ids@) == hash_views(start) + coin_ids(chosen@.take(i as int)),
                spends.log() == adds_of(log0, xch_inputs(chosen@.take(i as int))),
            decreases n - i,
        {
            let c = chosen[i];
            spends_add_coin(spends, c);
            let id = coin_id(&c);
            proof {
                lemma_push_id(ids@, id);
            }
            ids.push(id);
            assert(coin_ids(chosen@.take(i + 1)) =~= coin_ids(chosen@.take(i as int)).push(id@));
            assert(xch_inputs(chosen@.take(i + 1)) =~= xch_inputs(chosen@.take(i as int)).push(
                SpendInput::Xch(c),
            ));
            proof {
                lemma_adds_push(log0, xch_inputs(chosen@.take(i as int)), SpendInput::Xch(c));
            }
            i = i + 1;
        }
        assert(chosen@.take(n as int) =~= chosen@);
    } else {
        assert(hash_views(ids@) =~= hash_views(start) + coin_ids(xch_selection(offered, fee)));
        assert(xch_inputs(xch_selection(offered, fee)) =~= Seq::<SpendInput>::empty());
    }
    Ok(())
}

/// Selects CAT coins covering each offered CAT leg and adds them to the spends, recording their
/// coin ids.
fn add_offered_cats(offered: &OfferedSide, spends: &mut LoggedSpends, ids: &mut Vec<Bytes32>) -> (r: Result<(), Error>)
    ensures
        r is Ok <==> legs_covered(offered.cat_coins@, offered.offer_cats@),
        r matches Err(e) ==> exists|k: int|
            first_short_leg(offered.cat_coins@, offered.offer_cats@, k) && e.is_invalid_input(
                leg_shortfall_text(offered.cat_coins@, offered.offer_cats@, k),
            ),
        r is Ok ==> hash_views(final(ids)@) == hash_views(old(ids)@) + cat_selection_ids(
            offered.cat_coins@,
            offered.offer_cats@,
        ),
        r is Ok ==> final(spends).log() == adds_of(
            old(spends).log(),
            cat_inputs(cat_selection(offered.cat_coins@, offered.offer_cats@)),
        ),
{
    let ghost start = ids@;
    let ghost log0 = spends.log();
    let ghost cats = offered.cat_coins@;
    let ghost legs = offered.offer_cats@;
    let n = offered.offer_cats.len();
    let mut i: usize = 0;
    assert(legs.take(0) =~= Seq::<(Bytes32, u64)>::empty());
    assert(hash_views(ids@) =~= hash_views(start) + cat_selection_ids(cats, legs.take(0)));
    assert(cat_inputs(cat_selection(cats, legs.take(0))) =~= Seq::<SpendInput>::empty());
    while i < n
        invariant
            n == legs.len(),
            legs == offered.offer_cats@,
            cats == offered.cat_coins@,
            i <= n,
            hash_views(ids@) == hash_views(start) + cat_selection_ids(cats, legs.take(i as int)),
            spends.log() == adds_of(log0, cat_inputs(cat_selection(cats, legs.take(i as int)))),
            forall|j: int| 0 <= j < i ==> #[trigger] leg_covered(cats, legs[j]),
        decreases n - i,
    {
        let (asset_id, amount) = offered.offer_cats[i];
        let chosen = match select_cats(offered.cat_coins.as_slice(), &asset_id, amount) {
            Ok(v) => v,
            Err(e) => {
                assert(first_short_leg(cats, legs, i as int));
                return Err(e);
            },
        };
        let ghost before = ids@;
        let ghost log1 = spends.log();
        let m = chosen.len();
        let mut j: usize = 0;
        while j < m
            invariant
                m == chosen@.len(),
                j <= m,
                hash_views(ids@) == hash_views(before) + cat_ids(chosen@.take(j as int)),
                spends.log() == adds_of(log1, cat_inputs(chosen@.take(j as int))),
            decreases m - j,
        {
            let c = chosen[j];
            spends_add_cat(spends, c);
            let id = coin_id(&c.coin);
            proof {
                lemma_push_id(ids@, id);
            }
            ids.push(id);
            assert(cat_ids(chosen@.take(j + 1)) =~= cat_ids(chosen@.take(j as int)).push(id@));
            assert(cat_inputs(chosen@.take(j + 1)) =~= cat_inputs(chosen@.take(j as int)).push(
                SpendInput::Cat(c),
            ));
            proof {
                lemma_adds_push(log1, cat_inputs(chosen@.take(j as int)), SpendInput::Cat(c));
            }
            j = j + 1;
        }
        assert(chosen@.take(m as int) =~= chosen@);
        assert(legs.take(i + 1).drop_last() =~= legs.take(i as int));
        assert(legs.take(i + 1).last() == legs[i as int]);
        assert(hash_views(ids@) =~= hash_views(start) + cat_selection_ids(cats, legs.take(i + 1)));
        assert(cat_inputs(cat_selection(cats, legs.take(i + 1))) =~= cat_inputs(
            cat_selection(cats, legs.take(i as int)),
        ) + cat_inputs(chosen@));
        proof {
            lemma_adds_concat(log0, cat_inputs(cat_selection(cats, legs.take(i as int))), cat_inputs(chosen@));
        }
        i = i + 1;
    }
    assert(legs.take(n as int) =~= legs);
    Ok(())
}

/// The actions a make applies to the maker's spends: the offered assets sent into settlement,
/// then the fee.
pub fn make_actions(offered: &OfferedSide, fee: u64, settlement_ph: Bytes32) -> (r: Vec<
    MakeAction,
>)
    ensures
        r@ == make_plan(offered, nft_launcher_ids(offered.nfts@), fee, settlement_ph),
{
    let mut plan: Vec<MakeAction> = Vec::new();
    let ghost mut launchers: Seq<Bytes32> = Seq::empty();
    let ghost nft_send = |id: Bytes32|
        MakeAction::Send { asset: AssetRef::Existing(id), puzzle_hash: settlement_ph, amount: 1 };
    let n = offered.nfts.len();
    let mut i: usize = 0;
    while i < n
        invariant
            n == offered.nfts@.len(),
            i <= n,
            launchers == nft_launcher_ids(offered.nfts@.take(i as int)),
            nft_send == (|id: Bytes32|
                MakeAction::Send {
                    asset: AssetRef::Existing(id),
                    puzzle_hash: settlement_ph,
                    amount: 1,
                }),
            plan@ == launchers.map_values(nft_send),
        decreases n - i,
    {
        let id = nft_launcher_id(&offered.nfts[i]);
        plan.push(MakeAction::Send { asset: AssetRef::Existing(id), puzzle_hash: settlement_ph, amount: 1 });
        proof {
            assert(launchers.push(id).map_values(nft_send) =~= launchers.map_values(nft_send).push(
                nft_send(id),
            ));
            launchers = launchers.push(id);
            assert(nft_launcher_ids(offered.nfts@.take(i + 1)) =~= nft_launcher_ids(
                offered.nfts@.take(i as int),
            ).push(id));
        }
        i = i + 1;
    }
    let ghost head = plan@;
    if offered.offer_xch > 0 {
        plan.push(MakeAction::Send { asset: AssetRef::Xch, puzzle_hash: settlement_ph, amount: offered.offer_xch });
    }
    let ghost with_xch = plan@;
    let ghost cat_send = |leg: (Bytes32, u64)|
        MakeAction::Send { asset: AssetRef::Existing(leg.0), puzzle_hash: settlement_ph, amount: leg.1 };
    let m = offered.offer_cats.len();
    let mut j: usize = 0;
    while j < m
        invariant
            m == offered.offer_cats@.len(),
            j <= m,
            cat_send == (|leg: (Bytes32, u64)|
                MakeAction::Send {
                    asset: AssetRef::Existing(leg.0),
                    puzzle_hash: settlement_ph,
                    amount: leg.1,
                }),
            plan@ == with_xch + offered.offer_cats@.take(j as int).map_values(cat_send),
        decreases m - j,
    {
        let (asset_id, amount) = offered.offer_cats[j];
        plan.push(MakeAction::Send { asset: AssetRef::Existing(asset_id), puzzle_hash: settlement_ph, amount });
        assert(offered.offer_cats@.take(j + 1).map_values(cat_send) =~= offered.offer_cats@.take(
            j as int,
        ).map_values(cat_send).push(cat_send(offered.offer_cats@[j as int])));
        j = j + 1;
    }
    assert(offered.offer_cats@.take(m as int) =~= offered.offer_cats@);
    if fee > 0 {
        plan.push(MakeAction::Fee(fee));
    }
    assert(offered.nfts@.take(n as int) =~= offered.nfts@);
    assert(plan@ =~= make_plan(offered, launchers, fee, settlement_ph));
    plan
}

/// The SDK action for one planned action.
pub open spec fn action_of(a: MakeAction) -> Action {
    match a {
        MakeAction::Send { asset, puzzle_hash, amount } => send_action_of(asset, puzzle_hash@, amount),
        MakeAction::Fee(f) => fee_action_of(f),
    }
}

/// The SDK actions for a plan, one for one.
fn sdk_actions(plan: &Vec<MakeAction>) -> (r: Vec<Action>)
    ensures
        r@ == plan@.map_values(|a: MakeAction| action_of(a)),
{
    let mut out: Vec<Action> = Vec::new();
    let n = plan.len();
    let mut i: usize = 0;
    while i < n
        invariant
            n == plan@.len(),
            i <= n,
            out@ == plan@.take(i as int).map_values(|a: MakeAction| action_of(a)),
        decreases n - i,
    {
        let a = match plan[i] {
            MakeAction::Send { asset, puzzle_hash, amount } => action_send(asset, puzzle_hash, amount),
            MakeAction::Fee(f) => action_fee(f),
        };
        out.push(a);
        assert(plan@.take(i + 1).map_values(|a: MakeAction| action_of(a)) =~= plan@.take(
            i as int,
        ).map_values(|a: MakeAction| action_of(a)).push(action_of(plan@[i as int])));
        i = i + 1;
    }
    assert(plan@.take(n as int) =~= plan@);
    out
}

proof fn lemma_plan_sums_concat(a: Seq<MakeAction>, b: Seq<MakeAction>)
    ensures
        xch_sent(a + b) == xch_sent(a) + xch_sent(b),
        fee_reserved(a + b) == fee_reserved(a) + fee_reserved(b),
    decreases b.len(),
{
    if b.len() == 0 {
        assert(a + b =~= a);
    } else {
        lemma_plan_sums_concat(a, b.drop_last());
        assert((a + b).drop_last() =~= a + b.drop_last());
    }
}

proof fn lemma_existing_sends_carry_no_xch(plan: Seq<MakeAction>)
    requires
        forall|i: int|
            0 <= i < plan.len() ==> (#[trigger] plan[i] matches MakeAction::Send {
                asset: AssetRef::Existing(_),
                ..
            }),
    ensures
        xch_sent(plan) == 0,
        fee_reserved(plan) == 0,
    decreases plan.len(),
{
    if plan.len() > 0 {
        assert(plan.last() == plan[plan.len() - 1]);
        lemma_existing_sends_carry_no_xch(plan.drop_last());
    }
}

/// A make pays only the offered side: every action it applies sends an offered asset to the
/// settlement puzzle or reserves the fee, never a payment of the requested side. It sends
/// exactly the offered XCH, reserves exactly the fee, sends each offered NFT whole and each
/// offered CAT leg with its amount.
pub proof fn lemma_make_pays_only_the_offered_side(
    offered: &OfferedSide,
    launcher_ids: Seq<Bytes32>,
    fee: u64,
    settlement: Bytes32,
)
    ensures
        forall|i: int|
            0 <= i < make_plan(offered, launcher_ids, fee, settlement).len() ==> match #[trigger] make_plan(
                offered,
                launcher_ids,
                fee,
                settlement,
            )[i] {
                MakeAction::Send { puzzle_hash, .. } => puzzle_hash == settlement,
                MakeAction::Fee(f) => f == fee,
            },
        xch_sent(make_plan(offered, launcher_ids, fee, settlement)) == offered.offer_xch,
        fee_reserved(make_plan(offered, launcher_ids, fee, settlement)) == fee,
        forall|k: int|
            0 <= k < launcher_ids.len() ==> #[trigger] make_plan(offered, launcher_ids, fee, settlement)[k]
                == (MakeAction::Send {
                asset: AssetRef::Existing(launcher_ids[k]),
                puzzle_hash: settlement,
                amount: 1,
            }),
{
    let nfts = launcher_ids.map_values(
        |id: Bytes32| MakeAction::Send { asset: AssetRef::Existing(id), puzzle_hash: settlement, amount: 1 },
    );
    let xch: Seq<MakeAction> = if offered.offer_xch > 0 {
        seq![MakeAction::Send { asset: AssetRef::Xch, puzzle_hash: settlement, amount: offered.offer_xch }]
    } else {
        Seq::empty()
    };
    let cats = offered.offer_cats@.map_values(
        |leg: (Bytes32, u64)|
            MakeAction::Send { asset: AssetRef::Existing(leg.0), puzzle_hash: settlement, amount: leg.1 },
    );
    let fees: Seq<MakeAction> = if fee > 0 {
        seq![MakeAction::Fee(fee)]
    } else {
        Seq::empty()
    };
    let plan = make_plan(offered, launcher_ids, fee, settlement);
    assert(plan == nfts + xch + cats + fees);
    lemma_existing_sends_carry_no_xch(nfts);
    lemma_existing_sends_carry_no_xch(cats);
    lemma_plan_sums_concat(nfts, xch);
    lemma_plan_sums_concat(nfts + xch, cats);
    lemma_plan_sums_concat(nfts + xch + cats, fees);
    let e = Seq::<MakeAction>::empty();
    assert(xch_sent(e) == 0 && fee_reserved(e) == 0);
    if offered.offer_xch > 0 {
        assert(xch.drop_last() =~= e);
        assert(xch.last() == xch[0]);
    } else {
        assert(xch =~= e);
    }
    assert(xch_sent(xch) == offered.offer_xch && fee_reserved(xch) == 0);
    if fee > 0 {
        assert(fees.drop_last() =~= e);
        assert(fees.last() == fees[0]);
    } else {
        assert(fees =~= e);
    }
    assert(xch_sent(fees) == 0 && fee_reserved(fees) == fee);
    assert forall|k: int| 0 <= k < launcher_ids.len() implies #[trigger] plan[k] == (MakeAction::Send {
        asset: AssetRef::Existing(launcher_ids[k]),
        puzzle_hash: settlement,
        amount: 1,
    }) by {
        assert(plan[k] == nfts[k]);
    }
}

/// Where requested NFTs listed up to `nfts` name launcher id `id`, the asset info recorded for
/// it is that of one of them.
proof fn lemma_nft_info_plan_source(nfts: Seq<(Bytes32, NftAssetInfo)>, id: Seq<u8>)
    requires
        requested_nft_info_plan(nfts).dom().contains(id),
    ensures
        exists|k: int|
            0 <= k < nfts.len() && nfts[k].0@ == id && requested_nft_info_plan(nfts)[id]
                == #[trigger] nfts[k].1,
    decreases nfts.len(),
{
    if nfts.len() == 0 {
        assert(requested_nft_info_plan(nfts) == no_nft_info());
    } else if nfts.last().0@ == id {
        assert(nfts[nfts.len() - 1] == nfts.last());
    } else {
        let rest = nfts.drop_last();
        lemma_nft_info_plan_source(rest, id);
        let k = choose|k: int|
            0 <= k < rest.len() && rest[k].0@ == id && requested_nft_info_plan(rest)[id]
                == #[trigger] rest[k].1;
        assert(nfts[k] == rest[k]);
    }
}

/// Builds the requested payments, notarized to `nonce`, each payment carrying the hint memos
/// `hint`, and their asset info (each requested CAT with no hidden puzzle hash). A requested CAT
/// amount of zero is refused; two different asset infos for one requested NFT fail as the SDK's
/// `AssetInfo::insert_nft` fails.
pub fn fill_requested(requested: &RequestedSide, nonce: Bytes32, hint: Memos) -> (r: Result<
    (RequestedPayments, AssetInfo),
    Error,
>)
    ensures
        requested_outcome(requested, nonce@, hint, r),
{
    let payee = requested.payee_puzzle_hash;
    let mut payments = requested_payments_new();
    let mut asset_info = asset_info_new();
    if requested.xch > 0 {
        request_xch(&mut payments, nonce, payee, requested.xch, hint);
        assert(no_payments() + one_payment(nonce@, payee@, requested.xch) =~= one_payment(
            nonce@,
            payee@,
            requested.xch,
        ));
    }
    let ghost cats = requested.cats@;
    let ghost nfts = requested.nfts@;
    assert(cats.take(0) =~= Seq::<(Bytes32, u64)>::empty());
    let n = requested.cats.len();
    let mut i: usize = 0;
    while i < n
        invariant
            n == cats.len(),
            cats == requested.cats@,
            payee == requested.payee_puzzle_hash,
            i <= n,
            forall|k: int| 0 <= k < i ==> #[trigger] requested.cats@[k].1 > 0,
            xch_requests_of(payments) == requested_xch_plan(requested, nonce@),
            cat_requests_of(payments) == requested_cat_plan(cats.take(i as int), nonce@, payee@),
            nft_requests_of(payments) == no_keyed_payments(),
            asset_info_cats_of(asset_info) == requested_cat_info_plan(cats.take(i as int)),
            asset_info_nfts_of(asset_info) == no_nft_info(),
            forall|id: Seq<u8>| #[trigger] asset_info_cats_of(asset_info).dom().contains(id)
                ==> asset_info_cats_of(asset_info)[id] is None,
            payment_hints_of(payments).subset_of(set![hint]),
        decreases n - i,
    {
        let (asset_id, amount) = requested.cats[i];
        if amount == 0 {
            assert(requested.cats@[i as int].1 == 0);
            let res = Err(
                Error::InvalidInput(
                    String::from_str("requested CAT amount must be greater than zero"),
                ),
            );
            proof {
                reveal_strlit("requested CAT amount must be greater than zero");
            }
            return res;
        }
        request_cat(&mut payments, asset_id, nonce, payee, amount, hint);
        assert(cats.take(i + 1).drop_last() =~= cats.take(i as int));
        assert(cats.take(i + 1).last() == cats[i as int]);
        match asset_info_insert_cat(&mut asset_info, asset_id, None) {
            Ok(()) => {},
            Err(e) => return Err(Error::Driver(e)),
        }
        i = i + 1;
    }
    assert(cats.take(n as int) =~= cats);
    assert(nfts.take(0) =~= Seq::<(Bytes32, NftAssetInfo)>::empty());
    let m = requested.nfts.len();
    let mut j: usize = 0;
    while j < m
        invariant
            m == nfts.len(),
            nfts == requested.nfts@,
            payee == requested.payee_puzzle_hash,
            j <= m,
            requested_cats_positive(requested),
            xch_requests_of(payments) == requested_xch_plan(requested, nonce@),
            cat_requests_of(payments) == requested_cat_plan(cats, nonce@, payee@),
            cats == requested.cats@,
            nft_requests_of(payments) == requested_nft_plan(nfts.take(j as int), nonce@, payee@),
            asset_info_cats_of(asset_info) == requested_cat_info_plan(cats),
            asset_info_nfts_of(asset_info) == requested_nft_info_plan(nfts.take(j as int)),
            payment_hints_of(payments).subset_of(set![hint]),
        decreases m - j,
    {
        let launcher_id = requested.nfts[j].0;
        request_nft(&mut payments, launcher_id, nonce, payee, 1, hint);
        assert(nfts.take(j + 1).drop_last() =~= nfts.take(j as int));
        assert(nfts.take(j + 1).last() == nfts[j as int]);
        match asset_info_insert_nft(&mut asset_info, launcher_id, &requested.nfts[j].1) {
            Ok(()) => {},
            Err(e) => {
                proof {
                    lemma_nft_info_plan_source(nfts.take(j as int), launcher_id@);
                    let k = choose|k: int|
                        0 <= k < nfts.take(j as int).len() && nfts.take(j as int)[k].0@
                            == launcher_id@ && requested_nft_info_plan(nfts.take(j as int))[launcher_id@]
                            == #[trigger] nfts.take(j as int)[k].1;
                    assert(nfts[k] == nfts.take(j as int)[k]);
                    assert(nfts[j as int].0@ == nfts[k].0@ && nfts[j as int].1 != nfts[k].1);
                }
                return Err(Error::Driver(e));
            },
        }
        j = j + 1;
    }
    assert(nfts.take(m as int) =~= nfts);
    Ok((payments, asset_info))
}

/// Hints the payee in the context, then builds the requested payments with that hint
/// (`fill_requested`).
fn build_requested(ctx: &mut SpendContext, requested: &RequestedSide, nonce: Bytes32) -> (r:
    Result<(RequestedPayments, AssetInfo), Error>)
    ensures
        !hint_ok(requested.payee_puzzle_hash, *old(ctx)) ==> r matches Err(Error::Driver(_)),
        hint_ok(requested.payee_puzzle_hash, *old(ctx)) ==> requested_outcome(
            requested,
            nonce@,
            hint_memos_of(requested.payee_puzzle_hash, *old(ctx)),
            r,
        ),
        pending_spends_of(*final(ctx)) == pending_spends_of(*old(ctx)),
        ctx_extends(*old(ctx), *final(ctx)),
{
    let hint = match context_hint(ctx, requested.payee_puzzle_hash) {
        Ok(h) => h,
        Err(e) => return Err(Error::Driver(e)),
    };
    fill_requested(requested, nonce, hint)
}

/// Builds the maker's unsigned offer spends: selects coins covering the offered assets and the
/// fee, applies `make_actions` (the offered assets into settlement, then the fee), and asserts
/// the requested payments, notarized to the nonce of the spent coins' ids, without funding them.
///
/// The checks that come before any SDK call that can fail decide the result exactly
/// (`make_precheck`). After them come the payee's hint, the requested payments
/// (`fill_requested`), and the SDK steps (`make_steps`); the result is `Ok` exactly when each
/// of them succeeds.
pub fn make_build(
    ctx: &mut SpendContext,
    offered: OfferedSide,
    requested: RequestedSide,
    fee: u64,
) -> (r: Result<UnsignedMake, Error>)
    ensures
        make_precheck(&offered, &requested, fee) matches Err(m) ==> (r matches Err(e)
            && e.is_invalid_input(m)),
        make_precheck(&offered, &requested, fee) is Ok && !hint_ok(
            requested.payee_puzzle_hash,
            *old(ctx),
        ) ==> r matches Err(Error::Driver(_)),
        make_precheck(&offered, &requested, fee) is Ok && hint_ok(
            requested.payee_puzzle_hash,
            *old(ctx),
        ) && !requested_cats_positive(&requested) ==> (r matches Err(e) && e.is_invalid_input(
            zero_cat_text(),
        )),
        make_precheck(&offered, &requested, fee) is Ok && hint_ok(
            requested.payee_puzzle_hash,
            *old(ctx),
        ) && requested_cats_positive(&requested) ==> (r is Err ==> r matches Err(Error::Driver(_))),
        make_precheck(&offered, &requested, fee) is Ok && hint_ok(
            requested.payee_puzzle_hash,
            *old(ctx),
        ) && requested_cats_positive(&requested) && nft_infos_agree(requested.nfts@) ==> exists|
            p: RequestedPayments,
            a: AssetInfo,
            c1: SpendContext,
            c2: SpendContext,
            c3: SpendContext,
            d: Deltas,
        |
            #[trigger] make_outcome(
                &offered,
                &requested,
                fee,
                r,
                *old(ctx),
                p,
                a,
                c1,
                c2,
                c3,
                d,
            ),
        r matches Ok(u) ==> requested_built(
            u.requested_payments,
            u.requested_asset_info,
            &requested,
            u.nonce@,
            hint_memos_of(requested.payee_puzzle_hash, *old(ctx)),
        ),
        r matches Ok(u) ==> u.nonce@ == make_nonce(&offered, fee),
        r is Ok ==> make_precheck(&offered, &requested, fee) is Ok && requested_cats_positive(
            &requested,
        ),
        r matches Err(e) ==> (e is InvalidInput || e is Driver),
{
    match ensure_non_empty(&offered, &requested) {
        Ok(()) => {},
        Err(e) => return Err(e),
    }
    let settlement_ph = settlement_payment_hash();
    let mut spends = spends_new(offered.change_puzzle_hash);
    let ghost s0 = spends.log();
    let mut ids: Vec<Bytes32> = Vec::new();

    add_offered_nfts(&offered, &mut spends, &mut ids);
    let ghost nft_ids = hash_views(ids@);
    match add_offered_xch(&offered, fee, &mut spends, &mut ids) {
        Ok(()) => {},
        Err(e) => return Err(e),
    }
    match add_offered_cats(&offered, &mut spends, &mut ids) {
        Ok(()) => {},
        Err(e) => {
            proof {
                let k = choose|k: int| first_short_leg(offered.cat_coins@, offered.offer_cats@, k);
                let k0 = choose|k: int|
                    first_short_leg(offered.cat_coins@, offered.offer_cats@, k)
                        && e.is_invalid_input(
                        leg_shortfall_text(offered.cat_coins@, offered.offer_cats@, k),
                    );
                lemma_first_short_leg_unique(offered.cat_coins@, offered.offer_cats@, k, k0);
            }
            return Err(e);
        },
    }
    let ghost all_ids = nft_ids + coin_ids(xch_selection(&offered, fee)) + cat_selection_ids(
        offered.cat_coins@,
        offered.offer_cats@,
    );
    assert(hash_views(ids@) == all_ids);
    proof {
        lemma_adds_concat(s0, nft_inputs(offered.nfts@), xch_inputs(xch_selection(&offered, fee)));
        lemma_adds_concat(
            s0,
            nft_inputs(offered.nfts@) + xch_inputs(xch_selection(&offered, fee)),
            cat_inputs(cat_selection(offered.cat_coins@, offered.offer_cats@)),
        );
    }
    assert(spends.log() == adds_of(s0, make_inputs(&offered, fee)));
    if ids.len() == 0 {
        return Err(Error::InvalidInput(String::from_str("make selected no offered coins to spend")));
    }
    let nonce = offer_nonce(ids);
    assert(nonce@ == make_nonce(&offered, fee));
    let ghost pending0 = pending_spends_of(*ctx);
    let ghost ctx0 = *ctx;
    let (payments, asset_info) = match build_requested(ctx, &requested, nonce) {
        Ok(p) => p,
        Err(e) => return Err(e),
    };
    let plan = make_actions(&offered, fee, settlement_ph);
    let actions = sdk_actions(&plan);
    assert(actions@ =~= make_sdk_actions(&offered, fee));
    let ghost c1 = *ctx;
    let ghost any_ctx: SpendContext = arbitrary();
    let ghost any_deltas: Deltas = arbitrary();
    let deltas = match spends_apply(&mut spends, ctx, &actions) {
        Ok(d) => d,
        Err(e) => {
            let res = Err(Error::Driver(e));
            assert(make_outcome(
                &offered,
                &requested,
                fee,
                res,
                ctx0,
                payments,
                asset_info,
                c1,
                any_ctx,
                any_ctx,
                any_deltas,
            ));
            return res;
        },
    };
    let ghost c2 = *ctx;
    let assertions = match payment_assertions(ctx, &payments, &asset_info) {
        Ok(a) => a,
        Err(e) => {
            let res = Err(Error::Driver(e));
            assert(make_outcome(
                &offered,
                &requested,
                fee,
                res,
                ctx0,
                payments,
                asset_info,
                c1,
                c2,
                any_ctx,
                any_deltas,
            ));
            return res;
        },
    };
    spends_require(&mut spends, assertions);
    let ghost c3 = *ctx;
    match spends_finish(spends, ctx, &deltas, &offered.owner_keys) {
        Ok(()) => {},
        Err(e) => {
            let res = Err(Error::Driver(e));
            assert(make_outcome(
                &offered,
                &requested,
                fee,
                res,
                ctx0,
                payments,
                asset_info,
                c1,
                c2,
                c3,
                deltas,
            ));
            return res;
        },
    }
    let u = UnsignedMake {
        coin_spends: context_take(ctx),
        requested_payments: payments,
        requested_asset_info: asset_info,
        nonce,
    };
    assert(u.coin_spends@ =~= pending0 + make_steps(
        &offered,
        fee,
        payments,
        asset_info,
        c1,
        c2,
        c3,
        deltas,
    )->0);
    let res = Ok(u);
    assert(make_outcome(
        &offered,
        &requested,
        fee,
        res,
        ctx0,
        payments,
        asset_info,
        c1,
        c2,
        c3,
        deltas,
    ));
    res
}

/// `o` is the offer `Offer::from_input_spend_bundle` made of the signed bundle, the requested
/// payments `p` and asset info `a` in the caller's context `ctx0`, and `c` a later state of
/// `ctx0`: `o` holds the signed spends and signature, the payments `p`, and `a`'s CAT entries
/// and NFT launcher ids among its asset info.
pub open spec fn assembled_offer(
    signed: SpendBundle,
    p: RequestedPayments,
    a: AssetInfo,
    ctx0: SpendContext,
    o: Offer,
    c: SpendContext,
) -> bool {
    &&& ctx_extends(ctx0, c)
    &&& offer_bundle_coins_of(o) == bundle_coins_of(signed)
    &&& offer_requests_of(o) == p
    &&& offer_signature_of(o) == bundle_signature_of(signed)
    &&& forall|id: Seq<u8>|
        #![trigger asset_info_cats_of(a).dom().contains(id)]
        asset_info_cats_of(a).dom().contains(id) ==> asset_info_cats_of(offer_asset_info_of(o)).dom().contains(
            id,
        ) && asset_info_cats_of(offer_asset_info_of(o))[id] == asset_info_cats_of(a)[id]
    &&& forall|id: Seq<u8>|
        #![trigger asset_info_nfts_of(a).dom().contains(id)]
        asset_info_nfts_of(a).dom().contains(id) ==> asset_info_nfts_of(offer_asset_info_of(o)).dom().contains(
            id,
        )
}

/// Assembles a signed maker bundle into a one-sided offer bundle, in the same context as the
/// matching `make_build`: zero-parent, zero-amount carriers of the requested payments (one for
/// the XCH payments, at the settlement puzzle hash, first; one per CAT asset, NFT and option),
/// then the maker's signed spends unchanged, under the maker's signature. The bundle is built
/// in the caller's context, from the offer made of the signed bundle there.
pub fn make_assemble(
    ctx: &mut SpendContext,
    signed: SpendBundle,
    requested_payments: RequestedPayments,
    requested_asset_info: AssetInfo,
) -> (r: Result<SpendBundle, Error>)
    ensures
        r matches Ok(b) ==> exists|o: Offer, c: SpendContext|
            #![trigger assembled_offer(signed, requested_payments, requested_asset_info, *old(ctx), o, c)]
            assembled_offer(signed, requested_payments, requested_asset_info, *old(ctx), o, c)
                && b == offer_bundle_in(o, c) && bundle_coins_of(b) == carrier_coins_of(
                requested_payments,
                offer_asset_info_of(o),
            ) + bundle_coins_of(signed),
        r matches Ok(b) ==> exists|carriers: Seq<Coin>|
            #![trigger all_carriers(carriers)]
            all_carriers(carriers) && bundle_coins_of(b) == carriers + bundle_coins_of(signed)
                && carriers.len() == carrier_count(requested_payments) && (xch_requests_of(
                requested_payments,
            ).len() > 0 ==> carriers[0].puzzle_hash == settlement_hash()),
        r matches Ok(b) ==> bundle_signature_of(b) == bundle_signature_of(signed),
        !input_parses_in(signed, requested_payments, requested_asset_info, *old(ctx)) ==> r matches Err(
            Error::Driver(_),
        ),
        input_parses_in(signed, requested_payments, requested_asset_info, *old(ctx)) ==> (r is Err
            ==> exists|o: Offer, c: SpendContext|
            #![trigger assembled_offer(signed, requested_payments, requested_asset_info, *old(ctx), o, c)]
            assembled_offer(signed, requested_payments, requested_asset_info, *old(ctx), o, c)
                && !bundles_in(o, c)),
        r matches Err(e) ==> e is Driver,
{
    let ghost ctx0 = *ctx;
    let ghost s0 = signed;
    let offer = match offer_from_input_spend_bundle(
        ctx,
        signed,
        requested_payments,
        requested_asset_info,
    ) {
        Ok(o) => o,
        Err(e) => return Err(Error::Driver(e)),
    };
    let ghost c = *ctx;
    let ghost o = offer;
    assert(assembled_offer(s0, requested_payments, requested_asset_info, ctx0, o, c));
    match offer_to_spend_bundle(offer, ctx) {
        Ok(b) => Ok(b),
        Err(e) => {
            assert(!bundles_in(o, c));
            Err(Error::Driver(e))
        },
    }
}

} // verus!
