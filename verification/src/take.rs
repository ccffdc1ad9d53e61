//! Taking an offer: check that the taker's funds cover the offer's cost, build the taker's
//! unsigned spends, and combine them with the maker's signed half.
use vstd::prelude::*;
use crate::error::Error;
use crate::hydrate::{parse, parse_failure_prefix};
use crate::make::{
    cat_inputs, cats_of_asset, filter_asset, first_short_leg, leg_covered, legs_covered,
    nft_inputs, xch_inputs, lemma_adds_concat, lemma_adds_push,
};
use crate::sdk::{
    applied_spends_of, fee_action_of, finished_spends_of, pending_spends_of,
    requested_actions_of, SpendInput, adds_of, applies, finishes, parses_in, spends_after_apply,
    fresh_log, SpendsLog, spends_after_add, ctx_extends, bundle_signature_of, offer_signature_of,
    signature_sum_of,
    arbitrage_cats_of, arbitrage_xch_of, bundle_offer_of, real_coins, same_readings,
    bundle_coins_of, offer_bundle_coins_of,
    action_fee, context_take, offer_arbitrage_offered, offer_take, requested_actions,
    spends_add_cat, spends_add_coin, spends_add_nft, spends_add_offered, spends_apply,
    spends_finish, spends_new,
};
use crate::select::{lemma_total_nonneg, lemma_total_take_succ, total, Funding};
use crate::summarize::{amounts_as_u64, amounts_fit, is_summary_of, offer_cost};
use crate::text::{shortfall_message, shortfall_text};
use crate::types::{Bytes32, Cat, Coin, OfferCost, OfferSummary, TakerFunds, UnsignedTake};
use chia_protocol::{CoinSpend, SpendBundle};
use chia_wallet_sdk::driver::{Action, Deltas, Offer, SpendContext};

verus! {

/// The outcome of checking the taker's funds against a cost of `xch` and the CAT legs `cats`:
/// the first shortfall, XCH before the CAT legs in order, or `Ok` when the funds cover every leg.
pub open spec fn cover_check_of(funds: &TakerFunds, xch: u64, cats: Seq<(Bytes32, u64)>) -> Result<
    (),
    Seq<char>,
> {
    if total(funds.xch_coins@) < xch {
        Err(shortfall_text(None, "take"@, xch as nat, total(funds.xch_coins@) as nat))
    } else if !legs_covered(funds.cat_coins@, cats) {
        let k = choose|k: int| first_short_leg(funds.cat_coins@, cats, k);
        Err(
            shortfall_text(
                Some(cats[k].0@),
                "take"@,
                cats[k].1 as nat,
                total(cats_of_asset(funds.cat_coins@, cats[k].0@)) as nat,
            ),
        )
    } else {
        Ok(())
    }
}

/// The outcome of checking the taker's funds against a cost.
pub open spec fn cover_check(funds: &TakerFunds, cost: &OfferCost) -> Result<(), Seq<char>> {
    cover_check_of(funds, cost.xch, cost.cats@)
}

/// The taker's cost of `o` fits in `u64`s.
pub open spec fn cost_fits(o: Offer) -> bool {
    arbitrage_xch_of(o) <= u64::MAX && amounts_fit(arbitrage_cats_of(o))
}

/// Checking the funds against the taker's cost of `o`: the arbitrage's offered side.
pub open spec fn offer_cover_check(funds: &TakerFunds, o: Offer) -> Result<(), Seq<char>> {
    cover_check_of(funds, arbitrage_xch_of(o) as u64, amounts_as_u64(arbitrage_cats_of(o)))
}

/// The actions a take applies: the settle actions paying the offer's requested payments, then
/// the fee, when positive.
pub open spec fn take_actions(o: Offer, fee: u64) -> Seq<Action> {
    requested_actions_of(o) + if fee > 0 {
        seq![fee_action_of(fee)]
    } else {
        Seq::empty()
    }
}

/// What a take adds to its spends: the offer's offered coins, then the taker's XCH coins, CATs
/// and NFTs.
pub open spec fn take_inputs(funds: &TakerFunds, o: Offer) -> Seq<SpendInput> {
    seq![SpendInput::Offered(o)] + xch_inputs(funds.xch_coins@) + cat_inputs(funds.cat_coins@)
        + nft_inputs(funds.nfts@)
}

/// The SDK steps of a take of the parsed offer `o` on a fresh `Spends` returning change to the
/// taker: add the take's inputs, apply its actions in a context holding `c1`, and finish under
/// the taker's keys with the deltas `d` in a context holding `c2`. `Some` with the coin spends applying and finishing
/// collect, or `None` where a step fails.
pub open spec fn take_steps(
    funds: &TakerFunds,
    fee: u64,
    o: Offer,
    c1: SpendContext,
    c2: SpendContext,
    d: Deltas,
) -> Option<Seq<CoinSpend>> {
    let added = adds_of(fresh_log(funds.change_puzzle_hash), take_inputs(funds, o));
    let actions = take_actions(o, fee);
    if !applies(added, actions, c1) {
        None
    } else if !finishes(spends_after_apply(added, actions, c1), d, funds.owner_keys, c2) {
        None
    } else {
        Some(
            applied_spends_of(added, actions, c1) + finished_spends_of(
                spends_after_apply(added, actions, c1),
                d,
                funds.owner_keys,
                c2,
            ),
        )
    }
}

/// What a take in the caller's context `ctx0` of the bundle that parsed into `o` and got past
/// its funds check gives, from the contexts and deltas its SDK steps saw: `c1` (apply), a later
/// state of `ctx0`, and `c2` (finish), a later state of `c1` once applying succeeded. `Ok`
/// exactly when the steps succeed, with the context's earlier spends and the spends the steps
/// collect; otherwise the SDK's error.
pub open spec fn take_outcome(
    funds: &TakerFunds,
    fee: u64,
    b: SpendBundle,
    r: Result<UnsignedTake, Error>,
    ctx0: SpendContext,
    o: Offer,
    c1: SpendContext,
    c2: SpendContext,
    d: Deltas,
) -> bool {
    &&& offer_bundle_coins_of(o) == real_coins(bundle_coins_of(b))
    &&& same_readings(o, bundle_offer_of(b))
    &&& offer_signature_of(o) == bundle_signature_of(b)
    &&& ctx_extends(ctx0, c1)
    &&& applies(adds_of(fresh_log(funds.change_puzzle_hash), take_inputs(funds, o)), take_actions(o, fee), c1)
        ==> ctx_extends(c1, c2)
    &&& (r is Ok <==> take_steps(funds, fee, o, c1, c2, d) is Some)
    &&& (r is Err ==> r matches Err(Error::Driver(_)))
    &&& (r matches Ok(u) ==> u.offer == o && u.coin_spends@ == pending_spends_of(ctx0) + take_steps(
        funds,
        fee,
        o,
        c1,
        c2,
        d,
    )->0)
}

/// The sum of the amounts of `coins`.
pub fn sum_amounts<T: Funding>(coins: &[T]) -> (r: u128)
    ensures
        r == total(coins@),
{
    let mut sum: u128 = 0;
    let n = coins.len();
    let mut i: usize = 0;
    assert(coins@.take(0) =~= Seq::<T>::empty());
    while i < n
        invariant
            n == coins@.len(),
            i <= n,
            sum == total(coins@.take(i as int)),
            sum <= i * (u64::MAX as int),
        decreases n - i,
    {
        proof {
            lemma_total_take_succ(coins@, i as int);
            assert(i * (u64::MAX as int) + u64::MAX == (i + 1) * (u64::MAX as int))
                by (nonlinear_arith);
            assert((i + 1) * (u64::MAX as int) <= (usize::MAX as int) * (u64::MAX as int))
                by (nonlinear_arith)
                requires
                    i + 1 <= usize::MAX,
            ;
        }
        sum = sum + coins[i].funding_amount() as u128;
        i = i + 1;
    }
    assert(coins@.take(n as int) =~= coins@);
    sum
}

/// Checks that the taker's funds cover the cost, naming the first shortfall before a spend is
/// built.
pub fn ensure_funds_cover(funds: &TakerFunds, cost: &OfferCost) -> (r: Result<(), Error>)
    ensures
        r is Ok <==> cover_check(funds, cost) is Ok,
        r matches Err(e) ==> (cover_check(funds, cost) matches Err(m) && e.is_invalid_input(m)),
{
    let available_xch = sum_amounts(funds.xch_coins.as_slice());
    if available_xch < cost.xch as u128 {
        return Err(
            Error::InvalidInput(shortfall_message(None, "take", cost.xch as u128, available_xch)),
        );
    }
    let n = cost.cats.len();
    let mut i: usize = 0;
    while i < n
        invariant
            n == cost.cats@.len(),
            i <= n,
            total(funds.xch_coins@) >= cost.xch,
            forall|j: int| 0 <= j < i ==> #[trigger] leg_covered(funds.cat_coins@, cost.cats@[j]),
        decreases n - i,
    {
        let (asset_id, need) = cost.cats[i];
        let matching = filter_asset(funds.cat_coins.as_slice(), &asset_id);
        let available = sum_amounts(matching.as_slice());
        if available < need as u128 {
            proof {
                assert(first_short_leg(funds.cat_coins@, cost.cats@, i as int));
                let k = choose|k: int| first_short_leg(funds.cat_coins@, cost.cats@, k);
                crate::make::lemma_first_short_leg_unique(
                    funds.cat_coins@,
                    cost.cats@,
                    k,
                    i as int,
                );
            }
            return Err(
                Error::InvalidInput(
                    shortfall_message(Some(&asset_id), "take", need as u128, available),
                ),
            );
        }
        i = i + 1;
    }
    Ok(())
}

/// Builds the taker's unsigned spends for taking the offer in `spend_bundle`: claims the
/// maker's offered coins to the change address, funds the requested payments from `funds`, and
/// reserves `fee`. The offer is parsed in `ctx`, and the cost is checked against the funds
/// before any spend is built.
pub fn take_build(
    ctx: &mut SpendContext,
    spend_bundle: &SpendBundle,
    funds: TakerFunds,
    fee: u64,
) -> (r: Result<UnsignedTake, Error>)
    ensures
        r matches Ok(u) ==> u.cost.xch == arbitrage_xch_of(bundle_offer_of(*spend_bundle))
            && u.cost.cats@ == amounts_as_u64(arbitrage_cats_of(bundle_offer_of(*spend_bundle))),
        r matches Ok(u) ==> cover_check(&funds, &u.cost) is Ok,
        r matches Ok(u) ==> offer_bundle_coins_of(u.offer) == real_coins(
            bundle_coins_of(*spend_bundle),
        ) && same_readings(u.offer, bundle_offer_of(*spend_bundle)) && offer_signature_of(u.offer)
            == bundle_signature_of(*spend_bundle),
        !parses_in(*spend_bundle, *old(ctx)) ==> (r matches Err(e) && e.is_decode_with_prefix(
            parse_failure_prefix(),
        )),
        parses_in(*spend_bundle, *old(ctx)) && !cost_fits(bundle_offer_of(*spend_bundle)) ==> r matches Err(
            Error::Driver(_),
        ),
        parses_in(*spend_bundle, *old(ctx)) && cost_fits(bundle_offer_of(*spend_bundle)) ==> (
        offer_cover_check(&funds, bundle_offer_of(*spend_bundle)) matches Err(m) ==> (r matches Err(
            e,
        ) && e.is_invalid_input(m))),
        parses_in(*spend_bundle, *old(ctx)) && cost_fits(bundle_offer_of(*spend_bundle))
            && offer_cover_check(&funds, bundle_offer_of(*spend_bundle)) is Ok ==> exists|
            o: Offer,
            c1: SpendContext,
            c2: SpendContext,
            d: Deltas,
        |
            #[trigger] take_outcome(
                &funds,
                fee,
                *spend_bundle,
                r,
                *old(ctx),
                o,
                c1,
                c2,
                d,
            ),
        r matches Err(Error::Decode(m)) ==> Error::Decode(m).is_decode_with_prefix(
            parse_failure_prefix(),
        ),
        !(r matches Err(Error::Incompatible(_))),
        (r matches Err(Error::Decode(_)) || r matches Err(Error::InvalidInput(_))) ==> pending_spends_of(
            *final(ctx),
        ) == pending_spends_of(*old(ctx)),
{
    let offer = match parse(ctx, spend_bundle) {
        Ok(o) => o,
        Err(e) => return Err(e),
    };
    let (ax, ac) = offer_arbitrage_offered(&offer);
    let cost = match offer_cost(ax, &ac) {
        Ok(c) => c,
        Err(e) => return Err(e),
    };
    match ensure_funds_cover(&funds, &cost) {
        Ok(()) => {},
        Err(e) => {
            assert(cover_check(&funds, &cost) is Err);
            return Err(e);
        },
    }
    let ghost pending0 = pending_spends_of(*ctx);
    let ghost ctx0 = *old(ctx);
    let mut spends = spends_new(funds.change_puzzle_hash);
    let ghost s0 = spends.log();
    spends_add_offered(&mut spends, &offer);
    let ghost log0 = spends.log();
    assert(seq![SpendInput::Offered(offer)] =~= Seq::<SpendInput>::empty().push(
        SpendInput::Offered(offer),
    ));
    proof {
        lemma_adds_push(s0, Seq::<SpendInput>::empty(), SpendInput::Offered(offer));
    }
    assert(log0 == adds_of(s0, seq![SpendInput::Offered(offer)]));
    let nx = funds.xch_coins.len();
    let mut i: usize = 0;
    assert(funds.xch_coins@.take(0) =~= Seq::<Coin>::empty());
    while i < nx
        invariant
            nx == funds.xch_coins@.len(),
            i <= nx,
            spends.log() == adds_of(log0, xch_inputs(funds.xch_coins@.take(i as int))),
        decreases nx - i,
    {
        spends_add_coin(&mut spends, funds.xch_coins[i]);
        assert(xch_inputs(funds.xch_coins@.take(i + 1)) =~= xch_inputs(funds.xch_coins@.take(i as int)).push(
            SpendInput::Xch(funds.xch_coins@[i as int]),
        ));
        proof {
            lemma_adds_push(
                log0,
                xch_inputs(funds.xch_coins@.take(i as int)),
                SpendInput::Xch(funds.xch_coins@[i as int]),
            );
        }
        i = i + 1;
    }
    assert(funds.xch_coins@.take(nx as int) =~= funds.xch_coins@);
    let ghost log1 = spends.log();
    let nc = funds.cat_coins.len();
    let mut j: usize = 0;
    assert(funds.cat_coins@.take(0) =~= Seq::<Cat>::empty());
    while j < nc
        invariant
            nc == funds.cat_coins@.len(),
            j <= nc,
            spends.log() == adds_of(log1, cat_inputs(funds.cat_coins@.take(j as int))),
        decreases nc - j,
    {
        spends_add_cat(&mut spends, funds.cat_coins[j]);
        assert(cat_inputs(funds.cat_coins@.take(j + 1)) =~= cat_inputs(funds.cat_coins@.take(j as int)).push(
            SpendInput::Cat(funds.cat_coins@[j as int]),
        ));
        proof {
            lemma_adds_push(
                log1,
                cat_inputs(funds.cat_coins@.take(j as int)),
                SpendInput::Cat(funds.cat_coins@[j as int]),
            );
        }
        j = j + 1;
    }
    assert(funds.cat_coins@.take(nc as int) =~= funds.cat_coins@);
    let ghost log2 = spends.log();
    let nn = funds.nfts.len();
    let mut k: usize = 0;
    assert(funds.nfts@.take(0) =~= Seq::<chia_wallet_sdk::driver::Nft>::empty());
    while k < nn
        invariant
            nn == funds.nfts@.len(),
            k <= nn,
            spends.log() == adds_of(log2, nft_inputs(funds.nfts@.take(k as int))),
        decreases nn - k,
    {
        spends_add_nft(&mut spends, &funds.nfts[k]);
        assert(nft_inputs(funds.nfts@.take(k + 1)) =~= nft_inputs(funds.nfts@.take(k as int)).push(
            SpendInput::Nft(funds.nfts@[k as int]),
        ));
        proof {
            lemma_adds_push(
                log2,
                nft_inputs(funds.nfts@.take(k as int)),
                SpendInput::Nft(funds.nfts@[k as int]),
            );
        }
        k = k + 1;
    }
    assert(funds.nfts@.take(nn as int) =~= funds.nfts@);
    proof {
        let a0 = seq![SpendInput::Offered(offer)];
        let a1 = xch_inputs(funds.xch_coins@);
        let a2 = cat_inputs(funds.cat_coins@);
        let a3 = nft_inputs(funds.nfts@);
        lemma_adds_concat(s0, a0, a1);
        lemma_adds_concat(s0, a0 + a1, a2);
        lemma_adds_concat(s0, a0 + a1 + a2, a3);
    }
    assert(spends.log() == adds_of(s0, take_inputs(&funds, offer)));
    let mut actions: Vec<Action> = requested_actions(&offer);
    if fee > 0 {
        actions.push(action_fee(fee));
    }
    assert(actions@ =~= take_actions(offer, fee));
    let ghost c1 = *ctx;
    let ghost any_ctx: SpendContext = arbitrary();
    let ghost any_deltas: Deltas = arbitrary();
    let deltas = match spends_apply(&mut spends, ctx, &actions) {
        Ok(d) => d,
        Err(e) => {
            let res = Err(Error::Driver(e));
            assert(take_outcome(
                &funds,
                fee,
                *spend_bundle,
                res,
                ctx0,
                offer,
                c1,
                any_ctx,
                any_deltas,
            ));
            return res;
        },
    };
    let ghost c2 = *ctx;
    match spends_finish(spends, ctx, &deltas, &funds.owner_keys) {
        Ok(()) => {},
        Err(e) => {
            let res = Err(Error::Driver(e));
            assert(take_outcome(
                &funds,
                fee,
                *spend_bundle,
                res,
                ctx0,
                offer,
                c1,
                c2,
                deltas,
            ));
            return res;
        },
    }
    let u = UnsignedTake { coin_spends: context_take(ctx), offer, cost };
    assert(u.coin_spends@ =~= pending0 + take_steps(
        &funds,
        fee,
        offer,
        c1,
        c2,
        deltas,
    )->0);
    let res = Ok(u);
    assert(take_outcome(&funds, fee, *spend_bundle, res, ctx0, offer, c1, c2, deltas));
    res
}

/// A successful take applies the offer's requested settle actions followed, when the fee is
/// positive, by one fee action of exactly `fee` (nothing more when it is zero), to the offer's
/// offered coins and the taker's coins; its spends are the context's earlier spends, then what
/// applying those actions collects, then what finishing collects.
pub proof fn lemma_take_reserves_the_fee(
    funds: &TakerFunds,
    fee: u64,
    b: SpendBundle,
    u: UnsignedTake,
    ctx0: SpendContext,
    o: Offer,
    c1: SpendContext,
    c2: SpendContext,
    d: Deltas,
)
    requires
        take_outcome(funds, fee, b, Ok(u), ctx0, o, c1, c2, d),
    ensures
        ({
            let added = adds_of(fresh_log(funds.change_puzzle_hash), take_inputs(funds, o));
            let acts = if fee > 0 {
                requested_actions_of(o).push(fee_action_of(fee))
            } else {
                requested_actions_of(o)
            };
            &&& applies(added, acts, c1)
            &&& u.coin_spends@ == pending_spends_of(ctx0) + applied_spends_of(added, acts, c1)
                + finished_spends_of(spends_after_apply(added, acts, c1), d, funds.owner_keys, c2)
        }),
        fee > 0 ==> take_actions(o, fee).last() == fee_action_of(fee) && take_actions(
            o,
            fee,
        ).drop_last() == requested_actions_of(o),
        fee == 0 ==> take_actions(o, fee) == requested_actions_of(o),
{
    if fee > 0 {
        assert(take_actions(o, fee) =~= requested_actions_of(o).push(fee_action_of(fee)));
    } else {
        assert(take_actions(o, fee) =~= requested_actions_of(o));
    }
}

/// A take's cost is what a summary of the same bundle reports as the offer's arbitrage: given
/// what a successful `take_build` states of its cost and what a successful `summarize` states of
/// its summary, the two agree.
pub proof fn lemma_take_cost_is_summary_arbitrage(b: SpendBundle, cost: OfferCost, s: OfferSummary)
    requires
        cost.xch == arbitrage_xch_of(bundle_offer_of(b)),
        cost.cats@ == amounts_as_u64(arbitrage_cats_of(bundle_offer_of(b))),
        is_summary_of(s, bundle_offer_of(b)),
    ensures
        cost.xch == s.arbitrage.xch,
        cost.cats@ == s.arbitrage.cats@,
{
}

/// Combines the maker's already-signed offer with the taker's signed bundle into one atomic
/// settlement bundle: the maker's spends, then the taker's, under the aggregate of the two
/// signatures.
pub fn take_combine(offer: Offer, signed_taker: SpendBundle) -> (r: SpendBundle)
    ensures
        bundle_coins_of(r) == offer_bundle_coins_of(offer) + bundle_coins_of(signed_taker),
        bundle_signature_of(r) == signature_sum_of(
            offer_signature_of(offer),
            bundle_signature_of(signed_taker),
        ),
{
    offer_take(offer, signed_taker)
}

} // verus!
