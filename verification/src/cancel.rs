//! Cancelling an offer the caller made: reclaim its offered coins through their standard layer,
//! a competing spend that makes the outstanding offer un-takeable.
use vstd::prelude::*;
use crate::error::Error;
use crate::hydrate::{parse, parse_failure_prefix};
use crate::sdk::{
    conditions_reserve_fee, context_take, create_coin_conditions, offer_cancellable_coins,
    bundle_offer_of, cancellable_coins_of, conditions_of, delegated_conditions_of, owner_key,
    owner_key_of, owner_key_set, parses_in, pending_spends_of, spend_coin_of, spend_key_of,
    standard_spend, standard_spend_ok, ctx_extends,
};
use crate::text::{hex, push_hex};
use crate::types::{Bytes32, Coin, CoinCondition, UnsignedCancel};
use chia_protocol::{CoinSpend, SpendBundle};
use chia_wallet_sdk::chia::bls::PublicKey;
use chia_wallet_sdk::driver::SpendContext;
use chia_wallet_sdk::types::Conditions;
use indexmap::IndexMap;

verus! {

/// One reclaim spend: the coin spent back to the reclaim address with its full amount, and the
/// fee it reserves, if any.
#[derive(Debug, Clone, Copy, PartialEq, Eq)]
pub struct Reclaim {
    pub coin: Coin,
    pub reserve_fee: Option<u64>,
}

/// The reclaim spends for the cancellable coins: one per coin, in order; the fee, when
/// positive, is reserved on the first spend only.
pub open spec fn reclaim_plan_of(coins: Seq<Coin>, fee: u64) -> Seq<Reclaim> {
    Seq::new(
        coins.len(),
        |i: int|
            Reclaim {
                coin: coins[i],
                reserve_fee: if i == 0 && fee > 0 {
                    Some(fee)
                } else {
                    None
                },
            },
    )
}

/// The conditions of one reclaim spend: the coin's whole amount created at the reclaim puzzle
/// hash, then the fee reservation it carries, if any.
pub open spec fn reclaim_conditions(reclaim_puzzle_hash: Bytes32, r: Reclaim) -> Seq<CoinCondition> {
    let create = seq![CoinCondition::CreateCoin { puzzle_hash: reclaim_puzzle_hash, amount: r.coin.amount }];
    match r.reserve_fee {
        Some(f) => create.push(CoinCondition::ReserveFee(f)),
        None => create,
    }
}

/// `spends` are the reclaim spends of `coins`: one per coin, in order, each spending its coin
/// under the owner key of its puzzle hash and outputting its reclaim conditions.
pub open spec fn are_reclaim_spends(
    spends: Seq<CoinSpend>,
    coins: Seq<Coin>,
    keys: IndexMap<chia_protocol::Bytes32, PublicKey>,
    reclaim_puzzle_hash: Bytes32,
    fee: u64,
) -> bool {
    &&& spends.len() == coins.len()
    &&& forall|i: int|
        0 <= i < coins.len() ==> {
            &&& spend_coin_of(#[trigger] spends[i]) == coins[i]
            &&& spend_key_of(spends[i]) == owner_key_of(keys, coins[i].puzzle_hash@)
            &&& delegated_conditions_of(spends[i]) == reclaim_conditions(
                reclaim_puzzle_hash,
                reclaim_plan_of(coins, fee)[i],
            )
        }
}

/// The total fee a plan reserves.
pub open spec fn reserved_total(plan: Seq<Reclaim>) -> int
    decreases plan.len(),
{
    if plan.len() == 0 {
        0
    } else {
        reserved_total(plan.drop_last()) + match plan.last().reserve_fee {
            Some(f) => f as int,
            None => 0,
        }
    }
}

pub open spec fn no_cancellable_text() -> Seq<char> {
    "no cancellable coins in this offer (already settled, or not the maker's)"@
}

/// The message for an offered coin whose puzzle hash has no owner key.
pub open spec fn no_key_text(puzzle_hash: Seq<u8>) -> Seq<char> {
    "no key for offered coin "@ + hex(puzzle_hash)
        + " (cancel supports standard-layer (XCH) offered coins; reclaim a CAT/NFT offered coin through its native layer)"@
}

/// Coin `k` is the first of `coins` whose puzzle hash has no owner key.
pub open spec fn first_unkeyed(coins: Seq<Coin>, keys: Set<Seq<u8>>, k: int) -> bool {
    &&& 0 <= k < coins.len()
    &&& !keys.contains(coins[k].puzzle_hash@)
    &&& forall|j: int| 0 <= j < k ==> keys.contains(#[trigger] coins[j].puzzle_hash@)
}

proof fn lemma_first_unkeyed_unique(coins: Seq<Coin>, keys: Set<Seq<u8>>, k1: int, k2: int)
    requires
        first_unkeyed(coins, keys, k1),
        first_unkeyed(coins, keys, k2),
    ensures
        k1 == k2,
{
    if k1 < k2 {
        assert(keys.contains(coins[k1].puzzle_hash@));
    } else if k2 < k1 {
        assert(keys.contains(coins[k2].puzzle_hash@));
    }
}

/// The reclaim spends for the cancellable coins.
pub fn reclaim_plan(coins: &Vec<Coin>, fee: u64) -> (r: Vec<Reclaim>)
    ensures
        r@ == reclaim_plan_of(coins@, fee),
{
    let mut plan: Vec<Reclaim> = Vec::new();
    let mut fee_pending = fee;
    let n = coins.len();
    let mut i: usize = 0;
    while i < n
        invariant
            n == coins@.len(),
            i <= n,
            fee_pending == (if i == 0 { fee } else { 0 }),
            plan@ == reclaim_plan_of(coins@.take(i as int), fee),
        decreases n - i,
    {
        let reserve_fee = if fee_pending > 0 {
            let f = fee_pending;
            fee_pending = 0;
            Some(f)
        } else {
            None
        };
        plan.push(Reclaim { coin: coins[i], reserve_fee });
        assert(plan@ =~= reclaim_plan_of(coins@.take(i + 1), fee));
        i = i + 1;
    }
    assert(coins@.take(n as int) =~= coins@);
    plan
}

/// Reclaiming reserves the fee exactly once: the plan's reserved total is the fee when there is
/// a coin to reclaim, and every reclaim spends its coin's full amount.
pub proof fn lemma_fee_reserved_once(coins: Seq<Coin>, fee: u64)
    ensures
        reserved_total(reclaim_plan_of(coins, fee)) == (if coins.len() > 0 { fee as int } else { 0 }),
        forall|i: int|
            0 <= i < coins.len() ==> (#[trigger] reclaim_plan_of(coins, fee)[i]).coin == coins[i],
        forall|i: int|
            0 < i < coins.len() ==> (#[trigger] reclaim_plan_of(coins, fee)[i]).reserve_fee
                is None,
    decreases coins.len(),
{
    if coins.len() > 0 {
        lemma_fee_reserved_once(coins.drop_last(), fee);
        assert(reclaim_plan_of(coins, fee).drop_last() =~= reclaim_plan_of(coins.drop_last(), fee));
    }
}

/// Builds the message for an offered coin without an owner key.
fn no_key_message(puzzle_hash: &Bytes32) -> (m: String)
    ensures
        m@ == no_key_text(puzzle_hash@),
{
    let mut m = String::from_str("no key for offered coin ");
    push_hex(&mut m, puzzle_hash);
    m.append(
        " (cancel supports standard-layer (XCH) offered coins; reclaim a CAT/NFT offered coin through its native layer)",
    );
    m
}

/// `t` is a trail of contexts from `ctx0`: each a later state of the one before.
pub open spec fn ctx_trail(t: Seq<SpendContext>, ctx0: SpendContext) -> bool {
    &&& t.len() >= 1
    &&& t[0] == ctx0
    &&& forall|i: int, j: int|
        #![trigger t[i], t[j]]
        0 <= i && j == i + 1 && j < t.len() ==> ctx_extends(t[i], t[j])
}

/// The standard spend of reclaim `j` of `coins`, with conditions `cs` holding that reclaim's
/// conditions, fails in the context ending the trail `t` from `ctx0`.
pub open spec fn reclaim_fails(
    coins: Seq<Coin>,
    keys: IndexMap<chia_protocol::Bytes32, PublicKey>,
    reclaim_puzzle_hash: Bytes32,
    fee: u64,
    ctx0: SpendContext,
    j: int,
    cs: Conditions,
    t: Seq<SpendContext>,
) -> bool {
    &&& ctx_trail(t, ctx0)
    &&& 0 <= j < coins.len()
    &&& owner_key_set(keys).contains(coins[j].puzzle_hash@)
    &&& conditions_of(cs) == reclaim_conditions(reclaim_puzzle_hash, reclaim_plan_of(coins, fee)[j])
    &&& !standard_spend_ok(owner_key_of(keys, coins[j].puzzle_hash@), coins[j], cs, t.last())
}

/// Some standard spend among reclaims `0..bound` of `coins` failed, in a later state of `ctx0`.
pub open spec fn some_reclaim_fails(
    coins: Seq<Coin>,
    keys: IndexMap<chia_protocol::Bytes32, PublicKey>,
    reclaim_puzzle_hash: Bytes32,
    fee: u64,
    ctx0: SpendContext,
    bound: int,
) -> bool {
    exists|j: int, cs: Conditions, t: Seq<SpendContext>|
        j < bound && #[trigger] reclaim_fails(coins, keys, reclaim_puzzle_hash, fee, ctx0, j, cs, t)
}

/// What reclaiming the cancellable `coins` in the context `ctx0` gives: no coins is refused;
/// the first coin without an owner key is refused by its puzzle hash, unless the standard spend
/// of an earlier coin failed in a later state of `ctx0`; otherwise `Ok` with the reclaim spends
/// after the spends `ctx0` had collected, unless a standard spend failed there.
pub open spec fn reclaim_outcome(
    coins: Seq<Coin>,
    keys: IndexMap<chia_protocol::Bytes32, PublicKey>,
    reclaim_puzzle_hash: Bytes32,
    fee: u64,
    ctx0: SpendContext,
    r: Result<UnsignedCancel, Error>,
) -> bool {
    let pending0 = pending_spends_of(ctx0);
    &&& coins.len() == 0 ==> (r matches Err(e) && e.is_invalid_input(no_cancellable_text()))
    &&& forall|k: int|
        #[trigger] first_unkeyed(coins, owner_key_set(keys), k) ==> (r matches Err(e) && (
        e.is_invalid_input(no_key_text(coins[k].puzzle_hash@)) || (e is Driver && some_reclaim_fails(
            coins,
            keys,
            reclaim_puzzle_hash,
            fee,
            ctx0,
            k,
        ))))
    &&& coins.len() > 0 && (forall|i: int|
        0 <= i < coins.len() ==> owner_key_set(keys).contains(#[trigger] coins[i].puzzle_hash@))
        ==> (r is Ok || r matches Err(Error::Driver(_)))
    &&& r matches Err(Error::Driver(_)) ==> some_reclaim_fails(
        coins,
        keys,
        reclaim_puzzle_hash,
        fee,
        ctx0,
        coins.len() as int,
    )
    &&& r matches Err(e) ==> (e is Driver || e is InvalidInput)
    &&& r is Ok ==> coins.len() > 0 && forall|i: int|
        0 <= i < coins.len() ==> owner_key_set(keys).contains(#[trigger] coins[i].puzzle_hash@)
    &&& r matches Ok(u) ==> u.coin_spends@.len() >= pending0.len() && u.coin_spends@.take(
        pending0.len() as int,
    ) == pending0 && are_reclaim_spends(
        u.coin_spends@.skip(pending0.len() as int),
        coins,
        keys,
        reclaim_puzzle_hash,
        fee,
    )
}

/// A successful reclaim pays every cancellable coin back to the reclaim address: after the
/// spends the context had collected come one spend per coin, in order, spending that coin under
/// its owner key, whose first condition creates a coin of the coin's whole amount at
/// `reclaim_puzzle_hash`; only the first carries a second condition, reserving the fee, and only
/// when the fee is positive.
pub proof fn lemma_reclaims_pay_the_reclaim_address(
    coins: Seq<Coin>,
    keys: IndexMap<chia_protocol::Bytes32, PublicKey>,
    reclaim_puzzle_hash: Bytes32,
    fee: u64,
    ctx0: SpendContext,
    u: UnsignedCancel,
)
    requires
        reclaim_outcome(coins, keys, reclaim_puzzle_hash, fee, ctx0, Ok(u)),
    ensures
        u.coin_spends@.len() == pending_spends_of(ctx0).len() + coins.len(),
        forall|i: int|
            0 <= i < coins.len() ==> {
                let cs = #[trigger] u.coin_spends@[pending_spends_of(ctx0).len() + i];
                &&& spend_coin_of(cs) == coins[i]
                &&& spend_key_of(cs) == owner_key_of(keys, coins[i].puzzle_hash@)
                &&& delegated_conditions_of(cs)[0] == (CoinCondition::CreateCoin {
                    puzzle_hash: reclaim_puzzle_hash,
                    amount: coins[i].amount,
                })
                &&& delegated_conditions_of(cs).len() == (if i == 0 && fee > 0 { 2int } else { 1int })
                &&& (i == 0 && fee > 0 ==> delegated_conditions_of(cs)[1] == CoinCondition::ReserveFee(fee))
            },
{
    let p = pending_spends_of(ctx0).len() as int;
    let tail = u.coin_spends@.skip(p);
    assert forall|i: int| 0 <= i < coins.len() implies {
        let cs = #[trigger] u.coin_spends@[p + i];
        &&& spend_coin_of(cs) == coins[i]
        &&& spend_key_of(cs) == owner_key_of(keys, coins[i].puzzle_hash@)
        &&& delegated_conditions_of(cs)[0] == (CoinCondition::CreateCoin {
            puzzle_hash: reclaim_puzzle_hash,
            amount: coins[i].amount,
        })
        &&& delegated_conditions_of(cs).len() == (if i == 0 && fee > 0 { 2int } else { 1int })
        &&& (i == 0 && fee > 0 ==> delegated_conditions_of(cs)[1] == CoinCondition::ReserveFee(fee))
    } by {
        assert(tail[i] == u.coin_spends@[p + i]);
        assert(spend_coin_of(tail[i]) == coins[i]);
    }
}

/// Builds the unsigned spends that reclaim the cancellable `coins` to `reclaim_puzzle_hash`,
/// each through the standard layer of its owner key, reserving `fee` on the first spend.
pub fn build_reclaims(
    ctx: &mut SpendContext,
    coins: Vec<Coin>,
    reclaim_puzzle_hash: Bytes32,
    owner_keys: &IndexMap<chia_protocol::Bytes32, PublicKey>,
    fee: u64,
) -> (r: Result<UnsignedCancel, Error>)
    ensures
        reclaim_outcome(
            coins@,
            *owner_keys,
            reclaim_puzzle_hash,
            fee,
            *old(ctx),
            r,
        ),
{
    if coins.len() == 0 {
        let res = Err(
            Error::InvalidInput(
                String::from_str(
                    "no cancellable coins in this offer (already settled, or not the maker's)",
                ),
            ),
        );
        proof {
            assert forall|k: int| !first_unkeyed(coins@, owner_key_set(*owner_keys), k) by {}
        }
        return res;
    }
    let plan = reclaim_plan(&coins, fee);
    let ghost before = pending_spends_of(*old(ctx));
    let n = plan.len();
    let mut i: usize = 0;
    assert(pending_spends_of(*ctx).skip(before.len() as int).len() == 0);
    let ghost mut trail: Seq<SpendContext> = seq![*ctx];
    while i < n
        invariant
            ctx_trail(trail, *old(ctx)),
            trail.last() == *ctx,
            pending_spends_of(*ctx).len() == before.len() + i,
            pending_spends_of(*ctx).take(before.len() as int) == before,
            forall|j: int|
                0 <= j < i ==> {
                    &&& spend_coin_of(#[trigger] pending_spends_of(*ctx)[before.len() + j])
                        == coins@[j]
                    &&& spend_key_of(pending_spends_of(*ctx)[before.len() + j]) == owner_key_of(
                        *owner_keys,
                        coins@[j].puzzle_hash@,
                    )
                    &&& delegated_conditions_of(pending_spends_of(*ctx)[before.len() + j])
                        == reclaim_conditions(reclaim_puzzle_hash, plan@[j])
                },
            n == plan@.len(),
            n == coins@.len(),
            n > 0,
            plan@ == reclaim_plan_of(coins@, fee),
            i <= n,
            forall|j: int|
                0 <= j < i ==> owner_key_set(*owner_keys).contains(#[trigger] coins@[j].puzzle_hash@),
        decreases n - i,
    {
        let item = plan[i];
        let coin = item.coin;
        let key = match owner_key(owner_keys, &coin.puzzle_hash) {
            Some(k) => k,
            None => {
                let m = no_key_message(&coin.puzzle_hash);
                assert(no_key_text(coin.puzzle_hash@) == m@);
                let res = Err(Error::InvalidInput(m));
                proof {
                    let keys = owner_key_set(*owner_keys);
                    assert(coins@[i as int] == coin);
                    assert(first_unkeyed(coins@, keys, i as int));
                    assert forall|k: int| #[trigger] first_unkeyed(coins@, keys, k) implies k
                        == i by {
                        lemma_first_unkeyed_unique(coins@, keys, k, i as int);
                    }
                }
                return res;
            },
        };
        let mut conditions = create_coin_conditions(reclaim_puzzle_hash, coin.amount);
        match item.reserve_fee {
            Some(f) => {
                conditions = conditions_reserve_fee(conditions, f);
            },
            None => {},
        }
        assert(conditions_of(conditions) == reclaim_conditions(reclaim_puzzle_hash, item));
        let ghost prev = pending_spends_of(*ctx);
        let ghost prev_ctx = *ctx;
        let ghost cs = conditions;
        match standard_spend(ctx, key, coin, conditions) {
            Ok(()) => {},
            Err(e) => {
                let res = Err(Error::Driver(e));
                proof {
                    let keys = owner_key_set(*owner_keys);
                    assert(coins@[i as int] == coin);
                    assert(reclaim_fails(
                        coins@,
                        *owner_keys,
                        reclaim_puzzle_hash,
                        fee,
                        *old(ctx),
                        i as int,
                        cs,
                        trail,
                    ));
                    assert forall|k: int| #[trigger] first_unkeyed(coins@, keys, k) implies i < k
                        && some_reclaim_fails(coins@, *owner_keys, reclaim_puzzle_hash, fee, *old(ctx), k) by {
                        if k <= i {
                            assert(keys.contains(coins@[k].puzzle_hash@));
                        }
                    }
                }
                return res;
            },
        }
        proof {
            let t2 = trail.push(*ctx);
            assert forall|a: int, b: int| 0 <= a && b == a + 1 && b < t2.len() implies ctx_extends(
                #[trigger] t2[a],
                #[trigger] t2[b],
            ) by {
                if b < trail.len() {
                    assert(t2[a] == trail[a] && t2[b] == trail[b]);
                } else {
                    assert(t2[a] == prev_ctx);
                }
            }
            trail = t2;
            let now = pending_spends_of(*ctx);
            assert(now.take(before.len() as int) =~= prev.take(before.len() as int));
            assert forall|j: int| 0 <= j < i implies #[trigger] now[before.len() + j] == prev[before.len()
                + j] by {
                assert(now.drop_last()[before.len() + j] == now[before.len() + j]);
            }
        }
        i = i + 1;
    }
    assert(reclaim_plan_of(coins@, fee).len() == coins@.len());
    let spends = context_take(ctx);
    proof {
        let tail = spends@.skip(before.len() as int);
        assert forall|i: int| 0 <= i < coins@.len() implies {
            &&& spend_coin_of(#[trigger] tail[i]) == coins@[i]
            &&& spend_key_of(tail[i]) == owner_key_of(*owner_keys, coins@[i].puzzle_hash@)
            &&& delegated_conditions_of(tail[i]) == reclaim_conditions(
                reclaim_puzzle_hash,
                reclaim_plan_of(coins@, fee)[i],
            )
        } by {
            assert(tail[i] == spends@[before.len() + i]);
        }
        assert forall|k: int| !first_unkeyed(coins@, owner_key_set(*owner_keys), k) by {
            if 0 <= k < coins@.len() {
                assert(owner_key_set(*owner_keys).contains(coins@[k].puzzle_hash@));
            }
        }
    }
    Ok(UnsignedCancel { coin_spends: spends })
}

/// Builds the unsigned spends that reclaim the offered coins of the offer in `spend_bundle` to
/// `reclaim_puzzle_hash`, reserving `fee` on the first spend. The offer is parsed in `ctx`; its
/// cancellable coins then decide the result (`build_reclaims`). Each offered coin must be a
/// standard-layer coin whose puzzle hash has a key in `owner_keys`.
pub fn cancel_build(
    ctx: &mut SpendContext,
    spend_bundle: &SpendBundle,
    reclaim_puzzle_hash: Bytes32,
    owner_keys: &IndexMap<chia_protocol::Bytes32, PublicKey>,
    fee: u64,
) -> (r: Result<UnsignedCancel, Error>)
    ensures
        !parses_in(*spend_bundle, *old(ctx)) ==> (r matches Err(e) && e.is_decode_with_prefix(
            parse_failure_prefix(),
        )),
        parses_in(*spend_bundle, *old(ctx)) && cancellable_coins_of(bundle_offer_of(*spend_bundle))
            is None ==> r matches Err(Error::Driver(_)),
        parses_in(*spend_bundle, *old(ctx)) ==> (cancellable_coins_of(
            bundle_offer_of(*spend_bundle),
        ) matches Some(coins) ==> exists|c: SpendContext|
            #![trigger reclaim_outcome(coins, *owner_keys, reclaim_puzzle_hash, fee, c, r)]
            ctx_extends(*old(ctx), c) && pending_spends_of(c) == pending_spends_of(*old(ctx))
                && reclaim_outcome(coins, *owner_keys, reclaim_puzzle_hash, fee, c, r)),
        r matches Err(Error::Decode(m)) ==> Error::Decode(m).is_decode_with_prefix(
            parse_failure_prefix(),
        ),
        !(r matches Err(Error::Incompatible(_))),
{
    let offer = match parse(ctx, spend_bundle) {
        Ok(o) => o,
        Err(e) => return Err(e),
    };
    let coins = match offer_cancellable_coins(&offer) {
        Ok(c) => c,
        Err(e) => return Err(Error::Driver(e)),
    };
    assert(cancellable_coins_of(bundle_offer_of(*spend_bundle)) == Some(coins@));
    let ghost cp = *ctx;
    let ghost cs = coins@;
    let res = build_reclaims(ctx, coins, reclaim_puzzle_hash, owner_keys, fee);
    assert(reclaim_outcome(cs, *owner_keys, reclaim_puzzle_hash, fee, cp, res));
    res
}

} // verus!
