//! Combining several one-sided offers into one offer a single taker settles atomically. The
//! combine is refused when two inputs spend the same offered coin, or their metadata conflicts.
use vstd::prelude::*;
use vstd::seq_lib::lemma_multiset_commutative;
use crate::error::Error;
use crate::hydrate::{parse, parse_failure_prefix};
use crate::make::coin_id_view;
use crate::sdk::{
    coin_id_of,
    all_carriers, bundle_coins_of, offer_bundle_coins_of, real_coins, bundle_offer_of,
    bundle_signature_of, bundles_in, extends, merge_requests, offer_requests_of,
    offer_signature_of, parses_in, requests_carrier_count, requests_of, same_readings,
    settlement_hash, signature_sum_of, Requests, offer_bundle_in,
    bundle_coins, coin_id, context_new, driver_error_text, hash_views, offer_extend,
    offer_to_spend_bundle,
};
use crate::text::{bytes32_eq, bytes32_is_zero, prefixed};
use crate::types::{Bytes32, Coin};
use chia_protocol::SpendBundle;
use chia_wallet_sdk::chia::bls::Signature;
use chia_wallet_sdk::driver::{Offer, SpendContext};

verus! {

/// A phantom carrier of requested payments: a coin with a zero parent id, not a spent coin.
pub open spec fn is_phantom(c: Coin) -> bool {
    c.parent_coin_info@ == Seq::new(32, |_i: int| 0u8)
}

/// The ids of the real (non-phantom) coins spent by one bundle, in order.
pub open spec fn spent_ids(coins: Seq<Coin>) -> Seq<Seq<u8>>
    decreases coins.len(),
{
    if coins.len() == 0 {
        Seq::empty()
    } else {
        spent_ids(coins.drop_last()) + if is_phantom(coins.last()) {
            Seq::empty()
        } else {
            seq![coin_id_view(coins.last())]
        }
    }
}

/// The ids of the real coins spent by all bundles, bundle by bundle.
pub open spec fn all_spent_ids(bundles: Seq<Seq<Coin>>) -> Seq<Seq<u8>>
    decreases bundles.len(),
{
    if bundles.len() == 0 {
        Seq::empty()
    } else {
        all_spent_ids(bundles.drop_last()) + spent_ids(bundles.last())
    }
}

/// Some id occurs twice.
pub open spec fn has_repeat(ids: Seq<Seq<u8>>) -> bool {
    exists|i: int, j: int| 0 <= i < j < ids.len() && ids[i] == ids[j]
}

/// The coin lists of a list of bundles, as sequences.
pub open spec fn coin_lists(bundles: Seq<Vec<Coin>>) -> Seq<Seq<Coin>> {
    bundles.map_values(|b: Vec<Coin>| b@)
}

pub open spec fn double_spend_text() -> Seq<char> {
    "two offers spend the same offered coin (double-spend)"@
}

pub open spec fn too_few_text() -> Seq<char> {
    "combine requires at least two offers"@
}

pub open spec fn merge_failure_prefix() -> Seq<char> {
    "offers cannot be merged: "@
}

proof fn lemma_spent_ids_concat(a: Seq<Coin>, b: Seq<Coin>)
    ensures
        spent_ids(a + b) == spent_ids(a) + spent_ids(b),
    decreases b.len(),
{
    if b.len() == 0 {
        assert(a + b =~= a);
        assert(spent_ids(a) + spent_ids(b) =~= spent_ids(a));
    } else {
        lemma_spent_ids_concat(a, b.drop_last());
        assert((a + b).drop_last() =~= a + b.drop_last());
        assert(spent_ids(a + b) =~= spent_ids(a) + spent_ids(b));
    }
}

proof fn lemma_all_spent_ids_concat(a: Seq<Seq<Coin>>, b: Seq<Seq<Coin>>)
    ensures
        all_spent_ids(a + b) == all_spent_ids(a) + all_spent_ids(b),
    decreases b.len(),
{
    if b.len() == 0 {
        assert(a + b =~= a);
        assert(all_spent_ids(a) + all_spent_ids(b) =~= all_spent_ids(a));
    } else {
        lemma_all_spent_ids_concat(a, b.drop_last());
        assert((a + b).drop_last() =~= a + b.drop_last());
        assert(all_spent_ids(a + b) =~= all_spent_ids(a) + all_spent_ids(b));
    }
}

proof fn lemma_repeat_extends(a: Seq<Seq<u8>>, b: Seq<Seq<u8>>)
    requires
        has_repeat(a),
    ensures
        has_repeat(a + b),
{
    let (i, j) = choose|i: int, j: int| 0 <= i < j < a.len() && a[i] == a[j];
    assert((a + b)[i] == a[i] && (a + b)[j] == a[j]);
}

proof fn lemma_all_spent_ids_single(b: Seq<Coin>)
    ensures
        all_spent_ids(seq![b]) == spent_ids(b),
{
    let e = Seq::<Seq<Coin>>::empty();
    assert(all_spent_ids(e) == Seq::<Seq<u8>>::empty());
    assert(seq![b].drop_last() =~= e);
    assert(seq![b].last() == b);
    assert(all_spent_ids(seq![b]) =~= spent_ids(b));
}

/// Listing the same bundles in another order spends the same coins.
proof fn lemma_all_spent_ids_reorder(b1: Seq<Seq<Coin>>, b2: Seq<Seq<Coin>>)
    requires
        b1.to_multiset() == b2.to_multiset(),
    ensures
        all_spent_ids(b1).to_multiset() == all_spent_ids(b2).to_multiset(),
    decreases b1.len(),
{
    broadcast use vstd::multiset::group_multiset_axioms;
    broadcast use vstd::seq_lib::group_to_multiset_ensures;

    if b1.len() == 0 {
        assert(b1.to_multiset().len() == 0);
        assert(b2.to_multiset().len() == b2.len());
        assert(b1 =~= b2);
    } else {
        let x = b1.last();
        let rest1 = b1.drop_last();
        assert(rest1.push(x) =~= b1);
        assert(b2.to_multiset().count(x) > 0);
        let i = choose|i: int| 0 <= i < b2.len() && b2[i] == x;
        let rest2 = b2.remove(i);
        assert(rest1.to_multiset() =~= b1.to_multiset().remove(x));
        assert(rest2.to_multiset() =~= b2.to_multiset().remove(x));
        lemma_all_spent_ids_reorder(rest1, rest2);
        let pre = b2.take(i);
        let post = b2.skip(i + 1);
        assert(b2 =~= pre + seq![x] + post);
        assert(rest2 =~= pre + post);
        lemma_all_spent_ids_concat(pre + seq![x], post);
        lemma_all_spent_ids_concat(pre, seq![x]);
        lemma_all_spent_ids_concat(pre, post);
        lemma_all_spent_ids_single(x);
        let ix = spent_ids(x);
        let a = all_spent_ids(pre);
        let c = all_spent_ids(post);
        assert(all_spent_ids(b2) == a + ix + c);
        assert(all_spent_ids(b1) == all_spent_ids(rest1) + ix);
        lemma_multiset_commutative(a + ix, c);
        lemma_multiset_commutative(a, ix);
        lemma_multiset_commutative(a, c);
        lemma_multiset_commutative(all_spent_ids(rest1), ix);
        assert(all_spent_ids(b1).to_multiset() =~= all_spent_ids(b2).to_multiset());
    }
}

/// An id repeats exactly when the multiset of ids counts some id more than once.
proof fn lemma_repeat_by_count(ids: Seq<Seq<u8>>)
    ensures
        has_repeat(ids) <==> !(forall|x: Seq<u8>|
            ids.to_multiset().contains(x) ==> ids.to_multiset().count(x) == 1),
{
    broadcast use vstd::multiset::group_multiset_axioms;

    if has_repeat(ids) {
        let (i, j) = choose|i: int, j: int| 0 <= i < j < ids.len() && ids[i] == ids[j];
        if forall|x: Seq<u8>| ids.to_multiset().contains(x) ==> ids.to_multiset().count(x) == 1 {
            ids.lemma_multiset_has_no_duplicates_conv();
            assert(ids[i] != ids[j]);
        }
    } else {
        assert(ids.no_duplicates());
        ids.lemma_multiset_has_no_duplicates();
    }
}

/// Whether combining finds two members spending the same offered coin does not depend on the
/// order in which the members are given.
pub proof fn lemma_shared_coin_order_free(b1: Seq<Seq<Coin>>, b2: Seq<Seq<Coin>>)
    requires
        b1.to_multiset() == b2.to_multiset(),
    ensures
        has_repeat(all_spent_ids(b1)) == has_repeat(all_spent_ids(b2)),
{
    lemma_all_spent_ids_reorder(b1, b2);
    lemma_repeat_by_count(all_spent_ids(b1));
    lemma_repeat_by_count(all_spent_ids(b2));
}

/// The coin at position `i` of bundle `a` is a real coin: its parent id is not all zeros.
pub open spec fn real_at(bs: Seq<Seq<Coin>>, a: int, i: int) -> bool {
    &&& 0 <= a < bs.len()
    &&& 0 <= i < bs[a].len()
    &&& bs[a][i].parent_coin_info@ != Seq::new(32, |_k: int| 0u8)
}

/// The coin id of the coin at position `i` of bundle `a`.
pub open spec fn id_at(bs: Seq<Seq<Coin>>, a: int, i: int) -> Seq<u8> {
    coin_id_of(bs[a][i].parent_coin_info@, bs[a][i].puzzle_hash@, bs[a][i].amount)
}

/// How many of the ids of `coins` come before coin `k`.
spec fn rank(coins: Seq<Coin>, k: int) -> int {
    spent_ids(coins.take(k)).len() as int
}

proof fn lemma_spent_ids_one(c: Coin)
    ensures
        spent_ids(seq![c]) == (if is_phantom(c) {
            Seq::<Seq<u8>>::empty()
        } else {
            seq![coin_id_view(c)]
        }),
{
    assert(seq![c].drop_last() =~= Seq::<Coin>::empty());
    assert(seq![c].last() == c);
    assert(spent_ids(Seq::<Coin>::empty()) == Seq::<Seq<u8>>::empty());
    if is_phantom(c) {
        assert(spent_ids(seq![c]) =~= Seq::<Seq<u8>>::empty());
    } else {
        assert(spent_ids(seq![c]) =~= seq![coin_id_view(c)]);
    }
}

proof fn lemma_rank_places_coin(coins: Seq<Coin>, k: int)
    requires
        0 <= k < coins.len(),
        !is_phantom(coins[k]),
    ensures
        rank(coins, k) < spent_ids(coins).len(),
        spent_ids(coins)[rank(coins, k)] == coin_id_view(coins[k]),
        spent_ids(coins.take(k + 1)).len() == rank(coins, k) + 1,
{
    let pre = coins.take(k);
    let post = coins.skip(k + 1);
    assert(coins =~= pre + seq![coins[k]] + post);
    assert(coins.take(k + 1) =~= pre + seq![coins[k]]);
    lemma_spent_ids_concat(pre + seq![coins[k]], post);
    lemma_spent_ids_concat(pre, seq![coins[k]]);
    lemma_spent_ids_one(coins[k]);
}

proof fn lemma_spent_ids_prefix_len(coins: Seq<Coin>, k1: int, k2: int)
    requires
        0 <= k1 <= k2 <= coins.len(),
    ensures
        spent_ids(coins.take(k1)).len() <= spent_ids(coins.take(k2)).len(),
{
    assert(coins.take(k2) =~= coins.take(k1) + coins.subrange(k1, k2));
    lemma_spent_ids_concat(coins.take(k1), coins.subrange(k1, k2));
}

proof fn lemma_rank_onto(coins: Seq<Coin>, m: int)
    requires
        0 <= m < spent_ids(coins).len(),
    ensures
        exists|k: int| 0 <= k < coins.len() && !is_phantom(coins[k]) && #[trigger] rank(coins, k) == m,
    decreases coins.len(),
{
    let rest = coins.drop_last();
    let c = coins.last();
    assert(coins =~= rest + seq![c]);
    lemma_spent_ids_concat(rest, seq![c]);
    lemma_spent_ids_one(c);
    if m < spent_ids(rest).len() {
        lemma_rank_onto(rest, m);
        let k = choose|k: int| 0 <= k < rest.len() && !is_phantom(rest[k]) && #[trigger] rank(rest, k) == m;
        assert(rest.take(k) =~= coins.take(k));
        assert(rank(coins, k) == m);
    } else {
        let k = coins.len() - 1;
        assert(coins.take(k) =~= rest);
        assert(rank(coins, k) == m);
    }
}

/// Where the ids of bundle `a` start among the ids of all bundles.
spec fn offset(bs: Seq<Seq<Coin>>, a: int) -> int {
    all_spent_ids(bs.take(a)).len() as int
}

proof fn lemma_gpos_places_coin(bs: Seq<Seq<Coin>>, a: int, i: int)
    requires
        0 <= a < bs.len(),
        0 <= i < bs[a].len(),
        !is_phantom(bs[a][i]),
    ensures
        offset(bs, a) + rank(bs[a], i) < all_spent_ids(bs).len(),
        all_spent_ids(bs)[offset(bs, a) + rank(bs[a], i)] == coin_id_view(bs[a][i]),
        offset(bs, a + 1) == offset(bs, a) + spent_ids(bs[a]).len(),
{
    let pre = bs.take(a);
    let post = bs.skip(a + 1);
    assert(bs =~= pre + seq![bs[a]] + post);
    assert(bs.take(a + 1) =~= pre + seq![bs[a]]);
    lemma_all_spent_ids_concat(pre + seq![bs[a]], post);
    lemma_all_spent_ids_concat(pre, seq![bs[a]]);
    lemma_all_spent_ids_single(bs[a]);
    lemma_rank_places_coin(bs[a], i);
}

proof fn lemma_offset_monotone(bs: Seq<Seq<Coin>>, a1: int, a2: int)
    requires
        0 <= a1 <= a2 <= bs.len(),
    ensures
        offset(bs, a1) <= offset(bs, a2),
{
    assert(bs.take(a2) =~= bs.take(a1) + bs.subrange(a1, a2));
    lemma_all_spent_ids_concat(bs.take(a1), bs.subrange(a1, a2));
}

proof fn lemma_gpos_distinct(bs: Seq<Seq<Coin>>, a1: int, i1: int, a2: int, i2: int)
    requires
        0 <= a1 < bs.len(),
        0 <= i1 < bs[a1].len(),
        !is_phantom(bs[a1][i1]),
        0 <= a2 < bs.len(),
        0 <= i2 < bs[a2].len(),
        !is_phantom(bs[a2][i2]),
        a1 < a2 || (a1 == a2 && i1 < i2),
    ensures
        offset(bs, a1) + rank(bs[a1], i1) < offset(bs, a2) + rank(bs[a2], i2),
{
    if a1 == a2 {
        lemma_rank_places_coin(bs[a1], i1);
        lemma_spent_ids_prefix_len(bs[a1], i1 + 1, i2);
    } else {
        lemma_gpos_places_coin(bs, a1, i1);
        lemma_rank_places_coin(bs[a1], i1);
        lemma_spent_ids_prefix_len(bs[a1], i1 + 1, bs[a1].len() as int);
        assert(bs[a1].take(bs[a1].len() as int) =~= bs[a1]);
        lemma_offset_monotone(bs, a1 + 1, a2);
    }
}

proof fn lemma_gpos_onto(bs: Seq<Seq<Coin>>, m: int)
    requires
        0 <= m < all_spent_ids(bs).len(),
    ensures
        exists|a: int, i: int|
            0 <= a < bs.len() && 0 <= i < bs[a].len() && !is_phantom(bs[a][i]) && #[trigger] offset(
                bs,
                a,
            ) + #[trigger] rank(bs[a], i) == m,
    decreases bs.len(),
{
    let rest = bs.drop_last();
    let last = bs.last();
    assert(bs =~= rest + seq![last]);
    lemma_all_spent_ids_concat(rest, seq![last]);
    lemma_all_spent_ids_single(last);
    if m < all_spent_ids(rest).len() {
        lemma_gpos_onto(rest, m);
        let (a, i) = choose|a: int, i: int|
            0 <= a < rest.len() && 0 <= i < rest[a].len() && !is_phantom(rest[a][i]) && #[trigger] offset(
                rest,
                a,
            ) + #[trigger] rank(rest[a], i) == m;
        assert(rest.take(a) =~= bs.take(a));
        assert(rest[a] == bs[a]);
        assert(offset(bs, a) + rank(bs[a], i) == m);
    } else {
        let a = bs.len() - 1;
        let mm = m - all_spent_ids(rest).len();
        lemma_rank_onto(last, mm);
        let i = choose|k: int| 0 <= k < last.len() && !is_phantom(last[k]) && #[trigger] rank(last, k) == mm;
        assert(bs.take(a) =~= rest);
        assert(bs[a] == last);
        assert(offset(bs, a) + rank(bs[a], i) == m);
    }
}

/// A combine is refused for a shared offered coin exactly when two real (non-zero-parent) coins
/// at different places across the members have the same coin id, `coin_id_of(parent, puzzle
/// hash, amount)`: members whose real coins have pairwise distinct ids are never refused, and
/// two real coins with one id always are.
pub proof fn lemma_refused_exactly_on_a_shared_coin_id(bs: Seq<Seq<Coin>>)
    ensures
        has_repeat(all_spent_ids(bs)) <==> exists|a: int, i: int, b: int, j: int|
            #![trigger id_at(bs, a, i), id_at(bs, b, j)]
            real_at(bs, a, i) && real_at(bs, b, j) && (a != b || i != j) && id_at(bs, a, i)
                == id_at(bs, b, j),
{
    let all = all_spent_ids(bs);
    if has_repeat(all) {
        let (m1, m2) = choose|m1: int, m2: int| 0 <= m1 < m2 < all.len() && all[m1] == all[m2];
        lemma_gpos_onto(bs, m1);
        let (a, i) = choose|a: int, i: int|
            0 <= a < bs.len() && 0 <= i < bs[a].len() && !is_phantom(bs[a][i]) && #[trigger] offset(
                bs,
                a,
            ) + #[trigger] rank(bs[a], i) == m1;
        lemma_gpos_onto(bs, m2);
        let (b, j) = choose|a: int, i: int|
            0 <= a < bs.len() && 0 <= i < bs[a].len() && !is_phantom(bs[a][i]) && #[trigger] offset(
                bs,
                a,
            ) + #[trigger] rank(bs[a], i) == m2;
        lemma_gpos_places_coin(bs, a, i);
        lemma_gpos_places_coin(bs, b, j);
        assert(real_at(bs, a, i) && real_at(bs, b, j));
        assert(id_at(bs, a, i) == id_at(bs, b, j));
    }
    if exists|a: int, i: int, b: int, j: int|
        #![trigger id_at(bs, a, i), id_at(bs, b, j)]
        real_at(bs, a, i) && real_at(bs, b, j) && (a != b || i != j) && id_at(bs, a, i) == id_at(
            bs,
            b,
            j,
        ) {
        let (a, i, b, j) = choose|a: int, i: int, b: int, j: int|
            #![trigger id_at(bs, a, i), id_at(bs, b, j)]
            real_at(bs, a, i) && real_at(bs, b, j) && (a != b || i != j) && id_at(bs, a, i)
                == id_at(bs, b, j);
        lemma_gpos_places_coin(bs, a, i);
        lemma_gpos_places_coin(bs, b, j);
        let g1 = offset(bs, a) + rank(bs[a], i);
        let g2 = offset(bs, b) + rank(bs[b], j);
        if a < b || (a == b && i < j) {
            lemma_gpos_distinct(bs, a, i, b, j);
            assert(all[g1] == all[g2]);
        } else {
            lemma_gpos_distinct(bs, b, j, a, i);
            assert(all[g2] == all[g1]);
        }
    }
}

/// Whether `id` is among the recorded ids.
fn contains_id(seen: &Vec<Bytes32>, id: &Bytes32) -> (r: bool)
    ensures
        r == hash_views(seen@).contains(id@),
{
    let n = seen.len();
    let mut i: usize = 0;
    while i < n
        invariant
            n == seen@.len(),
            i <= n,
            forall|k: int| 0 <= k < i ==> seen@[k]@ != id@,
        decreases n - i,
    {
        if bytes32_eq(&seen[i], id) {
            assert(hash_views(seen@)[i as int] == id@);
            return true;
        }
        i = i + 1;
    }
    assert forall|k: int| 0 <= k < hash_views(seen@).len() implies hash_views(seen@)[k] != id@ by {
        assert(hash_views(seen@)[k] == seen@[k]@);
    }
    false
}

/// Fails if any real (non-phantom) offered coin is spent more than once across the bundles'
/// coin lists.
pub fn reject_shared_offered_coins(bundles: &Vec<Vec<Coin>>) -> (r: Result<(), Error>)
    ensures
        r is Ok <==> !has_repeat(all_spent_ids(coin_lists(bundles@))),
        r matches Err(e) ==> e.is_incompatible(double_spend_text()),
{
    let ghost all = coin_lists(bundles@);
    let mut seen: Vec<Bytes32> = Vec::new();
    let n = bundles.len();
    let mut i: usize = 0;
    assert(all.take(0) =~= Seq::<Seq<Coin>>::empty());
    while i < n
        invariant
            n == bundles@.len(),
            all == coin_lists(bundles@),
            i <= n,
            hash_views(seen@) == all_spent_ids(all.take(i as int)),
            !has_repeat(hash_views(seen@)),
        decreases n - i,
    {
        let coins = &bundles[i];
        let ghost before = hash_views(seen@);
        let m = coins.len();
        let mut j: usize = 0;
        assert(coins@.take(0) =~= Seq::<Coin>::empty());
        while j < m
            invariant
                m == coins@.len(),
                j <= m,
                i < n,
                n == all.len(),
                coins@ == all[i as int],
                before == all_spent_ids(all.take(i as int)),
                all == coin_lists(bundles@),
                hash_views(seen@) == before + spent_ids(coins@.take(j as int)),
                !has_repeat(hash_views(seen@)),
            decreases m - j,
        {
            let c = coins[j];
            assert(coins@.take(j + 1).drop_last() =~= coins@.take(j as int));
            if !bytes32_is_zero(&c.parent_coin_info) {
                let id = coin_id(&c);
                if contains_id(&seen, &id) {
                    proof {
                        let cur = before + spent_ids(coins@.take(j + 1));
                        assert(cur =~= hash_views(seen@).push(id@));
                        let k = choose|k: int|
                            0 <= k < hash_views(seen@).len() && hash_views(seen@)[k] == id@;
                        assert(cur[k] == cur[cur.len() - 1]);
                        assert(has_repeat(cur));
                        // cur is a prefix of all the ids.
                        let rest_coins = coins@.skip(j + 1);
                        assert(coins@ =~= coins@.take(j + 1) + rest_coins);
                        lemma_spent_ids_concat(coins@.take(j + 1), rest_coins);
                        lemma_repeat_extends(cur, spent_ids(rest_coins));
                        assert(all.take(i + 1).drop_last() =~= all.take(i as int));
                        assert(all.take(i + 1).last() == all[i as int]);
                        assert(all_spent_ids(all.take(i + 1)) =~= before + spent_ids(coins@));
                        assert(all =~= all.take(i + 1) + all.skip(i + 1));
                        lemma_all_spent_ids_concat(all.take(i + 1), all.skip(i + 1));
                        assert(before + spent_ids(coins@) =~= cur + spent_ids(rest_coins));
                        lemma_repeat_extends(
                            before + spent_ids(coins@),
                            all_spent_ids(all.skip(i + 1)),
                        );
                        assert(all_spent_ids(all) == all_spent_ids(all.take(i + 1))
                            + all_spent_ids(all.skip(i + 1)));
                        assert(has_repeat(all_spent_ids(all)));
                    }
                    return Err(Error::Incompatible(
                        String::from_str("two offers spend the same offered coin (double-spend)"),
                    ));
                }
                proof {
                    let s = hash_views(seen@);
                    assert(hash_views(seen@.push(id)) =~= s.push(id@));
                    assert forall|a: int, b: int|
                        0 <= a < b < s.push(id@).len() implies s.push(id@)[a] != s.push(id@)[b] by {
                        if b == s.len() {
                            assert(s[a] == s.push(id@)[a]);
                        }
                    }
                }
                seen.push(id);
                assert(hash_views(seen@) =~= before + spent_ids(coins@.take(j + 1)));
            } else {
                assert(hash_views(seen@) =~= before + spent_ids(coins@.take(j + 1)));
            }
            j = j + 1;
        }
        assert(coins@.take(m as int) =~= coins@);
        assert(all.take(i + 1).drop_last() =~= all.take(i as int));
        i = i + 1;
    }
    assert(all.take(n as int) =~= all);
    Ok(())
}

/// The first `Err` among the decode results is at `k`.
pub open spec fn first_failure(decoded: Seq<Result<SpendBundle, Error>>, k: int) -> bool {
    &&& 0 <= k < decoded.len()
    &&& decoded[k] is Err
    &&& forall|j: int| 0 <= j < k ==> #[trigger] decoded[j] is Ok
}

/// The coins each decoded member's bundle spends (none for a member that failed to decode).
pub open spec fn decoded_coins(decoded: Seq<Result<SpendBundle, Error>>) -> Seq<Seq<Coin>> {
    decoded.map_values(
        |d: Result<SpendBundle, Error>|
            match d {
                Ok(b) => bundle_coins_of(b),
                Err(_) => Seq::empty(),
            },
    )
}

/// The real (non-carrier) coins the decoded members spend, member by member.
pub open spec fn members_real_coins(decoded: Seq<Result<SpendBundle, Error>>) -> Seq<Coin>
    decreases decoded.len(),
{
    if decoded.len() == 0 {
        Seq::empty()
    } else {
        members_real_coins(decoded.drop_last()) + match decoded.last() {
            Ok(b) => real_coins(bundle_coins_of(b)),
            Err(_) => Seq::empty(),
        }
    }
}

/// What a decoded member requests, as its parsed offer's requested payments read.
pub open spec fn member_requests(d: Result<SpendBundle, Error>) -> Requests {
    match d {
        Ok(b) => requests_of(offer_requests_of(bundle_offer_of(b))),
        Err(_) => Requests {
            xch: Seq::empty(),
            cats: Map::empty(),
            nfts: Map::empty(),
            options: Set::empty(),
        },
    }
}

/// What the decoded members request together: the first member's requests, extended by each
/// later member's in turn (`RequestedPayments::extend`).
pub open spec fn members_requests(decoded: Seq<Result<SpendBundle, Error>>) -> Requests
    decreases decoded.len(),
{
    if decoded.len() <= 1 {
        member_requests(decoded[0])
    } else {
        merge_requests(members_requests(decoded.drop_last()), member_requests(decoded.last()))
    }
}

/// The signature of a decoded member's bundle.
pub open spec fn member_signature(d: Result<SpendBundle, Error>) -> Signature {
    bundle_signature_of(d->Ok_0)
}

/// The decoded members' signatures aggregated in turn, the first member's first.
pub open spec fn members_signature(decoded: Seq<Result<SpendBundle, Error>>) -> Signature
    decreases decoded.len(),
{
    if decoded.len() <= 1 {
        member_signature(decoded[0])
    } else {
        signature_sum_of(members_signature(decoded.drop_last()), member_signature(decoded.last()))
    }
}

/// The offer `acc` holds what merging the first `k` decoded members gives: their real coins'
/// spends, their requests and their aggregated signature.
pub open spec fn merged_prefix(acc: Offer, decoded: Seq<Result<SpendBundle, Error>>, k: int) -> bool {
    &&& offer_bundle_coins_of(acc) == members_real_coins(decoded.take(k))
    &&& requests_of(offer_requests_of(acc)) == members_requests(decoded.take(k))
    &&& offer_signature_of(acc) == members_signature(decoded.take(k))
}

/// The combined bundle of the decoded members: the bundle `Offer::to_spend_bundle` builds of an
/// offer merging them all, with one zero-parent carrier per kind of payment the members request
/// together (the XCH one, at the settlement puzzle hash, first), then the members' real coins'
/// spends in order, under the aggregate of their signatures.
pub open spec fn combined_bundle(decoded: Seq<Result<SpendBundle, Error>>, b: SpendBundle) -> bool {
    &&& exists|carriers: Seq<Coin>|
        #![trigger all_carriers(carriers)]
        all_carriers(carriers) && bundle_coins_of(b) == carriers + members_real_coins(decoded)
            && carriers.len() == requests_carrier_count(members_requests(decoded)) && (
        members_requests(decoded).xch.len() > 0 ==> carriers[0].puzzle_hash == settlement_hash())
    &&& bundle_signature_of(b) == members_signature(decoded)
    &&& exists|acc: Offer, c: SpendContext|
        #![trigger offer_bundle_in(acc, c)]
        merged_prefix(acc, decoded, decoded.len() as int) && b == offer_bundle_in(acc, c)
}

/// Some decoded member's bundle fails to parse in a context holding `c`.
pub open spec fn some_member_unparsed(decoded: Seq<Result<SpendBundle, Error>>) -> bool {
    exists|k: int, c: SpendContext|
        #![trigger parses_in(decoded[k]->Ok_0, c)]
        0 <= k < decoded.len() && !parses_in(decoded[k]->Ok_0, c)
}

/// Extending the merge of the first `k` members by member `k`'s parsed offer fails.
pub open spec fn some_merge_fails(decoded: Seq<Result<SpendBundle, Error>>) -> bool {
    exists|k: int, acc: Offer, next: Offer|
        #![trigger extends(acc, next), decoded[k]]
        1 <= k < decoded.len() && merged_prefix(acc, decoded, k) && same_readings(
            next,
            bundle_offer_of(decoded[k]->Ok_0),
        ) && !extends(acc, next)
}

/// Turning the merge of all members into a bundle fails in a context holding `c`.
pub open spec fn merged_unbundled(decoded: Seq<Result<SpendBundle, Error>>) -> bool {
    exists|acc: Offer, c: SpendContext|
        #![trigger bundles_in(acc, c)]
        merged_prefix(acc, decoded, decoded.len() as int) && !bundles_in(acc, c)
}

/// The message `m` starts with `prefix`.
pub open spec fn starts_with(m: Seq<char>, prefix: Seq<char>) -> bool {
    prefix.len() <= m.len() && m.subrange(0, prefix.len() as int) == prefix
}

/// What combining decoded members that all decoded gives: a shared offered coin is refused;
/// otherwise the combined bundle, or the failure of a named SDK step: a member that does not
/// parse, a merge the SDK refuses, or a merged offer it cannot turn into a bundle.
pub open spec fn combine_outcome(
    decoded: Seq<Result<SpendBundle, Error>>,
    r: Result<SpendBundle, Error>,
) -> bool {
    &&& has_repeat(all_spent_ids(decoded_coins(decoded))) ==> (r matches Err(e)
        && e.is_incompatible(double_spend_text()))
    &&& !has_repeat(all_spent_ids(decoded_coins(decoded))) ==> match r {
        Ok(b) => combined_bundle(decoded, b),
        Err(Error::Decode(m)) => starts_with(m@, parse_failure_prefix()) && some_member_unparsed(
            decoded,
        ),
        Err(Error::Incompatible(m)) => starts_with(m@, merge_failure_prefix()) && some_merge_fails(
            decoded,
        ),
        Err(Error::Driver(_)) => merged_unbundled(decoded),
        Err(_) => false,
    }
}

/// Combines the decoded offers into one offer bundle a single taker can settle atomically.
/// `decoded` holds the decode result of each member offer, in order. Requires at least two
/// offers; the first malformed member fails the combine; so does an offered coin spent by two
/// members, or a member whose metadata conflicts with the others.
#[verifier::loop_isolation(false)]
pub fn combine(decoded: Vec<Result<SpendBundle, Error>>) -> (r: Result<SpendBundle, Error>)
    ensures
        decoded@.len() < 2 ==> (r matches Err(e) && e.is_invalid_input(too_few_text())),
        decoded@.len() >= 2 ==> forall|k: int| #[trigger]
            first_failure(decoded@, k) ==> r == decoded@[k],
        decoded@.len() >= 2 && (forall|j: int| 0 <= j < decoded@.len() ==> #[trigger]
            decoded@[j] is Ok) ==> combine_outcome(decoded@, r),
        r matches Ok(b) ==> combined_bundle(decoded@, b),
{
    if decoded.len() < 2 {
        return Err(Error::InvalidInput(String::from_str("combine requires at least two offers")));
    }
    let ghost members = decoded@;
    let mut rest = decoded;
    let mut bundles: Vec<SpendBundle> = Vec::new();
    let n = rest.len();
    let mut i: usize = 0;
    while i < n
        invariant
            n == members.len(),
            i <= n,
            rest@ == members.skip(i as int),
            bundles@.len() == i,
            forall|j: int| 0 <= j < i ==> #[trigger] members[j] is Ok,
            forall|j: int| 0 <= j < i ==> #[trigger] members[j] == Ok::<SpendBundle, Error>(bundles@[j]),
        decreases n - i,
    {
        let item = rest.remove(0);
        assert(item == members[i as int]);
        match item {
            Ok(b) => bundles.push(b),
            Err(e) => {
                proof {
                    assert forall|k: int| first_failure(members, k) implies k == i by {
                        if k < i {
                        } else if k > i {
                            assert(members[i as int] is Ok);
                        }
                    }
                }
                return Err(e);
            },
        }
        assert(rest@ =~= members.skip(i + 1));
        i = i + 1;
    }
    let mut member_coins: Vec<Vec<Coin>> = Vec::new();
    let m = bundles.len();
    let mut j: usize = 0;
    while j < m
        invariant
            m == bundles@.len(),
            j <= m,
            member_coins@.len() == j,
            forall|q: int| 0 <= q < j ==> #[trigger] member_coins@[q]@ == bundle_coins_of(bundles@[q]),
        decreases m - j,
    {
        member_coins.push(bundle_coins(&bundles[j]));
        j = j + 1;
    }
    assert(coin_lists(member_coins@) =~= decoded_coins(members));
    assert(members.take(1).drop_last() =~= Seq::<Result<SpendBundle, Error>>::empty());
    match reject_shared_offered_coins(&member_coins) {
        Ok(()) => {},
        Err(e) => return Err(e),
    }
    let mut ctx = context_new();
    let ghost c0 = ctx;
    assert(members[0] == Ok::<SpendBundle, Error>(bundles@[0]));
    let mut combined = match parse(&mut ctx, &bundles[0]) {
        Ok(o) => o,
        Err(e) => {
            assert(!parses_in(members[0]->Ok_0, c0));
            return Err(e);
        },
    };
    assert(members_real_coins(Seq::<Result<SpendBundle, Error>>::empty()) == Seq::<Coin>::empty());
    assert(offer_bundle_coins_of(combined) =~= members_real_coins(members.take(1)));
    assert(members.take(1)[0] == members[0]);
    assert(merged_prefix(combined, members, 1));
    let mut k: usize = 1;
    while k < m
        invariant
            m == bundles@.len(),
            1 <= k <= m,
            merged_prefix(combined, members, k as int),
        decreases m - k,
    {
        let ghost ck = ctx;
        assert(members[k as int] == Ok::<SpendBundle, Error>(bundles@[k as int]));
        let next = match parse(&mut ctx, &bundles[k]) {
            Ok(o) => o,
            Err(e) => {
                assert(!parses_in(members[k as int]->Ok_0, ck));
                return Err(e);
            },
        };
        let ghost acc = combined;
        let ghost nx = next;
        match offer_extend(&mut combined, next) {
            Ok(()) => {},
            Err(e) => {
                let msg = prefixed("offers cannot be merged: ", driver_error_text(&e));
                proof {
                    reveal_strlit("offers cannot be merged: ");
                    assert(msg@.subrange(0, merge_failure_prefix().len() as int)
                        =~= merge_failure_prefix());
                    assert(!extends(acc, nx));
                    assert(members[k as int] == members[k as int]);
                }
                return Err(Error::Incompatible(msg));
            },
        }
        assert(members.take(k + 1).drop_last() =~= members.take(k as int));
        assert(members.take(k + 1).last() == members[k as int]);
        assert(merged_prefix(combined, members, k + 1));
        k = k + 1;
    }
    assert(members.take(m as int) =~= members);
    let ghost cm = ctx;
    let ghost acc = combined;
    match offer_to_spend_bundle(combined, &mut ctx) {
        Ok(b) => {
            assert(b == offer_bundle_in(acc, cm));
            Ok(b)
        },
        Err(e) => {
            assert(!bundles_in(acc, cm));
            Err(Error::Driver(e))
        },
    }
}

} // verus!
