//! End-to-end make / take / combine flows on the simulator: the maker builds and assembles an
//! offer, a distinct taker takes it, and the simulator accepts the settlement.

use chia_protocol::{Bytes32 as ChiaBytes32, SpendBundle};
use chia_puzzle_types::cat::CatArgs;
use chia_sdk_test::{sign_transaction, BlsPairWithCoin, Simulator};
use chia_wallet_sdk::chia::bls::{PublicKey, SecretKey};
use chia_wallet_sdk::driver::{Action, DriverError, Id, Nft, NftAssetInfo, Relation, SpendContext, Spends, StandardLayer};
use chia_wallet_sdk::types::Conditions;
use dig_offers::{
    cancel_build, combine, decode, make_assemble, make_build, summarize, take_build,
    take_combine, Bytes32, Cat, Coin, Error, LineageProof, OfferAsset, OfferedSide, RequestedSide,
    TakerFunds,
};
use indexmap::IndexMap;

fn coin_of(c: &chia_protocol::Coin) -> Coin {
    Coin {
        parent_coin_info: c.parent_coin_info.to_bytes(),
        puzzle_hash: c.puzzle_hash.to_bytes(),
        amount: c.amount,
    }
}

fn cat_of(c: &chia_wallet_sdk::driver::Cat) -> Cat {
    Cat {
        coin: coin_of(&c.coin),
        lineage_proof: c.lineage_proof.map(|l| LineageProof {
            parent_parent_coin_info: l.parent_parent_coin_info.to_bytes(),
            parent_inner_puzzle_hash: l.parent_inner_puzzle_hash.to_bytes(),
            parent_amount: l.parent_amount,
        }),
        asset_id: c.info.asset_id.to_bytes(),
        hidden_puzzle_hash: c.info.hidden_puzzle_hash.map(|h| h.to_bytes()),
        p2_puzzle_hash: c.info.p2_puzzle_hash.to_bytes(),
    }
}

fn owner_keys(owner: &BlsPairWithCoin) -> IndexMap<ChiaBytes32, PublicKey> {
    let mut keys = IndexMap::new();
    keys.insert(owner.puzzle_hash, owner.pk);
    keys
}

fn balance_at(sim: &Simulator, puzzle_hash: ChiaBytes32) -> u64 {
    sim.unspent_coins(puzzle_hash, false).iter().map(|coin| coin.amount).sum()
}

fn cat_puzzle_hash(inner: ChiaBytes32, asset_id: ChiaBytes32) -> ChiaBytes32 {
    CatArgs::curry_tree_hash(asset_id, inner.into()).into()
}

/// Issues `amount` of a fresh CAT to `owner`, returning the spendable CAT and its asset id.
fn issue_cat_to(
    sim: &mut Simulator,
    ctx: &mut SpendContext,
    owner: &BlsPairWithCoin,
    amount: u64,
) -> (chia_wallet_sdk::driver::Cat, ChiaBytes32) {
    let funding = sim.new_coin(owner.puzzle_hash, amount);
    let p2 = StandardLayer::new(owner.pk);
    let hint = ctx.hint(owner.puzzle_hash).unwrap();
    let (issue, cats) = chia_wallet_sdk::driver::Cat::single_issuance(
        ctx,
        funding.coin_id(),
        None,
        amount,
        Conditions::new().create_coin(owner.puzzle_hash, amount, hint),
    )
    .unwrap();
    p2.spend(ctx, funding, issue).unwrap();
    let asset_id = cats[0].info.asset_id;
    sim.spend_coins(ctx.take(), std::slice::from_ref(&owner.sk)).unwrap();
    (cats[0], asset_id)
}

/// Mints a royalty NFT owned by `owner` (spending `owner.coin`) and settles it on chain.
fn mint_nft_for(
    sim: &mut Simulator,
    ctx: &mut SpendContext,
    owner: &BlsPairWithCoin,
    royalty_basis_points: u16,
) -> Nft {
    let mut spends = Spends::new(owner.puzzle_hash);
    spends.add(owner.coin);
    let deltas = spends
        .apply(ctx, &[Action::mint_empty_royalty_nft(owner.puzzle_hash, royalty_basis_points)])
        .unwrap();
    let mut keys = IndexMap::new();
    keys.insert(owner.puzzle_hash, owner.pk);
    let outputs = spends.finish_with_keys(ctx, &deltas, Relation::AssertConcurrent, &keys).unwrap();
    let nft = outputs.nfts[&Id::New(0)];
    sim.spend_coins(ctx.take(), std::slice::from_ref(&owner.sk)).unwrap();
    nft
}

/// The maker's full flow: build, sign, assemble.
fn maker_offer(
    ctx: &mut SpendContext,
    offered: OfferedSide,
    requested: RequestedSide,
    fee: u64,
    secret_keys: &[SecretKey],
) -> SpendBundle {
    let unsigned = make_build(ctx, offered, requested, fee).unwrap();
    let signature = sign_transaction(&unsigned.coin_spends, secret_keys).unwrap();
    make_assemble(
        ctx,
        SpendBundle::new(unsigned.coin_spends, signature),
        unsigned.requested_payments,
        unsigned.requested_asset_info,
    )
    .unwrap()
}

/// The taker's full flow: build, sign, combine with the maker's half.
fn taker_settle(
    ctx: &mut SpendContext,
    offer: &SpendBundle,
    funds: TakerFunds,
    fee: u64,
    secret_keys: &[SecretKey],
) -> SpendBundle {
    let unsigned = take_build(ctx, offer, funds, fee).unwrap();
    let signature = sign_transaction(&unsigned.coin_spends, secret_keys).unwrap();
    take_combine(unsigned.offer, SpendBundle::new(unsigned.coin_spends, signature))
}

/// A maker offering a fresh CAT for XCH.
fn sample_cat_for_xch(
    sim: &mut Simulator,
    ctx: &mut SpendContext,
    offered_cat: u64,
    requested_xch: u64,
) -> (SpendBundle, BlsPairWithCoin, Bytes32) {
    let maker = sim.bls(0);
    let (maker_cat, asset) = issue_cat_to(sim, ctx, &maker, offered_cat);
    let offered = OfferedSide {
        change_puzzle_hash: maker.puzzle_hash.to_bytes(),
        owner_keys: owner_keys(&maker),
        xch_coins: vec![],
        cat_coins: vec![cat_of(&maker_cat)],
        nfts: vec![],
        offer_xch: 0,
        offer_cats: vec![(asset.to_bytes(), offered_cat)],
    };
    let requested = RequestedSide {
        payee_puzzle_hash: maker.puzzle_hash.to_bytes(),
        xch: requested_xch,
        cats: vec![],
        nfts: vec![],
    };
    let offer = maker_offer(ctx, offered, requested, 0, std::slice::from_ref(&maker.sk));
    (offer, maker, asset.to_bytes())
}

fn no_funds(change: Bytes32) -> TakerFunds {
    TakerFunds {
        change_puzzle_hash: change,
        owner_keys: IndexMap::new(),
        xch_coins: vec![],
        cat_coins: vec![],
        nfts: vec![],
    }
}

#[test]
fn combine_requires_at_least_two_offers() {
    let mut sim = Simulator::new();
    let mut ctx = SpendContext::new();
    let (offer, _m, _a) = sample_cat_for_xch(&mut sim, &mut ctx, 80_000, 50_000);
    assert!(matches!(combine(vec![Ok(offer)]), Err(Error::InvalidInput(_))));
}

#[test]
fn combine_rejects_shared_offered_coin() {
    let mut sim = Simulator::new();
    let mut ctx = SpendContext::new();
    let (offer, _m, _a) = sample_cat_for_xch(&mut sim, &mut ctx, 80_000, 50_000);
    // The same offer twice shares every offered coin: a double-spend.
    let err = combine(vec![Ok(offer.clone()), Ok(offer)]).unwrap_err();
    assert!(matches!(&err, Error::Incompatible(m) if m.contains("same offered coin")));
}

#[test]
fn combine_rejects_a_malformed_member() {
    let mut sim = Simulator::new();
    let mut ctx = SpendContext::new();
    let (offer, _m, _a) = sample_cat_for_xch(&mut sim, &mut ctx, 80_000, 50_000);
    // Each member is decoded first; this one is not an offer at all.
    let codec = |_t: &str| -> Result<SpendBundle, DriverError> { Ok(offer.clone()) };
    let malformed = decode("not an offer", codec);
    assert!(matches!(combine(vec![Ok(offer), malformed]), Err(Error::Decode(_))));
}

#[test]
fn combine_merges_two_non_conflicting_offers() {
    let mut sim = Simulator::new();
    let mut ctx = SpendContext::new();
    let (offer_a, _m, asset_a) = sample_cat_for_xch(&mut sim, &mut ctx, 80_000, 50_000);
    let (offer_b, _n, asset_b) = sample_cat_for_xch(&mut sim, &mut ctx, 70_000, 40_000);

    let combined = combine(vec![Ok(offer_a.clone()), Ok(offer_b.clone())]).unwrap();
    assert_eq!(
        combined.coin_spends.len(),
        offer_a.coin_spends.len() + offer_b.coin_spends.len() - 1,
        "both members' spends are carried, with one settlement spend for the merged XCH request"
    );

    // The combined one-sided offer carries both offered CAT legs and both requested XCH totals.
    let summary = summarize(&combined).unwrap();
    assert!(summary.offered.contains(&OfferAsset::Cat { asset_id: asset_a, amount: 80_000 }));
    assert!(summary.offered.contains(&OfferAsset::Cat { asset_id: asset_b, amount: 70_000 }));
    assert_eq!(summary.requested, vec![OfferAsset::Xch(90_000)], "requested XCH totals combine");
    assert_eq!(
        combined.aggregated_signature,
        offer_a.aggregated_signature.clone() + &offer_b.aggregated_signature,
        "the members' signatures aggregate"
    );
}

#[test]
fn take_cat_for_xch_settles_both_sides() {
    let mut sim = Simulator::new();
    let mut ctx = SpendContext::new();

    let maker = sim.bls(0);
    let taker = sim.bls(1_000_000);
    let offered_cat: u64 = 80_000;
    let requested_xch: u64 = 50_000;

    let (maker_cat, asset) = issue_cat_to(&mut sim, &mut ctx, &maker, offered_cat);

    let offered = OfferedSide {
        change_puzzle_hash: maker.puzzle_hash.to_bytes(),
        owner_keys: owner_keys(&maker),
        xch_coins: vec![],
        cat_coins: vec![cat_of(&maker_cat)],
        nfts: vec![],
        offer_xch: 0,
        offer_cats: vec![(asset.to_bytes(), offered_cat)],
    };
    let requested = RequestedSide {
        payee_puzzle_hash: maker.puzzle_hash.to_bytes(),
        xch: requested_xch,
        cats: vec![],
        nfts: vec![],
    };
    let offer = maker_offer(&mut ctx, offered, requested, 0, std::slice::from_ref(&maker.sk));

    let summary = summarize(&offer).unwrap();
    assert_eq!(
        summary.offered,
        vec![OfferAsset::Cat { asset_id: asset.to_bytes(), amount: offered_cat }]
    );
    assert_eq!(summary.requested, vec![OfferAsset::Xch(requested_xch)]);
    assert_eq!(summary.arbitrage.xch, requested_xch);

    let funds = TakerFunds {
        change_puzzle_hash: taker.puzzle_hash.to_bytes(),
        owner_keys: owner_keys(&taker),
        xch_coins: vec![coin_of(&taker.coin)],
        cat_coins: vec![],
        nfts: vec![],
    };
    let bundle = taker_settle(&mut ctx, &offer, funds, 0, std::slice::from_ref(&taker.sk));
    sim.new_transaction(bundle).unwrap();

    assert_eq!(
        balance_at(&sim, maker.puzzle_hash),
        requested_xch,
        "maker must receive the requested XCH"
    );
    assert_eq!(
        balance_at(&sim, cat_puzzle_hash(taker.puzzle_hash, asset)),
        offered_cat,
        "taker must receive the offered CAT"
    );
}

#[test]
fn take_xch_for_cat_settles_both_sides_and_keeps_change() {
    let mut sim = Simulator::new();
    let mut ctx = SpendContext::new();

    let maker = sim.bls(1_000_000);
    let taker = sim.bls(0);
    let offered_xch: u64 = 200_000;
    let requested_cat: u64 = 30_000;

    let (taker_cat, asset) = issue_cat_to(&mut sim, &mut ctx, &taker, requested_cat);

    let offered = OfferedSide {
        change_puzzle_hash: maker.puzzle_hash.to_bytes(),
        owner_keys: owner_keys(&maker),
        xch_coins: vec![coin_of(&maker.coin)],
        cat_coins: vec![],
        nfts: vec![],
        offer_xch: offered_xch,
        offer_cats: vec![],
    };
    let requested = RequestedSide {
        payee_puzzle_hash: maker.puzzle_hash.to_bytes(),
        xch: 0,
        cats: vec![(asset.to_bytes(), requested_cat)],
        nfts: vec![],
    };
    let offer = maker_offer(&mut ctx, offered, requested, 0, std::slice::from_ref(&maker.sk));

    let summary = summarize(&offer).unwrap();
    assert_eq!(summary.offered, vec![OfferAsset::Xch(offered_xch)]);
    assert_eq!(
        summary.requested,
        vec![OfferAsset::Cat { asset_id: asset.to_bytes(), amount: requested_cat }]
    );
    assert_eq!(summary.arbitrage.cats, vec![(asset.to_bytes(), requested_cat)]);

    let funds = TakerFunds {
        change_puzzle_hash: taker.puzzle_hash.to_bytes(),
        owner_keys: owner_keys(&taker),
        xch_coins: vec![],
        cat_coins: vec![cat_of(&taker_cat)],
        nfts: vec![],
    };
    let bundle = taker_settle(&mut ctx, &offer, funds, 0, std::slice::from_ref(&taker.sk));
    sim.new_transaction(bundle).unwrap();

    // The taker receives the offered XCH; the maker keeps the 800_000 change (no self-fund
    // drain) AND receives the requested CAT.
    assert_eq!(
        balance_at(&sim, taker.puzzle_hash),
        offered_xch,
        "taker must receive the offered XCH"
    );
    assert_eq!(
        balance_at(&sim, maker.puzzle_hash),
        1_000_000 - offered_xch,
        "maker must keep full change on its offered coin (no self-fund)"
    );
    assert_eq!(
        balance_at(&sim, cat_puzzle_hash(maker.puzzle_hash, asset)),
        requested_cat,
        "maker must receive the requested CAT"
    );
}

#[test]
fn take_nft_for_cat_settles_and_delivers_the_nft() {
    let mut sim = Simulator::new();
    let mut ctx = SpendContext::new();

    let maker = sim.bls(2);
    let taker = sim.bls(0);
    let price: u64 = 100_000;

    let (taker_cat, asset) = issue_cat_to(&mut sim, &mut ctx, &taker, price);
    let nft = mint_nft_for(&mut sim, &mut ctx, &maker, 300);

    let offered = OfferedSide {
        change_puzzle_hash: maker.puzzle_hash.to_bytes(),
        owner_keys: owner_keys(&maker),
        xch_coins: vec![],
        cat_coins: vec![],
        nfts: vec![nft],
        offer_xch: 0,
        offer_cats: vec![],
    };
    let requested = RequestedSide {
        payee_puzzle_hash: maker.puzzle_hash.to_bytes(),
        xch: 0,
        cats: vec![(asset.to_bytes(), price)],
        nfts: vec![],
    };
    let offer = maker_offer(&mut ctx, offered, requested, 0, std::slice::from_ref(&maker.sk));

    let summary = summarize(&offer).unwrap();
    assert_eq!(
        summary.offered,
        vec![OfferAsset::Nft { launcher_id: nft.info.launcher_id.to_bytes() }]
    );
    assert_eq!(summary.arbitrage.cats, vec![(asset.to_bytes(), price)]);

    let funds = TakerFunds {
        change_puzzle_hash: taker.puzzle_hash.to_bytes(),
        owner_keys: owner_keys(&taker),
        xch_coins: vec![],
        cat_coins: vec![cat_of(&taker_cat)],
        nfts: vec![],
    };
    let bundle = taker_settle(&mut ctx, &offer, funds, 0, std::slice::from_ref(&taker.sk));
    sim.new_transaction(bundle).unwrap();

    assert!(
        !sim.hinted_coins(taker.puzzle_hash).is_empty(),
        "the offered NFT (and CAT change) should land at the taker"
    );
    assert_eq!(
        balance_at(&sim, cat_puzzle_hash(maker.puzzle_hash, asset)),
        price,
        "maker must receive the requested CAT price"
    );
}

#[test]
fn requested_nft_assemble_survives_intervening_required_signatures() {
    // A requested-NFT leg's asset info holds an allocator-relative metadata pointer: build, sign
    // and assemble share one context, and the pointer survives the context's `take`.
    let mut sim = Simulator::new();
    let mut ctx = SpendContext::new();

    let maker = sim.bls(1_000_000);
    let bob = sim.bls(2);
    let requested_nft = mint_nft_for(&mut sim, &mut ctx, &bob, 300);

    let offered = OfferedSide {
        change_puzzle_hash: maker.puzzle_hash.to_bytes(),
        owner_keys: owner_keys(&maker),
        xch_coins: vec![coin_of(&maker.coin)],
        cat_coins: vec![],
        nfts: vec![],
        offer_xch: 100_000,
        offer_cats: vec![],
    };
    let requested = RequestedSide {
        payee_puzzle_hash: maker.puzzle_hash.to_bytes(),
        xch: 0,
        cats: vec![],
        nfts: vec![(
            requested_nft.info.launcher_id.to_bytes(),
            NftAssetInfo::new(
                requested_nft.info.metadata,
                requested_nft.info.metadata_updater_puzzle_hash,
                requested_nft.info.royalty_puzzle_hash,
                requested_nft.info.royalty_basis_points,
            ),
        )],
    };

    let offer = maker_offer(&mut ctx, offered, requested, 0, std::slice::from_ref(&maker.sk));
    assert!(!offer.coin_spends.is_empty());

    let summary = summarize(&offer).unwrap();
    assert_eq!(
        summary.requested,
        vec![OfferAsset::Nft { launcher_id: requested_nft.info.launcher_id.to_bytes() }]
    );
}

#[test]
fn take_build_rejects_non_offer_before_touching_funds() {
    // Taking starts by decoding the offer string; text that is not an offer is refused there,
    // before the codec runs and before any funds are looked at.
    let codec = |_t: &str| -> Result<SpendBundle, DriverError> {
        panic!("the codec must not be called on text that is not an offer")
    };
    let err = decode("definitely not an offer", codec).unwrap_err();
    assert!(matches!(&err, Error::Decode(m) if m.contains("not a Chia offer")));

    // A bundle that is not an offer (its puzzle reveal does not hash to its coin's puzzle hash)
    // is refused by take_build itself, before the taker's funds are looked at: a taker with no
    // funds at all gets the parse error, not a shortfall.
    let mut ctx = SpendContext::new();
    let bogus = SpendBundle::new(
        vec![chia_protocol::CoinSpend::new(
            chia_protocol::Coin::new(ChiaBytes32::new([1; 32]), ChiaBytes32::new([2; 32]), 1),
            chia_protocol::Program::from(vec![0x80]),
            chia_protocol::Program::from(vec![0x80]),
        )],
        chia_wallet_sdk::chia::bls::Signature::default(),
    );
    let err = take_build(&mut ctx, &bogus, no_funds([0u8; 32]), 0).unwrap_err();
    assert!(matches!(&err, Error::Decode(m) if m.starts_with("could not parse offer: ")));
}

#[test]
fn take_build_rejects_insufficient_funds() {
    let mut sim = Simulator::new();
    let mut ctx = SpendContext::new();

    let maker = sim.bls(0);
    let taker = sim.bls(0);
    let (maker_cat, asset) = issue_cat_to(&mut sim, &mut ctx, &maker, 80_000);

    let offered = OfferedSide {
        change_puzzle_hash: maker.puzzle_hash.to_bytes(),
        owner_keys: owner_keys(&maker),
        xch_coins: vec![],
        cat_coins: vec![cat_of(&maker_cat)],
        nfts: vec![],
        offer_xch: 0,
        offer_cats: vec![(asset.to_bytes(), 80_000)],
    };
    let requested = RequestedSide {
        payee_puzzle_hash: maker.puzzle_hash.to_bytes(),
        xch: 50_000,
        cats: vec![],
        nfts: vec![],
    };
    let offer = maker_offer(&mut ctx, offered, requested, 0, std::slice::from_ref(&maker.sk));

    // The taker brings no XCH: take_build must refuse with a named shortfall.
    let mut funds = no_funds(taker.puzzle_hash.to_bytes());
    funds.owner_keys = owner_keys(&taker);
    let err = take_build(&mut ctx, &offer, funds, 0).unwrap_err();
    assert!(matches!(&err, Error::InvalidInput(m) if m.contains("insufficient XCH")));
    assert!(
        matches!(&err, Error::InvalidInput(m) if m == "insufficient XCH to take: need 50000, have 0")
    );
}

#[test]
fn cancel_reclaims_the_offered_coin() {
    let mut sim = Simulator::new();
    let mut ctx = SpendContext::new();

    let maker = sim.bls(1_000_000);
    let offered = OfferedSide {
        change_puzzle_hash: maker.puzzle_hash.to_bytes(),
        owner_keys: owner_keys(&maker),
        xch_coins: vec![coin_of(&maker.coin)],
        cat_coins: vec![],
        nfts: vec![],
        offer_xch: 100_000,
        offer_cats: vec![],
    };
    let requested = RequestedSide {
        payee_puzzle_hash: maker.puzzle_hash.to_bytes(),
        xch: 5,
        cats: vec![],
        nfts: vec![],
    };
    let offer = maker_offer(&mut ctx, offered, requested, 0, std::slice::from_ref(&maker.sk));

    let keys = owner_keys(&maker);
    let unsigned = cancel_build(&mut ctx, &offer, maker.puzzle_hash.to_bytes(), &keys, 0).unwrap();
    assert_eq!(unsigned.coin_spends.len(), 1);
    // The reclaim spends the offered coin itself.
    assert_eq!(unsigned.coin_spends[0].coin, maker.coin);
    let signature = sign_transaction(&unsigned.coin_spends, std::slice::from_ref(&maker.sk)).unwrap();
    sim.new_transaction(SpendBundle::new(unsigned.coin_spends, signature)).unwrap();
    // The whole coin comes back to the reclaim address, and the offer can no longer settle.
    assert_eq!(balance_at(&sim, maker.puzzle_hash), 1_000_000);
}

#[test]
fn cancel_without_the_owner_key_names_the_coin() {
    let mut sim = Simulator::new();
    let mut ctx = SpendContext::new();

    let maker = sim.bls(1_000_000);
    let offered = OfferedSide {
        change_puzzle_hash: maker.puzzle_hash.to_bytes(),
        owner_keys: owner_keys(&maker),
        xch_coins: vec![coin_of(&maker.coin)],
        cat_coins: vec![],
        nfts: vec![],
        offer_xch: 100_000,
        offer_cats: vec![],
    };
    let requested = RequestedSide {
        payee_puzzle_hash: maker.puzzle_hash.to_bytes(),
        xch: 5,
        cats: vec![],
        nfts: vec![],
    };
    let offer = maker_offer(&mut ctx, offered, requested, 0, std::slice::from_ref(&maker.sk));

    let err = cancel_build(&mut ctx, &offer, maker.puzzle_hash.to_bytes(), &IndexMap::new(), 0)
        .unwrap_err();
    let expected = format!("no key for offered coin {}", maker.puzzle_hash);
    assert!(matches!(&err, Error::InvalidInput(m) if m.starts_with(&expected)));
}

#[test]
fn make_nonce_is_reported_and_offer_id_is_stable() {
    let mut sim = Simulator::new();
    let mut ctx = SpendContext::new();
    let (offer, _m, _a) = sample_cat_for_xch(&mut sim, &mut ctx, 10_000, 20_000);
    let a = dig_offers::offer_id(&offer).unwrap();
    let b = dig_offers::offer_id(&offer.clone()).unwrap();
    assert_eq!(a, b);
    let bytes = chia_traits::Streamable::to_bytes(&offer).unwrap();
    assert_eq!(a, dig_offers::offer_id_of_bytes(&bytes));
    assert_ne!(a, [0u8; 32]);
}

#[test]
fn make_nonce_ignores_the_order_of_cat_legs() {
    let mut sim = Simulator::new();
    let mut ctx = SpendContext::new();
    let maker = sim.bls(0);
    let (cat_a, asset_a) = issue_cat_to(&mut sim, &mut ctx, &maker, 5_000);
    let (cat_b, asset_b) = issue_cat_to(&mut sim, &mut ctx, &maker, 7_000);

    let side = |legs: Vec<(Bytes32, u64)>| OfferedSide {
        change_puzzle_hash: maker.puzzle_hash.to_bytes(),
        owner_keys: owner_keys(&maker),
        xch_coins: vec![],
        cat_coins: vec![cat_of(&cat_a), cat_of(&cat_b)],
        nfts: vec![],
        offer_xch: 0,
        offer_cats: legs,
    };
    let requested = || RequestedSide {
        payee_puzzle_hash: maker.puzzle_hash.to_bytes(),
        xch: 10,
        cats: vec![],
        nfts: vec![],
    };
    let legs = vec![(asset_a.to_bytes(), 5_000), (asset_b.to_bytes(), 7_000)];
    let mut reversed = legs.clone();
    reversed.reverse();

    let mut ctx1 = SpendContext::new();
    let first = make_build(&mut ctx1, side(legs), requested(), 0).unwrap();
    let mut ctx2 = SpendContext::new();
    let second = make_build(&mut ctx2, side(reversed), requested(), 0).unwrap();
    assert_eq!(first.nonce, second.nonce);
    assert_ne!(first.nonce, [0u8; 32]);
}

#[test]
fn make_requests_the_payments_under_its_nonce() {
    let mut sim = Simulator::new();
    let mut ctx = SpendContext::new();
    let maker = sim.bls(1_000_000);
    let asset = [4u8; 32];
    let offered = OfferedSide {
        change_puzzle_hash: maker.puzzle_hash.to_bytes(),
        owner_keys: owner_keys(&maker),
        xch_coins: vec![coin_of(&maker.coin)],
        cat_coins: vec![],
        nfts: vec![],
        offer_xch: 100_000,
        offer_cats: vec![],
    };
    let requested = RequestedSide {
        payee_puzzle_hash: maker.puzzle_hash.to_bytes(),
        xch: 25,
        cats: vec![(asset, 7), (asset, 9)],
        nfts: vec![],
    };
    let unsigned = make_build(&mut ctx, offered, requested, 0).unwrap();
    let payments = &unsigned.requested_payments;
    assert_eq!(payments.xch.len(), 1);
    assert_eq!(payments.xch[0].nonce.to_bytes(), unsigned.nonce);
    assert_eq!(payments.xch[0].payments.len(), 1);
    assert_eq!(payments.xch[0].payments[0].puzzle_hash, maker.puzzle_hash);
    assert_eq!(payments.xch[0].payments[0].amount, 25);
    // A later leg for the same asset replaces the earlier one.
    assert_eq!(payments.cats.len(), 1);
    let cat = &payments.cats[&ChiaBytes32::from(asset)];
    assert_eq!(cat.len(), 1);
    assert_eq!(cat[0].nonce.to_bytes(), unsigned.nonce);
    assert_eq!(cat[0].payments[0].amount, 9);
    assert!(payments.nfts.is_empty());
}

#[test]
fn assembled_offer_and_settlement_carry_the_signed_spends_in_order() {
    let mut sim = Simulator::new();
    let mut ctx = SpendContext::new();
    let maker = sim.bls(0);
    let taker = sim.bls(1_000_000);
    let (maker_cat, asset) = issue_cat_to(&mut sim, &mut ctx, &maker, 80_000);
    let offered = OfferedSide {
        change_puzzle_hash: maker.puzzle_hash.to_bytes(),
        owner_keys: owner_keys(&maker),
        xch_coins: vec![],
        cat_coins: vec![cat_of(&maker_cat)],
        nfts: vec![],
        offer_xch: 0,
        offer_cats: vec![(asset.to_bytes(), 80_000)],
    };
    let requested = RequestedSide {
        payee_puzzle_hash: maker.puzzle_hash.to_bytes(),
        xch: 50_000,
        cats: vec![],
        nfts: vec![],
    };
    let unsigned = make_build(&mut ctx, offered, requested, 0).unwrap();
    let signature = sign_transaction(&unsigned.coin_spends, std::slice::from_ref(&maker.sk)).unwrap();
    let signed = SpendBundle::new(unsigned.coin_spends, signature);
    let offer = make_assemble(
        &mut ctx,
        signed.clone(),
        unsigned.requested_payments,
        unsigned.requested_asset_info,
    )
    .unwrap();
    // One XCH carrier (zero parent, zero amount), then the maker's signed spends unchanged.
    assert_eq!(offer.coin_spends.len(), signed.coin_spends.len() + 1);
    assert_eq!(offer.coin_spends[0].coin.parent_coin_info, ChiaBytes32::default());
    assert_eq!(offer.coin_spends[0].coin.amount, 0);
    assert_eq!(offer.coin_spends[1..], signed.coin_spends[..]);
    assert_eq!(offer.aggregated_signature, signed.aggregated_signature);

    let funds = TakerFunds {
        change_puzzle_hash: taker.puzzle_hash.to_bytes(),
        owner_keys: owner_keys(&taker),
        xch_coins: vec![coin_of(&taker.coin)],
        cat_coins: vec![],
        nfts: vec![],
    };
    let unsigned = take_build(&mut ctx, &offer, funds, 0).unwrap();
    let signature = sign_transaction(&unsigned.coin_spends, std::slice::from_ref(&taker.sk)).unwrap();
    let taker_half = SpendBundle::new(unsigned.coin_spends, signature);
    let settlement = take_combine(unsigned.offer, taker_half.clone());
    // The maker's spends (the offer without its carriers), then the taker's.
    let n = signed.coin_spends.len();
    assert_eq!(settlement.coin_spends[..n], signed.coin_spends[..]);
    assert_eq!(settlement.coin_spends[n..], taker_half.coin_spends[..]);
    assert_eq!(
        settlement.aggregated_signature,
        signed.aggregated_signature.clone() + &taker_half.aggregated_signature
    );
    sim.new_transaction(settlement).unwrap();
}
