//! Checks of the builders' decisions on concrete values.

use chia_sdk_test::Simulator;
use chia_wallet_sdk::chia::bls::PublicKey;
use chia_wallet_sdk::driver::{DriverError, SpendContext};
use dig_offers::{
    build_reclaims, fill_requested, make_actions, AssetRef, MakeAction, decode, decoded_offer, ensure_funds_cover, ensure_non_empty, fungible_assets, make_build, offer_cost,
    offer_text, reclaim_plan, reject_shared_offered_coins, select_cats, select_xch, side_assets,
    Bytes32, Cat, Coin, Error, OfferAsset, OfferCost, OfferedSide, Reclaim, RequestedSide,
    TakerFunds,
};
use indexmap::IndexMap;

fn empty_offered(change: Bytes32) -> OfferedSide {
    OfferedSide {
        change_puzzle_hash: change,
        owner_keys: IndexMap::new(),
        xch_coins: vec![],
        cat_coins: vec![],
        nfts: vec![],
        offer_xch: 0,
        offer_cats: vec![],
    }
}

fn coin(parent: u8, amount: u64) -> Coin {
    Coin { parent_coin_info: [parent; 32], puzzle_hash: [9; 32], amount }
}

fn cat(parent: u8, asset: u8, amount: u64) -> Cat {
    Cat {
        coin: coin(parent, amount),
        lineage_proof: None,
        asset_id: [asset; 32],
        hidden_puzzle_hash: None,
        p2_puzzle_hash: [9; 32],
    }
}

fn funds(xch: Vec<Coin>, cats: Vec<Cat>) -> TakerFunds {
    TakerFunds {
        change_puzzle_hash: [0; 32],
        owner_keys: IndexMap::new(),
        xch_coins: xch,
        cat_coins: cats,
        nfts: vec![],
    }
}

#[test]
fn offer_asset_amount_reports_fungible_value() {
    assert_eq!(OfferAsset::Xch(500).amount(), 500);
    assert_eq!(OfferAsset::Cat { asset_id: Bytes32::default(), amount: 42 }.amount(), 42);
    // An NFT is non-fungible: it carries no fungible amount.
    assert_eq!(OfferAsset::Nft { launcher_id: Bytes32::default() }.amount(), 0);
}

/// Stands in for the bech32 offer decoder on text that must never reach it.
fn unreachable_codec(_t: &str) -> Result<chia_protocol::SpendBundle, DriverError> {
    panic!("the codec must not be called on text that is not an offer")
}

/// Stands in for the bech32 offer decoder on a payload it cannot decode.
fn failing_codec(_t: &str) -> Result<chia_protocol::SpendBundle, DriverError> {
    Err(DriverError::Custom("invalid bech32 payload".to_string()))
}

#[test]
fn decode_rejects_non_offer_prefix() {
    let err = decode("hello world", unreachable_codec).unwrap_err();
    assert!(matches!(&err, Error::Decode(m) if m.contains("not a Chia offer")));
}

#[test]
fn decode_rejects_blank_string() {
    assert!(matches!(decode("   ", unreachable_codec), Err(Error::Decode(_))));
}

#[test]
fn decode_rejects_malformed_payload() {
    // Correct prefix but a payload the codec refuses fails at decode, not with a panic.
    assert!(matches!(decode("offer1qqzh3w", failing_codec), Err(Error::Decode(_))));
    let err = decode("offer1qqzh3w", failing_codec).unwrap_err();
    assert!(matches!(&err, Error::Decode(m) if m.starts_with("invalid offer: ")));
}

#[test]
fn decode_hands_the_trimmed_text_to_the_codec() {
    let seen = std::cell::RefCell::new(String::new());
    let codec = |t: &str| {
        *seen.borrow_mut() = t.to_string();
        failing_codec(t)
    };
    assert!(decode(" \n offer1abc\t ", codec).is_err());
    assert_eq!(seen.borrow().as_str(), "offer1abc");
}

#[test]
fn decoded_offer_maps_the_codec_fault() {
    let err = decoded_offer(failing_codec("offer1x")).unwrap_err();
    assert!(matches!(&err, Error::Decode(m) if m == "invalid offer: custom driver error: invalid bech32 payload"));
}

#[test]
fn offer_text_trims_surrounding_whitespace() {
    assert_eq!(offer_text("  \n offer1abc \t").unwrap(), "offer1abc");
    assert_eq!(offer_text("\u{3000}offer1x\u{2029}").unwrap(), "offer1x");
    assert!(offer_text("xoffer1abc").is_err());
    assert!(offer_text("offer").is_err());
}

#[test]
fn make_build_rejects_offering_nothing() {
    let mut ctx = SpendContext::new();
    let requested =
        RequestedSide { payee_puzzle_hash: Bytes32::default(), xch: 1, cats: vec![], nfts: vec![] };
    let err = make_build(&mut ctx, empty_offered(Bytes32::default()), requested, 0).unwrap_err();
    assert!(matches!(&err, Error::InvalidInput(m) if m.contains("offer at least one")));
}

#[test]
fn make_build_rejects_requesting_nothing() {
    let mut ctx = SpendContext::new();
    let mut offered = empty_offered(Bytes32::default());
    offered.offer_xch = 1;
    let requested =
        RequestedSide { payee_puzzle_hash: Bytes32::default(), xch: 0, cats: vec![], nfts: vec![] };
    let err = make_build(&mut ctx, offered, requested, 0).unwrap_err();
    assert!(matches!(&err, Error::InvalidInput(m) if m.contains("request at least one")));
}

#[test]
fn make_build_rejects_insufficient_offered_funds() {
    let mut ctx = SpendContext::new();
    let mut offered = empty_offered(Bytes32::default());
    offered.offer_xch = 1_000; // no XCH coins provided: shortfall
    let requested =
        RequestedSide { payee_puzzle_hash: Bytes32::default(), xch: 1, cats: vec![], nfts: vec![] };
    let err = make_build(&mut ctx, offered, requested, 0).unwrap_err();
    assert!(matches!(&err, Error::InvalidInput(m) if m.contains("insufficient XCH to offer")));
}

#[test]
fn make_build_rejects_zero_requested_cat_amount() {
    let mut sim = Simulator::new();
    let mut ctx = SpendContext::new();
    let maker = sim.bls(1_000_000);

    let mut keys: IndexMap<chia_protocol::Bytes32, PublicKey> = IndexMap::new();
    keys.insert(maker.puzzle_hash, maker.pk);
    let offered = OfferedSide {
        change_puzzle_hash: maker.puzzle_hash.to_bytes(),
        owner_keys: keys,
        xch_coins: vec![Coin {
            parent_coin_info: maker.coin.parent_coin_info.to_bytes(),
            puzzle_hash: maker.coin.puzzle_hash.to_bytes(),
            amount: maker.coin.amount,
        }],
        cat_coins: vec![],
        nfts: vec![],
        offer_xch: 100_000,
        offer_cats: vec![],
    };
    let requested = RequestedSide {
        payee_puzzle_hash: maker.puzzle_hash.to_bytes(),
        xch: 0,
        cats: vec![([7; 32], 0)],
        nfts: vec![],
    };
    let err = make_build(&mut ctx, offered, requested, 0).unwrap_err();
    assert!(matches!(&err, Error::InvalidInput(m) if m.contains("greater than zero")));
}

#[test]
fn make_build_names_the_xch_shortfall_with_the_fee() {
    let mut ctx = SpendContext::new();
    let mut offered = empty_offered(Bytes32::default());
    offered.offer_xch = 1_000;
    offered.xch_coins = vec![coin(1, 600), coin(2, 300)];
    let requested =
        RequestedSide { payee_puzzle_hash: Bytes32::default(), xch: 1, cats: vec![], nfts: vec![] };
    let err = make_build(&mut ctx, offered, requested, 50).unwrap_err();
    assert!(
        matches!(&err, Error::InvalidInput(m) if m == "insufficient XCH to offer: need 1050, have 900")
    );
}

#[test]
fn make_build_refuses_a_make_that_selects_no_coin() {
    let mut ctx = SpendContext::new();
    let mut offered = empty_offered(Bytes32::default());
    offered.offer_cats = vec![([3; 32], 0)];
    let requested =
        RequestedSide { payee_puzzle_hash: Bytes32::default(), xch: 1, cats: vec![], nfts: vec![] };
    let err = make_build(&mut ctx, offered, requested, 0).unwrap_err();
    assert!(
        matches!(&err, Error::InvalidInput(m) if m == "make selected no offered coins to spend")
    );
}

#[test]
fn ensure_non_empty_accepts_two_sided_offers() {
    let mut offered = empty_offered(Bytes32::default());
    offered.offer_cats = vec![([1; 32], 5)];
    let requested = RequestedSide {
        payee_puzzle_hash: Bytes32::default(),
        xch: 0,
        cats: vec![([2; 32], 5)],
        nfts: vec![],
    };
    assert!(ensure_non_empty(&offered, &requested).is_ok());
}

#[test]
fn select_xch_takes_largest_first_until_covered() {
    let coins = vec![coin(1, 10), coin(2, 50), coin(3, 30), coin(4, 50)];
    let chosen = select_xch(&coins, 90).unwrap();
    // Largest first, equal amounts in the order given, stopping once covered.
    assert_eq!(chosen, vec![coin(2, 50), coin(4, 50)]);
    assert_eq!(select_xch(&coins, 0).unwrap(), vec![]);
    assert_eq!(select_xch(&coins, 140).unwrap().len(), 4);
    let err = select_xch(&coins, 141).unwrap_err();
    assert!(matches!(&err, Error::InvalidInput(m) if m == "insufficient XCH to offer: need 141, have 140"));
}

#[test]
fn select_cats_only_spends_the_requested_asset() {
    let cats = vec![cat(1, 7, 40), cat(2, 8, 500), cat(3, 7, 60)];
    let chosen = select_cats(&cats, &[7; 32], 50).unwrap();
    assert_eq!(chosen, vec![cat(3, 7, 60)]);
    let err = select_cats(&cats, &[7; 32], 101).unwrap_err();
    let expected = format!("insufficient CAT {} to offer: need 101, have 100", "07".repeat(32));
    assert!(matches!(&err, Error::InvalidInput(m) if *m == expected));
}

#[test]
fn funds_cover_checks_xch_then_each_cat_leg() {
    let cost = OfferCost { xch: 100, cats: vec![([5; 32], 30), ([6; 32], 10)] };
    let ok = funds(vec![coin(1, 60), coin(2, 40)], vec![cat(3, 5, 30), cat(4, 6, 11)]);
    assert!(ensure_funds_cover(&ok, &cost).is_ok());

    let short_xch = funds(vec![coin(1, 99)], vec![]);
    let err = ensure_funds_cover(&short_xch, &cost).unwrap_err();
    assert!(matches!(&err, Error::InvalidInput(m) if m == "insufficient XCH to take: need 100, have 99"));

    let short_cat = funds(vec![coin(1, 100)], vec![cat(3, 5, 30), cat(4, 6, 9)]);
    let err = ensure_funds_cover(&short_cat, &cost).unwrap_err();
    let expected = format!("insufficient CAT {} to take: need 10, have 9", "06".repeat(32));
    assert!(matches!(&err, Error::InvalidInput(m) if *m == expected));
}

#[test]
fn fungible_assets_omit_zero_amounts_and_keep_cat_order() {
    let cats = vec![([1; 32], 5), ([2; 32], 0), ([3; 32], 8)];
    assert_eq!(
        fungible_assets(0, &cats),
        vec![
            OfferAsset::Cat { asset_id: [1; 32], amount: 5 },
            OfferAsset::Cat { asset_id: [3; 32], amount: 8 },
        ]
    );
    assert_eq!(fungible_assets(7, &vec![]), vec![OfferAsset::Xch(7)]);
    assert_eq!(fungible_assets(0, &vec![([2; 32], 0)]), vec![]);
}

#[test]
fn side_assets_list_nfts_after_fungible_legs_and_refuse_overflow() {
    let legs = side_assets(3, &vec![([1; 32], 4)], &vec![[9; 32]]).unwrap();
    assert_eq!(
        legs,
        vec![
            OfferAsset::Xch(3),
            OfferAsset::Cat { asset_id: [1; 32], amount: 4 },
            OfferAsset::Nft { launcher_id: [9; 32] },
        ]
    );
    let too_big = u64::MAX as u128 + 1;
    assert!(matches!(side_assets(too_big, &vec![], &vec![]), Err(Error::Driver(_))));
}

#[test]
fn offer_cost_converts_the_arbitrage_amounts() {
    let cost = offer_cost(12, &vec![([4; 32], 34)]).unwrap();
    assert_eq!(cost, OfferCost { xch: 12, cats: vec![([4; 32], 34)] });
    assert!(matches!(offer_cost(0, &vec![([4; 32], u128::MAX)]), Err(Error::Driver(_))));
}

#[test]
fn shared_coins_are_rejected_but_phantoms_are_not() {
    let a = coin(1, 10);
    let b = coin(2, 10);
    assert!(reject_shared_offered_coins(&vec![vec![a], vec![b]]).is_ok());
    let err = reject_shared_offered_coins(&vec![vec![a], vec![b, a]]).unwrap_err();
    assert!(matches!(&err, Error::Incompatible(m) if m.contains("same offered coin")));
    // A zero-parent settlement carrier is no spent coin.
    let phantom = coin(0, 0);
    assert!(reject_shared_offered_coins(&vec![vec![phantom, a], vec![phantom, b]]).is_ok());
}

#[test]
fn reclaim_plan_reserves_the_fee_on_the_first_spend_only() {
    let coins = vec![coin(1, 10), coin(2, 20)];
    assert_eq!(
        reclaim_plan(&coins, 5),
        vec![
            Reclaim { coin: coin(1, 10), reserve_fee: Some(5) },
            Reclaim { coin: coin(2, 20), reserve_fee: None },
        ]
    );
    assert_eq!(reclaim_plan(&coins, 0)[0].reserve_fee, None);
    assert!(reclaim_plan(&vec![], 5).is_empty());
}

#[test]
fn make_actions_send_only_the_offered_side() {
    let settlement = [5u8; 32];
    let mut offered = empty_offered([1; 32]);
    offered.offer_xch = 100;
    offered.offer_cats = vec![([2; 32], 5), ([3; 32], 7)];
    let plan = make_actions(&offered, 3, settlement);
    assert_eq!(
        plan,
        vec![
            MakeAction::Send { asset: AssetRef::Xch, puzzle_hash: settlement, amount: 100 },
            MakeAction::Send { asset: AssetRef::Existing([2; 32]), puzzle_hash: settlement, amount: 5 },
            MakeAction::Send { asset: AssetRef::Existing([3; 32]), puzzle_hash: settlement, amount: 7 },
            MakeAction::Fee(3),
        ]
    );
    // Nothing offered in XCH and no fee: only the CAT legs are sent.
    offered.offer_xch = 0;
    let plan = make_actions(&offered, 0, settlement);
    assert_eq!(plan.len(), 2);
    assert!(plan.iter().all(|a| matches!(a, MakeAction::Send { puzzle_hash, .. } if *puzzle_hash == settlement)));
}

#[test]
fn trimming_twice_changes_nothing() {
    for text in ["  offer1abc \n", "\u{2003}offer1z", "offer1", "   ", "x offer1"] {
        let once = dig_offers::text::trim(text);
        assert_eq!(dig_offers::text::trim(once), once);
        assert_eq!(offer_text(text).is_ok(), offer_text(once).is_ok());
    }
}

#[test]
fn offer_id_of_bytes_is_their_sha256() {
    let id = dig_offers::offer_id_of_bytes(b"abc");
    let expected: [u8; 32] = [
        0xba, 0x78, 0x16, 0xbf, 0x8f, 0x01, 0xcf, 0xea, 0x41, 0x41, 0x40, 0xde, 0x5d, 0xae, 0x22,
        0x23, 0xb0, 0x03, 0x61, 0xa3, 0x96, 0x17, 0x7a, 0x9c, 0xb4, 0x10, 0xff, 0x61, 0xf2, 0x00,
        0x15, 0xad,
    ];
    assert_eq!(id, expected);
    assert_eq!(dig_offers::offer_id_of_bytes(b"abc"), id);
    assert_ne!(dig_offers::offer_id_of_bytes(b"abd"), id);
}

#[test]
fn shared_coin_refusal_ignores_member_order() {
    let (a, b, c) = (coin(1, 10), coin(2, 20), coin(3, 30));
    let members = vec![vec![a, b], vec![c], vec![b]];
    let mut reordered = members.clone();
    reordered.reverse();
    assert!(reject_shared_offered_coins(&members).is_err());
    assert!(reject_shared_offered_coins(&reordered).is_err());
    let distinct = vec![vec![a], vec![c], vec![b]];
    let mut reordered = distinct.clone();
    reordered.rotate_left(1);
    assert!(reject_shared_offered_coins(&distinct).is_ok());
    assert!(reject_shared_offered_coins(&reordered).is_ok());
}

fn requested_side(cats: Vec<(Bytes32, u64)>) -> RequestedSide {
    RequestedSide { payee_puzzle_hash: [4; 32], xch: 10, cats, nfts: vec![] }
}

#[test]
fn fill_requested_refuses_a_zero_cat_amount() {
    let side = requested_side(vec![([7; 32], 5), ([8; 32], 0)]);
    let err = fill_requested(&side, [1; 32], chia_puzzle_types::Memos::None).unwrap_err();
    assert!(
        matches!(&err, Error::InvalidInput(m) if m == "requested CAT amount must be greater than zero")
    );
}

#[test]
fn fill_requested_notarizes_every_payment_to_the_nonce() {
    let side = requested_side(vec![([7; 32], 5), ([7; 32], 6), ([8; 32], 9)]);
    let mut ctx = SpendContext::new();
    let hint = ctx.hint(chia_protocol::Bytes32::new([4; 32])).unwrap();
    let (payments, info) = fill_requested(&side, [1; 32], hint).unwrap();
    assert_eq!(payments.xch[0].payments[0].memos, hint);
    assert_eq!(payments.cats[&chia_protocol::Bytes32::new([8; 32])][0].payments[0].memos, hint);
    assert_eq!(payments.xch.len(), 1);
    assert_eq!(payments.xch[0].nonce, chia_protocol::Bytes32::new([1; 32]));
    assert_eq!(payments.xch[0].payments[0].amount, 10);
    assert_eq!(payments.xch[0].payments[0].puzzle_hash, chia_protocol::Bytes32::new([4; 32]));
    // A later leg for the same asset replaces the earlier one.
    assert_eq!(payments.cats.len(), 2);
    let seven = &payments.cats[&chia_protocol::Bytes32::new([7; 32])];
    assert_eq!(seven.len(), 1);
    assert_eq!(seven[0].payments[0].amount, 6);
    assert_eq!(payments.cats[&chia_protocol::Bytes32::new([8; 32])][0].payments[0].amount, 9);
    assert!(info.cat(chia_protocol::Bytes32::new([7; 32])).is_some());
    assert!(info.cat(chia_protocol::Bytes32::new([8; 32])).is_some());
}

#[test]
fn build_reclaims_refuses_no_coins() {
    let mut ctx = SpendContext::new();
    let err = build_reclaims(&mut ctx, vec![], [3; 32], &IndexMap::new(), 0).unwrap_err();
    assert!(
        matches!(&err, Error::InvalidInput(m) if m == "no cancellable coins in this offer (already settled, or not the maker's)")
    );
}

#[test]
fn build_reclaims_names_the_first_unkeyed_coin() {
    let mut sim = Simulator::new();
    let owner = sim.bls(100);
    let mut keys: IndexMap<chia_protocol::Bytes32, PublicKey> = IndexMap::new();
    keys.insert(owner.puzzle_hash, owner.pk);
    let keyed = Coin {
        parent_coin_info: owner.coin.parent_coin_info.to_bytes(),
        puzzle_hash: owner.coin.puzzle_hash.to_bytes(),
        amount: owner.coin.amount,
    };
    let unkeyed = Coin { parent_coin_info: [2; 32], puzzle_hash: [0xab; 32], amount: 7 };
    let mut ctx = SpendContext::new();
    let err = build_reclaims(&mut ctx, vec![keyed, unkeyed], [3; 32], &keys, 0).unwrap_err();
    assert!(matches!(&err, Error::InvalidInput(m) if m.starts_with("no key for offered coin abababab")));
}

#[test]
fn build_reclaims_spends_each_coin_in_order() {
    let mut sim = Simulator::new();
    let owner = sim.bls(100);
    let mut keys: IndexMap<chia_protocol::Bytes32, PublicKey> = IndexMap::new();
    keys.insert(owner.puzzle_hash, owner.pk);
    let c = Coin {
        parent_coin_info: owner.coin.parent_coin_info.to_bytes(),
        puzzle_hash: owner.coin.puzzle_hash.to_bytes(),
        amount: owner.coin.amount,
    };
    let mut ctx = SpendContext::new();
    let unsigned = build_reclaims(&mut ctx, vec![c], [3; 32], &keys, 0).unwrap();
    assert_eq!(unsigned.coin_spends.len(), 1);
    assert_eq!(unsigned.coin_spends[0].coin, owner.coin);
}
