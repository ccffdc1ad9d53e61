//! The boundary to the Chia wallet SDK: declarations of the SDK types that pass through the
//! builders, and the trusted wrappers that make each SDK call. The contracts of the wrappers
//! (`external_body`) are believed, not proved; each one's doc comment names the SDK function and
//! what is claimed of it. The `LoggedSpends` functions, which record how a `Spends` is built, are
//! verified.
use vstd::prelude::*;
use vstd::multiset::Multiset;
use crate::combine::is_phantom;
use crate::types::{AssetRef, Bytes32, Cat, Coin, CoinCondition};
use chia_protocol::{BytesImpl, CoinSpend, SpendBundle};
use chia_puzzle_types::offer::{NotarizedPayment, Payment};
use chia_puzzle_types::Memos;
use chia_sha2::Sha256;
use chia_traits::chia_error::Error as StreamableError;
use chia_wallet_sdk::chia::bls::{PublicKey, Signature};
use chia_wallet_sdk::clvmr::NodePtr;
use chia_wallet_sdk::driver::{
    Action, AssetInfo, CatAssetInfo, CatInfo, Deltas, DriverError, Id, NftAssetInfo, NftInfo,
    Offer, Relation, RequestedPayments, Singleton, SpendContext, Spends, StandardLayer,
    Unfinished,
};
use chia_wallet_sdk::signer::SignerError;
use chia_wallet_sdk::types::conditions::AssertPuzzleAnnouncement;
use chia_wallet_sdk::types::puzzles::SettlementPayment;
use chia_wallet_sdk::types::{Conditions, Mod};
use indexmap::IndexMap;

verus! {

// ---------------------------------------------------------------------------------------------
// SDK types carried through the builders (opaque to verification).
// ---------------------------------------------------------------------------------------------

#[verifier::external_type_specification]
#[verifier::external_body]
pub struct ExSpendContext(SpendContext);

#[verifier::external_type_specification]
#[verifier::external_body]
pub struct ExSpendBundle(SpendBundle);

#[verifier::external_type_specification]
#[verifier::external_body]
pub struct ExSignature(Signature);

#[verifier::external_type_specification]
#[verifier::external_body]
pub struct ExCoinSpend(CoinSpend);

#[verifier::external_type_specification]
#[verifier::external_body]
pub struct ExOffer(Offer);

#[verifier::external_type_specification]
#[verifier::external_body]
pub struct ExRequestedPayments(RequestedPayments);

#[verifier::external_type_specification]
#[verifier::external_body]
pub struct ExAssetInfo(AssetInfo);

#[verifier::external_type_specification]
#[verifier::external_body]
pub struct ExNftAssetInfo(NftAssetInfo);

#[verifier::external_type_specification]
#[verifier::external_body]
pub struct ExNftInfo(NftInfo);

#[verifier::external_type_specification]
#[verifier::external_body]
#[verifier::reject_recursive_types(I)]
pub struct ExSingleton<I>(Singleton<I>);

#[verifier::external_type_specification]
#[verifier::external_body]
pub struct ExPublicKey(PublicKey);

#[verifier::external_type_specification]
#[verifier::external_body]
pub struct ExBytesImpl<const N: usize>(BytesImpl<N>);

#[verifier::external_type_specification]
#[verifier::external_body]
pub struct ExDriverError(DriverError);

#[verifier::external_type_specification]
#[verifier::external_body]
pub struct ExSignerError(SignerError);

#[verifier::external_type_specification]
#[verifier::external_body]
pub struct ExStreamError(StreamableError);

#[verifier::external_type_specification]
#[verifier::external_body]
#[verifier::reject_recursive_types(K)]
#[verifier::reject_recursive_types(V)]
#[verifier::reject_recursive_types(S)]
pub struct ExIndexMap<K, V, S>(IndexMap<K, V, S>);

#[verifier::external_type_specification]
#[verifier::external_body]
#[verifier::reject_recursive_types(S)]
pub struct ExSpends<S>(Spends<S>);

#[verifier::external_type_specification]
#[verifier::external_body]
pub struct ExUnfinished(Unfinished);

#[verifier::external_type_specification]
#[verifier::external_body]
pub struct ExDeltas(Deltas);

#[verifier::external_type_specification]
#[verifier::external_body]
pub struct ExAction(Action);

#[verifier::external_type_specification]
#[verifier::external_body]
pub struct ExAssertPuzzleAnnouncement(AssertPuzzleAnnouncement);

#[verifier::external_type_specification]
#[verifier::external_body]
#[verifier::reject_recursive_types(T)]
pub struct ExConditions<T>(Conditions<T>);

#[verifier::external_type_specification]
#[verifier::external_body]
#[verifier::reject_recursive_types(T)]
pub struct ExMemos<T>(Memos<T>);

#[verifier::external_type_specification]
#[verifier::external_body]
pub struct ExNodePtr(NodePtr);

// ---------------------------------------------------------------------------------------------
// Names for results that are functions of their (plain) arguments.
// ---------------------------------------------------------------------------------------------

/// The coin id `Coin::coin_id` computes: the SHA-256 of the parent id, the puzzle hash and the
/// amount as a minimal big-endian CLVM integer.
pub uninterp spec fn coin_id_of(parent: Seq<u8>, puzzle_hash: Seq<u8>, amount: u64) -> Seq<u8>;

/// The offer nonce `Offer::nonce` computes from a list of coin ids. The SDK sorts the ids before
/// tree-hashing the list, so the nonce is a function of the multiset of ids.
pub uninterp spec fn offer_nonce_of(ids: Multiset<Seq<u8>>) -> Seq<u8>;

/// The SHA-256 digest of `data`.
pub uninterp spec fn sha256_of(data: Seq<u8>) -> Seq<u8>;

/// The set of p2 puzzle hashes (as bytes) that an owner-key map holds a key for.
pub uninterp spec fn owner_key_set(keys: IndexMap<chia_protocol::Bytes32, PublicKey>) -> Set<
    Seq<u8>,
>;

/// The XCH payments a `RequestedPayments` holds (its `xch` field), in order: each notarized
/// payment's nonce and its payments' `(puzzle hash, amount)`. Memos are left out.
pub uninterp spec fn xch_requests_of(p: RequestedPayments) -> Seq<(Seq<u8>, Seq<(Seq<u8>, u64)>)>;

/// The CAT payments a `RequestedPayments` holds (its `cats` field), by asset id, each as
/// `xch_requests_of` describes a list of notarized payments.
pub uninterp spec fn cat_requests_of(p: RequestedPayments) -> Map<
    Seq<u8>,
    Seq<(Seq<u8>, Seq<(Seq<u8>, u64)>)>,
>;

/// The NFT payments a `RequestedPayments` holds (its `nfts` field), by launcher id, each as
/// `xch_requests_of` describes a list of notarized payments.
pub uninterp spec fn nft_requests_of(p: RequestedPayments) -> Map<
    Seq<u8>,
    Seq<(Seq<u8>, Seq<(Seq<u8>, u64)>)>,
>;

/// No notarized payment.
pub open spec fn no_payments() -> Seq<(Seq<u8>, Seq<(Seq<u8>, u64)>)> {
    Seq::empty()
}

/// No notarized payment under any id.
pub open spec fn no_keyed_payments() -> Map<Seq<u8>, Seq<(Seq<u8>, Seq<(Seq<u8>, u64)>)>> {
    Map::empty()
}

/// One notarized payment of `amount` to `payee` under `nonce`.
pub open spec fn one_payment(nonce: Seq<u8>, payee: Seq<u8>, amount: u64) -> Seq<
    (Seq<u8>, Seq<(Seq<u8>, u64)>),
> {
    seq![(nonce, seq![(payee, amount)])]
}

/// The coins a spend bundle spends (its `coin_spends`, each spend's `coin`), in order.
pub uninterp spec fn bundle_coins_of(b: SpendBundle) -> Seq<Coin>;

/// The coins an offer's own spend bundle (`Offer::spend_bundle`) spends, in order: the maker's
/// spends, without the requested-payment carriers.
pub uninterp spec fn offer_bundle_coins_of(o: Offer) -> Seq<Coin>;

/// The action `Action::send` builds for the asset, puzzle hash and amount, with no memos.
pub uninterp spec fn send_action_of(asset: AssetRef, puzzle_hash: Seq<u8>, amount: u64) -> Action;

/// The action `Action::fee` builds for the amount.
pub uninterp spec fn fee_action_of(amount: u64) -> Action;

/// The coins of `s` that are not requested-payment carriers (those with a zero parent id).
pub open spec fn real_coins(s: Seq<Coin>) -> Seq<Coin> {
    s.filter(|c: Coin| !is_phantom(c))
}

/// Every coin of `s` is a requested-payment carrier: zero parent id and zero amount.
pub open spec fn all_carriers(s: Seq<Coin>) -> bool {
    forall|i: int| 0 <= i < s.len() ==> is_phantom(#[trigger] s[i]) && s[i].amount == 0
}

/// The offer `Offer::from_spend_bundle` parses from `b`. An offer holds allocator pointers, so
/// two parses of one bundle need not be equal; what the readings below give of them (amounts,
/// ids, royalties, cancellable coins, all computed from the bundle's spends alone) is the same.
pub uninterp spec fn bundle_offer_of(b: SpendBundle) -> Offer;

/// What `OfferCoins::amounts` gives of `Offer::offered_coins`: the offered XCH and, in the SDK's
/// order, the offered amount per CAT asset id.
pub uninterp spec fn offered_amounts_of(o: Offer) -> (u128, Seq<(Bytes32, u128)>);

/// The launcher ids of the offered NFTs (`Offer::offered_coins`, `nfts` keys), in order.
pub uninterp spec fn offered_nfts_of(o: Offer) -> Seq<Bytes32>;

/// What `RequestedPayments::amounts` gives of `Offer::requested_payments`: the requested XCH
/// and, in the SDK's order, the requested amount per CAT asset id.
pub uninterp spec fn requested_amounts_of(o: Offer) -> (u128, Seq<(Bytes32, u128)>);

/// The launcher ids of the requested NFTs (`Offer::requested_payments`, `nfts` keys), in order.
pub uninterp spec fn requested_nfts_of(o: Offer) -> Seq<Bytes32>;

/// The CAT part of `Offer::arbitrage().offered`: per asset id, in the SDK's order, the amount by
/// which the requested side exceeds the offered side.
pub uninterp spec fn arbitrage_cats_of(o: Offer) -> Seq<(Bytes32, u128)>;

/// What `Offer::offered_royalties` gives, as `(launcher id, basis points)`: `None` where it
/// fails (a requested NFT without asset info).
pub uninterp spec fn offered_royalties_of(o: Offer) -> Option<Seq<(Bytes32, u16)>>;

/// What `Offer::requested_royalties` gives, as `(launcher id, basis points)`.
pub uninterp spec fn requested_royalties_of(o: Offer) -> Seq<(Bytes32, u16)>;

/// The coins of `Offer::cancellable_coin_spends`, in order: `None` where it fails.
pub uninterp spec fn cancellable_coins_of(o: Offer) -> Option<Seq<Coin>>;

/// The XCH part of `Offer::arbitrage().offered`: how much the requested XCH exceeds the offered
/// XCH, or zero.
pub open spec fn arbitrage_xch_of(o: Offer) -> u128 {
    if requested_amounts_of(o).0 > offered_amounts_of(o).0 {
        (requested_amounts_of(o).0 - offered_amounts_of(o).0) as u128
    } else {
        0
    }
}

/// Two offers give the same readings.
pub open spec fn same_readings(a: Offer, b: Offer) -> bool {
    &&& offered_amounts_of(a) == offered_amounts_of(b)
    &&& offered_nfts_of(a) == offered_nfts_of(b)
    &&& requested_amounts_of(a) == requested_amounts_of(b)
    &&& requested_nfts_of(a) == requested_nfts_of(b)
    &&& arbitrage_cats_of(a) == arbitrage_cats_of(b)
    &&& offered_royalties_of(a) == offered_royalties_of(b)
    &&& requested_royalties_of(a) == requested_royalties_of(b)
    &&& cancellable_coins_of(a) == cancellable_coins_of(b)
    &&& requests_of(offer_requests_of(a)) == requests_of(offer_requests_of(b))
}

/// The NFT's current coin (`Singleton::coin`).
pub uninterp spec fn nft_coin_of(n: Singleton<NftInfo>) -> Coin;

/// The NFT's launcher id (`NftInfo::launcher_id`).
pub uninterp spec fn nft_launcher_id_of(n: Singleton<NftInfo>) -> Bytes32;

/// What `Streamable::to_bytes` gives of a spend bundle: its canonical serialization, or the
/// error that stopped it.
pub uninterp spec fn bundle_bytes_of(b: SpendBundle) -> Result<Seq<u8>, StreamableError>;

/// The `Display` text of a serialization error.
pub uninterp spec fn stream_error_text_of(e: StreamableError) -> Seq<char>;

/// The coin spends a build context has collected and not yet handed out, in order.
pub uninterp spec fn pending_spends_of(ctx: SpendContext) -> Seq<CoinSpend>;

/// The coin a coin spend spends (`CoinSpend::coin`).
pub uninterp spec fn spend_coin_of(cs: CoinSpend) -> Coin;

/// The synthetic key whose standard puzzle a standard-layer coin spend reveals.
pub uninterp spec fn spend_key_of(cs: CoinSpend) -> PublicKey;

/// The conditions a standard-layer coin spend's delegated puzzle (a quoted condition list)
/// outputs.
pub uninterp spec fn delegated_conditions_of(cs: CoinSpend) -> Seq<CoinCondition>;

/// The conditions a condition list holds, in order.
pub uninterp spec fn conditions_of(c: Conditions) -> Seq<CoinCondition>;

/// The public key an owner-key map holds for a puzzle hash.
pub uninterp spec fn owner_key_of(keys: IndexMap<chia_protocol::Bytes32, PublicKey>, puzzle_hash: Seq<
    u8,
>) -> PublicKey;

/// An asset added to `Spends` to be spent.
pub enum SpendInput {
    /// An XCH coin.
    Xch(Coin),
    /// A CAT.
    Cat(Cat),
    /// An NFT.
    Nft(Singleton<NftInfo>),
    /// The offered coins of a parsed offer (`Offer::offered_coins`).
    Offered(Offer),
}

/// One step in building a `Spends`.
pub enum SpendsStep {
    /// `Spends::add` with the input.
    Add(SpendInput),
    /// `Spends::apply` with the actions, in a context holding the context given.
    Apply(Seq<Action>, SpendContext),
    /// The assertions appended to its required conditions.
    Require(Seq<AssertPuzzleAnnouncement>),
}

/// How a `Spends` was built: `Spends::new` with the change puzzle hash, then the steps in order.
pub struct SpendsLog {
    /// The change puzzle hash given to `Spends::new`.
    pub change: Bytes32,
    /// The steps taken since.
    pub steps: Seq<SpendsStep>,
}

/// A `Spends`, with how it was built. Only the functions below build and change one, each
/// recording the SDK step it takes.
pub struct LoggedSpends {
    spends: Spends,
    log: Ghost<SpendsLog>,
}

impl LoggedSpends {
    /// How this `Spends` was built.
    pub closed spec fn log(self) -> SpendsLog {
        self.log@
    }
}

/// The log of a fresh `Spends` with the change puzzle hash.
pub open spec fn fresh_log(change: Bytes32) -> SpendsLog {
    SpendsLog { change, steps: Seq::empty() }
}

/// `log`, then the step.
pub open spec fn log_then(log: SpendsLog, step: SpendsStep) -> SpendsLog {
    SpendsLog { change: log.change, steps: log.steps.push(step) }
}

/// `log`, then `Spends::add` with the input.
pub open spec fn spends_after_add(log: SpendsLog, input: SpendInput) -> SpendsLog {
    log_then(log, SpendsStep::Add(input))
}

/// `log`, then `Spends::apply` with the actions in a context holding `ctx`.
pub open spec fn spends_after_apply(log: SpendsLog, actions: Seq<Action>, ctx: SpendContext) -> SpendsLog {
    log_then(log, SpendsStep::Apply(actions, ctx))
}

/// `log`, then the assertions required.
pub open spec fn spends_after_require(log: SpendsLog, assertions: Seq<AssertPuzzleAnnouncement>) -> SpendsLog {
    log_then(log, SpendsStep::Require(assertions))
}

/// `b` is the context `a` or a later state of it: the same allocator, holding every node `a`
/// held (it may have allocated more, and collected or handed out coin spends). Each call below
/// that takes a context only allocates in it; none resets it.
pub uninterp spec fn ctx_extends(a: SpendContext, b: SpendContext) -> bool;

/// The bundle `Offer::to_spend_bundle` builds of `o` in a context holding `ctx`.
pub uninterp spec fn offer_bundle_in(o: Offer, ctx: SpendContext) -> SpendBundle;

/// The coins of the requested-payment carriers `Offer::to_spend_bundle` spends for the
/// payments `p`, whose puzzle hashes come from the asset info `a`, in order.
pub uninterp spec fn carrier_coins_of(p: RequestedPayments, a: AssetInfo) -> Seq<Coin>;

/// The asset info an offer holds (`Offer::asset_info`).
pub uninterp spec fn offer_asset_info_of(o: Offer) -> AssetInfo;

/// Whether `Spends::apply` succeeds with `actions` in a context holding `ctx`, on a `Spends`
/// built as `log` says. (What a `Spends` holds besides its steps' results is the seeds of the
/// hash sets its spends record outputs in, which only answer membership.)
pub uninterp spec fn applies(log: SpendsLog, actions: Seq<Action>, ctx: SpendContext) -> bool;

/// The coin spends a successful `Spends::apply` collects into the context.
pub uninterp spec fn applied_spends_of(
    log: SpendsLog,
    actions: Seq<Action>,
    ctx: SpendContext,
) -> Seq<CoinSpend>;

/// Whether `Spends::finish_with_keys` (with `Relation::AssertConcurrent`) succeeds on a `Spends`
/// built as `log` says, with the deltas and the keys, in a context holding `ctx`.
pub uninterp spec fn finishes(
    log: SpendsLog,
    deltas: Deltas,
    keys: IndexMap<chia_protocol::Bytes32, PublicKey>,
    ctx: SpendContext,
) -> bool;

/// The coin spends a successful `Spends::finish_with_keys` collects into the context.
pub uninterp spec fn finished_spends_of(
    log: SpendsLog,
    deltas: Deltas,
    keys: IndexMap<chia_protocol::Bytes32, PublicKey>,
    ctx: SpendContext,
) -> Seq<CoinSpend>;

/// What `RequestedPayments::assertions` gives of the payments and asset info in a context
/// holding `ctx` (it hashes memos held in the context): `None` where it fails.
pub uninterp spec fn payment_assertions_of(
    p: RequestedPayments,
    a: AssetInfo,
    ctx: SpendContext,
) -> Option<Seq<AssertPuzzleAnnouncement>>;

/// Whether `SpendContext::hint` succeeds for the puzzle hash in a context holding `ctx`.
pub uninterp spec fn hint_ok(puzzle_hash: Bytes32, ctx: SpendContext) -> bool;

/// The memos a successful `SpendContext::hint` returns.
pub uninterp spec fn hint_memos_of(puzzle_hash: Bytes32, ctx: SpendContext) -> Memos;

/// The memos the payments of a `RequestedPayments` carry.
pub uninterp spec fn payment_hints_of(p: RequestedPayments) -> Set<Memos>;

/// Whether `Offer::from_spend_bundle` succeeds on the bundle in a context holding `ctx`.
pub uninterp spec fn parses_in(b: SpendBundle, ctx: SpendContext) -> bool;

/// Whether `Offer::from_input_spend_bundle` succeeds in a context holding `ctx`.
pub uninterp spec fn input_parses_in(
    b: SpendBundle,
    p: RequestedPayments,
    a: AssetInfo,
    ctx: SpendContext,
) -> bool;

/// Whether `Offer::to_spend_bundle` succeeds on the offer in a context holding `ctx`.
pub uninterp spec fn bundles_in(o: Offer, ctx: SpendContext) -> bool;

/// Whether `Offer::extend` succeeds on the two offers.
pub uninterp spec fn extends(o: Offer, other: Offer) -> bool;

/// Whether `StandardLayer::spend` succeeds for the key, coin and conditions in a context holding
/// `ctx`.
pub uninterp spec fn standard_spend_ok(
    key: PublicKey,
    coin: Coin,
    conditions: Conditions,
    ctx: SpendContext,
) -> bool;

/// What `RequestedPayments::actions` gives of `Offer::requested_payments`: the settle actions
/// that pay the offer's requested payments.
pub uninterp spec fn requested_actions_of(o: Offer) -> Seq<Action>;

/// The settlement-payments puzzle hash (`SETTLEMENT_PAYMENT_HASH`).
pub open spec fn settlement_hash() -> Bytes32 {
    [
        0xcfu8, 0xbf, 0xde, 0xed, 0x5c, 0x4c, 0xa2, 0xde, 0x3d, 0x0b, 0xf5, 0x20, 0xb9, 0xcb, 0x4b,
        0xb7, 0x74, 0x3a, 0x35, 0x9b, 0xd2, 0xe6, 0xa1, 0x88, 0xd1, 0x9c, 0xe7, 0xdf, 0xfc, 0x21,
        0xd3, 0xe7,
    ]
}

/// `s` with each of `inputs` added, in order.
pub open spec fn adds_of(s: SpendsLog, inputs: Seq<SpendInput>) -> SpendsLog
    decreases inputs.len(),
{
    if inputs.len() == 0 {
        s
    } else {
        spends_after_add(adds_of(s, inputs.drop_last()), inputs.last())
    }
}

/// The CAT asset info an `AssetInfo` holds: by asset id, the hidden puzzle hash of its
/// `CatAssetInfo`.
pub uninterp spec fn asset_info_cats_of(a: AssetInfo) -> Map<Seq<u8>, Option<Bytes32>>;

/// The NFT asset info an `AssetInfo` holds, by launcher id.
pub uninterp spec fn asset_info_nfts_of(a: AssetInfo) -> Map<Seq<u8>, NftAssetInfo>;

/// No CAT asset info.
pub open spec fn no_cat_info() -> Map<Seq<u8>, Option<Bytes32>> {
    Map::empty()
}

/// No NFT asset info.
pub open spec fn no_nft_info() -> Map<Seq<u8>, NftAssetInfo> {
    Map::empty()
}

/// The requested payments an offer holds (`Offer::requested_payments`).
pub uninterp spec fn offer_requests_of(o: Offer) -> RequestedPayments;

/// The launcher ids under which a `RequestedPayments` requests option payments (its `options`
/// keys).
pub uninterp spec fn option_requests_of(p: RequestedPayments) -> Set<Seq<u8>>;

/// No option payment.
pub open spec fn no_option_requests() -> Set<Seq<u8>> {
    Set::empty()
}

/// What a `RequestedPayments` requests, read as plain values.
pub struct Requests {
    /// The XCH payments, as `xch_requests_of` reads them.
    pub xch: Seq<(Seq<u8>, Seq<(Seq<u8>, u64)>)>,
    /// The CAT payments by asset id, as `cat_requests_of` reads them.
    pub cats: Map<Seq<u8>, Seq<(Seq<u8>, Seq<(Seq<u8>, u64)>)>>,
    /// The NFT payments by launcher id, as `nft_requests_of` reads them.
    pub nfts: Map<Seq<u8>, Seq<(Seq<u8>, Seq<(Seq<u8>, u64)>)>>,
    /// The launcher ids of the option payments.
    pub options: Set<Seq<u8>>,
}

/// The readings of a `RequestedPayments`.
pub open spec fn requests_of(p: RequestedPayments) -> Requests {
    Requests {
        xch: xch_requests_of(p),
        cats: cat_requests_of(p),
        nfts: nft_requests_of(p),
        options: option_requests_of(p),
    }
}

/// The notarized payments a map holds under `k`, none where it holds none.
pub open spec fn keyed_list(
    m: Map<Seq<u8>, Seq<(Seq<u8>, Seq<(Seq<u8>, u64)>)>>,
    k: Seq<u8>,
) -> Seq<(Seq<u8>, Seq<(Seq<u8>, u64)>)> {
    if m.dom().contains(k) {
        m[k]
    } else {
        Seq::empty()
    }
}

/// Two maps of notarized payments merged key by key, `b`'s list after `a`'s.
pub open spec fn merge_keyed(
    a: Map<Seq<u8>, Seq<(Seq<u8>, Seq<(Seq<u8>, u64)>)>>,
    b: Map<Seq<u8>, Seq<(Seq<u8>, Seq<(Seq<u8>, u64)>)>>,
) -> Map<Seq<u8>, Seq<(Seq<u8>, Seq<(Seq<u8>, u64)>)>> {
    Map::new(
        |k: Seq<u8>| a.dom().contains(k) || b.dom().contains(k),
        |k: Seq<u8>| keyed_list(a, k) + keyed_list(b, k),
    )
}

/// What `RequestedPayments::extend` leaves of `a` extended by `b`: the XCH payments appended,
/// the payments under each asset and launcher id appended, the option ids joined.
pub open spec fn merge_requests(a: Requests, b: Requests) -> Requests {
    Requests {
        xch: a.xch + b.xch,
        cats: merge_keyed(a.cats, b.cats),
        nfts: merge_keyed(a.nfts, b.nfts),
        options: a.options.union(b.options),
    }
}

/// How many requested-payment carriers `Offer::to_spend_bundle` spends for requests `q`: one for
/// the XCH payments when there are any, and one per CAT asset id, NFT launcher id and option id.
pub open spec fn requests_carrier_count(q: Requests) -> int {
    (if q.xch.len() > 0 {
        1int
    } else {
        0int
    }) + q.cats.dom().len() + q.nfts.dom().len() + q.options.len()
}

/// How many requested-payment carriers `Offer::to_spend_bundle` spends for `p`.
pub open spec fn carrier_count(p: RequestedPayments) -> int {
    requests_carrier_count(requests_of(p))
}

/// The aggregated signature of a spend bundle (`SpendBundle::aggregated_signature`).
pub uninterp spec fn bundle_signature_of(b: SpendBundle) -> Signature;

/// The aggregated signature of an offer's own bundle (`Offer::spend_bundle`).
pub uninterp spec fn offer_signature_of(o: Offer) -> Signature;

/// What `Signature + &Signature` gives (`+=` computes the same, `blst_p2_add_or_double`): the
/// aggregate of the two signatures.
pub uninterp spec fn signature_sum_of(a: Signature, b: Signature) -> Signature;

/// The views of a list of 32-byte hashes.
pub open spec fn hash_views(ids: Seq<Bytes32>) -> Seq<Seq<u8>> {
    ids.map_values(|id: Bytes32| id@)
}

// ---------------------------------------------------------------------------------------------
// Spend context.
// ---------------------------------------------------------------------------------------------

/// Calls `SpendContext::new`: a fresh, empty build context.
#[verifier::external_body]
pub(crate) fn context_new() -> (ctx: SpendContext)
    ensures
        pending_spends_of(ctx).len() == 0,
{
    SpendContext::new()
}

/// Calls `SpendContext::take`: drains the coin spends collected so far.
#[verifier::external_body]
pub(crate) fn context_take(ctx: &mut SpendContext) -> (r: Vec<CoinSpend>)
    ensures
        r@ == pending_spends_of(*old(ctx)),
        pending_spends_of(*final(ctx)).len() == 0,
        ctx_extends(*old(ctx), *final(ctx)),
{
    ctx.take()
}

/// Calls `SpendContext::hint`: allocates the memo list that hints `puzzle_hash`; the call can
/// fail on allocation.
#[verifier::external_body]
pub(crate) fn context_hint(ctx: &mut SpendContext, puzzle_hash: Bytes32) -> (r: Result<
    Memos,
    DriverError,
>)
    ensures
        r is Ok <==> hint_ok(puzzle_hash, *old(ctx)),
        r matches Ok(m) ==> m == hint_memos_of(puzzle_hash, *old(ctx)),
        pending_spends_of(*final(ctx)) == pending_spends_of(*old(ctx)),
        ctx_extends(*old(ctx), *final(ctx)),
{
    ctx.hint(puzzle_hash.into())
}

// ---------------------------------------------------------------------------------------------
// Hashes and amounts.
// ---------------------------------------------------------------------------------------------

/// Calls `SettlementPayment::mod_hash`: the settlement-payments puzzle hash, which offered assets
/// are sent to (`chia_puzzles::SETTLEMENT_PAYMENT_HASH`).
#[verifier::external_body]
pub(crate) fn settlement_payment_hash() -> (h: Bytes32)
    ensures
        h == settlement_hash(),
{
    <[u8; 32]>::from(SettlementPayment::mod_hash())
}

/// Calls `Coin::coin_id` on the coin: the result is `coin_id_of` of its fields.
#[verifier::external_body]
pub(crate) fn coin_id(coin: &Coin) -> (id: Bytes32)
    ensures
        id@ == coin_id_of(coin.parent_coin_info@, coin.puzzle_hash@, coin.amount),
{
    chia_protocol::Coin::new(coin.parent_coin_info.into(), coin.puzzle_hash.into(), coin.amount)
        .coin_id()
        .to_bytes()
}

/// Calls `Offer::nonce` on the ids: the result is `offer_nonce_of` of their multiset.
#[verifier::external_body]
pub(crate) fn offer_nonce(ids: Vec<Bytes32>) -> (nonce: Bytes32)
    ensures
        nonce@ == offer_nonce_of(hash_views(ids@).to_multiset()),
{
    Offer::nonce(ids.into_iter().map(Into::into).collect()).to_bytes()
}

/// Hashes `data` with `chia_sha2::Sha256` (`new`, `update`, `finalize`): the SHA-256 digest.
#[verifier::external_body]
pub(crate) fn sha256(data: &[u8]) -> (digest: Bytes32)
    ensures
        digest@ == sha256_of(data@),
{
    let mut hasher = Sha256::new();
    hasher.update(data);
    hasher.finalize()
}

/// Calls `chia_sdk_driver::coin_amount`: succeeds exactly when the amount fits in a `u64`, with
/// the same amount.
#[verifier::external_body]
pub(crate) fn coin_amount(amount: u128) -> (r: Result<u64, DriverError>)
    ensures
        r is Ok <==> amount <= u64::MAX,
        r matches Ok(v) ==> v == amount,
{
    chia_wallet_sdk::driver::coin_amount(amount)
}

/// Calls `IndexMap::get` on an owner-key map: a key comes back exactly when the map holds one
/// for `puzzle_hash`.
#[verifier::external_body]
pub(crate) fn owner_key<'a>(
    keys: &'a IndexMap<chia_protocol::Bytes32, PublicKey>,
    puzzle_hash: &Bytes32,
) -> (r:
    Option<&'a PublicKey>)
    ensures
        r is Some <==> owner_key_set(*keys).contains(puzzle_hash@),
        r matches Some(k) ==> *k == owner_key_of(*keys, puzzle_hash@),
{
    keys.get(&chia_protocol::Bytes32::new(*puzzle_hash))
}

// ---------------------------------------------------------------------------------------------
// The action system (`Spends`).
// ---------------------------------------------------------------------------------------------

/// Calls `Spends::new` with the change puzzle hash.
#[verifier::external_body]
fn new_spends(change_puzzle_hash: Bytes32) -> Spends {
    Spends::new(change_puzzle_hash.into())
}

/// Calls `Spends::add` with an XCH coin.
#[verifier::external_body]
fn add_coin_to(spends: &mut Spends, coin: Coin) {
    spends.add(chia_protocol::Coin::new(
        coin.parent_coin_info.into(),
        coin.puzzle_hash.into(),
        coin.amount,
    ));
}

/// Calls `Spends::add` with a CAT, rebuilt field for field as the SDK's `Cat`.
#[verifier::external_body]
fn add_cat_to(spends: &mut Spends, cat: Cat) {
    let c = cat.coin;
    let coin = chia_protocol::Coin::new(c.parent_coin_info.into(), c.puzzle_hash.into(), c.amount);
    let lineage = cat.lineage_proof.map(|l| chia_puzzle_types::LineageProof {
        parent_parent_coin_info: l.parent_parent_coin_info.into(),
        parent_inner_puzzle_hash: l.parent_inner_puzzle_hash.into(),
        parent_amount: l.parent_amount,
    });
    let info = CatInfo::new(
        cat.asset_id.into(),
        cat.hidden_puzzle_hash.map(Into::into),
        cat.p2_puzzle_hash.into(),
    );
    spends.add(chia_wallet_sdk::driver::Cat::new(coin, lineage, info));
}

/// Calls `Spends::add` with an NFT.
#[verifier::external_body]
fn add_nft_to(spends: &mut Spends, nft: &Singleton<NftInfo>) {
    spends.add(*nft);
}

/// Calls `Spends::add` with the offered coins of a parsed offer (`Offer::offered_coins`).
#[verifier::external_body]
fn add_offered_to(spends: &mut Spends, offer: &Offer) {
    spends.add(offer.offered_coins().clone());
}

/// Extends the spends' required conditions (`ConditionConfig::required`, `Conditions::extend`)
/// with the assertions.
#[verifier::external_body]
fn require_on(spends: &mut Spends, assertions: Vec<AssertPuzzleAnnouncement>) {
    let required = std::mem::take(&mut spends.conditions.required);
    spends.conditions.required = required.extend(assertions);
}

/// A fresh `Spends` returning change to the puzzle hash.
pub(crate) fn spends_new(change_puzzle_hash: Bytes32) -> (s: LoggedSpends)
    ensures
        s.log() == fresh_log(change_puzzle_hash),
{
    LoggedSpends { spends: new_spends(change_puzzle_hash), log: Ghost(fresh_log(change_puzzle_hash)) }
}

/// Adds an XCH coin to the spends.
pub(crate) fn spends_add_coin(spends: &mut LoggedSpends, coin: Coin)
    ensures
        final(spends).log() == spends_after_add(old(spends).log(), SpendInput::Xch(coin)),
{
    add_coin_to(&mut spends.spends, coin);
    spends.log = Ghost(spends_after_add(spends.log@, SpendInput::Xch(coin)));
}

/// Adds a CAT to the spends.
pub(crate) fn spends_add_cat(spends: &mut LoggedSpends, cat: Cat)
    ensures
        final(spends).log() == spends_after_add(old(spends).log(), SpendInput::Cat(cat)),
{
    add_cat_to(&mut spends.spends, cat);
    spends.log = Ghost(spends_after_add(spends.log@, SpendInput::Cat(cat)));
}

/// Adds an NFT to the spends.
pub(crate) fn spends_add_nft(spends: &mut LoggedSpends, nft: &Singleton<NftInfo>)
    ensures
        final(spends).log() == spends_after_add(old(spends).log(), SpendInput::Nft(*nft)),
{
    add_nft_to(&mut spends.spends, nft);
    spends.log = Ghost(spends_after_add(spends.log@, SpendInput::Nft(*nft)));
}

/// Adds the offered coins of a parsed offer to the spends.
pub(crate) fn spends_add_offered(spends: &mut LoggedSpends, offer: &Offer)
    ensures
        final(spends).log() == spends_after_add(old(spends).log(), SpendInput::Offered(*offer)),
{
    add_offered_to(&mut spends.spends, offer);
    spends.log = Ghost(spends_after_add(spends.log@, SpendInput::Offered(*offer)));
}

/// Requires the assertions of the spends.
pub(crate) fn spends_require(spends: &mut LoggedSpends, assertions: Vec<AssertPuzzleAnnouncement>)
    ensures
        final(spends).log() == spends_after_require(old(spends).log(), assertions@),
{
    let ghost a = assertions@;
    require_on(&mut spends.spends, assertions);
    spends.log = Ghost(spends_after_require(spends.log@, a));
}

/// Calls `Spends::apply` with the actions; it can fail. The call changes the `Spends` but not how
/// it is recorded to have been built. On success the context has collected what applying the
/// actions spends. Nothing is claimed of the deltas, whose maps are seeded afresh on every call.
#[verifier::external_body]
fn apply_on(spends: &mut LoggedSpends, ctx: &mut SpendContext, actions: &Vec<Action>) -> (r: Result<
    Deltas,
    DriverError,
>)
    ensures
        final(spends).log() == old(spends).log(),
        r is Ok <==> applies(old(spends).log(), actions@, *old(ctx)),
        r is Ok ==> pending_spends_of(*final(ctx)) == pending_spends_of(*old(ctx))
            + applied_spends_of(old(spends).log(), actions@, *old(ctx)),
        ctx_extends(*old(ctx), *final(ctx)),
{
    spends.spends.apply(ctx, actions)
}

/// Applies the actions to the spends in the context; it can fail.
pub(crate) fn spends_apply(spends: &mut LoggedSpends, ctx: &mut SpendContext, actions: &Vec<Action>) -> (r: Result<
    Deltas,
    DriverError,
>)
    ensures
        final(spends).log() == spends_after_apply(old(spends).log(), actions@, *old(ctx)),
        r is Ok <==> applies(old(spends).log(), actions@, *old(ctx)),
        r is Ok ==> pending_spends_of(*final(ctx)) == pending_spends_of(*old(ctx))
            + applied_spends_of(old(spends).log(), actions@, *old(ctx)),
        ctx_extends(*old(ctx), *final(ctx)),
{
    let ghost c = *ctx;
    let r = apply_on(spends, ctx, actions);
    spends.log = Ghost(spends_after_apply(spends.log@, actions@, c));
    r
}

/// Calls `Spends::finish_with_keys` with `Relation::AssertConcurrent` and the owner keys; it can
/// fail. On success the context has collected the finished spends.
#[verifier::external_body]
pub(crate) fn spends_finish(
    spends: LoggedSpends,
    ctx: &mut SpendContext,
    deltas: &Deltas,
    keys: &IndexMap<chia_protocol::Bytes32, PublicKey>,
) -> (r: Result<(), DriverError>)
    ensures
        r is Ok <==> finishes(spends.log(), *deltas, *keys, *old(ctx)),
        r is Ok ==> pending_spends_of(*final(ctx)) == pending_spends_of(*old(ctx))
            + finished_spends_of(spends.log(), *deltas, *keys, *old(ctx)),
        ctx_extends(*old(ctx), *final(ctx)),
{
    spends.spends.finish_with_keys(ctx, deltas, Relation::AssertConcurrent, keys).map(|_| ())
}

/// Calls `RequestedPayments::assertions`: the puzzle-announcement assertions for the requested
/// payments; it can fail. It only allocates in the context.
#[verifier::external_body]
pub(crate) fn payment_assertions(
    ctx: &mut SpendContext,
    payments: &RequestedPayments,
    asset_info: &AssetInfo,
) -> (r: Result<Vec<AssertPuzzleAnnouncement>, DriverError>)
    ensures
        r is Ok <==> payment_assertions_of(*payments, *asset_info, *old(ctx)) is Some,
        r matches Ok(v) ==> v@ == payment_assertions_of(*payments, *asset_info, *old(ctx))->0,
        pending_spends_of(*final(ctx)) == pending_spends_of(*old(ctx)),
        ctx_extends(*old(ctx), *final(ctx)),
{
    payments.assertions(ctx, asset_info)
}

/// Calls `Action::send` with no memos: the result is `send_action_of` of the arguments.
#[verifier::external_body]
pub(crate) fn action_send(asset: AssetRef, puzzle_hash: Bytes32, amount: u64) -> (a: Action)
    ensures
        a == send_action_of(asset, puzzle_hash@, amount),
{
    let id = match asset {
        AssetRef::Xch => Id::Xch,
        AssetRef::Existing(id) => Id::Existing(id.into()),
    };
    Action::send(id, puzzle_hash.into(), amount, Memos::None)
}

/// Calls `Action::fee`: the result is `fee_action_of` of the amount.
#[verifier::external_body]
pub(crate) fn action_fee(amount: u64) -> (a: Action)
    ensures
        a == fee_action_of(amount),
{
    Action::fee(amount)
}

/// Calls `RequestedPayments::actions` on `Offer::requested_payments`: the settle actions that
/// fund the offer's requested payments.
#[verifier::external_body]
pub(crate) fn requested_actions(offer: &Offer) -> (r: Vec<Action>)
    ensures
        r@ == requested_actions_of(*offer),
{
    offer.requested_payments().actions()
}

// ---------------------------------------------------------------------------------------------
// Requested payments and asset info.
// ---------------------------------------------------------------------------------------------

/// Calls `RequestedPayments::new` (its `Default`): no XCH, CAT or NFT payment is requested.
#[verifier::external_body]
pub(crate) fn requested_payments_new() -> (p: RequestedPayments)
    ensures
        xch_requests_of(p) == no_payments(),
        cat_requests_of(p) == no_keyed_payments(),
        nft_requests_of(p) == no_keyed_payments(),
        option_requests_of(p) == no_option_requests(),
        payment_hints_of(p) == Set::<Memos>::empty(),
{
    RequestedPayments::new()
}

/// Pushes `NotarizedPayment::new(nonce, [Payment::new(payee, amount, hint)])` onto the requested
/// XCH payments (`Vec::push`); the CAT and NFT payments are untouched.
#[verifier::external_body]
pub(crate) fn request_xch(
    payments: &mut RequestedPayments,
    nonce: Bytes32,
    payee: Bytes32,
    amount: u64,
    hint: Memos,
)
    ensures
        xch_requests_of(*final(payments)) == xch_requests_of(*old(payments)) + one_payment(
            nonce@,
            payee@,
            amount,
        ),
        cat_requests_of(*final(payments)) == cat_requests_of(*old(payments)),
        nft_requests_of(*final(payments)) == nft_requests_of(*old(payments)),
        option_requests_of(*final(payments)) == option_requests_of(*old(payments)),
        payment_hints_of(*final(payments)).contains(hint),
        payment_hints_of(*final(payments)).subset_of(payment_hints_of(*old(payments)).insert(hint)),
{
    payments.xch.push(
        NotarizedPayment::new(nonce.into(), vec![Payment::new(payee.into(), amount, hint)]),
    );
}

/// Inserts `[NotarizedPayment::new(nonce, [Payment::new(payee, amount, hint)])]` under the
/// asset id into the requested CAT payments (`IndexMap::insert`, which replaces an earlier
/// entry for the same id); the XCH and NFT payments are untouched.
#[verifier::external_body]
pub(crate) fn request_cat(
    payments: &mut RequestedPayments,
    asset_id: Bytes32,
    nonce: Bytes32,
    payee: Bytes32,
    amount: u64,
    hint: Memos,
)
    ensures
        cat_requests_of(*final(payments)) == cat_requests_of(*old(payments)).insert(
            asset_id@,
            one_payment(nonce@, payee@, amount),
        ),
        xch_requests_of(*final(payments)) == xch_requests_of(*old(payments)),
        nft_requests_of(*final(payments)) == nft_requests_of(*old(payments)),
        option_requests_of(*final(payments)) == option_requests_of(*old(payments)),
        payment_hints_of(*final(payments)).contains(hint),
        payment_hints_of(*final(payments)).subset_of(payment_hints_of(*old(payments)).insert(hint)),
{
    payments.cats.insert(
        asset_id.into(),
        vec![NotarizedPayment::new(nonce.into(), vec![Payment::new(payee.into(), amount, hint)])],
    );
}

/// Inserts `[NotarizedPayment::new(nonce, [Payment::new(payee, amount, hint)])]` under the
/// launcher id into the requested NFT payments (`IndexMap::insert`, which replaces an earlier
/// entry for the same id); the XCH and CAT payments are untouched.
#[verifier::external_body]
pub(crate) fn request_nft(
    payments: &mut RequestedPayments,
    launcher_id: Bytes32,
    nonce: Bytes32,
    payee: Bytes32,
    amount: u64,
    hint: Memos,
)
    ensures
        nft_requests_of(*final(payments)) == nft_requests_of(*old(payments)).insert(
            launcher_id@,
            one_payment(nonce@, payee@, amount),
        ),
        xch_requests_of(*final(payments)) == xch_requests_of(*old(payments)),
        cat_requests_of(*final(payments)) == cat_requests_of(*old(payments)),
        option_requests_of(*final(payments)) == option_requests_of(*old(payments)),
        payment_hints_of(*final(payments)).contains(hint),
        payment_hints_of(*final(payments)).subset_of(payment_hints_of(*old(payments)).insert(hint)),
{
    payments.nfts.insert(
        launcher_id.into(),
        vec![NotarizedPayment::new(nonce.into(), vec![Payment::new(payee.into(), amount, hint)])],
    );
}

/// Calls `AssetInfo::new` (its `Default`): no CAT or NFT asset info.
#[verifier::external_body]
pub(crate) fn asset_info_new() -> (a: AssetInfo)
    ensures
        asset_info_cats_of(a) == no_cat_info(),
        asset_info_nfts_of(a) == no_nft_info(),
{
    AssetInfo::new()
}

/// Calls `AssetInfo::insert_cat` with `CatAssetInfo::new(hidden_puzzle_hash)`. The entry is
/// inserted (`HashMap::insert`) either way; the call fails exactly where an entry for the asset
/// id was already there with another hidden puzzle hash.
#[verifier::external_body]
pub(crate) fn asset_info_insert_cat(
    info: &mut AssetInfo,
    asset_id: Bytes32,
    hidden_puzzle_hash: Option<Bytes32>,
) -> (r: Result<(), DriverError>)
    ensures
        asset_info_cats_of(*final(info)) == asset_info_cats_of(*old(info)).insert(
            asset_id@,
            hidden_puzzle_hash,
        ),
        asset_info_nfts_of(*final(info)) == asset_info_nfts_of(*old(info)),
        r is Err <==> asset_info_cats_of(*old(info)).dom().contains(asset_id@) && asset_info_cats_of(
            *old(info),
        )[asset_id@] != hidden_puzzle_hash,
{
    info.insert_cat(asset_id.into(), CatAssetInfo::new(hidden_puzzle_hash.map(Into::into)))
}

/// Calls `AssetInfo::insert_nft`. The entry is inserted (`HashMap::insert`) either way; the
/// call fails only where an entry for the launcher id was already there and differs from
/// `nft_info` (`NftAssetInfo`'s `==` compares the metadata by tree hash, so when the call
/// succeeds the two may still differ in their metadata pointer).
#[verifier::external_body]
pub(crate) fn asset_info_insert_nft(
    info: &mut AssetInfo,
    launcher_id: Bytes32,
    nft_info: &NftAssetInfo,
) -> (r: Result<(), DriverError>)
    ensures
        asset_info_nfts_of(*final(info)) == asset_info_nfts_of(*old(info)).insert(
            launcher_id@,
            *nft_info,
        ),
        asset_info_cats_of(*final(info)) == asset_info_cats_of(*old(info)),
        r is Err ==> asset_info_nfts_of(*old(info)).dom().contains(launcher_id@) && asset_info_nfts_of(
            *old(info),
        )[launcher_id@] != *nft_info,
{
    info.insert_nft(launcher_id.into(), *nft_info)
}

// ---------------------------------------------------------------------------------------------
// Offers.
// ---------------------------------------------------------------------------------------------

/// Calls `Offer::from_spend_bundle` in the context's allocator; it can fail. On success the
/// offer's own bundle holds the spends of the bundle's coins with a nonzero parent id, in order
/// (the zero-parent spends are parsed as requested payments).
#[verifier::external_body]
pub(crate) fn offer_from_spend_bundle(ctx: &mut SpendContext, bundle: &SpendBundle) -> (r: Result<
    Offer,
    DriverError,
>)
    ensures
        r is Ok <==> parses_in(*bundle, *old(ctx)),
        r matches Ok(o) ==> offer_bundle_coins_of(o) == real_coins(bundle_coins_of(*bundle)),
        r matches Ok(o) ==> same_readings(o, bundle_offer_of(*bundle)),
        r matches Ok(o) ==> offer_signature_of(o) == bundle_signature_of(*bundle),
        pending_spends_of(*final(ctx)) == pending_spends_of(*old(ctx)),
        ctx_extends(*old(ctx), *final(ctx)),
{
    Offer::from_spend_bundle(ctx, bundle)
}

/// Calls `Offer::from_input_spend_bundle` in the context's allocator; it can fail. On success
/// the offer's own bundle is the signed bundle, unchanged, and its asset info is the given one
/// with that of the offered coins added (`AssetInfo::insert_*`, which fail on a conflicting
/// entry, so a given CAT entry is kept as it was).
#[verifier::external_body]
pub(crate) fn offer_from_input_spend_bundle(
    ctx: &mut SpendContext,
    signed: SpendBundle,
    payments: RequestedPayments,
    asset_info: AssetInfo,
) -> (r: Result<Offer, DriverError>)
    ensures
        r is Ok <==> input_parses_in(signed, payments, asset_info, *old(ctx)),
        r matches Ok(o) ==> offer_bundle_coins_of(o) == bundle_coins_of(signed),
        r matches Ok(o) ==> offer_requests_of(o) == payments,
        r matches Ok(o) ==> offer_signature_of(o) == bundle_signature_of(signed),
        r matches Ok(o) ==> forall|id: Seq<u8>|
            #![trigger asset_info_cats_of(asset_info).dom().contains(id)]
            asset_info_cats_of(asset_info).dom().contains(id) ==> asset_info_cats_of(
                offer_asset_info_of(o),
            ).dom().contains(id) && asset_info_cats_of(offer_asset_info_of(o))[id]
                == asset_info_cats_of(asset_info)[id],
        r matches Ok(o) ==> forall|id: Seq<u8>|
            #![trigger asset_info_nfts_of(asset_info).dom().contains(id)]
            asset_info_nfts_of(asset_info).dom().contains(id) ==> asset_info_nfts_of(
                offer_asset_info_of(o),
            ).dom().contains(id),
        pending_spends_of(*final(ctx)) == pending_spends_of(*old(ctx)),
        ctx_extends(*old(ctx), *final(ctx)),
{
    Offer::from_input_spend_bundle(ctx, signed, payments, asset_info)
}

/// Calls `Offer::to_spend_bundle`; it can fail. On success the bundle is `offer_bundle_in` of
/// the offer and the context; it spends one zero-parent, zero-amount carrier per kind of
/// requested payment (the XCH one, at the settlement puzzle hash, first), whose coins are
/// `carrier_coins_of` the requested payments and the offer's asset info, then the offer's own
/// spends in order, under the offer's own signature.
#[verifier::external_body]
pub(crate) fn offer_to_spend_bundle(offer: Offer, ctx: &mut SpendContext) -> (r: Result<
    SpendBundle,
    DriverError,
>)
    ensures
        r is Ok <==> bundles_in(offer, *old(ctx)),
        r matches Ok(b) ==> b == offer_bundle_in(offer, *old(ctx)),
        r matches Ok(b) ==> bundle_coins_of(b) == carrier_coins_of(
            offer_requests_of(offer),
            offer_asset_info_of(offer),
        ) + offer_bundle_coins_of(offer),
        r matches Ok(b) ==> all_carriers(
            carrier_coins_of(offer_requests_of(offer), offer_asset_info_of(offer)),
        ) && carrier_coins_of(offer_requests_of(offer), offer_asset_info_of(offer)).len()
            == carrier_count(offer_requests_of(offer)) && (xch_requests_of(
            offer_requests_of(offer),
        ).len() > 0 ==> carrier_coins_of(offer_requests_of(offer), offer_asset_info_of(offer))[0].puzzle_hash
            == settlement_hash()),
        r matches Ok(b) ==> bundle_signature_of(b) == offer_signature_of(offer),
        ctx_extends(*old(ctx), *final(ctx)),
{
    offer.to_spend_bundle(ctx)
}

/// Calls `Offer::extend`; it can fail. On success the offer's own spends are its earlier
/// spends followed by the other offer's, its signature aggregates both (`+=`), and its requested
/// payments are extended by the other's (`RequestedPayments::extend`).
#[verifier::external_body]
pub(crate) fn offer_extend(offer: &mut Offer, other: Offer) -> (r: Result<(), DriverError>)
    ensures
        r is Ok <==> extends(*old(offer), other),
        r is Ok ==> offer_bundle_coins_of(*final(offer)) == offer_bundle_coins_of(*old(offer))
            + offer_bundle_coins_of(other),
        r is Ok ==> offer_signature_of(*final(offer)) == signature_sum_of(
            offer_signature_of(*old(offer)),
            offer_signature_of(other),
        ),
        r is Ok ==> requests_of(offer_requests_of(*final(offer))) == merge_requests(
            requests_of(offer_requests_of(*old(offer))),
            requests_of(offer_requests_of(other)),
        ),
{
    offer.extend(other)
}

/// Calls `Offer::take`: the maker's spends, then the taker's, in one bundle whose signature
/// aggregates both (`Signature + &Signature`).
#[verifier::external_body]
pub(crate) fn offer_take(offer: Offer, taker: SpendBundle) -> (r: SpendBundle)
    ensures
        bundle_coins_of(r) == offer_bundle_coins_of(offer) + bundle_coins_of(taker),
        bundle_signature_of(r) == signature_sum_of(
            offer_signature_of(offer),
            bundle_signature_of(taker),
        ),
{
    offer.take(taker)
}

/// Calls `OfferCoins::amounts` on `Offer::offered_coins`: the offered XCH and the offered CAT
/// amounts per asset id, in the SDK's order.
#[verifier::external_body]
pub(crate) fn offer_offered_amounts(offer: &Offer) -> (r: (u128, Vec<(Bytes32, u128)>))
    ensures
        r.0 == offered_amounts_of(*offer).0,
        r.1@ == offered_amounts_of(*offer).1,
{
    let amounts = offer.offered_coins().amounts();
    (amounts.xch, amounts.cats.iter().map(|(id, a)| (id.to_bytes(), *a)).collect())
}

/// Reads the launcher ids of the offered NFTs (`Offer::offered_coins`, `nfts` keys).
#[verifier::external_body]
pub(crate) fn offer_offered_nfts(offer: &Offer) -> (r: Vec<Bytes32>)
    ensures
        r@ == offered_nfts_of(*offer),
{
    offer.offered_coins().nfts.keys().map(|id| id.to_bytes()).collect()
}

/// Calls `RequestedPayments::amounts` on `Offer::requested_payments`: the requested XCH and the
/// requested CAT amounts per asset id, in the SDK's order.
#[verifier::external_body]
pub(crate) fn offer_requested_amounts(offer: &Offer) -> (r: (u128, Vec<(Bytes32, u128)>))
    ensures
        r.0 == requested_amounts_of(*offer).0,
        r.1@ == requested_amounts_of(*offer).1,
{
    let amounts = offer.requested_payments().amounts();
    (amounts.xch, amounts.cats.iter().map(|(id, a)| (id.to_bytes(), *a)).collect())
}

/// Reads the launcher ids of the requested NFTs (`Offer::requested_payments`, `nfts` keys).
#[verifier::external_body]
pub(crate) fn offer_requested_nfts(offer: &Offer) -> (r: Vec<Bytes32>)
    ensures
        r@ == requested_nfts_of(*offer),
{
    offer.requested_payments().nfts.keys().map(|id| id.to_bytes()).collect()
}

/// Calls `Offer::arbitrage` and reads its `offered` side: the XCH and per-asset CAT amounts by
/// which the requested side exceeds the offered side. Its XCH is the requested XCH less the
/// offered XCH when that is positive, else zero (`Offer::arbitrage`, both read from `amounts`).
#[verifier::external_body]
pub(crate) fn offer_arbitrage_offered(offer: &Offer) -> (r: (u128, Vec<(Bytes32, u128)>))
    ensures
        r.0 == arbitrage_xch_of(*offer),
        r.1@ == arbitrage_cats_of(*offer),
{
    let side = offer.arbitrage().offered;
    (side.xch, side.cats.iter().map(|(id, a)| (id.to_bytes(), *a)).collect())
}

/// Calls `Offer::offered_royalties`: `(launcher id, basis points)` of each royalty leg the
/// offered side pays; it can fail.
#[verifier::external_body]
pub(crate) fn offer_offered_royalties(offer: &Offer) -> (r: Result<Vec<(Bytes32, u16)>, DriverError>)
    ensures
        r is Ok <==> offered_royalties_of(*offer) is Some,
        r matches Ok(v) ==> v@ == offered_royalties_of(*offer)->0,
{
    offer.offered_royalties().map(
        |rs| rs.iter().map(|r| (r.launcher_id.to_bytes(), r.basis_points)).collect(),
    )
}

/// Calls `Offer::requested_royalties`: `(launcher id, basis points)` of each royalty leg the
/// requested side pays.
#[verifier::external_body]
pub(crate) fn offer_requested_royalties(offer: &Offer) -> (r: Vec<(Bytes32, u16)>)
    ensures
        r@ == requested_royalties_of(*offer),
{
    offer.requested_royalties().iter().map(|r| (r.launcher_id.to_bytes(), r.basis_points)).collect()
}

/// Calls `Offer::cancellable_coin_spends` and reads the coin of each spend; it can fail.
#[verifier::external_body]
pub(crate) fn offer_cancellable_coins(offer: &Offer) -> (r: Result<Vec<Coin>, DriverError>)
    ensures
        r is Ok <==> cancellable_coins_of(*offer) is Some,
        r matches Ok(v) ==> v@ == cancellable_coins_of(*offer)->0,
{
    offer.cancellable_coin_spends().map(
        |spends| spends.iter().map(|cs| Coin {
            parent_coin_info: cs.coin.parent_coin_info.to_bytes(),
            puzzle_hash: cs.coin.puzzle_hash.to_bytes(),
            amount: cs.coin.amount,
        }).collect(),
    )
}

/// Reads the coin of each coin spend in the bundle (`SpendBundle::coin_spends`), in order.
#[verifier::external_body]
pub(crate) fn bundle_coins(bundle: &SpendBundle) -> (r: Vec<Coin>)
    ensures
        r@ == bundle_coins_of(*bundle),
{
    bundle.coin_spends.iter().map(|cs| Coin {
        parent_coin_info: cs.coin.parent_coin_info.to_bytes(),
        puzzle_hash: cs.coin.puzzle_hash.to_bytes(),
        amount: cs.coin.amount,
    }).collect()
}

/// Calls `Streamable::to_bytes` on the bundle: its canonical serialization; it can fail.
#[verifier::external_body]
pub(crate) fn bundle_to_bytes(bundle: &SpendBundle) -> (r: Result<Vec<u8>, StreamableError>)
    ensures
        r is Ok <==> bundle_bytes_of(*bundle) is Ok,
        r matches Ok(v) ==> v@ == bundle_bytes_of(*bundle)->Ok_0,
        r matches Err(e) ==> e == bundle_bytes_of(*bundle)->Err_0,
{
    chia_traits::Streamable::to_bytes(bundle)
}

// ---------------------------------------------------------------------------------------------
// Standard-layer spends.
// ---------------------------------------------------------------------------------------------

/// Builds `Conditions::new().create_coin(puzzle_hash, amount, Memos::None)`: a list of that one
/// condition.
#[verifier::external_body]
pub(crate) fn create_coin_conditions(puzzle_hash: Bytes32, amount: u64) -> (c: Conditions)
    ensures
        conditions_of(c) == seq![CoinCondition::CreateCoin { puzzle_hash, amount }],
{
    Conditions::new().create_coin(puzzle_hash.into(), amount, Memos::None)
}

/// Calls `Conditions::reserve_fee`: appends a reserve-fee condition (`Conditions::with`).
#[verifier::external_body]
pub(crate) fn conditions_reserve_fee(conditions: Conditions, fee: u64) -> (c: Conditions)
    ensures
        conditions_of(c) == conditions_of(conditions).push(CoinCondition::ReserveFee(fee)),
{
    conditions.reserve_fee(fee)
}

/// Calls `StandardLayer::new(key).spend(ctx, coin, conditions)`; it can fail. On success the
/// context has collected one more coin spend (`SpendContext::spend`, `insert`): it spends
/// `coin` through the standard puzzle of `key`, with a delegated puzzle outputting `conditions`.
#[verifier::external_body]
pub(crate) fn standard_spend(
    ctx: &mut SpendContext,
    key: &PublicKey,
    coin: Coin,
    conditions: Conditions,
) -> (r: Result<(), DriverError>)
    ensures
        r is Ok <==> standard_spend_ok(*key, coin, conditions, *old(ctx)),
        r is Ok ==> pending_spends_of(*final(ctx)).len() == pending_spends_of(*old(ctx)).len() + 1
            && pending_spends_of(*final(ctx)).drop_last() == pending_spends_of(*old(ctx))
            && spend_coin_of(pending_spends_of(*final(ctx)).last()) == coin && spend_key_of(
            pending_spends_of(*final(ctx)).last(),
        ) == *key && delegated_conditions_of(pending_spends_of(*final(ctx)).last())
            == conditions_of(conditions),
        ctx_extends(*old(ctx), *final(ctx)),
{
    let coin = chia_protocol::Coin::new(
        coin.parent_coin_info.into(),
        coin.puzzle_hash.into(),
        coin.amount,
    );
    StandardLayer::new(*key).spend(ctx, coin, conditions)
}

// ---------------------------------------------------------------------------------------------
// NFTs.
// ---------------------------------------------------------------------------------------------

/// Reads the NFT's current coin (`Singleton::coin`).
#[verifier::external_body]
pub(crate) fn nft_coin(nft: &Singleton<NftInfo>) -> (c: Coin)
    ensures
        c == nft_coin_of(*nft),
{
    Coin {
        parent_coin_info: nft.coin.parent_coin_info.to_bytes(),
        puzzle_hash: nft.coin.puzzle_hash.to_bytes(),
        amount: nft.coin.amount,
    }
}

/// Reads the NFT's launcher id (`NftInfo::launcher_id`).
#[verifier::external_body]
pub(crate) fn nft_launcher_id(nft: &Singleton<NftInfo>) -> (id: Bytes32)
    ensures
        id == nft_launcher_id_of(*nft),
{
    nft.info.launcher_id.to_bytes()
}

// ---------------------------------------------------------------------------------------------
// Error texts.
// ---------------------------------------------------------------------------------------------

/// The `Display` text of a driver error (`to_string`).
#[verifier::external_body]
pub(crate) fn driver_error_text(e: &DriverError) -> String {
    e.to_string()
}

/// The `Display` text of a serialization error (`to_string`).
#[verifier::external_body]
pub(crate) fn stream_error_text(e: &StreamableError) -> (r: String)
    ensures
        r@ == stream_error_text_of(*e),
{
    e.to_string()
}

} // verus!
