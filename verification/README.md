# dig-offers

A key-free, network-free builder for Chia offers (settlement per CHIP-0023 / CHIP-0024) over
XCH, CAT and NFT assets, verified with Verus. The builders construct unsigned coin spends and
never hold a secret key, sign, or touch the network: the caller signs, assembles and broadcasts.

## Layout

- `src/` — the verified library.
  - `make.rs` — the maker's side: coin selection, the actions a make applies (offered assets
    into settlement, never the requested side), the offer nonce, requested-payment assertions.
  - `take.rs` — the taker's side: the funds-cover check, the taker's spends, settlement.
  - `combine.rs` — merging offers, refusing two members that spend the same offered coin.
  - `cancel.rs` — reclaiming an offer's coins, with the fee reserved once.
  - `summarize.rs` — the two-sided summary of an offer.
  - `offer_id.rs` — the SHA-256 id of an offer bundle's canonical bytes.
  - `hydrate.rs` — checking offer text before decoding, and parsing decoded bundles.
  - `select.rs` — greedy largest-first coin selection and its laws.
  - `text.rs` — whitespace trimming, the `offer1` prefix test, number and hex rendering.
  - `sdk.rs` — the trusted boundary to `chia-wallet-sdk` and friends: declared types and the
    wrappers around each SDK call, with the contracts they are believed to meet.
- `app/` — the string-facing surface (`offer1…` strings through the SDK's offer codec) and the
  error type with `Display`.
- `tests/` — unit checks and end-to-end flows on the `chia-sdk-test` simulator.

## Main properties proved

Properties of the SDK's own computations (parsing an offer, the action system that builds coin
spends, serialization, signature aggregation) rest on the contracts of the wrappers in
`src/sdk.rs`, which name what each call gives from its arguments, the build context among them;
the library's own decisions are proved against them. Where a call depends on a context the
library cannot name (a fresh one, or one an earlier call changed), a result is stated for every
context the call could have seen, each a later state of the caller's context (`ctx_extends`):
an SDK error always comes from a named step that failed, and the steps of one build all run in
the caller's context, whose allocator holds the pointers of the offers, hints and metadata.

- Coin selection spends only coins it was given, largest first, covering the amount whenever
  the coins can; no shorter largest-first prefix covers it.
- A make's checks before any SDK call decide its refusals exactly. After them the payee is
  hinted, the requested payments are built (`fill_requested`: a zero CAT amount is refused;
  every payment is notarized to the nonce and carries the payee's hint), and the result is `Ok`
  exactly when the SDK steps succeed: the offered NFTs and selected coins added to a fresh
  `Spends`, the actions of `make_actions` (the offered assets into settlement, then the fee;
  nothing pays the requested side) applied, the assertions of the requested payments required,
  and the spends finished. Its nonce is that of exactly the coins it spends and does not depend
  on the order of the offered CAT legs.
- A take of a bundle that parses is refused with the named shortfall exactly when the funds miss
  the offer's arbitrage; otherwise it is `Ok` exactly when the SDK steps succeed, with the
  spends built from the offer's offered coins, the taker's coins, the offer's requested settle
  actions and the fee. A refused take leaves the context's spends as they were. Settling it
  aggregates the maker's and the taker's signatures.
- A cancel of a bundle that parses is decided by the offer's cancellable coins
  (`build_reclaims`): none is refused; the first coin without an owner key is refused by its
  puzzle hash, unless the standard spend of an earlier coin failed in the cancel's context;
  otherwise each coin is spent once, in order, under its owner key, recreating its whole amount
  at the reclaim puzzle hash, with the fee reserved on the first spend only, unless a standard
  spend fails.
- A combine is refused when two members spend the same real coin, whatever their order;
  otherwise it carries every member's real spends in order after one carrier per kind of
  payment the members request together, under the aggregate of their signatures.
- A summary reports exactly the offer's amounts, NFT ids, arbitrage and royalties, omitting
  zero fungible amounts; an offer id is the SHA-256 of the bundle's serialization, and two
  bundles that serialize alike get the same result.
- The offer codec (`offer1…` strings) runs in `app/`: the SDK feature that provides it does
  not build here, so what it accepts and returns is not stated.
