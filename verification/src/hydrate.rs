//! Decoding offer strings (trimming and the `offer1` check before the codec runs, and the
//! codec's faults as the crate's errors), and parsing a decoded bundle into a spendable offer
//! within a caller-owned context.
use vstd::prelude::*;
use crate::error::Error;
use crate::sdk::{
    ctx_extends,
    bundle_coins_of, bundle_offer_of, driver_error_text, pending_spends_of, same_readings, offer_bundle_coins_of, offer_from_spend_bundle, parses_in, real_coins, bundle_signature_of,
    offer_signature_of,
};
use crate::text::{has_offer_prefix, prefixed, starts_with_offer_prefix, trim, trimmed};
use chia_protocol::SpendBundle;
use chia_wallet_sdk::driver::{DriverError, Offer, SpendContext};

verus! {

pub open spec fn not_an_offer_text() -> Seq<char> {
    "not a Chia offer: expected a bech32 string starting with 'offer1'"@
}

pub open spec fn invalid_offer_prefix() -> Seq<char> {
    "invalid offer: "@
}

pub open spec fn parse_failure_prefix() -> Seq<char> {
    "could not parse offer: "@
}

pub open spec fn encode_failure_prefix() -> Seq<char> {
    "could not encode offer: "@
}

/// The text of an offer string that the bech32 codec is given: the string without leading and
/// trailing whitespace. Anything that does not then start with `offer1` is not an offer.
pub fn offer_text(offer_str: &str) -> (r: Result<&str, Error>)
    ensures
        r is Ok <==> has_offer_prefix(trimmed(offer_str@)),
        r matches Ok(t) ==> t@ == trimmed(offer_str@),
        r matches Err(e) ==> e.is_decode(not_an_offer_text()),
{
    let t = trim(offer_str);
    if !starts_with_offer_prefix(t) {
        return Err(
            Error::Decode(
                String::from_str("not a Chia offer: expected a bech32 string starting with 'offer1'"),
            ),
        );
    }
    Ok(t)
}

/// The crate's result for what the offer codec returned on a checked offer text: the bundle, or
/// a `Decode` error that names the codec's fault.
pub fn decoded_offer(raw: Result<SpendBundle, DriverError>) -> (r: Result<SpendBundle, Error>)
    ensures
        r is Ok <==> raw is Ok,
        raw matches Ok(b) ==> r == Ok::<SpendBundle, Error>(b),
        r matches Err(e) ==> e.is_decode_with_prefix(invalid_offer_prefix()),
{
    match raw {
        Ok(b) => Ok(b),
        Err(e) => {
            let m = prefixed("invalid offer: ", driver_error_text(&e));
            proof {
                reveal_strlit("invalid offer: ");
                assert(m@.subrange(0, invalid_offer_prefix().len() as int) =~= invalid_offer_prefix());
            }
            Err(Error::Decode(m))
        },
    }
}

/// Decodes an offer string: its surrounding whitespace is trimmed, text that does not then
/// start with `offer1` is refused, and the trimmed text is handed to `codec`, the offer
/// decoder, whose fault becomes a `Decode` error.
pub fn decode<F: Fn(&str) -> Result<SpendBundle, DriverError>>(offer_str: &str, codec: F) -> (r:
    Result<SpendBundle, Error>)
    requires
        forall|t: &str| #[trigger] codec.requires((t,)),
    ensures
        !has_offer_prefix(trimmed(offer_str@)) ==> (r matches Err(e) && e.is_decode(
            not_an_offer_text(),
        )),
        has_offer_prefix(trimmed(offer_str@)) ==> exists|
            t: &str,
            raw: Result<SpendBundle, DriverError>,
        |
            #![trigger codec.ensures((t,), raw)]
            t@ == trimmed(offer_str@) && codec.ensures((t,), raw) && (r is Ok <==> raw is Ok) && (
            raw matches Ok(b) ==> r == Ok::<SpendBundle, Error>(b)) && (r matches Err(e)
                ==> e.is_decode_with_prefix(invalid_offer_prefix())),
{
    let t = match offer_text(offer_str) {
        Ok(t) => t,
        Err(e) => return Err(e),
    };
    let raw = codec(t);
    decoded_offer(raw)
}

/// The crate's result for what the offer codec returned when encoding a bundle: the offer
/// string, or a `Decode` error that names the codec's fault.
pub fn encoded_offer(raw: Result<String, DriverError>) -> (r: Result<String, Error>)
    ensures
        r is Ok <==> raw is Ok,
        raw matches Ok(s) ==> (r matches Ok(t) && t@ == s@),
        r matches Err(e) ==> e.is_decode_with_prefix(encode_failure_prefix()),
{
    match raw {
        Ok(s) => Ok(s),
        Err(e) => {
            let m = prefixed("could not encode offer: ", driver_error_text(&e));
            proof {
                reveal_strlit("could not encode offer: ");
                assert(m@.subrange(0, encode_failure_prefix().len() as int)
                    =~= encode_failure_prefix());
            }
            Err(Error::Decode(m))
        },
    }
}

/// Parses a decoded offer bundle into a spendable offer within `ctx`. The parsed offer's own
/// spends are the bundle's spends of real coins, in order; its zero-parent carriers become its
/// requested payments. The parsed offer's pointers are valid only for `ctx`'s allocator.
pub fn parse(ctx: &mut SpendContext, spend_bundle: &SpendBundle) -> (r: Result<Offer, Error>)
    ensures
        r is Ok <==> parses_in(*spend_bundle, *old(ctx)),
        r matches Ok(o) ==> offer_bundle_coins_of(o) == real_coins(bundle_coins_of(*spend_bundle)),
        r matches Ok(o) ==> same_readings(o, bundle_offer_of(*spend_bundle)),
        r matches Ok(o) ==> offer_signature_of(o) == bundle_signature_of(*spend_bundle),
        r matches Err(e) ==> e.is_decode_with_prefix(parse_failure_prefix()),
        pending_spends_of(*final(ctx)) == pending_spends_of(*old(ctx)),
        ctx_extends(*old(ctx), *final(ctx)),
{
    match offer_from_spend_bundle(ctx, spend_bundle) {
        Ok(o) => Ok(o),
        Err(e) => {
            let m = prefixed("could not parse offer: ", driver_error_text(&e));
            proof {
                reveal_strlit("could not parse offer: ");
                assert(m@.subrange(0, parse_failure_prefix().len() as int)
                    =~= parse_failure_prefix());
            }
            Err(Error::Decode(m))
        },
    }
}

} // verus!
