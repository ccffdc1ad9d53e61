//! A deterministic id for an offer: the SHA-256 of the offer bundle's canonical serialization.
use vstd::prelude::*;
use crate::error::Error;
use crate::sdk::{
    bundle_bytes_of, bundle_to_bytes, sha256, sha256_of, stream_error_text, stream_error_text_of,
};
use crate::text::prefixed;
use crate::types::Bytes32;
use chia_protocol::SpendBundle;

verus! {

pub open spec fn serialize_failure_prefix() -> Seq<char> {
    "could not serialize offer bundle: "@
}

/// The id of an offer from its bundle's serialized bytes: their SHA-256 digest.
pub fn offer_id_of_bytes(bytes: &[u8]) -> (id: Bytes32)
    ensures
        id@ == sha256_of(bytes@),
{
    sha256(bytes)
}

/// The id of an offer bundle: the SHA-256 of its canonical serialization, where it has one.
pub open spec fn offer_id_of(b: SpendBundle) -> Option<Seq<u8>> {
    match bundle_bytes_of(b) {
        Ok(bytes) => Some(sha256_of(bytes)),
        Err(_) => None,
    }
}

/// An offer's id is stable: it depends on nothing but the offer's canonical serialization, so
/// two bundle values that serialize alike (two encodings of one offer, decoded) have the same id,
/// and `offer_id` gives them the same result, `Ok` or `Err`.
pub proof fn lemma_offer_id_stable(a: SpendBundle, b: SpendBundle)
    requires
        bundle_bytes_of(a) == bundle_bytes_of(b),
    ensures
        offer_id_of(a) == offer_id_of(b),
        offer_id_of(a) is None ==> stream_error_text_of(bundle_bytes_of(a)->Err_0)
            == stream_error_text_of(bundle_bytes_of(b)->Err_0),
{
}

/// The canonical id of the decoded offer bundle: the SHA-256 of its canonical serialization,
/// the id the wider ecosystem uses for the offer.
pub fn offer_id(spend_bundle: &SpendBundle) -> (r: Result<Bytes32, Error>)
    ensures
        r is Ok <==> offer_id_of(*spend_bundle) is Some,
        r matches Ok(id) ==> id@ == offer_id_of(*spend_bundle)->0,
        r matches Err(e) ==> e.is_decode(
            serialize_failure_prefix() + stream_error_text_of(bundle_bytes_of(*spend_bundle)->Err_0),
        ),
{
    match bundle_to_bytes(spend_bundle) {
        Ok(bytes) => {
            let id = offer_id_of_bytes(bytes.as_slice());
            Ok(id)
        },
        Err(e) => {
            let m = prefixed("could not serialize offer bundle: ", stream_error_text(&e));
            proof {
                reveal_strlit("could not serialize offer bundle: ");
                assert(m@.subrange(0, serialize_failure_prefix().len() as int)
                    =~= serialize_failure_prefix());
            }
            Err(Error::Decode(m))
        },
    }
}

} // verus!
