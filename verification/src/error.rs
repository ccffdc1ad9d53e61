//! The crate's error taxonomy.
use vstd::prelude::*;
use chia_wallet_sdk::driver::DriverError;
use chia_wallet_sdk::signer::SignerError;

verus! {

/// Everything that can go wrong while building, taking, combining, cancelling, or inspecting an
/// offer.
#[derive(Debug)]
pub enum Error {
    /// A failure in the underlying SDK driver while constructing a spend.
    Driver(DriverError),
    /// A failure while computing the signatures a coin spend requires.
    Signer(SignerError),
    /// A malformed offer string or offer bundle; the message states the fault.
    Decode(String),
    /// Two offers that cannot be combined; the message states the conflict.
    Incompatible(String),
    /// Caller-supplied input that cannot produce a valid offer; the message states the
    /// violation.
    InvalidInput(String),
}

impl Error {
    /// This is an `InvalidInput` error whose message is `m`.
    pub open spec fn is_invalid_input(self, m: Seq<char>) -> bool {
        self matches Error::InvalidInput(s) && s@ == m
    }

    /// This is a `Decode` error whose message is `m`.
    pub open spec fn is_decode(self, m: Seq<char>) -> bool {
        self matches Error::Decode(s) && s@ == m
    }

    /// This is an `Incompatible` error whose message is `m`.
    pub open spec fn is_incompatible(self, m: Seq<char>) -> bool {
        self matches Error::Incompatible(s) && s@ == m
    }

    /// This is a `Decode` error whose message starts with `prefix`.
    pub open spec fn is_decode_with_prefix(self, prefix: Seq<char>) -> bool {
        self matches Error::Decode(s) && prefix.len() <= s@.len() && s@.subrange(
            0,
            prefix.len() as int,
        ) == prefix
    }
}

} // verus!
