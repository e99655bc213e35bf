//! A verified registry-record handler: one persistent record per account,
//! re-encoded in place on every successful invocation.

pub mod codec;
pub mod handler;
pub mod props;
pub mod record;
pub mod text;

use vstd::prelude::*;

verus! {

/// The four ways an invocation can fail; every failure leaves the account
/// buffer byte-for-byte unchanged.
#[derive(Clone, Copy, Debug, PartialEq, Eq, Structural)]
pub enum HandlerError {
    /// The supplied account list was empty.
    MissingAccount,
    /// The first account's owner differs from the invoking program identity.
    IncorrectOwner,
    /// The account buffer could not be decoded as a registry record.
    MalformedRecord,
    /// The re-encoded record would not fit in the account buffer.
    EncodingOverflow,
}

} // verus!
