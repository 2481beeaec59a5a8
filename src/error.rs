use vstd::prelude::*;

verus! {

/// Every way an operation of this library can fail.
#[derive(Debug)]
pub enum Error {
    /// Reading or writing the account store failed.
    Io,
    /// A property list or JSON document did not have the expected shape.
    Parse,
    /// The identity or provisioning service answered with a non-zero status code.
    Remote { code: i64, message: String },
    /// The encrypted profile blob could not be decrypted or unpadded.
    Decrypt,
    /// The credential prompt was abandoned.
    Cancelled,
    /// The second-factor prompt was abandoned.
    TwoFactorCancelled,
    /// The decrypted profile holds no email address.
    MissingEmail,
    /// A device connection or handshake failed.
    Transport,
    /// No stored account has the requested email.
    NotFound,
}

} // verus!
