use vstd::prelude::*;

use cbc::cipher::block_padding::Pkcs7;
use cbc::cipher::{BlockDecryptMut, KeyIvInit};
use hmac::Mac;

use crate::error::Error;
use crate::plist_value::{
    dict_get, dict_get_dict, dict_get_string, dict_take, lookup, lookup_dict, lookup_string, PlistEntry,
    PlistValue,
};

verus! {


/// HMAC-SHA-256 of the UTF-8 text `label` under `key`.
pub uninterp spec fn hmac_sha256(key: Seq<u8>, label: Seq<char>) -> Seq<u8>;

/// AES-256 CBC decryption of `data` under `key` and `iv`, with its PKCS#7
/// padding removed; `None` when the padding is not valid.
pub uninterp spec fn aes256_cbc_pkcs7_decrypt(key: Seq<u8>, iv: Seq<u8>, data: Seq<u8>) -> Option<
    Seq<u8>,
>;

/// A key derived from the negotiated session key: the HMAC-SHA-256 of `name`
/// under it.
///
/// Relies on `hmac::Hmac<sha2::Sha256>`: `new_from_slice` takes a key of any
/// length, and `finalize` yields the 32-byte tag of what was fed to `update`.
#[verifier::external_body]
pub fn create_session_key(session_key: &[u8], name: &str) -> (r: Vec<u8>)
    ensures
        r@ == hmac_sha256(session_key@, name@),
        r@.len() == 32,
{
    let mut mac = <hmac::Hmac<sha2::Sha256> as Mac>::new_from_slice(session_key)
        .expect("HMAC takes keys of any length");
    mac.update(name.as_bytes());
    mac.finalize().into_bytes().to_vec()
}

/// Relies on `cbc::Decryptor<aes::Aes256>`: `new_from_slices` accepts a
/// 32-byte key and a 16-byte IV, and `decrypt_padded_vec_mut::<Pkcs7>`
/// returns the plaintext, or an error when the padding is not valid.
#[verifier::external_body]
fn aes256_cbc_decrypt(key: &[u8], iv: &[u8], data: &[u8]) -> (r: Option<Vec<u8>>)
    requires
        key@.len() == 32,
        iv@.len() == 16,
    ensures
        match r {
            Some(p) => aes256_cbc_pkcs7_decrypt(key@, iv@, data@) == Some(p@),
            None => aes256_cbc_pkcs7_decrypt(key@, iv@, data@) is None,
        },
{
    let decryptor = <cbc::Decryptor<aes::Aes256> as KeyIvInit>::new_from_slices(key, iv).ok()?;
    decryptor.decrypt_padded_vec_mut::<Pkcs7>(data).ok()
}

/// The key that the profile blob is encrypted under.
pub open spec fn profile_key(session_key: Seq<u8>) -> Seq<u8> {
    hmac_sha256(session_key, "extra data key:"@)
}

/// The IV that the profile blob is encrypted with: the first 16 bytes of
/// its derived key.
pub open spec fn profile_iv(session_key: Seq<u8>) -> Seq<u8> {
    hmac_sha256(session_key, "extra data iv:"@).subrange(0, 16)
}

/// Decrypts the encrypted profile blob with the two keys derived from the
/// session key; a padding failure is `Decrypt`.
pub fn decrypt_cbc(session_key: &[u8], data: &[u8]) -> (r: Result<Vec<u8>, Error>)
    ensures
        match aes256_cbc_pkcs7_decrypt(profile_key(session_key@), profile_iv(session_key@), data@) {
            Some(p) => r matches Ok(v) && v@ == p,
            None => r matches Err(Error::Decrypt),
        },
{
    let key = create_session_key(session_key, "extra data key:");
    let mut iv = create_session_key(session_key, "extra data iv:");
    iv.truncate(16);
    match aes256_cbc_decrypt(key.as_slice(), iv.as_slice(), data) {
        Some(p) => Ok(p),
        None => Err(Error::Decrypt),
    }
}

/// The dictionary that holds an answer's status: the nested `Status`
/// dictionary when there is one, else the answer itself.
pub open spec fn status_dict(res: Seq<PlistEntry>) -> Seq<PlistEntry> {
    match lookup_dict(res, "Status"@) {
        Some(d) => d,
        None => res,
    }
}

/// The status code (`ec`) of an answer, if it has an integer one.
pub open spec fn status_code(res: Seq<PlistEntry>) -> Option<i64> {
    match lookup(status_dict(res), "ec"@) {
        Some(PlistValue::Integer(c)) => Some(c),
        _ => None,
    }
}

/// The status message (`em`) of an answer, empty when it has none.
pub open spec fn status_message(res: Seq<PlistEntry>) -> Seq<char> {
    match lookup_string(status_dict(res), "em"@) {
        Some(m) => m,
        None => Seq::empty(),
    }
}

/// The answer reports success: its status code is zero.
pub open spec fn status_accepted(res: Seq<PlistEntry>) -> bool {
    status_code(res) == Some(0i64)
}

/// `e` is the error that the answer `res` reports: a malformed answer when it
/// has no status code, else the remote error with its non-zero code and its message.
pub open spec fn status_error(res: Seq<PlistEntry>, e: Error) -> bool {
    match status_code(res) {
        None => e is Parse,
        Some(c) => c != 0 && match e {
            Error::Remote { code, message } => code == c && message@ == status_message(res),
            _ => false,
        },
    }
}

/// The answer asks for a second factor: its status names an auth action (`au`).
pub open spec fn second_factor_required(res: Seq<PlistEntry>) -> bool {
    lookup_string(status_dict(res), "au"@) is Some
}


/// The `Response` dictionary of a decoded identity-service reply; a reply
/// without one is malformed.
pub fn parse_response(body: Vec<PlistEntry>) -> (r: Result<Vec<PlistEntry>, Error>)
    ensures
        match lookup_dict(body@, "Response"@) {
            Some(d) => r matches Ok(v) && v@ == d,
            None => r matches Err(Error::Parse),
        },
{
    match dict_take(body, "Response") {
        Some(PlistValue::Dictionary(d)) => Ok(d),
        _ => Err(Error::Parse),
    }
}

/// Fails with the error that an identity-service answer reports, and
/// succeeds exactly when its status code is zero.
pub fn check_error(res: &Vec<PlistEntry>) -> (r: Result<(), Error>)
    ensures
        r is Ok <==> status_accepted(res@),
        match r {
            Err(e) => status_error(res@, e),
            Ok(()) => true,
        },
{
    let status = match dict_get_dict(res, "Status") {
        Some(d) => d,
        None => res,
    };
    let code = match dict_get(status, "ec") {
        Some(PlistValue::Integer(c)) => *c,
        _ => return Err(Error::Parse),
    };
    if code != 0 {
        let message = match dict_get_string(status, "em") {
            Some(m) => m.clone(),
            None => String::new(),
        };
        return Err(Error::Remote { code, message });
    }
    Ok(())
}

/// Whether an identity-service answer asks for a second factor.
pub fn needs_second_factor(res: &Vec<PlistEntry>) -> (r: bool)
    ensures
        r == second_factor_required(res@),
{
    let status = match dict_get_dict(res, "Status") {
        Some(d) => d,
        None => res,
    };
    dict_get_string(status, "au").is_some()
}

/// The email under `delegates` / `com.apple.gs` / `email` of a profile.
pub open spec fn delegate_email(spd: Seq<PlistEntry>) -> Option<Seq<char>> {
    match lookup_dict(spd, "delegates"@) {
        Some(d) => match lookup_dict(d, "com.apple.gs"@) {
            Some(g) => lookup_string(g, "email"@),
            None => None,
        },
        None => None,
    }
}

/// The email under `accountInfo` / `appleId` of a profile.
pub open spec fn account_info_email(spd: Seq<PlistEntry>) -> Option<Seq<char>> {
    match lookup_dict(spd, "accountInfo"@) {
        Some(a) => lookup_string(a, "appleId"@),
        None => None,
    }
}

/// The email of a decrypted profile: its `appleId`, else the delegate email,
/// else the `appleId` of its account info, in that order.
pub open spec fn profile_email(spd: Seq<PlistEntry>) -> Option<Seq<char>> {
    match lookup_string(spd, "appleId"@) {
        Some(e) => Some(e),
        None => match delegate_email(spd) {
            Some(e) => Some(e),
            None => account_info_email(spd),
        },
    }
}

/// The email of a decrypted profile; `MissingEmail` when none of the three
/// places holds one.
pub fn extract_email(spd: &Vec<PlistEntry>) -> (r: Result<String, Error>)
    ensures
        match profile_email(spd@) {
            Some(e) => r matches Ok(s) && s@ == e,
            None => r matches Err(Error::MissingEmail),
        },
{
    if let Some(e) = dict_get_string(spd, "appleId") {
        return Ok(e.clone());
    }
    if let Some(d) = dict_get_dict(spd, "delegates") {
        if let Some(g) = dict_get_dict(d, "com.apple.gs") {
            if let Some(e) = dict_get_string(g, "email") {
                return Ok(e.clone());
            }
        }
    }
    if let Some(a) = dict_get_dict(spd, "accountInfo") {
        if let Some(e) = dict_get_string(a, "appleId") {
            return Ok(e.clone());
        }
    }
    Err(Error::MissingEmail)
}

} // verus!
