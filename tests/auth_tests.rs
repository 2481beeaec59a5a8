use cbc::cipher::block_padding::Pkcs7;
use cbc::cipher::{BlockEncryptMut, KeyIvInit};
use hmac::Mac;

use plume::auth::{
    check_error, create_session_key, decrypt_cbc, extract_email, needs_second_factor, parse_response,
};
use plume::error::Error;
use plume::login::{login_step, LoginAction, LoginEvent, LoginState};
use plume::plist_value::{dict_get, PlistEntry, PlistValue};

fn entry(key: &str, value: PlistValue) -> PlistEntry {
    PlistEntry { key: key.to_string(), value }
}

fn text(s: &str) -> PlistValue {
    PlistValue::String(s.to_string())
}

fn status(ec: i64, em: &str) -> Vec<PlistEntry> {
    vec![entry(
        "Status",
        PlistValue::Dictionary(vec![entry("ec", PlistValue::Integer(ec)), entry("em", text(em))]),
    )]
}

fn hmac_tag(key: &[u8], label: &str) -> Vec<u8> {
    let mut m = <hmac::Hmac<sha2::Sha256> as Mac>::new_from_slice(key).unwrap();
    m.update(label.as_bytes());
    m.finalize().into_bytes().to_vec()
}

fn encrypt_profile(session_key: &[u8], plain: &[u8]) -> Vec<u8> {
    let key = hmac_tag(session_key, "extra data key:");
    let iv = hmac_tag(session_key, "extra data iv:");
    cbc::Encryptor::<aes::Aes256>::new_from_slices(&key, &iv[..16])
        .unwrap()
        .encrypt_padded_vec_mut::<Pkcs7>(plain)
}

fn to_entries(v: plist::Value) -> Vec<PlistEntry> {
    match v {
        plist::Value::Dictionary(d) => d.into_iter().map(|(k, v)| entry(&k, to_value(v))).collect(),
        _ => panic!("not a dictionary"),
    }
}

fn to_value(v: plist::Value) -> PlistValue {
    match v {
        plist::Value::String(s) => PlistValue::String(s),
        plist::Value::Integer(i) => PlistValue::Integer(i.as_signed().unwrap()),
        plist::Value::Boolean(b) => PlistValue::Boolean(b),
        plist::Value::Dictionary(_) => PlistValue::Dictionary(to_entries(v)),
        _ => PlistValue::Other,
    }
}

const PROFILE: &str = "<?xml version=\"1.0\" encoding=\"UTF-8\"?>\
<plist version=\"1.0\"><dict>\
<key>delegates</key><dict><key>com.apple.gs</key><dict><key>email</key><string>jane@example.com</string></dict></dict>\
<key>fn</key><string>Jane</string>\
</dict></plist>";

#[test]
fn session_key_is_hmac_sha256() {
    let tag = create_session_key(b"Jefe", "what do ya want for nothing?");
    let expected: Vec<u8> = vec![
        0x5b, 0xdc, 0xc1, 0x46, 0xbf, 0x60, 0x75, 0x4e, 0x6a, 0x04, 0x24, 0x26, 0x08, 0x95, 0x75,
        0xc7, 0x5a, 0x00, 0x3f, 0x08, 0x9d, 0x27, 0x39, 0x83, 0x9d, 0xec, 0x58, 0xb9, 0x64, 0xec,
        0x38, 0x43,
    ];
    assert_eq!(tag, expected);
}

#[test]
fn decrypt_round_trips_profile_blob() {
    let sk = [7u8; 32];
    let blob = encrypt_profile(&sk, b"hello profile");
    assert_ne!(blob, b"hello profile".to_vec());
    assert_eq!(decrypt_cbc(&sk, &blob).unwrap(), b"hello profile".to_vec());
}

#[test]
fn decrypt_with_wrong_key_fails() {
    let blob = encrypt_profile(&[7u8; 32], b"hello profile");
    let r = decrypt_cbc(&[8u8; 32], &blob);
    assert!(matches!(r, Err(Error::Decrypt)));
    assert!(matches!(decrypt_cbc(&[7u8; 32], &[1, 2, 3]), Err(Error::Decrypt)));
}

#[test]
fn check_error_reads_nested_status() {
    assert!(check_error(&status(0, "")).is_ok());
    match check_error(&status(-20101, "Incorrect password")) {
        Err(Error::Remote { code, message }) => {
            assert_eq!(code, -20101);
            assert_eq!(message, "Incorrect password");
        }
        _ => panic!("expected a remote error"),
    }
}

#[test]
fn check_error_reads_top_level_status() {
    let res = vec![entry("ec", PlistValue::Integer(5)), entry("em", text("bad"))];
    assert!(matches!(check_error(&res), Err(Error::Remote { code: 5, .. })));
    let ok = vec![entry("ec", PlistValue::Integer(0))];
    assert!(check_error(&ok).is_ok());
    let missing = vec![entry("other", text("x"))];
    assert!(matches!(check_error(&missing), Err(Error::Parse)));
}

#[test]
fn second_factor_is_signalled_by_auth_action() {
    let mut res = status(0, "");
    assert!(!needs_second_factor(&res));
    res = vec![entry(
        "Status",
        PlistValue::Dictionary(vec![
            entry("ec", PlistValue::Integer(0)),
            entry("au", text("trustedDeviceSecondaryAuth")),
        ]),
    )];
    assert!(needs_second_factor(&res));
}

#[test]
fn dict_get_finds_first_entry() {
    let d = vec![entry("a", PlistValue::Integer(1)), entry("a", PlistValue::Integer(2))];
    assert!(matches!(dict_get(&d, "a"), Some(PlistValue::Integer(1))));
    assert!(dict_get(&d, "b").is_none());
}

#[test]
fn email_lookup_order() {
    let direct = vec![
        entry("accountInfo", PlistValue::Dictionary(vec![entry("appleId", text("info@example.com"))])),
        entry("appleId", text("direct@example.com")),
    ];
    assert_eq!(extract_email(&direct).unwrap(), "direct@example.com");
    let delegate = vec![
        entry("accountInfo", PlistValue::Dictionary(vec![entry("appleId", text("info@example.com"))])),
        entry(
            "delegates",
            PlistValue::Dictionary(vec![entry(
                "com.apple.gs",
                PlistValue::Dictionary(vec![entry("email", text("gs@example.com"))]),
            )]),
        ),
    ];
    assert_eq!(extract_email(&delegate).unwrap(), "gs@example.com");
    let info = vec![entry("accountInfo", PlistValue::Dictionary(vec![entry("appleId", text("info@example.com"))]))];
    assert_eq!(extract_email(&info).unwrap(), "info@example.com");
    let none = vec![entry("fn", text("Jane"))];
    assert!(matches!(extract_email(&none), Err(Error::MissingEmail)));
}

#[test]
fn login_without_second_factor_yields_profile_email() {
    let sk = vec![3u8; 32];
    let (st, act) = login_step(LoginState::AwaitingCredentials, LoginEvent::Credentials(Some("jane@example.com".to_string())));
    assert!(matches!(act, LoginAction::SendInit(ref e) if e == "jane@example.com"));
    let (st, act) = login_step(st, LoginEvent::InitReply(status(0, "")));
    assert!(matches!(act, LoginAction::SendProof));
    let (st, act) = login_step(st, LoginEvent::ProofReply(status(0, "")));
    assert!(matches!(act, LoginAction::DecryptProfile));
    let blob = encrypt_profile(&sk, PROFILE.as_bytes());
    let (st, act) = login_step(st, LoginEvent::ProfileBlob { session_key: sk, blob });
    let bytes = match act {
        LoginAction::ParseProfile(b) => b,
        _ => panic!("expected the decrypted profile"),
    };
    assert_eq!(bytes, PROFILE.as_bytes().to_vec());
    let spd = to_entries(plist::from_bytes::<plist::Value>(&bytes).unwrap());
    let (st, act) = login_step(st, LoginEvent::Profile(Some(spd)));
    assert!(matches!(act, LoginAction::Finish(ref e) if e == "jane@example.com"));
    assert!(matches!(st, LoginState::Done(ref e) if e == "jane@example.com"));
}

#[test]
fn remote_error_at_init_stops_login() {
    let (st, _) = login_step(LoginState::AwaitingCredentials, LoginEvent::Credentials(Some("a@b.c".to_string())));
    let (st, act) = login_step(st, LoginEvent::InitReply(status(-20101, "Incorrect")));
    assert!(matches!(act, LoginAction::Stop));
    match &st {
        LoginState::Failed(Error::Remote { code, message }) => {
            assert_eq!(*code, -20101);
            assert_eq!(message, "Incorrect");
        }
        _ => panic!("expected a remote error"),
    }
    let (st, act) = login_step(st, LoginEvent::ProofReply(status(0, "")));
    assert!(matches!(act, LoginAction::Stop));
    assert!(matches!(st, LoginState::Failed(Error::Remote { code: -20101, .. })));
}

#[test]
fn remote_error_at_proof_stops_login() {
    let (st, _) = login_step(LoginState::AwaitingProof, LoginEvent::ProofReply(status(-22406, "Locked")));
    assert!(matches!(st, LoginState::Failed(Error::Remote { code: -22406, .. })));
    let (_, act) = login_step(st, LoginEvent::TwoFactorCode(Some("123456".to_string())));
    assert!(matches!(act, LoginAction::Stop));
}

#[test]
fn cancelled_second_factor_fails_login() {
    let res = vec![entry(
        "Status",
        PlistValue::Dictionary(vec![entry("ec", PlistValue::Integer(0)), entry("au", text("secondaryAuth"))]),
    )];
    let (st, act) = login_step(LoginState::AwaitingProof, LoginEvent::ProofReply(res));
    assert!(matches!(act, LoginAction::PromptTwoFactor));
    let (st, act) = login_step(st, LoginEvent::TwoFactorCode(None));
    assert!(matches!(act, LoginAction::Stop));
    assert!(matches!(st, LoginState::Failed(Error::TwoFactorCancelled)));
    let (st, act) = login_step(st, LoginEvent::Profile(None));
    assert!(matches!(act, LoginAction::Stop));
    assert!(matches!(st, LoginState::Failed(Error::TwoFactorCancelled)));
}

#[test]
fn second_factor_code_is_submitted_then_profile_decrypted() {
    let (st, act) = login_step(LoginState::AwaitingTwoFactorCode, LoginEvent::TwoFactorCode(Some("123456".to_string())));
    assert!(matches!(act, LoginAction::SubmitTwoFactor(ref c) if c == "123456"));
    let (st, act) = login_step(st, LoginEvent::TwoFactorReply(status(0, "")));
    assert!(matches!(act, LoginAction::DecryptProfile));
    assert!(matches!(st, LoginState::AwaitingProfileBlob));
}

#[test]
fn cancelled_credentials_and_bad_blob_fail() {
    let (st, act) = login_step(LoginState::AwaitingCredentials, LoginEvent::Credentials(None));
    assert!(matches!(st, LoginState::Failed(Error::Cancelled)));
    assert!(matches!(act, LoginAction::Stop));
    let (st, _) = login_step(
        LoginState::AwaitingProfileBlob,
        LoginEvent::ProfileBlob { session_key: vec![1u8; 32], blob: vec![9u8; 16] },
    );
    assert!(matches!(st, LoginState::Failed(Error::Decrypt)));
    let (st, _) = login_step(LoginState::AwaitingProfile, LoginEvent::Profile(Some(vec![entry("fn", text("x"))])));
    assert!(matches!(st, LoginState::Failed(Error::MissingEmail)));
    let (st, _) = login_step(LoginState::AwaitingInit, LoginEvent::Profile(None));
    assert!(matches!(st, LoginState::Failed(Error::Parse)));
}

#[test]
fn parse_response_takes_response_dictionary() {
    let body = vec![
        entry("Header", PlistValue::Dictionary(vec![])),
        entry("Response", PlistValue::Dictionary(status(0, ""))),
    ];
    let r = parse_response(body).unwrap();
    assert!(check_error(&r).is_ok());
    assert_eq!(r.len(), 1);
    let missing = vec![entry("Header", PlistValue::Dictionary(vec![]))];
    assert!(matches!(parse_response(missing), Err(Error::Parse)));
    let not_dict = vec![entry("Response", text("x"))];
    assert!(matches!(parse_response(not_dict), Err(Error::Parse)));
}
