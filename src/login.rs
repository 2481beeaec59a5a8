use vstd::prelude::*;

use crate::auth::{
    aes256_cbc_pkcs7_decrypt, check_error, decrypt_cbc, extract_email, needs_second_factor,
    profile_email, profile_iv, profile_key, second_factor_required, status_accepted, status_error,
};
use crate::error::Error;
use crate::plist_value::PlistEntry;

verus! {

/// Where a login stands. Each state names what it waits for.
#[derive(Debug)]
pub enum LoginState {
    AwaitingCredentials,
    AwaitingInit,
    AwaitingProof,
    AwaitingTwoFactorCode,
    AwaitingTwoFactorCheck,
    AwaitingProfileBlob,
    AwaitingProfile,
    /// Signed in, as the account with this email.
    Done(String),
    Failed(Error),
}

/// What the caller hands the login: a prompt's answer or a service's reply.
#[derive(Debug)]
pub enum LoginEvent {
    /// The email that the credential prompt gave, or `None` when it failed.
    Credentials(Option<String>),
    /// The answer to the first request (identity and public ephemeral).
    InitReply(Vec<PlistEntry>),
    /// The answer to the second request (the client proof).
    ProofReply(Vec<PlistEntry>),
    /// The code that the second-factor prompt gave, or `None` when it failed.
    TwoFactorCode(Option<String>),
    /// The answer to the submitted second-factor code.
    TwoFactorReply(Vec<PlistEntry>),
    /// The negotiated session key and the encrypted profile blob.
    ProfileBlob { session_key: Vec<u8>, blob: Vec<u8> },
    /// The decrypted profile as a dictionary, or `None` when it was not one.
    Profile(Option<Vec<PlistEntry>>),
}

/// What the caller does next.
#[derive(Debug)]
pub enum LoginAction {
    /// Send the first request for this email.
    SendInit(String),
    /// Send the client proof.
    SendProof,
    /// Ask the user for a second-factor code, and wait for it.
    PromptTwoFactor,
    /// Submit this second-factor code.
    SubmitTwoFactor(String),
    /// Hand over the session key and the encrypted profile blob.
    DecryptProfile,
    /// Parse these decrypted bytes as a property-list dictionary.
    ParseProfile(Vec<u8>),
    /// The login succeeded for this email.
    Finish(String),
    /// Send nothing more.
    Stop,
}

/// The state and action after a reply that was checked with `status_error`.
pub open spec fn rejected(res: Seq<PlistEntry>, st: LoginState, act: LoginAction) -> bool {
    &&& !status_accepted(res)
    &&& (match st {
        LoginState::Failed(e) => status_error(res, e),
        _ => false,
    })
    &&& act is Stop
}

/// The login state that comes of `state` on `event`, with the action that the
/// caller performs. A finished login, successful or not, stays as it is and
/// asks for nothing more; an event that its state does not wait for fails it
/// as malformed.
pub fn login_step(state: LoginState, event: LoginEvent) -> (r: (LoginState, LoginAction))
    ensures
        match (state, event) {
            (LoginState::Done(e), _) => (r.0 matches LoginState::Done(x) && x == e) && r.1 is Stop,
            (LoginState::Failed(e), _) => (r.0 matches LoginState::Failed(x) && x == e) && r.1 is Stop,
            (LoginState::AwaitingCredentials, LoginEvent::Credentials(None)) => (r.0 matches LoginState::Failed(
                Error::Cancelled,
            )) && r.1 is Stop,
            (LoginState::AwaitingCredentials, LoginEvent::Credentials(Some(email))) => r.0 is AwaitingInit && (
            r.1 matches LoginAction::SendInit(x) && x@ == email@),
            (LoginState::AwaitingInit, LoginEvent::InitReply(res)) => if status_accepted(res@) {
                r.0 is AwaitingProof && r.1 is SendProof
            } else {
                rejected(res@, r.0, r.1)
            },
            (LoginState::AwaitingProof, LoginEvent::ProofReply(res)) => if !status_accepted(res@) {
                rejected(res@, r.0, r.1)
            } else if second_factor_required(res@) {
                r.0 is AwaitingTwoFactorCode && r.1 is PromptTwoFactor
            } else {
                r.0 is AwaitingProfileBlob && r.1 is DecryptProfile
            },
            (LoginState::AwaitingTwoFactorCode, LoginEvent::TwoFactorCode(None)) => (r.0 matches LoginState::Failed(
                Error::TwoFactorCancelled,
            )) && r.1 is Stop,
            (LoginState::AwaitingTwoFactorCode, LoginEvent::TwoFactorCode(Some(code))) => r.0 is AwaitingTwoFactorCheck
                && (r.1 matches LoginAction::SubmitTwoFactor(x) && x@ == code@),
            (LoginState::AwaitingTwoFactorCheck, LoginEvent::TwoFactorReply(res)) => if status_accepted(
                res@,
            ) {
                r.0 is AwaitingProfileBlob && r.1 is DecryptProfile
            } else {
                rejected(res@, r.0, r.1)
            },
            (LoginState::AwaitingProfileBlob, LoginEvent::ProfileBlob { session_key, blob }) => match aes256_cbc_pkcs7_decrypt(
                profile_key(session_key@),
                profile_iv(session_key@),
                blob@,
            ) {
                Some(p) => r.0 is AwaitingProfile && (r.1 matches LoginAction::ParseProfile(v) && v@ == p),
                None => (r.0 matches LoginState::Failed(Error::Decrypt)) && r.1 is Stop,
            },
            (LoginState::AwaitingProfile, LoginEvent::Profile(None)) => (r.0 matches LoginState::Failed(
                Error::Parse,
            )) && r.1 is Stop,
            (LoginState::AwaitingProfile, LoginEvent::Profile(Some(spd))) => match profile_email(spd@) {
                Some(e) => (r.0 matches LoginState::Done(x) && x@ == e) && (r.1 matches LoginAction::Finish(
                    y,
                ) && y@ == e),
                None => (r.0 matches LoginState::Failed(Error::MissingEmail)) && r.1 is Stop,
            },
            _ => (r.0 matches LoginState::Failed(Error::Parse)) && r.1 is Stop,
        },
{
    match (state, event) {
        (LoginState::Done(e), _) => (LoginState::Done(e), LoginAction::Stop),
        (LoginState::Failed(e), _) => (LoginState::Failed(e), LoginAction::Stop),
        (LoginState::AwaitingCredentials, LoginEvent::Credentials(None)) => (
            LoginState::Failed(Error::Cancelled),
            LoginAction::Stop,
        ),
        (LoginState::AwaitingCredentials, LoginEvent::Credentials(Some(email))) => (
            LoginState::AwaitingInit,
            LoginAction::SendInit(email),
        ),
        (LoginState::AwaitingInit, LoginEvent::InitReply(res)) => match check_error(&res) {
            Ok(()) => (LoginState::AwaitingProof, LoginAction::SendProof),
            Err(e) => (LoginState::Failed(e), LoginAction::Stop),
        },
        (LoginState::AwaitingProof, LoginEvent::ProofReply(res)) => match check_error(&res) {
            Ok(()) => if needs_second_factor(&res) {
                (LoginState::AwaitingTwoFactorCode, LoginAction::PromptTwoFactor)
            } else {
                (LoginState::AwaitingProfileBlob, LoginAction::DecryptProfile)
            },
            Err(e) => (LoginState::Failed(e), LoginAction::Stop),
        },
        (LoginState::AwaitingTwoFactorCode, LoginEvent::TwoFactorCode(None)) => (
            LoginState::Failed(Error::TwoFactorCancelled),
            LoginAction::Stop,
        ),
        (LoginState::AwaitingTwoFactorCode, LoginEvent::TwoFactorCode(Some(code))) => (
            LoginState::AwaitingTwoFactorCheck,
            LoginAction::SubmitTwoFactor(code),
        ),
        (LoginState::AwaitingTwoFactorCheck, LoginEvent::TwoFactorReply(res)) => match check_error(
            &res,
        ) {
            Ok(()) => (LoginState::AwaitingProfileBlob, LoginAction::DecryptProfile),
            Err(e) => (LoginState::Failed(e), LoginAction::Stop),
        },
        (LoginState::AwaitingProfileBlob, LoginEvent::ProfileBlob { session_key, blob }) => match decrypt_cbc(
            session_key.as_slice(),
            blob.as_slice(),
        ) {
            Ok(p) => (LoginState::AwaitingProfile, LoginAction::ParseProfile(p)),
            Err(e) => (LoginState::Failed(e), LoginAction::Stop),
        },
        (LoginState::AwaitingProfile, LoginEvent::Profile(None)) => (
            LoginState::Failed(Error::Parse),
            LoginAction::Stop,
        ),
        (LoginState::AwaitingProfile, LoginEvent::Profile(Some(spd))) => match extract_email(&spd) {
            Ok(e) => {
                let f = e.clone();
                (LoginState::Done(e), LoginAction::Finish(f))
            },
            Err(e) => (LoginState::Failed(e), LoginAction::Stop),
        },
        (_, _) => (LoginState::Failed(Error::Parse), LoginAction::Stop),
    }
}

} // verus!
