//! Device linking and the stored device token.
//!
//! The tray app links itself with the OAuth 2.0 Device Authorization Grant
//! (RFC 8628) and keeps the long-lived, revocable device token in the OS
//! keychain through the `keyring` crate — never in plaintext config. A
//! second keychain account holds the linked user's display profile (as
//! JSON text), so one sign-out clears both.
//!
//! What the keychain holds is outside the library's knowledge. An entry
//! carries the service and account it was opened for, and each operation
//! on the device token or the profile asks for the entry of that account;
//! a pure function beside each says exactly what each answer of the
//! keychain means, and the call itself states what holds whatever it
//! answers.
use vstd::prelude::*;

use crate::api::{DeviceCodeResponse, DeviceUser, TokenPoll};
use crate::error::Error;

verus! {

/// Keychain service: the app's bundle identifier.
pub const KEYCHAIN_SERVICE: &'static str = "cc.parcferme.desktop";

/// Keychain account holding the secret device token.
pub const KEYCHAIN_ACCOUNT: &'static str = "device-token";

/// Keychain account holding the linked user's display profile.
pub const KEYCHAIN_USER_ACCOUNT: &'static str = "device-user";

#[verifier::external_type_specification]
#[verifier::external_body]
pub struct ExKeyringEntry(keyring::Entry);

/// What a keychain read or delete reported.
#[derive(Debug, Clone, PartialEq, Eq)]
pub enum KeychainError {
    /// There is no credential for the entry.
    NoEntry,
    /// Any other failure, as the keychain described it.
    Failed(String),
}

/// A handle on one keychain credential, kept with the service and account
/// it was opened for.
pub struct KeychainEntry {
    handle: keyring::Entry,
    service: String,
    account: String,
}

impl KeychainEntry {
    /// The keychain service this entry names.
    pub closed spec fn service(&self) -> Seq<char> {
        self.service@
    }

    /// The keychain account this entry names.
    pub closed spec fn account(&self) -> Seq<char> {
        self.account@
    }
}

/// The entry that holds the device token.
pub open spec fn is_token_entry(e: &KeychainEntry) -> bool {
    e.service() == KEYCHAIN_SERVICE@ && e.account() == KEYCHAIN_ACCOUNT@
}

/// The entry that holds the linked user's profile.
pub open spec fn is_user_entry(e: &KeychainEntry) -> bool {
    e.service() == KEYCHAIN_SERVICE@ && e.account() == KEYCHAIN_USER_ACCOUNT@
}

/// `keyring::Entry::new(service, account)`: a handle on the credential
/// named by exactly that service and account, kept with the two names. Any
/// failure (an invalid or over-long name) comes back as its description.
/// Nothing is promised of success: which names a platform accepts is the
/// platform's business.
#[verifier::external_body]
fn open_entry(service: &str, account: &str) -> (r: Result<KeychainEntry, String>)
    ensures
        r matches Ok(e) ==> e.service() == service@ && e.account() == account@,
{
    match keyring::Entry::new(service, account) {
        Ok(handle) => Ok(
            KeychainEntry { handle, service: service.to_string(), account: account.to_string() },
        ),
        Err(e) => Err(e.to_string()),
    }
}

/// `keyring::Entry::get_password`: the secret stored for the entry,
/// `NoEntry` when there is none, or the failure's description. What is
/// stored is the keychain's state, so nothing is promised of which comes
/// back.
#[verifier::external_body]
fn entry_get_password(entry: &KeychainEntry) -> (r: Result<String, KeychainError>) {
    match entry.handle.get_password() {
        Ok(secret) => Ok(secret),
        Err(keyring::Error::NoEntry) => Err(KeychainError::NoEntry),
        Err(e) => Err(KeychainError::Failed(e.to_string())),
    }
}

/// `keyring::Entry::set_password`: store `password` for the entry, replacing
/// any existing secret; a failure comes back as its description. Whether
/// the keychain accepts the write is not promised.
#[verifier::external_body]
fn entry_set_password(entry: &KeychainEntry, password: &str) -> (r: Result<(), String>) {
    match entry.handle.set_password(password) {
        Ok(()) => Ok(()),
        Err(e) => Err(e.to_string()),
    }
}

/// `keyring::Entry::delete_credential`: remove the entry's credential;
/// `NoEntry` when there was none, or the failure's description. Which comes
/// back depends on the keychain's state and is not promised.
#[verifier::external_body]
fn entry_delete_credential(entry: &KeychainEntry) -> (r: Result<(), KeychainError>) {
    match entry.handle.delete_credential() {
        Ok(()) => Ok(()),
        Err(keyring::Error::NoEntry) => Err(KeychainError::NoEntry),
        Err(e) => Err(KeychainError::Failed(e.to_string())),
    }
}

/// A long-lived, server-revocable device token.
#[derive(Clone)]
pub struct DeviceToken(String);

impl DeviceToken {
    /// The token's text.
    pub closed spec fn secret(&self) -> Seq<char> {
        self.0@
    }

    /// The bearer value to attach to authenticated API calls.
    pub fn as_str(&self) -> (r: &str)
        ensures
            r@ == self.secret(),
    {
        self.0.as_str()
    }
}

/// What the user must do to link this device.
#[derive(Debug, Clone)]
pub struct DeviceFlow {
    pub user_code: String,
    pub verification_uri: String,
    pub verification_uri_complete: Option<String>,
    /// Secret used to poll; never shown to the user.
    pub device_code: String,
    pub interval_secs: u64,
    pub expires_in_secs: u64,
}

/// Result of one poll of the device flow.
#[derive(Debug)]
pub enum FlowOutcome {
    /// Approved and linked.
    Linked { user: Option<DeviceUser> },
    /// Not approved yet — poll again after the interval.
    Pending,
    /// Polling too fast — back off, then poll again.
    SlowDown,
    /// The user declined.
    Denied,
    /// The flow expired before approval; start over.
    Expired,
}

/// The flow the UI shows, from the server's device-code response.
pub fn flow_from_response(r: DeviceCodeResponse) -> (f: DeviceFlow)
    ensures
        f.user_code == r.user_code,
        f.verification_uri == r.verification_uri,
        f.verification_uri_complete == r.verification_uri_complete,
        f.device_code == r.device_code,
        f.interval_secs == r.interval,
        f.expires_in_secs == r.expires_in,
{
    DeviceFlow {
        user_code: r.user_code,
        verification_uri: r.verification_uri,
        verification_uri_complete: r.verification_uri_complete,
        device_code: r.device_code,
        interval_secs: r.interval,
        expires_in_secs: r.expires_in,
    }
}

/// The outcome a poll reports; a grant reports the user it linked (the
/// token itself is stored by the caller).
pub fn flow_outcome(poll: TokenPoll) -> (r: FlowOutcome)
    ensures
        match poll {
            TokenPoll::Granted(t) => r matches FlowOutcome::Linked { user } && user == t.user,
            TokenPoll::Pending => r matches FlowOutcome::Pending,
            TokenPoll::SlowDown => r matches FlowOutcome::SlowDown,
            TokenPoll::Denied => r matches FlowOutcome::Denied,
            TokenPoll::Expired => r matches FlowOutcome::Expired,
        },
{
    match poll {
        TokenPoll::Granted(t) => FlowOutcome::Linked { user: t.user },
        TokenPoll::Pending => FlowOutcome::Pending,
        TokenPoll::SlowDown => FlowOutcome::SlowDown,
        TokenPoll::Denied => FlowOutcome::Denied,
        TokenPoll::Expired => FlowOutcome::Expired,
    }
}

/// What a keychain lookup means for a stored secret: the secret, nothing
/// stored, or a keychain error.
pub fn secret_from_lookup(r: Result<String, KeychainError>) -> (out: Result<Option<String>, Error>)
    ensures
        match r {
            Ok(s) => out matches Ok(Some(t)) && t == s,
            Err(KeychainError::NoEntry) => out matches Ok(None),
            Err(KeychainError::Failed(m)) => out matches Err(Error::Keychain(e)) && e == m,
        },
{
    match r {
        Ok(s) => Ok(Some(s)),
        Err(KeychainError::NoEntry) => Ok(None),
        Err(KeychainError::Failed(m)) => Err(Error::Keychain(m)),
    }
}

/// What a keychain delete means: success also when nothing was stored.
pub fn delete_outcome(r: Result<(), KeychainError>) -> (out: Result<(), Error>)
    ensures
        match r {
            Ok(()) => out is Ok,
            Err(KeychainError::NoEntry) => out is Ok,
            Err(KeychainError::Failed(m)) => out matches Err(Error::Keychain(e)) && e == m,
        },
{
    match r {
        Ok(()) => Ok(()),
        Err(KeychainError::NoEntry) => Ok(()),
        Err(KeychainError::Failed(m)) => Err(Error::Keychain(m)),
    }
}

/// What a keychain lookup means for the device token: the token, no token,
/// or a keychain error.
pub fn token_from_lookup(r: Result<String, KeychainError>) -> (out: Result<
    Option<DeviceToken>,
    Error,
>)
    ensures
        match r {
            Ok(s) => out matches Ok(Some(t)) && t.secret() == s@,
            Err(KeychainError::NoEntry) => out matches Ok(None),
            Err(KeychainError::Failed(m)) => out matches Err(Error::Keychain(e)) && e == m,
        },
{
    match r {
        Ok(s) => Ok(Some(DeviceToken(s))),
        Err(KeychainError::NoEntry) => Ok(None),
        Err(KeychainError::Failed(m)) => Err(Error::Keychain(m)),
    }
}

/// What a keychain lookup of the device token means for "is this device
/// linked": linked exactly when a secret was found.
pub fn linked_from_lookup(r: Result<String, KeychainError>) -> (out: Result<bool, Error>)
    ensures
        match r {
            Ok(_) => out == Ok::<bool, Error>(true),
            Err(KeychainError::NoEntry) => out == Ok::<bool, Error>(false),
            Err(KeychainError::Failed(m)) => out matches Err(Error::Keychain(e)) && e == m,
        },
{
    match r {
        Ok(_) => Ok(true),
        Err(KeychainError::NoEntry) => Ok(false),
        Err(KeychainError::Failed(m)) => Err(Error::Keychain(m)),
    }
}

/// What a keychain write means: done, or a keychain error with the
/// keychain's description.
pub fn store_outcome(r: Result<(), String>) -> (out: Result<(), Error>)
    ensures
        match r {
            Ok(()) => out is Ok,
            Err(m) => out matches Err(Error::Keychain(e)) && e == m,
        },
{
    match r {
        Ok(()) => Ok(()),
        Err(m) => Err(Error::Keychain(m)),
    }
}

/// The keychain entry that holds the device token.
pub fn entry() -> (r: Result<KeychainEntry, Error>)
    ensures
        match r {
            Ok(e) => is_token_entry(&e),
            Err(e) => e is Keychain,
        },
{
    match open_entry(KEYCHAIN_SERVICE, KEYCHAIN_ACCOUNT) {
        Ok(e) => Ok(e),
        Err(m) => Err(Error::Keychain(m)),
    }
}

/// The keychain entry that holds the linked user's profile.
pub fn user_entry() -> (r: Result<KeychainEntry, Error>)
    ensures
        match r {
            Ok(e) => is_user_entry(&e),
            Err(e) => e is Keychain,
        },
{
    match open_entry(KEYCHAIN_SERVICE, KEYCHAIN_USER_ACCOUNT) {
        Ok(e) => Ok(e),
        Err(m) => Err(Error::Keychain(m)),
    }
}

/// The secret stored in `e`, `None` when nothing is stored, as
/// [`secret_from_lookup`] reads the keychain's answer. What the keychain
/// holds is outside state: only the kind of error is stated.
fn read_secret(e: &KeychainEntry) -> (r: Result<Option<String>, Error>)
    ensures
        r is Ok || r matches Err(Error::Keychain(_)),
{
    secret_from_lookup(entry_get_password(e))
}

/// Store `secret` in `e`, replacing any existing one, as [`store_outcome`]
/// reads the keychain's answer. Whether the keychain accepts it is outside
/// state: only the kind of error is stated.
fn write_secret(e: &KeychainEntry, secret: &str) -> (r: Result<(), Error>)
    ensures
        r is Ok || r matches Err(Error::Keychain(_)),
{
    store_outcome(entry_set_password(e, secret))
}

/// Remove the credential of `e`; nothing stored counts as success
/// ([`delete_outcome`]). Which of these the keychain reports is outside
/// state: only the kind of error is stated.
fn delete_entry(e: &KeychainEntry) -> (r: Result<(), Error>)
    ensures
        r is Ok || r matches Err(Error::Keychain(_)),
{
    delete_outcome(entry_delete_credential(e))
}

/// The device token held in `e`, the device-token entry, as
/// [`token_from_lookup`] reads the keychain's answer.
pub fn token_in(e: &KeychainEntry) -> (r: Result<Option<DeviceToken>, Error>)
    requires
        is_token_entry(e),
    ensures
        r is Ok || r matches Err(Error::Keychain(_)),
{
    token_from_lookup(entry_get_password(e))
}

/// Whether `e`, the device-token entry, holds a token, as
/// [`linked_from_lookup`] reads the keychain's answer.
pub fn linked_in(e: &KeychainEntry) -> (r: Result<bool, Error>)
    requires
        is_token_entry(e),
    ensures
        r is Ok || r matches Err(Error::Keychain(_)),
{
    linked_from_lookup(entry_get_password(e))
}

/// Store `token` in `e`, the device-token entry.
pub fn store_token_in(e: &KeychainEntry, token: &str) -> (r: Result<(), Error>)
    requires
        is_token_entry(e),
    ensures
        r is Ok || r matches Err(Error::Keychain(_)),
{
    write_secret(e, token)
}

/// The profile text held in `e`, the profile entry.
pub fn user_text_in(e: &KeychainEntry) -> (r: Result<Option<String>, Error>)
    requires
        is_user_entry(e),
    ensures
        r is Ok || r matches Err(Error::Keychain(_)),
{
    read_secret(e)
}

/// Store the profile text `json` in `e`, the profile entry.
pub fn store_user_text_in(e: &KeychainEntry, json: &str) -> (r: Result<(), Error>)
    requires
        is_user_entry(e),
    ensures
        r is Ok || r matches Err(Error::Keychain(_)),
{
    write_secret(e, json)
}

/// Remove both credentials: `token`, the device-token entry, then `user`,
/// the profile entry. Stops at the first keychain error; an entry that
/// holds nothing counts as removed.
pub fn sign_out_entries(token: &KeychainEntry, user: &KeychainEntry) -> (r: Result<(), Error>)
    requires
        is_token_entry(token),
        is_user_entry(user),
    ensures
        r is Ok || r matches Err(Error::Keychain(_)),
{
    delete_entry(token)?;
    delete_entry(user)?;
    Ok(())
}

/// Load the stored device token, if this device has been linked: a lookup
/// of the device-token entry ([`entry`], [`token_in`]). Whatever the
/// keychain answers, the only error is a keychain error.
pub fn current_token() -> (r: Result<Option<DeviceToken>, Error>)
    ensures
        r is Ok || r matches Err(Error::Keychain(_)),
{
    let e = entry()?;
    token_in(&e)
}

/// Whether this device currently holds a stored token: a lookup of the
/// device-token entry ([`entry`], [`linked_in`]). The answer is the
/// keychain's state, so only the kind of error is stated.
pub fn is_linked() -> (r: Result<bool, Error>)
    ensures
        r is Ok || r matches Err(Error::Keychain(_)),
{
    let e = entry()?;
    linked_in(&e)
}

/// The token needed for an authenticated call: `NotLinked` when none is
/// stored.
pub fn require_token(stored: Option<DeviceToken>) -> (r: Result<DeviceToken, Error>)
    ensures
        match stored {
            Some(t) => r matches Ok(u) && u.secret() == t.secret(),
            None => r matches Err(Error::NotLinked),
        },
{
    match stored {
        Some(t) => Ok(t),
        None => Err(Error::NotLinked),
    }
}

/// Persist a token to the device-token entry, replacing any existing one
/// ([`entry`], [`store_token_in`]). Whether the keychain accepts it is its
/// own business: only the kind of error is stated.
pub fn store_token(token: &str) -> (r: Result<(), Error>)
    ensures
        r is Ok || r matches Err(Error::Keychain(_)),
{
    let e = entry()?;
    store_token_in(&e, token)
}

/// The linked user's cached profile, as the JSON text it was stored as: a
/// lookup of the profile entry ([`user_entry`], [`user_text_in`]). What is
/// stored is the keychain's state: only the kind of error is stated.
pub fn cached_user_text() -> (r: Result<Option<String>, Error>)
    ensures
        r is Ok || r matches Err(Error::Keychain(_)),
{
    let e = user_entry()?;
    user_text_in(&e)
}

/// Persist the linked user's profile (its JSON text) to the profile entry,
/// replacing any existing one ([`user_entry`], [`store_user_text_in`]).
/// Whether the keychain accepts it is its own business: only the kind of
/// error is stated.
pub fn store_user_text(json: &str) -> (r: Result<(), Error>)
    ensures
        r is Ok || r matches Err(Error::Keychain(_)),
{
    let e = user_entry()?;
    store_user_text_in(&e, json)
}

/// Forget the stored token and cached profile: both entries are removed
/// ([`sign_out_entries`]). Idempotent: succeeds when either is already
/// absent. What the keychain reports is its own business: only the kind of
/// error is stated.
pub fn sign_out() -> (r: Result<(), Error>)
    ensures
        r is Ok || r matches Err(Error::Keychain(_)),
{
    let token = entry()?;
    let user = user_entry()?;
    sign_out_entries(&token, &user)
}

} // verus!
