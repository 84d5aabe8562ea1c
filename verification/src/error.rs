//! The crate's error type.
//!
//! Every failure carries a stable machine-readable [`Error::kind`] for the UI
//! to branch on, and a user-facing [`Error::message`]. Failures that come from
//! outside the library (I/O, JSON) arrive already rendered as text.
use vstd::prelude::*;

verus! {

/// Everything that can go wrong inside the library.
#[derive(Debug, Clone, PartialEq, Eq)]
pub enum Error {
    /// A code path that is not available here; the text names it.
    NotImplemented(&'static str),
    /// This device holds no stored token — it must be connected first.
    NotLinked,
    /// The server rejected the device token (HTTP 401).
    DeviceRevoked,
    /// The linked user may not access this setup (HTTP 403).
    AccessDenied,
    /// No setup with that id exists (HTTP 404).
    SetupNotFound,
    /// Transport-level HTTP failure.
    Http(String),
    /// The server returned an error response not otherwise modelled, or a
    /// request was refused before it was sent.
    Api(String),
    /// OS keychain failure.
    Keychain(String),
    /// The sim setups directory does not exist; the text is the path looked for.
    SetupsDirNotFound(String),
    /// Filesystem I/O failure, as the OS described it.
    Io(String),
    /// (De)serialization failure, as the parser described it.
    Serde(String),
}

/// The stable kind string for each variant.
pub open spec fn error_kind(e: Error) -> Seq<char> {
    match e {
        Error::NotImplemented(_) => "not_implemented"@,
        Error::NotLinked => "not_linked"@,
        Error::DeviceRevoked => "device_revoked"@,
        Error::AccessDenied => "access_denied"@,
        Error::SetupNotFound => "setup_not_found"@,
        Error::Http(_) => "network"@,
        Error::Api(_) => "api"@,
        Error::Keychain(_) => "keychain"@,
        Error::SetupsDirNotFound(_) => "setups_dir_not_found"@,
        Error::Io(_) => "io"@,
        Error::Serde(_) => "serde"@,
    }
}

/// The user-facing text for each variant.
pub open spec fn error_message(e: Error) -> Seq<char> {
    match e {
        Error::NotImplemented(what) => "not yet implemented: "@ + what@,
        Error::NotLinked => "not connected — link this device to your Parc Fermé account first"@,
        Error::DeviceRevoked => "this device is no longer authorized — sign out and connect again"@,
        Error::AccessDenied => "you don't have access to this setup"@,
        Error::SetupNotFound => "setup not found — it may have been deleted"@,
        Error::Http(m) => "network error: "@ + m@,
        Error::Api(m) => "api error: "@ + m@,
        Error::Keychain(m) => "keychain error: "@ + m@,
        Error::SetupsDirNotFound(p) => "setups folder not found: "@ + p@,
        Error::Io(m) => "i/o error: "@ + m@,
        Error::Serde(m) => "serialization error: "@ + m@,
    }
}

impl Error {
    /// Stable, machine-readable kind for the UI to branch on.
    pub fn kind(&self) -> (r: &'static str)
        ensures
            r@ == error_kind(*self),
    {
        match self {
            Error::NotImplemented(_) => "not_implemented",
            Error::NotLinked => "not_linked",
            Error::DeviceRevoked => "device_revoked",
            Error::AccessDenied => "access_denied",
            Error::SetupNotFound => "setup_not_found",
            Error::Http(_) => "network",
            Error::Api(_) => "api",
            Error::Keychain(_) => "keychain",
            Error::SetupsDirNotFound(_) => "setups_dir_not_found",
            Error::Io(_) => "io",
            Error::Serde(_) => "serde",
        }
    }

    /// The user-facing description of the failure.
    pub fn message(&self) -> (r: String)
        ensures
            r@ == error_message(*self),
    {
        let (head, tail): (&str, &str) = match self {
            Error::NotImplemented(what) => ("not yet implemented: ", *what),
            Error::NotLinked => (
                "not connected — link this device to your Parc Fermé account first",
                "",
            ),
            Error::DeviceRevoked => (
                "this device is no longer authorized — sign out and connect again",
                "",
            ),
            Error::AccessDenied => ("you don't have access to this setup", ""),
            Error::SetupNotFound => ("setup not found — it may have been deleted", ""),
            Error::Http(m) => ("network error: ", m.as_str()),
            Error::Api(m) => ("api error: ", m.as_str()),
            Error::Keychain(m) => ("keychain error: ", m.as_str()),
            Error::SetupsDirNotFound(p) => ("setups folder not found: ", p.as_str()),
            Error::Io(m) => ("i/o error: ", m.as_str()),
            Error::Serde(m) => ("serialization error: ", m.as_str()),
        };
        proof {
            reveal_strlit("");
        }
        let mut out = String::from_str(head);
        out.append(tail);
        assert(out@ =~= error_message(*self));
        out
    }
}

} // verus!
