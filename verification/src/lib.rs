use vstd::prelude::*;

pub mod api;
pub mod auth;
pub mod car_aliases;
pub mod car_match;
pub mod cars;
pub mod commands;
pub mod deeplink;
pub mod download;
pub mod error;
pub mod install;
pub mod paths;
pub mod lmu;
pub mod pathstr;
pub mod session;
pub mod settings;
pub mod sim;
pub mod sync;
pub mod team_sync;
pub mod text;
pub mod upload;

verus! {

/// The app's bundle identifier — shared by the keychain service name and
/// the settings folder, so all app data lives under one name.
pub const APP_ID: &'static str = "cc.parcferme.desktop";

/// The library's version, reported by [`ping`].
pub const CORE_VERSION: &'static str = "0.2.6";

/// The reply to [`ping`].
#[derive(Debug, Clone, PartialEq, Eq)]
pub struct Pong {
    /// The message, echoed back.
    pub message: String,
    /// The library version that handled the call.
    pub core_version: String,
}

/// Echo a message back through the library, tagged with its version.
pub fn ping(message: &str) -> (r: Pong)
    ensures
        r.message@ == "pong: "@ + message@,
        r.core_version@ == CORE_VERSION@,
{
    let mut m = String::from_str("pong: ");
    m.append(message);
    Pong { message: m, core_version: String::from_str(CORE_VERSION) }
}

} // verus!
