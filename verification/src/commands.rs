//! The shapes the desktop UI receives, and the wording of its notices.
//!
//! Errors cross to the UI as [`CmdError`] `{ kind, message }` so it can
//! attach a per-kind hint instead of parsing text; an installed setup
//! crosses as [`InstalledSetupDto`], whose [`InstalledSetupDto::toast`] words
//! the native notification.
use vstd::prelude::*;

use crate::api::DeviceUser;
use crate::auth::{DeviceFlow, FlowOutcome};
use crate::download::{InstallAction, InstalledSetup};
use crate::error::{error_kind, error_message, Error};
use crate::pathstr::{file_name, file_name_chars};
use crate::paths::SimFolderStatus;
use crate::sim::{spec_display_name, spec_sim_id};
use crate::text::{string_of, to_chars};

verus! {

/// A command's failure: `kind` picks the UI's recovery hint, `message` is
/// the user-facing text.
#[derive(Debug, Clone, PartialEq, Eq)]
pub struct CmdError {
    pub kind: String,
    pub message: String,
}

impl CmdError {
    pub fn new(kind: &str, message: String) -> (r: CmdError)
        ensures
            r.kind@ == kind@,
            r.message == message,
    {
        CmdError { kind: String::from_str(kind), message }
    }

    /// The UI shape of a library error.
    pub fn from_error(e: &Error) -> (r: CmdError)
        ensures
            r.kind@ == error_kind(*e),
            r.message@ == error_message(*e),
    {
        CmdError::new(e.kind(), e.message())
    }
}

/// Whether this device is linked, and the cached profile of its user.
#[derive(Debug, Clone)]
pub struct AuthStatus {
    pub linked: bool,
    pub user: Option<DeviceUser>,
}

/// The status the UI shows: a cached profile only while actually linked, so
/// a stale profile without a token never reads as signed in.
pub fn auth_status(linked: bool, cached: Option<DeviceUser>) -> (r: AuthStatus)
    ensures
        r.linked == linked,
        r.user == (if linked {
            cached
        } else {
            None
        }),
{
    AuthStatus {
        linked,
        user: if linked {
            cached
        } else {
            None
        },
    }
}

/// UI shape of a [`DeviceFlow`].
#[derive(Debug, Clone)]
pub struct DeviceFlowDto {
    pub user_code: String,
    pub verification_uri: String,
    pub verification_uri_complete: Option<String>,
    pub device_code: String,
    pub interval_secs: u64,
    pub expires_in_secs: u64,
}

impl DeviceFlowDto {
    pub fn from_flow(f: DeviceFlow) -> (r: DeviceFlowDto)
        ensures
            r.user_code == f.user_code,
            r.verification_uri == f.verification_uri,
            r.verification_uri_complete == f.verification_uri_complete,
            r.device_code == f.device_code,
            r.interval_secs == f.interval_secs,
            r.expires_in_secs == f.expires_in_secs,
    {
        DeviceFlowDto {
            user_code: f.user_code,
            verification_uri: f.verification_uri,
            verification_uri_complete: f.verification_uri_complete,
            device_code: f.device_code,
            interval_secs: f.interval_secs,
            expires_in_secs: f.expires_in_secs,
        }
    }
}

/// Result of one poll, as the UI receives it.
#[derive(Debug, Clone)]
pub enum PollDto {
    Linked { user: Option<DeviceUser> },
    Pending,
    SlowDown,
    Denied,
    Expired,
}

impl PollDto {
    pub fn from_outcome(o: FlowOutcome) -> (r: PollDto)
        ensures
            match o {
                FlowOutcome::Linked { user } => r matches PollDto::Linked { user: u } && u == user,
                FlowOutcome::Pending => r matches PollDto::Pending,
                FlowOutcome::SlowDown => r matches PollDto::SlowDown,
                FlowOutcome::Denied => r matches PollDto::Denied,
                FlowOutcome::Expired => r matches PollDto::Expired,
            },
    {
        match o {
            FlowOutcome::Linked { user } => PollDto::Linked { user },
            FlowOutcome::Pending => PollDto::Pending,
            FlowOutcome::SlowDown => PollDto::SlowDown,
            FlowOutcome::Denied => PollDto::Denied,
            FlowOutcome::Expired => PollDto::Expired,
        }
    }
}

/// One sim's setups folder for the Settings folder list.
#[derive(Debug, Clone)]
pub struct SimFolderDto {
    pub id: String,
    pub name: String,
    pub dir: Option<String>,
    pub found: bool,
    pub overridden: bool,
}

impl SimFolderDto {
    pub fn from_status(status: SimFolderStatus) -> (r: SimFolderDto)
        ensures
            r.id@ == spec_sim_id(status.sim),
            r.name@ == spec_display_name(status.sim),
            r.dir == status.dir,
            r.found == status.found,
            r.overridden == status.overridden,
    {
        SimFolderDto {
            id: String::from_str(status.sim.id()),
            name: String::from_str(status.sim.display_name()),
            dir: status.dir,
            found: status.found,
            overridden: status.overridden,
        }
    }
}

/// A setup file written into a sim folder, as the UI receives it.
#[derive(Debug, Clone, PartialEq, Eq)]
pub struct InstalledSetupDto {
    pub path: String,
    /// How the file landed; words the toast.
    pub action: InstallAction,
    /// The sim's display name.
    pub sim: String,
    /// The sim's stable short id.
    pub sim_id: String,
    pub car: String,
    pub track: Option<String>,
    pub name: Option<String>,
}

pub open spec fn middle_dot() -> Seq<char> {
    " · "@
}

/// What the toast calls the setup: its display name, else its file name,
/// else "Setup".
pub open spec fn toast_subject(dto: InstalledSetupDto) -> Seq<char> {
    match dto.name {
        Some(n) => n@,
        None => match file_name(dto.path@) {
            Some(f) => f,
            None => "Setup"@,
        },
    }
}

/// Where the setup went: the sim, then the car if there is one, then the
/// track if there is one, separated by " · ".
pub open spec fn toast_place(dto: InstalledSetupDto) -> Seq<char> {
    dto.sim@ + (if dto.car@.len() > 0 {
        middle_dot() + dto.car@
    } else {
        Seq::empty()
    }) + match dto.track {
        Some(t) => middle_dot() + t@,
        None => Seq::empty(),
    }
}

/// The notification's title and body.
pub open spec fn toast_text(dto: InstalledSetupDto) -> (Seq<char>, Seq<char>) {
    let what = toast_subject(dto);
    let place = toast_place(dto);
    match dto.action {
        InstallAction::AlreadyInstalled => (
            "Already in your garage ✓"@,
            "“"@ + what + "” is already installed — "@ + place + "."@,
        ),
        InstallAction::KeptBoth => (
            "Equipped ✓ (kept your existing file)"@,
            "“"@ + what + "” → "@ + place,
        ),
        _ => ("Equipped ✓"@, "“"@ + what + "” → "@ + place),
    }
}

impl InstalledSetupDto {
    /// The UI shape of an installed setup.
    pub fn from_installed(s: InstalledSetup) -> (r: InstalledSetupDto)
        ensures
            r.path == s.path,
            r.action == s.action,
            r.sim@ == spec_display_name(s.sim),
            r.sim_id@ == spec_sim_id(s.sim),
            r.car == s.car,
            r.track == s.track,
            r.name == s.name,
    {
        InstalledSetupDto {
            path: s.path,
            action: s.action,
            sim: String::from_str(s.sim.display_name()),
            sim_id: String::from_str(s.sim.id()),
            car: s.car,
            track: s.track,
            name: s.name,
        }
    }

    /// `(title, body)` for the native equip notification.
    pub fn toast(&self) -> (r: (String, String))
        ensures
            r.0@ == toast_text(*self).0,
            r.1@ == toast_text(*self).1,
    {
        let what = match &self.name {
            Some(n) => n.clone(),
            None => match file_name_chars(&to_chars(self.path.as_str())) {
                Some(f) => string_of(&f),
                None => String::from_str("Setup"),
            },
        };
        let mut place = self.sim.clone();
        if self.car.unicode_len() > 0 {
            place.append(" · ");
            place.append(self.car.as_str());
        }
        if let Some(track) = &self.track {
            place.append(" · ");
            place.append(track.as_str());
        }
        assert(what@ == toast_subject(*self));
        assert(place@ =~= toast_place(*self));
        match self.action {
            InstallAction::AlreadyInstalled => {
                let mut body = String::from_str("“");
                body.append(what.as_str());
                body.append("” is already installed — ");
                body.append(place.as_str());
                body.append(".");
                (String::from_str("Already in your garage ✓"), body)
            },
            InstallAction::KeptBoth => {
                let mut body = String::from_str("“");
                body.append(what.as_str());
                body.append("” → ");
                body.append(place.as_str());
                (String::from_str("Equipped ✓ (kept your existing file)"), body)
            },
            _ => {
                let mut body = String::from_str("“");
                body.append(what.as_str());
                body.append("” → ");
                body.append(place.as_str());
                (String::from_str("Equipped ✓"), body)
            },
        }
    }
}

/// The uploaded setup as shown in the success card.
#[derive(Debug, Clone, PartialEq, Eq)]
pub struct UploadedSetupDto {
    pub id: String,
    pub url: String,
}

/// Outcome of an equip deep link, for the UI.
#[derive(Debug, Clone)]
pub enum EquipOutcome {
    /// The setup was fetched and written into its sim folder.
    Installed(InstalledSetupDto),
    /// Parsing the link or downloading failed.
    Error { kind: String, message: String },
}

/// What an equip run ended in, for the UI: the installed setup, or the
/// failure's kind and message.
pub fn equip_outcome(result: Result<InstalledSetup, Error>) -> (r: EquipOutcome)
    ensures
        match result {
            Ok(s) => r matches EquipOutcome::Installed(d) && d.path == s.path && d.action
                == s.action && d.sim@ == spec_display_name(s.sim) && d.sim_id@ == spec_sim_id(
                s.sim,
            ) && d.car == s.car && d.track == s.track && d.name == s.name,
            Err(e) => r matches EquipOutcome::Error { kind, message } && kind@ == error_kind(e)
                && message@ == error_message(e),
        },
{
    match result {
        Ok(s) => EquipOutcome::Installed(InstalledSetupDto::from_installed(s)),
        Err(e) => EquipOutcome::Error {
            kind: String::from_str(e.kind()),
            message: e.message(),
        },
    }
}

/// The UI error for a pasted link that names no setup.
pub fn invalid_link_error() -> (r: CmdError)
    ensures
        r.kind@ == "invalid_link"@,
        r.message@ == "That doesn't look like a Parc Fermé setup link."@,
{
    CmdError::new("invalid_link", String::from_str("That doesn't look like a Parc Fermé setup link."))
}

/// The UI error for an upload naming an unknown sim.
pub fn unknown_sim_error(sim: &str) -> (r: CmdError)
    ensures
        r.kind@ == "api"@,
        r.message@ == "unknown sim: "@ + crate::text::debug_text(sim@),
{
    let mut m = String::from_str("unknown sim: ");
    m.append(crate::text::debug_quoted(sim).as_str());
    CmdError::new("api", m)
}

} // verus!
