//! Installing one setup, as a sequence of steps.
//!
//! The application performs each step's outside work (the keychain read,
//! the server request, the folder lookup, the download and write) and hands
//! the answer back as an event; what comes next is decided here. A device
//! that holds no token stops before any request is made, and an equip link
//! that does not parse stops before the keychain is read.
use vstd::prelude::*;

use crate::api::{download_sim, DownloadInfo};
use crate::auth::DeviceToken;
use crate::deeplink::{equip_link, parse};
use crate::download::{InstallAction, InstalledSetup};
use crate::error::Error;
use crate::paths::{setup_target_dir, target_dir};
use crate::sim::Sim;

verus! {

/// Where an install stands: what it needs from outside next, or how it
/// ended.
pub enum InstallStep {
    /// Read the stored device token.
    ReadToken { setup_id: String },
    /// Ask the server where setup `setup_id` is, with `token`.
    FetchInfo { setup_id: String, token: DeviceToken },
    /// Find the setups folder of `sim`, the sim the setup is for.
    FindDir { info: DownloadInfo, sim: Sim },
    /// Download `info.url` into `target_dir` as `info.filename`, under the
    /// conflict policy.
    Write { info: DownloadInfo, sim: Sim, target_dir: String },
    /// Finished.
    Done(Result<InstalledSetup, Error>),
}

/// The outside answer to a step.
pub enum InstallEvent {
    /// The stored token, if any.
    Token(Result<Option<DeviceToken>, Error>),
    /// The server's answer about the setup.
    Info(Result<DownloadInfo, Error>),
    /// The sim's setups folder.
    Dir(Result<String, Error>),
    /// Where the file landed and how.
    Written(Result<(String, InstallAction), Error>),
}

/// The track of a download, as text.
pub open spec fn track_of(info: DownloadInfo) -> Option<Seq<char>> {
    match info.track {
        Some(t) => Some(t@),
        None => None,
    }
}

/// The sim a download is for.
pub open spec fn sim_of(info: DownloadInfo) -> Sim {
    download_sim(
        match info.sim {
            Some(t) => Some(t@),
            None => None,
        },
        info.filename@,
    )
}

/// The first step of installing `setup_id`.
pub fn install_start(setup_id: &str) -> (r: InstallStep)
    ensures
        r matches InstallStep::ReadToken { setup_id: s } && s@ == setup_id@,
{
    InstallStep::ReadToken { setup_id: String::from_str(setup_id) }
}

/// The first step of running an equip link: reading the keychain for the
/// setup the link names, or the end, with the link's error, when it does
/// not parse.
pub fn equip_start(url: &str) -> (r: InstallStep)
    ensures
        match equip_link(url@) {
            Ok(req) => r matches InstallStep::ReadToken { setup_id: s } && s@ == req.0,
            Err(m) => r matches InstallStep::Done(Err(Error::Api(e))) && e@ == m,
        },
{
    match parse(url) {
        Ok(req) => InstallStep::ReadToken { setup_id: req.setup_id },
        Err(e) => InstallStep::Done(Err(e)),
    }
}

fn track_text(track: &Option<String>) -> (r: Option<&str>)
    ensures
        match track {
            Some(t) => r matches Some(s) && s@ == t@,
            None => r is None,
        },
{
    match track {
        Some(t) => Some(t.as_str()),
        None => None,
    }
}

/// The step after `step` on the outside answer `ev`:
/// - no stored token ends the install with `NotLinked`, before any
///   request;
/// - a token leads to the server request for the same setup;
/// - the server's answer leads to the lookup of the folder of the sim it
///   resolves to;
/// - the folder leads to the write into the setup's car (and track)
///   folder under it;
/// - the write ends the install with where the file landed;
/// - any outside error ends the install with that error.
/// An answer that does not belong to the step leaves the step as it is.
pub fn install_next(step: InstallStep, ev: InstallEvent) -> (r: InstallStep)
    ensures
        match (step, ev) {
            (InstallStep::ReadToken { setup_id }, InstallEvent::Token(t)) => match t {
                Ok(Some(tok)) => r matches InstallStep::FetchInfo { setup_id: s, token: k } && s
                    == setup_id && k.secret() == tok.secret(),
                Ok(None) => r matches InstallStep::Done(Err(Error::NotLinked)),
                Err(e) => r == InstallStep::Done(Err(e)),
            },
            (InstallStep::FetchInfo { setup_id, token }, InstallEvent::Info(i)) => match i {
                Ok(info) => r == InstallStep::FindDir { info, sim: sim_of(info) },
                Err(e) => r == InstallStep::Done(Err(e)),
            },
            (InstallStep::FindDir { info, sim }, InstallEvent::Dir(d)) => match d {
                Ok(dir) => r matches InstallStep::Write { info: i, sim: s, target_dir: t } && i
                    == info && s == sim && t@ == target_dir(dir@, sim, info.car@, track_of(info)),
                Err(e) => r == InstallStep::Done(Err(e)),
            },
            (InstallStep::Write { info, sim, target_dir }, InstallEvent::Written(w)) => match w {
                Ok((path, action)) => r == InstallStep::Done(
                    Ok(
                        InstalledSetup {
                            path,
                            action,
                            sim,
                            car: info.car,
                            track: info.track,
                            name: info.name,
                        },
                    ),
                ),
                Err(e) => r == InstallStep::Done(Err(e)),
            },
            _ => r == step,
        },
{
    match step {
        InstallStep::ReadToken { setup_id } => match ev {
            InstallEvent::Token(Ok(Some(token))) => InstallStep::FetchInfo { setup_id, token },
            InstallEvent::Token(Ok(None)) => InstallStep::Done(Err(Error::NotLinked)),
            InstallEvent::Token(Err(e)) => InstallStep::Done(Err(e)),
            _ => InstallStep::ReadToken { setup_id },
        },
        InstallStep::FetchInfo { setup_id, token } => match ev {
            InstallEvent::Info(Ok(info)) => {
                let sim = info.resolved_sim();
                InstallStep::FindDir { info, sim }
            },
            InstallEvent::Info(Err(e)) => InstallStep::Done(Err(e)),
            _ => InstallStep::FetchInfo { setup_id, token },
        },
        InstallStep::FindDir { info, sim } => match ev {
            InstallEvent::Dir(Ok(dir)) => {
                let target = setup_target_dir(
                    dir.as_str(),
                    sim,
                    info.car.as_str(),
                    track_text(&info.track),
                );
                InstallStep::Write { info, sim, target_dir: target }
            },
            InstallEvent::Dir(Err(e)) => InstallStep::Done(Err(e)),
            _ => InstallStep::FindDir { info, sim },
        },
        InstallStep::Write { info, sim, target_dir } => match ev {
            InstallEvent::Written(Ok((path, action))) => InstallStep::Done(
                Ok(
                    InstalledSetup {
                        path,
                        action,
                        sim,
                        car: info.car,
                        track: info.track,
                        name: info.name,
                    },
                ),
            ),
            InstallEvent::Written(Err(e)) => InstallStep::Done(Err(e)),
            _ => InstallStep::Write { info, sim, target_dir },
        },
        InstallStep::Done(r) => InstallStep::Done(r),
    }
}

} // verus!
