//! The session sync engine's decisions: which recordings are pending,
//! which are worth pushing, and what one push outcome means for the sweep.
//!
//! The engine records and pushes on one application thread; pushing is
//! oldest first, and the first failure ends the sweep — they share one
//! cause, and the files stay put for the next cycle.
use vstd::prelude::*;

use crate::api::UploadResult;
use crate::error::{error_message, Error};
use crate::session::{first_named, Session};

verus! {

/// Seconds to wait before looking for the game again.
pub const IDLE_POLL_SECS: u64 = 5;

/// A recording smaller than this never saw a lap; it is dropped, not pushed.
pub const MIN_SESSION_BYTES: u64 = 4096;

/// The session being recorded right now.
#[derive(Debug, Clone, Default)]
pub struct Live {
    /// File name in the sessions folder.
    pub file: String,
    pub started_unix: u64,
    pub frames: u64,
    /// The game's own names, once a session loads.
    pub car: String,
    pub track: String,
}

/// The last push the engine attempted.
#[derive(Debug, Clone)]
pub struct LastPush {
    pub file: String,
    pub at_unix: u64,
    /// The session's page on the site, when it went up.
    pub url: Option<String>,
    /// Why it didn't, when it didn't.
    pub error: Option<String>,
}

/// Everything the Sync tab renders.
#[derive(Debug, Clone)]
pub struct Status {
    pub enabled: bool,
    pub recording: Option<Live>,
    /// Finished recordings waiting to be pushed, newest first.
    pub pending: Vec<Session>,
    pub last_push: Option<LastPush>,
}

/// The recordings waiting to be pushed: every listed one but the file
/// being written, in the order listed.
pub fn pending_sessions(sessions: Vec<Session>, active: Option<&str>) -> (r: Vec<Session>)
    ensures
        r@ == sessions@.filter(
            |s: Session|
                match active {
                    Some(a) => s.file@ != a@,
                    None => true,
                },
        ),
{
    let ghost keep = |s: Session|
        match active {
            Some(a) => s.file@ != a@,
            None => true,
        };
    let mut out: Vec<Session> = Vec::new();
    let mut i: usize = 0;
    while i < sessions.len()
        invariant
            i <= sessions@.len(),
            keep == (|s: Session|
                match active {
                    Some(a) => s.file@ != a@,
                    None => true,
                }),
            out@ == sessions@.take(i as int).filter(keep),
        decreases sessions@.len() - i,
    {
        proof {
            reveal(Seq::filter);
            assert(sessions@.take(i + 1).drop_last() =~= sessions@.take(i as int));
            assert(sessions@.take(i + 1).last() == sessions@[i as int]);
        }
        let s = &sessions[i];
        let skip = match active {
            Some(a) => crate::text::chars_eq(
                &crate::text::to_chars(s.file.as_str()),
                &crate::text::to_chars(a),
            ),
            None => false,
        };
        if !skip {
            out.push(Session { file: s.file.clone(), started_unix: s.started_unix, bytes: s.bytes });
        }
        i = i + 1;
    }
    assert(sessions@.take(sessions@.len() as int) =~= sessions@);
    out
}

/// Whether a recording of `bytes` is worth pushing (smaller ones are
/// deleted unpushed).
pub fn worth_pushing(bytes: u64) -> (r: bool)
    ensures
        r == (bytes >= MIN_SESSION_BYTES),
{
    bytes >= MIN_SESSION_BYTES
}

/// What one push means for the sweep.
#[derive(Debug, Clone)]
pub enum PushStep {
    /// Pushed: delete the file, record where it went, go on.
    Pushed(LastPush),
    /// Signed out: stop quietly; the recording waits for a sign-in.
    Wait,
    /// Failed: record why and stop the sweep.
    Failed(LastPush),
}

/// The step after pushing `file` at `at_unix` with `outcome`.
pub fn push_step(file: &str, at_unix: u64, outcome: Result<UploadResult, Error>) -> (r: PushStep)
    ensures
        match outcome {
            Ok(u) => r matches PushStep::Pushed(p) && p.file@ == file@ && p.at_unix == at_unix
                && p.url == Some(u.url) && p.error is None,
            Err(Error::NotLinked) => r matches PushStep::Wait,
            Err(e) => r matches PushStep::Failed(p) && p.file@ == file@ && p.at_unix == at_unix
                && p.url is None && (p.error matches Some(m) && m@ == error_message(e)),
        },
{
    match outcome {
        Ok(u) => PushStep::Pushed(
            LastPush { file: String::from_str(file), at_unix, url: Some(u.url), error: None },
        ),
        Err(Error::NotLinked) => PushStep::Wait,
        Err(e) => PushStep::Failed(
            LastPush { file: String::from_str(file), at_unix, url: None, error: Some(e.message()) },
        ),
    }
}

/// What the recorder saw on one wait for the game.
#[derive(Debug, Clone)]
pub enum RecordEvent {
    /// A frame was written: `frames` is how many the recording now holds,
    /// `car` and `track` the names the frame carried.
    Frame { frames: u64, car: String, track: String },
    /// Writing the frame failed.
    WriteFailed,
    /// No frame came within the wait; `running` says whether the game is
    /// still up.
    Quiet { running: bool },
}

/// Whether the recorder goes on.
#[derive(Debug, Clone, Copy, PartialEq, Eq, Structural)]
pub enum RecordAction {
    /// Wait for the next frame.
    Continue,
    /// Close the recording.
    Stop,
}

fn keep_name(kept: String, seen: String) -> (r: String)
    ensures
        r@ == first_named(kept@, seen@),
{
    if kept.unicode_len() == 0 {
        seen
    } else {
        kept
    }
}

/// The live record and the recorder's next move after `ev`. Car and track
/// arrive when the driver loads a session, not when the game opens: the
/// first non-empty pair is kept and left alone after that. A failed write
/// stops the recording, and so does a quiet wait once the game is gone (a
/// dead source answers at once, so waiting on would spin).
pub fn record_step(live: Live, ev: RecordEvent) -> (r: (Live, RecordAction))
    ensures
        r.0.file == live.file,
        r.0.started_unix == live.started_unix,
        match ev {
            RecordEvent::Frame { frames, car, track } => {
                &&& r.1 == RecordAction::Continue
                &&& r.0.frames == frames
                &&& r.0.car@ == first_named(live.car@, car@)
                &&& r.0.track@ == first_named(live.track@, track@)
            },
            RecordEvent::WriteFailed => r.1 == RecordAction::Stop && r.0 == live,
            RecordEvent::Quiet { running } => r.1 == (if running {
                RecordAction::Continue
            } else {
                RecordAction::Stop
            }) && r.0 == live,
        },
{
    match ev {
        RecordEvent::Frame { frames, car, track } => {
            let Live { file, started_unix, frames: _, car: kept_car, track: kept_track } = live;
            let next = Live {
                file,
                started_unix,
                frames,
                car: keep_name(kept_car, car),
                track: keep_name(kept_track, track),
            };
            (next, RecordAction::Continue)
        },
        RecordEvent::WriteFailed => (live, RecordAction::Stop),
        RecordEvent::Quiet { running } => {
            if running {
                (live, RecordAction::Continue)
            } else {
                (live, RecordAction::Stop)
            }
        },
    }
}

} // verus!
