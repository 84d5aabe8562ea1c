//! Recorded sessions: their names, the listing and the share-name check.
//!
//! One session is one JSON-Lines file `session-<unix seconds>.jsonl` in the
//! sessions folder. Writing frames and reading the folder are the
//! application's; which files are sessions, in which order they are listed,
//! and which names may be shared are decided here.
use vstd::prelude::*;

use crate::error::Error;
use crate::pathstr::{file_name, join, join_str};
use crate::text::{debug_quoted, debug_text, decimal, push_decimal, slice_chars, starts_with, to_chars};

verus! {

/// One recorded session on disk.
#[derive(Debug, Clone, PartialEq, Eq)]
pub struct Session {
    /// File name, e.g. `session-1757203200.jsonl`.
    pub file: String,
    /// When the recording started, seconds since the Unix epoch.
    pub started_unix: u64,
    pub bytes: u64,
}

/// Where sessions are kept: `<local app data>/cc.parcferme.desktop/sessions`.
pub fn dir(local_app_data: Option<&str>) -> (r: Result<String, Error>)
    ensures
        match local_app_data {
            Some(root) => r matches Ok(d) && d@ == join(join(root@, crate::APP_ID@), "sessions"@),
            None => r matches Err(Error::Io(m)) && m@ == "LOCALAPPDATA is not set"@,
        },
{
    match local_app_data {
        Some(root) => {
            let app = join_str(root, crate::APP_ID);
            Ok(join_str(app.as_str(), "sessions"))
        },
        None => Err(Error::Io(String::from_str("LOCALAPPDATA is not set"))),
    }
}

pub open spec fn session_prefix() -> Seq<char> {
    seq!['s', 'e', 's', 's', 'i', 'o', 'n', '-']
}

pub open spec fn session_suffix() -> Seq<char> {
    seq!['.', 'j', 's', 'o', 'n', 'l']
}

/// The file name a recording started at `now` is written under.
pub open spec fn recording_file(now: nat) -> Seq<char> {
    session_prefix() + decimal(now) + session_suffix()
}

pub fn recording_name(now: u64) -> (r: String)
    ensures
        r@ == recording_file(now as nat),
{
    let mut s = String::from_str("session-");
    push_decimal(&mut s, now);
    s.append(".jsonl");
    proof {
        reveal_strlit("session-");
        reveal_strlit(".jsonl");
    }
    assert(s@ =~= recording_file(now as nat));
    s
}

pub open spec fn is_digit(c: char) -> bool {
    '0' <= c && c <= '9'
}

/// The number a run of decimal digits spells.
pub open spec fn digits_value(s: Seq<char>) -> nat
    decreases s.len(),
{
    if s.len() == 0 {
        0
    } else {
        digits_value(s.drop_last()) * 10 + ((s.last() as u32 - 48) as nat)
    }
}

/// Every character is a decimal digit.
pub open spec fn all_digits(d: Seq<char>) -> bool {
    forall|i: int| 0 <= i < d.len() ==> is_digit(#[trigger] d[i])
}

/// `str::parse::<u64>`: an optional `+`, then one or more decimal digits
/// spelling a number that fits.
pub open spec fn parse_u64(s: Seq<char>) -> Option<u64> {
    let d = if s.len() > 0 && s[0] == '+' {
        s.skip(1)
    } else {
        s
    };
    if d.len() > 0 && all_digits(d) && digits_value(d) <= u64::MAX {
        Some(digits_value(d) as u64)
    } else {
        None
    }
}

proof fn lemma_digits_value_grows(s: Seq<char>, k: int)
    requires
        0 <= k <= s.len(),
        forall|i: int| 0 <= i < s.len() ==> is_digit(#[trigger] s[i]),
    ensures
        digits_value(s.take(k)) <= digits_value(s),
    decreases s.len() - k,
{
    if k < s.len() {
        lemma_digits_value_grows(s, k + 1);
        assert(s.take(k + 1).drop_last() =~= s.take(k));
    } else {
        assert(s.take(k) =~= s);
    }
}

fn parse_u64_chars(s: &Vec<char>) -> (r: Option<u64>)
    ensures
        r == parse_u64(s@),
{
    let start: usize = if s.len() > 0 && s[0] == '+' {
        1
    } else {
        0
    };
    let d = slice_chars(s, start, s.len());
    assert(d@ =~= (if s@.len() > 0 && s@[0] == '+' {
        s@.skip(1)
    } else {
        s@
    }));
    if d.len() == 0 {
        return None;
    }
    let mut value: u64 = 0;
    let mut i: usize = 0;
    while i < d.len()
        invariant
            d@ == (if s@.len() > 0 && s@[0] == '+' {
                s@.skip(1)
            } else {
                s@
            }),
            d@.len() > 0,
            i <= d@.len(),
            forall|j: int| 0 <= j < i ==> is_digit(#[trigger] d@[j]),
            value == digits_value(d@.take(i as int)),
        decreases d@.len() - i,
    {
        let c = d[i];
        if !('0' <= c && c <= '9') {
            assert(!is_digit(d@[i as int]));
            assert(!all_digits(d@));
            return None;
        }
        assert(d@.take(i + 1).drop_last() =~= d@.take(i as int));
        let digit: u64 = ((c as u32) - 48) as u64;
        let next = match value.checked_mul(10) {
            Some(t) => t.checked_add(digit),
            None => None,
        };
        match next {
            Some(v) => {
                value = v;
            },
            None => {
                // The digits so far already exceed `u64::MAX`; so does the
                // whole run, whatever the rest holds.
                let mut j: usize = i + 1;
                while j < d.len()
                    invariant
                        d@ == (if s@.len() > 0 && s@[0] == '+' {
                            s@.skip(1)
                        } else {
                            s@
                        }),
                        i < j <= d@.len(),
                        forall|k: int| 0 <= k < j ==> is_digit(#[trigger] d@[k]),
                        digits_value(d@.take(i + 1)) > u64::MAX,
                    decreases d@.len() - j,
                {
                    if !('0' <= d[j] && d[j] <= '9') {
                        assert(!is_digit(d@[j as int]));
                        assert(!all_digits(d@));
                        return None;
                    }
                    j = j + 1;
                }
                proof {
                    lemma_digits_value_grows(d@, i + 1);
                }
                return None;
            },
        }
        i = i + 1;
    }
    assert(d@.take(d@.len() as int) =~= d@);
    Some(value)
}

/// When the session file `name` was started, read off its name; `None` for
/// a file that is not a session recording.
pub open spec fn session_start(name: Seq<char>) -> Option<u64> {
    if name.len() >= 14 && starts_with(name, session_prefix()) && name.skip(name.len() - 6)
        == session_suffix() {
        parse_u64(name.subrange(8, name.len() - 6))
    } else {
        None
    }
}

/// When the session file `name` was started, if it is a session recording.
pub fn session_start_of(name: &str) -> (r: Option<u64>)
    ensures
        r == session_start(name@),
{
    let v = to_chars(name);
    let prefix: Vec<char> = vec!['s', 'e', 's', 's', 'i', 'o', 'n', '-'];
    let suffix: Vec<char> = vec!['.', 'j', 's', 'o', 'n', 'l'];
    assert(prefix@ =~= session_prefix());
    assert(suffix@ =~= session_suffix());
    if v.len() < 14 || !crate::text::starts_with_chars(&v, &prefix) {
        return None;
    }
    let tail = slice_chars(&v, v.len() - 6, v.len());
    assert(tail@ =~= v@.skip(v@.len() - 6));
    if !crate::text::chars_eq(&tail, &suffix) {
        return None;
    }
    let middle = slice_chars(&v, 8, v.len() - 6);
    parse_u64_chars(&middle)
}

/// The session files among `entries` (file name and size), each as a
/// [`Session`], in the order given.
pub open spec fn sessions_in(entries: Seq<(String, u64)>) -> Seq<Session>
    decreases entries.len(),
{
    if entries.len() == 0 {
        Seq::empty()
    } else {
        let prev = sessions_in(entries.drop_last());
        let e = entries.last();
        match session_start(e.0@) {
            Some(t) => prev.push(Session { file: e.0, started_unix: t, bytes: e.1 }),
            None => prev,
        }
    }
}

/// Newest first.
pub open spec fn newest_first(s: Seq<Session>) -> bool {
    forall|i: int, j: int|
        0 <= i < j < s.len() ==> (#[trigger] s[i]).started_unix >= (#[trigger] s[j]).started_unix
}

/// Recorded sessions among the files of the sessions folder (name and size
/// of each), newest first.
pub fn list(entries: Vec<(String, u64)>) -> (r: Vec<Session>)
    ensures
        newest_first(r@),
        r@.to_multiset() == sessions_in(entries@).to_multiset(),
{
    let mut out: Vec<Session> = Vec::new();
    let mut i: usize = 0;
    broadcast use vstd::seq_lib::group_to_multiset_ensures;

    while i < entries.len()
        invariant
            i <= entries@.len(),
            newest_first(out@),
            out@.to_multiset() == sessions_in(entries@.take(i as int)).to_multiset(),
        decreases entries@.len() - i,
    {
        assert(entries@.take(i + 1).drop_last() =~= entries@.take(i as int));
        assert(entries@.take(i + 1).last() == entries@[i as int]);
        let (name, bytes) = (&entries[i].0, entries[i].1);
        match session_start_of(name.as_str()) {
            Some(t) => {
                let s = Session { file: name.clone(), started_unix: t, bytes };
                assert(s == (Session { file: entries@[i as int].0, started_unix: t, bytes }));
                let ghost prev = sessions_in(entries@.take(i as int));
                assert(sessions_in(entries@.take(i + 1)) == prev.push(s));
                proof {
                    prev.to_multiset_ensures();
                }
                insert_newest_first(&mut out, s);
            },
            None => {},
        }
        i = i + 1;
    }
    assert(entries@.take(entries@.len() as int) =~= entries@);
    out
}

fn insert_newest_first(out: &mut Vec<Session>, s: Session)
    requires
        newest_first(old(out)@),
    ensures
        newest_first(final(out)@),
        final(out)@.to_multiset() == old(out)@.to_multiset().insert(s),
{
    broadcast use vstd::seq_lib::group_to_multiset_ensures;

    let mut k: usize = 0;
    while k < out.len() && out[k].started_unix >= s.started_unix
        invariant
            k <= out@.len(),
            forall|j: int| 0 <= j < k ==> (#[trigger] out@[j]).started_unix >= s.started_unix,
        decreases out@.len() - k,
    {
        k = k + 1;
    }
    let ghost before = out@;
    out.insert(k, s);
    proof {
        lemma_insert_keeps_order(before, s, k as int);
        lemma_insert_multiset(before, s, k as int);
    }
}

proof fn lemma_insert_keeps_order(before: Seq<Session>, s: Session, k: int)
    requires
        0 <= k <= before.len(),
        newest_first(before),
        forall|j: int| 0 <= j < k ==> (#[trigger] before[j]).started_unix >= s.started_unix,
        k < before.len() ==> before[k].started_unix < s.started_unix,
    ensures
        newest_first(before.insert(k, s)),
{
    let after = before.insert(k, s);
    assert forall|i: int, j: int| 0 <= i < j < after.len() implies (
    #[trigger] after[i]).started_unix >= (#[trigger] after[j]).started_unix by {
        if j < k {
            assert(after[i] == before[i] && after[j] == before[j]);
        } else if j == k {
            assert(after[i] == before[i]);
        } else if i < k {
            assert(after[i] == before[i] && after[j] == before[j - 1]);
            assert(before[i].started_unix >= before[j - 1].started_unix);
        } else if i == k {
            assert(after[j] == before[j - 1]);
            assert(before[k].started_unix >= before[j - 1].started_unix);
        } else {
            assert(after[i] == before[i - 1] && after[j] == before[j - 1]);
        }
    }
}

proof fn lemma_insert_multiset(before: Seq<Session>, s: Session, k: int)
    requires
        0 <= k <= before.len(),
    ensures
        before.insert(k, s).to_multiset() =~= before.to_multiset().insert(s),
{
    broadcast use vstd::seq_lib::group_to_multiset_ensures;

    let after = before.insert(k, s);
    assert(after.remove(k) =~= before);
    assert(after[k] == s);
    assert(after.contains(s));
}

/// The share path takes a file name from the UI and joins it to the
/// sessions folder, so it accepts only a bare file name: non-empty and its
/// own last component (no separator, not `.` or `..`).
pub open spec fn is_bare_name(file: Seq<char>) -> bool {
    file.len() > 0 && file_name(file) == Some(file)
}

/// Refuse a share request for anything but a bare file name, before the
/// keychain or the network is touched.
pub fn check_share_name(file: &str) -> (r: Result<(), Error>)
    ensures
        is_bare_name(file@) ==> r is Ok,
        !is_bare_name(file@) ==> (r matches Err(Error::Api(m)) && m@ == debug_text(file@)
            + " is not a session file name"@),
{
    let v = to_chars(file);
    let ok = v.len() > 0 && match crate::pathstr::file_name_chars(&v) {
        Some(n) => crate::text::chars_eq(&n, &v),
        None => false,
    };
    if ok {
        Ok(())
    } else {
        let mut m = debug_quoted(file);
        m.append(" is not a session file name");
        Err(Error::Api(m))
    }
}

/// The refusal for a session with no frames in it.
pub fn empty_session_error(file: &str) -> (r: Error)
    ensures
        r matches Error::Api(m) && m@ == file@ + " has no frames in it — nothing to share"@,
{
    let mut m = String::from_str(file);
    m.append(" has no frames in it — nothing to share");
    Error::Api(m)
}

/// The gzip stream that `flate2`'s `GzEncoder` writes for `data` at the
/// default compression level, under its default header (no file name,
/// modification time 0).
pub uninterp spec fn gzip_of(data: Seq<u8>) -> Seq<u8>;

/// `flate2::write::GzEncoder` over a `Vec` at `Compression::default()`:
/// write all of `data`, then `finish`. The stream depends on the bytes
/// alone, as the default header holds neither a name nor a time. Writing
/// into a `Vec` never fails, and the deflate backend reports an error only
/// on a misuse that compressing never makes, so the result is always `Ok`;
/// the error arms only convert the `io::Error` the signatures carry.
#[verifier::external_body]
fn gzip_encode(data: &[u8]) -> (r: Result<Vec<u8>, String>)
    ensures
        r is Ok,
        r matches Ok(z) ==> z@ == gzip_of(data@),
{
    let mut encoder = flate2::write::GzEncoder::new(Vec::new(), flate2::Compression::default());
    match std::io::Write::write_all(&mut encoder, data) {
        Ok(()) => {},
        Err(e) => return Err(e.to_string()),
    }
    match encoder.finish() {
        Ok(z) => Ok(z),
        Err(e) => Err(e.to_string()),
    }
}

/// Gzip a session's bytes for upload, in memory (JSON lines of mostly
/// numbers shrink about tenfold).
pub fn gzip(data: &[u8]) -> (r: Vec<u8>)
    ensures
        r@ == gzip_of(data@),
{
    match gzip_encode(data) {
        Ok(z) => z,
        Err(_) => Vec::new(),
    }
}

/// What a recorded session's frames say of it, as far as whole numbers and
/// names go: how many frames were read, the first and last frame times,
/// and the first non-empty car and track names.
#[derive(Debug, Clone)]
pub struct Tally {
    pub frames: u64,
    /// Milliseconds into the session of the first frame, once one is read.
    pub first_t_ms: Option<u64>,
    /// Milliseconds into the session of the latest frame.
    pub last_t_ms: u64,
    pub car: String,
    pub track: String,
}

/// The first non-empty name: the one already kept, else the one seen now.
pub open spec fn first_named(kept: Seq<char>, seen: Seq<char>) -> Seq<char> {
    if kept.len() == 0 {
        seen
    } else {
        kept
    }
}

impl Tally {
    /// Nothing read yet.
    pub fn new() -> (r: Tally)
        ensures
            r.frames == 0,
            r.first_t_ms is None,
            r.last_t_ms == 0,
            r.car@.len() == 0,
            r.track@.len() == 0,
    {
        Tally { frames: 0, first_t_ms: None, last_t_ms: 0, car: String::new(), track: String::new() }
    }

    /// Count one more frame, taken `t_ms` into the session and carrying
    /// `car` and `track` (empty while the game is still in its menus).
    pub fn add_frame(&mut self, t_ms: u64, car: &str, track: &str)
        requires
            old(self).frames < u64::MAX,
        ensures
            final(self).frames == old(self).frames + 1,
            final(self).first_t_ms == match old(self).first_t_ms {
                Some(t) => Some(t),
                None => Some(t_ms),
            },
            final(self).last_t_ms == t_ms,
            final(self).car@ == first_named(old(self).car@, car@),
            final(self).track@ == first_named(old(self).track@, track@),
    {
        self.frames = self.frames + 1;
        if self.first_t_ms.is_none() {
            self.first_t_ms = Some(t_ms);
        }
        self.last_t_ms = t_ms;
        if self.car.unicode_len() == 0 {
            self.car = String::from_str(car);
        }
        if self.track.unicode_len() == 0 {
            self.track = String::from_str(track);
        }
    }

    /// Milliseconds from the first frame to the last, zero when the clock
    /// went backwards.
    pub fn duration_ms(&self) -> (r: u64)
        ensures
            r == match self.first_t_ms {
                Some(f) => if self.last_t_ms >= f {
                    (self.last_t_ms - f) as u64
                } else {
                    0
                },
                None => self.last_t_ms,
            },
    {
        let first: u64 = match self.first_t_ms {
            Some(f) => f,
            None => 0,
        };
        if self.last_t_ms >= first {
            self.last_t_ms - first
        } else {
            0
        }
    }
}

} // verus!
