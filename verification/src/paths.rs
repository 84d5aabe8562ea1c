//! Sim setup directories, and where one setup file goes beneath them.
//!
//! The layout of each sim lives in [`crate::sim::Sim`]; this module turns it
//! into override-aware directories and a safe per-setup target folder. What
//! exists on disk, where the home folder is and which Steam libraries there
//! are is looked up by the application and handed in as values.
use vstd::prelude::*;

use crate::download::{
    law_sanitized_name_cannot_escape, no_dot_pair, no_separator, sanitize_filename, sanitized,
};
use crate::error::Error;
use crate::pathstr::join;
use crate::sim::{spec_layout, spec_setups_root, Folder, Sim};
use crate::text::{pieces, split_pieces, starts_with, string_of, to_chars, trim, trim_chars};

verus! {

/// Le Mans Ultimate's folder name inside a Steam library's `steamapps/common`.
pub const LMU_FOLDER: &'static str = "Le Mans Ultimate";

/// Le Mans Ultimate's Steam app id — the `compatdata` directory its Proton
/// prefix lives under.
pub const LMU_APP_ID: &'static str = "1636160";

/// The view of an optional string.
pub open spec fn opt_view(s: Option<&str>) -> Option<Seq<char>> {
    match s {
        Some(t) => Some(t@),
        None => None,
    }
}

/// A server-supplied folder name as a single safe component, or `None` when
/// nothing usable remains.
pub open spec fn safe_name(name: Seq<char>) -> Option<Seq<char>> {
    let s = sanitized(name);
    if s.len() > 0 {
        Some(s)
    } else {
        None
    }
}

/// Reduce a server-supplied folder name to a single safe path component.
pub fn safe_component(name: &str) -> (r: Option<String>)
    ensures
        match safe_name(name@) {
            Some(s) => r matches Some(v) && v@ == s,
            None => r is None,
        },
{
    let safe = sanitize_filename(name);
    if safe.unicode_len() > 0 {
        Some(safe)
    } else {
        None
    }
}

/// `dir` extended by each of the sim's folder levels, in order, that has a
/// usable value: `car` for a car level, `track` for a track level.
pub open spec fn target_under(
    dir: Seq<char>,
    levels: Seq<Folder>,
    car: Seq<char>,
    track: Option<Seq<char>>,
) -> Seq<char>
    decreases levels.len(),
{
    if levels.len() == 0 {
        dir
    } else {
        let value = match levels[0] {
            Folder::Car => Some(car),
            Folder::Track => track,
        };
        let next = match value {
            Some(v) => match safe_name(v) {
                Some(c) => join(dir, c),
                None => dir,
            },
            None => dir,
        };
        target_under(next, levels.drop_first(), car, track)
    }
}

/// The folder a setup for `sim` is written into beneath `setups_dir`.
pub open spec fn target_dir(
    setups_dir: Seq<char>,
    sim: Sim,
    car: Seq<char>,
    track: Option<Seq<char>>,
) -> Seq<char> {
    target_under(setups_dir, spec_layout(sim), car, track)
}

/// The folder a single setup is written into, beneath `setups_dir`,
/// following the sim's layout: `<car>` for iRacing, `<car>/<track>` for ACC,
/// `<track>` for LMU. Levels the sim doesn't use are ignored, and `car` and
/// `track` are each reduced to one safe component; an empty one is skipped.
pub fn setup_target_dir(setups_dir: &str, sim: Sim, car: &str, track: Option<&str>) -> (r: String)
    ensures
        r@ == target_dir(setups_dir@, sim, car@, opt_view(track)),
{
    let ghost tr: Option<Seq<char>> = opt_view(track);
    let levels = sim.layout();
    let mut dir = String::from_str(setups_dir);
    let mut i: usize = 0;
    assert(levels@.skip(0) =~= levels@);
    while i < levels.len()
        invariant
            levels@ == spec_layout(sim),
            tr == opt_view(track),
            i <= levels@.len(),
            target_under(dir@, levels@.skip(i as int), car@, tr) == target_dir(
                setups_dir@,
                sim,
                car@,
                tr,
            ),
        decreases levels@.len() - i,
    {
        let ghost lv = levels@.skip(i as int);
        let ghost old_dir = dir@;
        assert(lv.drop_first() =~= levels@.skip(i + 1));
        assert(lv[0] == levels@[i as int]);
        let value: Option<&str> = match levels[i] {
            Folder::Car => Some(car),
            Folder::Track => track,
        };
        assert(opt_view(value) == (match lv[0] {
            Folder::Car => Some(car@),
            Folder::Track => tr,
        }));
        if let Some(v) = value {
            if let Some(component) = safe_component(v) {
                dir = crate::pathstr::join_str(dir.as_str(), component.as_str());
            }
        }
        assert(target_under(old_dir, lv, car@, tr) == target_under(
            dir@,
            levels@.skip(i + 1),
            car@,
            tr,
        ));
        i = i + 1;
    }
    dir
}

/// `dir` with each of `comps` appended in turn.
pub open spec fn join_all(dir: Seq<char>, comps: Seq<Seq<char>>) -> Seq<char>
    decreases comps.len(),
{
    if comps.len() == 0 {
        dir
    } else {
        join_all(join(dir, comps[0]), comps.drop_first())
    }
}

/// One non-empty path component with no separator and no `..` in it.
pub open spec fn is_safe_component(c: Seq<char>) -> bool {
    c.len() > 0 && no_separator(c) && no_dot_pair(c)
}

proof fn lemma_target_under_is_safe_join(
    dir: Seq<char>,
    levels: Seq<Folder>,
    car: Seq<char>,
    track: Option<Seq<char>>,
)
    ensures
        exists|comps: Seq<Seq<char>>|
            comps.len() <= levels.len() && (forall|i: int|
                0 <= i < comps.len() ==> is_safe_component(#[trigger] comps[i])) && target_under(
                dir,
                levels,
                car,
                track,
            ) == join_all(dir, comps),
    decreases levels.len(),
{
    if levels.len() == 0 {
        let comps = Seq::<Seq<char>>::empty();
        assert(target_under(dir, levels, car, track) == join_all(dir, comps));
    } else {
        let value = match levels[0] {
            Folder::Car => Some(car),
            Folder::Track => track,
        };
        let next = match value {
            Some(v) => match safe_name(v) {
                Some(c) => join(dir, c),
                None => dir,
            },
            None => dir,
        };
        lemma_target_under_is_safe_join(next, levels.drop_first(), car, track);
        let rest = choose|comps: Seq<Seq<char>>|
            comps.len() <= levels.drop_first().len() && (forall|i: int|
                0 <= i < comps.len() ==> is_safe_component(#[trigger] comps[i])) && target_under(
                next,
                levels.drop_first(),
                car,
                track,
            ) == join_all(next, comps);
        match value {
            Some(v) => match safe_name(v) {
                Some(c) => {
                    law_sanitized_name_cannot_escape(v);
                    let comps = seq![c] + rest;
                    assert(comps.drop_first() =~= rest);
                    assert(forall|i: int|
                        0 <= i < comps.len() ==> is_safe_component(#[trigger] comps[i])) by {
                        assert forall|i: int| 0 <= i < comps.len() implies is_safe_component(
                            #[trigger] comps[i],
                        ) by {
                            if i > 0 {
                                assert(comps[i] == rest[i - 1]);
                            }
                        }
                    }
                    assert(target_under(dir, levels, car, track) == join_all(dir, comps));
                },
                None => {},
            },
            None => {},
        }
    }
}

/// Whatever car and track the server names, the target folder is the setups
/// directory with at most one safe component per layout level appended: it
/// can never climb out of the setups directory.
pub proof fn law_target_dir_stays_inside(
    setups_dir: Seq<char>,
    sim: Sim,
    car: Seq<char>,
    track: Option<Seq<char>>,
)
    ensures
        exists|comps: Seq<Seq<char>>|
            comps.len() <= spec_layout(sim).len() && (forall|i: int|
                0 <= i < comps.len() ==> is_safe_component(#[trigger] comps[i])) && target_dir(
                setups_dir,
                sim,
                car,
                track,
            ) == join_all(setups_dir, comps),
{
    lemma_target_under_is_safe_join(setups_dir, spec_layout(sim), car, track);
}

/// Levels a sim does not use are ignored: an LMU setup's car never becomes
/// a folder, and neither does an iRacing setup's track.
pub proof fn law_unused_levels_are_ignored(
    setups_dir: Seq<char>,
    car: Seq<char>,
    other_car: Seq<char>,
    track: Option<Seq<char>>,
    other_track: Option<Seq<char>>,
)
    ensures
        target_dir(setups_dir, Sim::Lmu, car, track) == target_dir(
            setups_dir,
            Sim::Lmu,
            other_car,
            track,
        ),
        target_dir(setups_dir, Sim::IRacing, car, track) == target_dir(
            setups_dir,
            Sim::IRacing,
            car,
            other_track,
        ),
{
    let lmu = spec_layout(Sim::Lmu);
    let ir = spec_layout(Sim::IRacing);
    let none = Seq::<Folder>::empty();
    assert(lmu.drop_first() =~= none);
    assert(ir.drop_first() =~= none);
    assert(lmu[0] == Folder::Track);
    assert(ir[0] == Folder::Car);
    let by_track = match track {
        Some(v) => match safe_name(v) {
            Some(c) => join(setups_dir, c),
            None => setups_dir,
        },
        None => setups_dir,
    };
    assert(target_under(setups_dir, lmu, car, track) == target_under(by_track, none, car, track));
    assert(target_under(setups_dir, lmu, other_car, track) == target_under(
        by_track,
        none,
        other_car,
        track,
    ));
    assert(target_under(by_track, none, car, track) == by_track);
    assert(target_under(by_track, none, other_car, track) == by_track);
    let by_car = match safe_name(car) {
        Some(c) => join(setups_dir, c),
        None => setups_dir,
    };
    assert(target_under(setups_dir, ir, car, track) == target_under(by_car, none, car, track));
    assert(target_under(setups_dir, ir, car, other_track) == target_under(
        by_car,
        none,
        car,
        other_track,
    ));
    assert(target_under(by_car, none, car, track) == by_car);
    assert(target_under(by_car, none, car, other_track) == by_car);
}

/// A sim's setups folder as the UI lists it. Never an error: a folder that
/// can't be located or doesn't exist is `found == false`.
#[derive(Debug, Clone)]
pub struct SimFolderStatus {
    pub sim: Sim,
    /// The directory that would be used: the override if one is set, else
    /// the detected default; `None` when detection came up empty.
    pub dir: Option<String>,
    /// Whether `dir` exists on disk.
    pub found: bool,
    /// Whether `dir` came from a Settings override rather than detection.
    pub overridden: bool,
}

/// The status of `sim`'s folder: `detected` is the default location, if
/// one could be determined, and `exists` whether the chosen directory is
/// present on disk.
pub fn sim_folder_status(
    sim: Sim,
    override_dir: Option<String>,
    detected: Option<String>,
    exists: bool,
) -> (r: SimFolderStatus)
    ensures
        r.sim == sim,
        r.overridden == override_dir is Some,
        r.dir == (match override_dir {
            Some(d) => Some(d),
            None => detected,
        }),
        r.found == (r.dir is Some && exists),
{
    let overridden = override_dir.is_some();
    let dir = match override_dir {
        Some(d) => Some(d),
        None => detected,
    };
    let found = dir.is_some() && exists;
    SimFolderStatus { sim, dir, found, overridden }
}

/// The message for an LMU install that no Steam library holds.
pub open spec fn no_lmu_install_message() -> Seq<char> {
    "no Le Mans Ultimate install in any of your Steam libraries"@
}

/// `r` is the default location of `sim`'s setups folder: under `documents`
/// for most sims, under the game install for LMU; or the error for the base
/// that is unknown.
pub open spec fn is_default_dir(
    r: Result<String, Error>,
    sim: Sim,
    documents: Option<Seq<char>>,
    lmu_install: Option<Seq<char>>,
) -> bool {
    match sim {
        Sim::Lmu => match lmu_install {
            Some(base) => r matches Ok(d) && d@ == spec_setups_root(sim, base),
            None => r matches Err(Error::SetupsDirNotFound(m)) && m@ == no_lmu_install_message(),
        },
        _ => match documents {
            Some(base) => r matches Ok(d) && d@ == spec_setups_root(sim, base),
            None => r matches Err(Error::NotImplemented(what)) && what@
                == "paths::documents_dir (unsupported platform)"@,
        },
    }
}

/// Best-effort default location of `sim`'s setups directory, from the
/// user's Documents folder and the located LMU install (path only).
pub fn default_setups_dir(sim: Sim, documents: Option<&str>, lmu_install: Option<&str>) -> (r:
    Result<String, Error>)
    ensures
        is_default_dir(r, sim, opt_view(documents), opt_view(lmu_install)),
{
    match sim {
        Sim::Lmu => match lmu_install {
            Some(base) => Ok(sim.setups_root(base)),
            None => Err(
                Error::SetupsDirNotFound(
                    String::from_str("no Le Mans Ultimate install in any of your Steam libraries"),
                ),
            ),
        },
        _ => match documents {
            Some(base) => Ok(sim.setups_root(base)),
            None => Err(Error::NotImplemented("paths::documents_dir (unsupported platform)")),
        },
    }
}

/// The directory to use for `sim`: the Settings override when there is
/// one, otherwise the default location.
pub fn setups_dir_candidate(
    sim: Sim,
    override_dir: Option<String>,
    documents: Option<&str>,
    lmu_install: Option<&str>,
) -> (r: Result<String, Error>)
    ensures
        match override_dir {
            Some(d) => r matches Ok(s) && s@ == d@,
            None => is_default_dir(r, sim, opt_view(documents), opt_view(lmu_install)),
        },
{
    match override_dir {
        Some(d) => Ok(d),
        None => default_setups_dir(sim, documents, lmu_install),
    }
}

/// Accept the setups directory `dir` only if it exists: a setups folder is
/// created by the sim, so its absence almost always means a wrong path.
pub fn resolve_setups_dir(dir: String, exists: bool) -> (r: Result<String, Error>)
    ensures
        exists ==> (r matches Ok(d) && d@ == dir@),
        !exists ==> (r matches Err(Error::SetupsDirNotFound(p)) && p@ == dir@),
{
    if exists {
        Ok(dir)
    } else {
        Err(Error::SetupsDirNotFound(dir))
    }
}

// ------------------------------------------------------------ Steam libraries

pub open spec fn path_key() -> Seq<char> {
    seq!['"', 'p', 'a', 't', 'h', '"']
}

/// VDF's escaped backslashes collapsed: every `\\` pair becomes one `\`,
/// scanning left to right.
pub open spec fn unescape_backslashes(s: Seq<char>) -> Seq<char>
    decreases s.len(),
{
    if s.len() == 0 {
        Seq::empty()
    } else if s.len() >= 2 && s[0] == '\\' && s[1] == '\\' {
        seq!['\\'] + unescape_backslashes(s.skip(2))
    } else {
        seq![s[0]] + unescape_backslashes(s.skip(1))
    }
}

/// The library path a `libraryfolders.vdf` line holds, if it is a
/// `"path"  "<value>"` line.
pub open spec fn library_path_of(line: Seq<char>) -> Option<Seq<char>> {
    let t = trim(line);
    if starts_with(t, path_key()) {
        let rest = trim(t.skip(6));
        if rest.len() >= 2 && rest[0] == '"' && rest.last() == '"' {
            Some(unescape_backslashes(rest.subrange(1, rest.len() - 1)))
        } else {
            None
        }
    } else {
        None
    }
}

/// The library paths held by `lines`, in order.
pub open spec fn library_paths(lines: Seq<Seq<char>>) -> Seq<Seq<char>>
    decreases lines.len(),
{
    if lines.len() == 0 {
        Seq::empty()
    } else {
        let prev = library_paths(lines.drop_last());
        match library_path_of(lines.last()) {
            Some(p) => prev.push(p),
            None => prev,
        }
    }
}

fn unescape_chars(v: &Vec<char>) -> (r: Vec<char>)
    ensures
        r@ == unescape_backslashes(v@),
{
    let mut out: Vec<char> = Vec::new();
    let mut i: usize = 0;
    assert(v@.skip(0) =~= v@);
    while i < v.len()
        invariant
            i <= v@.len(),
            out@ + unescape_backslashes(v@.skip(i as int)) == unescape_backslashes(v@),
        decreases v@.len() - i,
    {
        let ghost t = v@.skip(i as int);
        let ghost before = out@;
        if i + 1 < v.len() && v[i] == '\\' && v[i + 1] == '\\' {
            assert(t.skip(2) =~= v@.skip(i + 2));
            out.push('\\');
            assert(out@ + unescape_backslashes(v@.skip(i + 2)) =~= before
                + unescape_backslashes(t));
            i = i + 2;
        } else {
            assert(t.skip(1) =~= v@.skip(i + 1));
            out.push(v[i]);
            assert(out@ + unescape_backslashes(v@.skip(i + 1)) =~= before
                + unescape_backslashes(t));
            i = i + 1;
        }
    }
    assert(unescape_backslashes(v@.skip(i as int)) =~= Seq::<char>::empty());
    assert(out@ =~= unescape_backslashes(v@));
    out
}

fn library_path_chars(line: &Vec<char>) -> (r: Option<Vec<char>>)
    ensures
        match library_path_of(line@) {
            Some(p) => r matches Some(v) && v@ == p,
            None => r is None,
        },
{
    let t = trim_chars(line);
    let key = vec!['"', 'p', 'a', 't', 'h', '"'];
    assert(key@ =~= path_key());
    if !crate::text::starts_with_chars(&t, &key) {
        return None;
    }
    let after = crate::text::slice_chars(&t, 6, t.len());
    assert(after@ =~= t@.skip(6));
    let rest = trim_chars(&after);
    if rest.len() >= 2 && rest[0] == '"' && rest[rest.len() - 1] == '"' {
        let inner = crate::text::slice_chars(&rest, 1, rest.len() - 1);
        Some(unescape_chars(&inner))
    } else {
        None
    }
}

/// Scrape the quoted `"path"` values out of `libraryfolders.vdf`, with
/// VDF's escaped backslashes collapsed.
pub fn parse_library_paths(vdf: &str) -> (r: Vec<String>)
    ensures
        r@.len() == library_paths(pieces(vdf@, '\n')).len(),
        forall|k: int|
            0 <= k < r@.len() ==> (#[trigger] r@[k])@ == library_paths(pieces(vdf@, '\n'))[k],
{
    let lines = split_pieces(&to_chars(vdf), '\n');
    let ghost ls = pieces(vdf@, '\n');
    let mut out: Vec<String> = Vec::new();
    let mut i: usize = 0;
    while i < lines.len()
        invariant
            ls == pieces(vdf@, '\n'),
            lines@.len() == ls.len(),
            forall|k: int| 0 <= k < lines@.len() ==> (#[trigger] lines@[k])@ == ls[k],
            i <= lines@.len(),
            out@.len() == library_paths(ls.take(i as int)).len(),
            forall|k: int|
                0 <= k < out@.len() ==> (#[trigger] out@[k])@ == library_paths(ls.take(i as int))[k],
        decreases lines@.len() - i,
    {
        assert(ls.take(i + 1).drop_last() =~= ls.take(i as int));
        if let Some(p) = library_path_chars(&lines[i]) {
            out.push(string_of(&p));
        }
        i = i + 1;
    }
    assert(ls.take(ls.len() as int) =~= ls);
    out
}

/// Where the Steam client may be installed under `home`, in order of
/// authority: the client's own `~/.steam/steam` link, the default
/// `~/.local/share/Steam`, then the older `~/.steam/root` alias.
pub fn steam_root_candidates(home: &str) -> (r: Vec<String>)
    ensures
        r@.len() == 3,
        r@[0]@ == join(home@, ".steam/steam"@),
        r@[1]@ == join(home@, ".local/share/Steam"@),
        r@[2]@ == join(home@, ".steam/root"@),
{
    let mut v: Vec<String> = Vec::new();
    v.push(crate::pathstr::join_str(home, ".steam/steam"));
    v.push(crate::pathstr::join_str(home, ".local/share/Steam"));
    v.push(crate::pathstr::join_str(home, ".steam/root"));
    v
}

} // verus!
