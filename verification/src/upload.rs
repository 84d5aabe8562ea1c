//! Identify a local setup file before pushing it to parcferme.cc.
//!
//! The mirror image of [`crate::download`]: the extension names the sim, and
//! if the file sits under that sim's setups root the `<car>[/<track>]`
//! components name the car and track. Everything inferred is a suggestion
//! the user can correct before uploading.
//!
//! Paths are compared component by component, ignoring ASCII case and
//! treating `/` and `\` alike (a component is a name between separators; a
//! root marker is not one).
use vstd::prelude::*;

use crate::car_aliases::{alias_for, resolve};
use crate::car_match::{
    best_match, best_match_index, exact_index, exact_match, lengths_fit, views,
};
use crate::error::Error;
use crate::pathstr::{
    components, extension_chars, extension_of, file_name, file_name_chars, last_index_of,
    split_components,
};
use crate::sim::{spec_display_name, spec_from_filename, spec_layout, Folder, Sim};
use crate::text::{
    chars_eq, decimal, lower_chars, lower_seq, push_decimal, string_of, to_chars, trim,
    trim_chars,
};

verus! {

/// Largest file the client will push. Real setup files are a few KB; this
/// only guards against picking the wrong file entirely.
pub const MAX_UPLOAD_BYTES: u64 = 2 * 1024 * 1024;

/// Where a pre-filled car name came from. Only [`CarSource::Matched`] is a
/// guess.
#[derive(Debug, Clone, Copy, PartialEq, Eq, Structural)]
pub enum CarSource {
    /// Straight off disk: the folder id verbatim, or no car at all.
    Folder,
    /// A curated alias row.
    Alias,
    /// The site's list holds this exact car under normalized equality.
    Exact,
    /// The closest name on the site's list — a guess.
    Matched,
}

/// What could be inferred about a picked setup file before uploading.
#[derive(Debug, Clone, PartialEq, Eq)]
pub struct SetupIdentity {
    /// The file's own name.
    pub filename: String,
    /// Sim inferred from the extension; `None` for an unrecognized format.
    pub sim: Option<Sim>,
    /// The car for the form: a folder id, or the site's own name for it.
    pub car: Option<String>,
    /// Track folder id, for sims whose layout has a track level.
    pub track: Option<String>,
    /// How `car` was arrived at.
    pub car_source: CarSource,
    /// An iRacing garage export found beside the picked file, if any.
    pub garage_export: Option<String>,
}

/// What became of the garage export that rode along with an upload.
#[derive(Debug, Clone, PartialEq, Eq)]
pub enum ExportStatus {
    /// No export was sent.
    NotSent,
    /// The site accepted the export.
    Attached,
    /// The upload succeeded and the export did not; the text says why.
    Failed(String),
}

// ------------------------------------------------------------ path positions

/// The components of `path` below `root`, compared ignoring ASCII case, or
/// `None` when `path` is not strictly under `root`.
pub open spec fn relative(path: Seq<char>, root: Seq<char>) -> Option<Seq<Seq<char>>> {
    let ps = components(path);
    let rs = components(root);
    if ps.len() > rs.len() && forall|i: int|
        0 <= i < rs.len() ==> lower_seq(#[trigger] rs[i]) == lower_seq(ps[i]) {
        Some(ps.skip(rs.len() as int))
    } else {
        None
    }
}

fn same_ignoring_case(a: &Vec<char>, b: &Vec<char>) -> (r: bool)
    ensures
        r == (lower_seq(a@) == lower_seq(b@)),
{
    let r = chars_eq(&lower_chars(a), &lower_chars(b));
    r
}

/// The path components of `path` below `root`, or `None` if it isn't
/// strictly under it.
pub fn relative_components(path: &str, root: &str) -> (r: Option<Vec<String>>)
    ensures
        match relative(path@, root@) {
            Some(parts) => r matches Some(v) && v@.len() == parts.len() && forall|k: int|
                0 <= k < parts.len() ==> (#[trigger] v@[k])@ == parts[k],
            None => r is None,
        },
{
    let parts = split_components(&to_chars(path));
    let root_parts = split_components(&to_chars(root));
    let ghost ps = components(path@);
    let ghost rs = components(root@);
    if parts.len() <= root_parts.len() {
        return None;
    }
    let mut i: usize = 0;
    while i < root_parts.len()
        invariant
            ps == components(path@),
            rs == components(root@),
            parts@.len() == ps.len(),
            root_parts@.len() == rs.len(),
            ps.len() > rs.len(),
            forall|k: int| 0 <= k < parts@.len() ==> (#[trigger] parts@[k])@ == ps[k],
            forall|k: int| 0 <= k < root_parts@.len() ==> (#[trigger] root_parts@[k])@ == rs[k],
            i <= rs.len(),
            forall|k: int| 0 <= k < i ==> lower_seq(#[trigger] rs[k]) == lower_seq(ps[k]),
        decreases rs.len() - i,
    {
        if !same_ignoring_case(&root_parts[i], &parts[i]) {
            assert(lower_seq(rs[i as int]) != lower_seq(ps[i as int]));
            assert(!(forall|k: int|
                0 <= k < rs.len() ==> lower_seq(#[trigger] rs[k]) == lower_seq(ps[k])));
            assert(relative(path@, root@) is None);
            return None;
        }
        i = i + 1;
    }
    let mut out: Vec<String> = Vec::new();
    let mut j: usize = root_parts.len();
    while j < parts.len()
        invariant
            ps == components(path@),
            rs == components(root@),
            forall|k: int| 0 <= k < rs.len() ==> lower_seq(#[trigger] rs[k]) == lower_seq(ps[k]),
            parts@.len() == ps.len(),
            root_parts@.len() == rs.len(),
            forall|k: int| 0 <= k < parts@.len() ==> (#[trigger] parts@[k])@ == ps[k],
            rs.len() <= j <= ps.len(),
            out@.len() == j - rs.len(),
            forall|k: int| 0 <= k < out@.len() ==> (#[trigger] out@[k])@ == ps[k + rs.len()],
        decreases ps.len() - j,
    {
        out.push(string_of(&parts[j]));
        j = j + 1;
    }
    Some(out)
}

/// The car and track values the folders `folders` give for the layout
/// `levels`, matched up in order; a later level overrides an earlier one of
/// the same kind, and folders beyond the layout are ignored.
pub open spec fn assign_levels(levels: Seq<Folder>, folders: Seq<Seq<char>>) -> (
    Option<Seq<char>>,
    Option<Seq<char>>,
)
    decreases levels.len(),
{
    if levels.len() == 0 || folders.len() == 0 {
        (None, None)
    } else {
        let rest = assign_levels(levels.drop_first(), folders.drop_first());
        match levels[0] {
            Folder::Car => (
                if rest.0 is Some {
                    rest.0
                } else {
                    Some(folders[0])
                },
                rest.1,
            ),
            Folder::Track => (
                rest.0,
                if rest.1 is Some {
                    rest.1
                } else {
                    Some(folders[0])
                },
            ),
        }
    }
}

/// Car and track read off `path`'s position under `root` (the folder the
/// sim's setups live in), following the sim's layout. The file itself is
/// not a folder; anywhere else is `(None, None)`.
pub open spec fn located(path: Seq<char>, sim: Sim, root: Option<Seq<char>>) -> (
    Option<Seq<char>>,
    Option<Seq<char>>,
) {
    match root {
        None => (None, None),
        Some(r) => match relative(path, r) {
            None => (None, None),
            Some(parts) => assign_levels(spec_layout(sim), parts.take(parts.len() - 1)),
        },
    }
}

proof fn lemma_assign_levels_step(levels: Seq<Folder>, folders: Seq<Seq<char>>, k: int)
    requires
        0 <= k < levels.len(),
        k < folders.len(),
    ensures
        assign_levels(levels.subrange(k, levels.len() as int), folders.subrange(
            k,
            folders.len() as int,
        )) == ({
            let rest = assign_levels(
                levels.subrange(k + 1, levels.len() as int),
                folders.subrange(k + 1, folders.len() as int),
            );
            match levels[k] {
                Folder::Car => (
                    if rest.0 is Some {
                        rest.0
                    } else {
                        Some(folders[k])
                    },
                    rest.1,
                ),
                Folder::Track => (
                    rest.0,
                    if rest.1 is Some {
                        rest.1
                    } else {
                        Some(folders[k])
                    },
                ),
            }
        }),
{
    let l = levels.subrange(k, levels.len() as int);
    let f = folders.subrange(k, folders.len() as int);
    assert(l.drop_first() =~= levels.subrange(k + 1, levels.len() as int));
    assert(f.drop_first() =~= folders.subrange(k + 1, folders.len() as int));
}

fn assign_exec(levels: &Vec<Folder>, folders: &Vec<String>, n: usize) -> (r: (
    Option<String>,
    Option<String>,
))
    requires
        n <= folders@.len(),
    ensures
        ({
            let fs = folders@.take(n as int).map_values(|s: String| s@);
            let a = assign_levels(levels@, fs);
            &&& match a.0 {
                Some(c) => r.0 matches Some(s) && s@ == c,
                None => r.0 is None,
            }
            &&& match a.1 {
                Some(t) => r.1 matches Some(s) && s@ == t,
                None => r.1 is None,
            }
        }),
{
    let ghost fs = folders@.take(n as int).map_values(|s: String| s@);
    let m: usize = if levels.len() < n {
        levels.len()
    } else {
        n
    };
    let mut car: Option<String> = None;
    let mut track: Option<String> = None;
    let mut k: usize = m;
    assert(assign_levels(levels@.subrange(m as int, levels@.len() as int), fs.subrange(
        m as int,
        fs.len() as int,
    )) == (None::<Seq<char>>, None::<Seq<char>>));
    while k > 0
        invariant
            k <= m,
            m <= levels@.len(),
            m <= n,
            n <= folders@.len(),
            fs == folders@.take(n as int).map_values(|s: String| s@),
            m == levels@.len() || m == n,
            ({
                let a = assign_levels(
                    levels@.subrange(k as int, levels@.len() as int),
                    fs.subrange(k as int, fs.len() as int),
                );
                &&& match a.0 {
                    Some(c) => car matches Some(s) && s@ == c,
                    None => car is None,
                }
                &&& match a.1 {
                    Some(t) => track matches Some(s) && s@ == t,
                    None => track is None,
                }
            }),
        decreases k,
    {
        k = k - 1;
        proof {
            lemma_assign_levels_step(levels@, fs, k as int);
        }
        assert(fs[k as int] == folders@[k as int]@);
        match levels[k] {
            Folder::Car => {
                if car.is_none() {
                    car = Some(folders[k].clone());
                }
            },
            Folder::Track => {
                if track.is_none() {
                    track = Some(folders[k].clone());
                }
            },
        }
    }
    assert(levels@.subrange(0, levels@.len() as int) =~= levels@);
    assert(fs.subrange(0, fs.len() as int) =~= fs);
    (car, track)
}


/// `r` holds the text `s` describes (both absent, or both present and equal).
pub open spec fn same_text(r: Option<String>, s: Option<Seq<char>>) -> bool {
    match s {
        Some(t) => r matches Some(v) && v@ == t,
        None => r is None,
    }
}

/// Read the sim's folder levels off `path`'s position under `root`, the
/// folder that sim's setups live in (if known).
pub fn locate_in_sim_tree(path: &str, sim: Sim, root: Option<&str>) -> (r: (
    Option<String>,
    Option<String>,
))
    ensures
        same_text(r.0, located(path@, sim, crate::paths::opt_view(root)).0),
        same_text(r.1, located(path@, sim, crate::paths::opt_view(root)).1),
{
    match root {
        None => (None, None),
        Some(rt) => match relative_components(path, rt) {
            None => (None, None),
            Some(parts) => {
                let ghost spec_parts = relative(path@, rt@)->0;
                assert(parts@.len() == spec_parts.len());
                assert(parts.len() > 0);
                let n = parts.len() - 1;
                let levels = sim.layout();
                let r = assign_exec(&levels, &parts, n);
                assert(parts@.take(n as int).map_values(|s: String| s@) =~= spec_parts.take(
                    spec_parts.len() - 1,
                ));
                r
            },
        },
    }
}

// ------------------------------------------------------------------- cars

/// The site's name for an on-disk car folder id, and how it was found.
///
/// The curated alias wins wherever there is one, unless the site's list
/// proves the site no longer carries that name; then an exact match of the
/// folder id, then the matcher's best guess, then the stale alias, and
/// finally the folder id itself.
pub open spec fn car_resolution(sim: Sim, folder: Seq<char>, known: Seq<Seq<char>>) -> (
    Seq<char>,
    CarSource,
) {
    let alias = alias_for(sim, folder);
    if alias is Some && (known.len() == 0 || exact_index(alias->0, known) is Some) {
        (alias->0, CarSource::Alias)
    } else if exact_index(folder, known) is Some {
        (known[exact_index(folder, known)->0], CarSource::Exact)
    } else if best_match_index(folder, known) is Some {
        (known[best_match_index(folder, known)->0], CarSource::Matched)
    } else if alias is Some {
        (alias->0, CarSource::Alias)
    } else {
        (folder, CarSource::Folder)
    }
}

/// The site's name for an on-disk car folder id, and how confident the
/// resolution is.
pub fn resolve_car(sim: Sim, folder: &str, known: &[String]) -> (r: (String, CarSource))
    requires
        folder@.len() < usize::MAX,
        lengths_fit(known@),
    ensures
        r.0@ == car_resolution(sim, folder@, views(known@)).0,
        r.1 == car_resolution(sim, folder@, views(known@)).1,
{
    proof {
        crate::car_match::law_best_match_names_a_known_car(folder@, views(known@));
        crate::car_match::lemma_first_index(
            views(known@).map_values(|k: Seq<char>| crate::text::normalized(k)),
            crate::text::normalized(folder@),
        );
    }
    let alias = resolve(sim, folder);
    if let Some(name) = alias {
        if known.len() == 0 || exact_match(name, known).is_some() {
            return (String::from_str(name), CarSource::Alias);
        }
    }
    if let Some(name) = exact_match(folder, known) {
        return (String::from_str(name), CarSource::Exact);
    }
    if let Some(name) = best_match(folder, known) {
        return (String::from_str(name), CarSource::Matched);
    }
    match alias {
        Some(name) => (String::from_str(name), CarSource::Alias),
        None => (String::from_str(folder), CarSource::Folder),
    }
}

/// A curated alias is trusted over any guess: with no list to check it
/// against, or a list that still carries the alias's name, the alias is
/// what the form shows.
pub proof fn law_alias_outranks_the_matcher(sim: Sim, folder: Seq<char>, known: Seq<Seq<char>>)
    requires
        alias_for(sim, folder) is Some,
        known.len() == 0 || exact_index(alias_for(sim, folder)->0, known) is Some,
    ensures
        car_resolution(sim, folder, known) == (alias_for(sim, folder)->0, CarSource::Alias),
{
}

/// A car is only ever labelled a guess when it came from the matcher and
/// is one of the names the site gave.
pub proof fn law_only_matched_cars_are_guesses(
    sim: Sim,
    folder: Seq<char>,
    known: Seq<Seq<char>>,
)
    ensures
        car_resolution(sim, folder, known).1 == CarSource::Matched ==> exists|i: int|
            0 <= i < known.len() && car_resolution(sim, folder, known).0 == known[i],
{
    crate::car_match::law_best_match_names_a_known_car(folder, known);
    if car_resolution(sim, folder, known).1 == CarSource::Matched {
        let i = best_match_index(folder, known)->0;
        assert(car_resolution(sim, folder, known).0 == known[i]);
    }
}

// ------------------------------------------------------------ garage export

pub open spec fn htm() -> Seq<char> {
    seq!['h', 't', 'm']
}

pub open spec fn html() -> Seq<char> {
    seq!['h', 't', 'm', 'l']
}

/// A file name without its extension (`Path::file_stem`).
pub open spec fn stem_of(name: Seq<char>) -> Seq<char> {
    match extension_of(name) {
        Some(e) => name.take(name.len() - e.len() - 1),
        None => name,
    }
}

/// The stem of a path's file name.
pub open spec fn path_stem(p: Seq<char>) -> Option<Seq<char>> {
    match file_name(p) {
        Some(n) => Some(stem_of(n)),
        None => None,
    }
}

/// A path's extension, ASCII-lower-cased; empty when it has none.
pub open spec fn lower_ext(p: Seq<char>) -> Seq<char> {
    match file_name(p) {
        Some(n) => match extension_of(n) {
            Some(e) => lower_seq(e),
            None => Seq::empty(),
        },
        None => Seq::empty(),
    }
}

/// `cand` is a garage export for a setup whose stem is `stem`: the same
/// stem ignoring ASCII case, and an `.htm` or `.html` extension in any case.
pub open spec fn is_export_for(stem: Seq<char>, cand: Seq<char>) -> bool {
    &&& path_stem(cand) matches Some(s) && lower_seq(s) == lower_seq(stem)
    &&& (lower_ext(cand) == htm() || lower_ext(cand) == html())
}

/// The export chosen from `cands`, in the order given: the first match,
/// displaced only by a later `.htm` when the one held is not `.htm`.
pub open spec fn export_pick(stem: Seq<char>, cands: Seq<Seq<char>>) -> Option<Seq<char>>
    decreases cands.len(),
{
    if cands.len() == 0 {
        None
    } else {
        let prev = export_pick(stem, cands.drop_last());
        let c = cands.last();
        if is_export_for(stem, c) && (prev is None || (lower_ext(c) == htm() && lower_ext(
            prev->0,
        ) != htm())) {
            Some(c)
        } else {
            prev
        }
    }
}

/// The garage export for the setup at `path` among the files beside it:
/// only iRacing writes one.
pub open spec fn garage_export_for(path: Seq<char>, sim: Sim, siblings: Seq<Seq<char>>) -> Option<
    Seq<char>,
> {
    if sim != Sim::IRacing {
        None
    } else {
        match path_stem(path) {
            Some(st) => export_pick(st, siblings),
            None => None,
        }
    }
}

/// The export chosen is one of the files offered and matches the setup;
/// there is one whenever any file matches; and an `.htm` is chosen whenever
/// one matches, whatever order the files come in.
pub proof fn law_export_pick_prefers_htm(stem: Seq<char>, cands: Seq<Seq<char>>)
    ensures
        (exists|i: int| 0 <= i < cands.len() && is_export_for(stem, #[trigger] cands[i]))
            <==> export_pick(stem, cands) is Some,
        export_pick(stem, cands) matches Some(c) ==> is_export_for(stem, c) && cands.contains(c),
        (exists|i: int|
            0 <= i < cands.len() && is_export_for(stem, #[trigger] cands[i]) && lower_ext(cands[i])
                == htm()) ==> lower_ext(export_pick(stem, cands)->0) == htm(),
    decreases cands.len(),
{
    if cands.len() > 0 {
        let p = cands.drop_last();
        law_export_pick_prefers_htm(stem, p);
        let c = cands.last();
        assert(cands[cands.len() - 1] == c);
        assert forall|i: int| 0 <= i < p.len() implies #[trigger] cands[i] == p[i] by {}
        if exists|i: int| 0 <= i < cands.len() && is_export_for(stem, #[trigger] cands[i]) {
            let i = choose|i: int| 0 <= i < cands.len() && is_export_for(stem, #[trigger] cands[i]);
            if i < cands.len() - 1 {
                assert(is_export_for(stem, p[i]));
            }
        }
        if exists|i: int|
            0 <= i < cands.len() && is_export_for(stem, #[trigger] cands[i]) && lower_ext(cands[i])
                == htm() {
            let i = choose|i: int|
                0 <= i < cands.len() && is_export_for(stem, #[trigger] cands[i]) && lower_ext(
                    cands[i],
                ) == htm();
            if i < cands.len() - 1 {
                assert(is_export_for(stem, p[i]) && lower_ext(p[i]) == htm());
            }
        }
        if export_pick(stem, p) is Some {
            let f = export_pick(stem, p)->0;
            let j = choose|j: int| 0 <= j < p.len() && p[j] == f;
            assert(cands[j] == f);
        }
    }
}

fn stem_chars(name: &Vec<char>) -> (r: Vec<char>)
    ensures
        r@ == stem_of(name@),
{
    match extension_chars(name) {
        Some(e) => {
            proof {
                crate::pathstr::lemma_last_index_of(name@, '.');
            }
            let ghost k = last_index_of(name@, '.')->0;
            assert(e@ == name@.skip(k + 1));
            crate::text::slice_chars(name, 0, name.len() - e.len() - 1)
        },
        None => name.clone(),
    }
}

fn path_stem_chars(p: &Vec<char>) -> (r: Option<Vec<char>>)
    ensures
        match path_stem(p@) {
            Some(s) => r matches Some(v) && v@ == s,
            None => r is None,
        },
{
    match file_name_chars(p) {
        Some(n) => Some(stem_chars(&n)),
        None => None,
    }
}

fn lower_ext_chars(p: &Vec<char>) -> (r: Vec<char>)
    ensures
        r@ == lower_ext(p@),
{
    match file_name_chars(p) {
        Some(n) => match extension_chars(&n) {
            Some(e) => lower_chars(&e),
            None => {
                let v: Vec<char> = Vec::new();
                assert(v@ =~= Seq::<char>::empty());
                v
            },
        },
        None => {
            let v: Vec<char> = Vec::new();
            assert(v@ =~= Seq::<char>::empty());
            v
        },
    }
}

fn is_htm(e: &Vec<char>) -> (r: bool)
    ensures
        r == (e@ == htm()),
{
    let r = e.len() == 3 && e[0] == 'h' && e[1] == 't' && e[2] == 'm';
    if r {
        assert(e@ =~= htm());
    }
    r
}

fn is_html(e: &Vec<char>) -> (r: bool)
    ensures
        r == (e@ == html()),
{
    let r = e.len() == 4 && e[0] == 'h' && e[1] == 't' && e[2] == 'm' && e[3] == 'l';
    if r {
        assert(e@ =~= html());
    }
    r
}

/// The iRacing garage export among `siblings` (the files beside `path`) for
/// the setup at `path`, if there is one.
pub fn pick_garage_export(path: &str, sim: Sim, siblings: &[String]) -> (r: Option<String>)
    ensures
        same_text(r, garage_export_for(path@, sim, siblings@.map_values(|s: String| s@))),
{
    let ghost cands = siblings@.map_values(|s: String| s@);
    if sim != Sim::IRacing {
        return None;
    }
    let stem = match path_stem_chars(&to_chars(path)) {
        Some(s) => s,
        None => {
            return None;
        },
    };
    let lower_stem = lower_chars(&stem);
    let mut found: Option<String> = None;
    let mut found_htm = false;
    let mut i: usize = 0;
    while i < siblings.len()
        invariant
            cands == siblings@.map_values(|s: String| s@),
            lower_stem@ == lower_seq(stem@),
            i <= siblings@.len(),
            same_text(found, export_pick(stem@, cands.take(i as int))),
            found is Some ==> found_htm == (lower_ext(export_pick(stem@, cands.take(i as int))->0)
                == htm()),
        decreases siblings@.len() - i,
    {
        assert(cands.take(i + 1).drop_last() =~= cands.take(i as int));
        assert(cands[i as int] == siblings@[i as int]@);
        let cand = to_chars(siblings[i].as_str());
        let ext = lower_ext_chars(&cand);
        let stem_ok = match path_stem_chars(&cand) {
            Some(s) => chars_eq(&lower_chars(&s), &lower_stem),
            None => false,
        };
        let ext_htm = is_htm(&ext);
        let matches = stem_ok && (ext_htm || is_html(&ext));
        if matches && (found.is_none() || (ext_htm && !found_htm)) {
            found = Some(siblings[i].clone());
            found_htm = ext_htm;
        }
        i = i + 1;
    }
    assert(cands.take(cands.len() as int) =~= cands);
    found
}


// ----------------------------------------------------------------- identify

/// The setups folder `roots` lists for `sim` (the first entry for it).
pub open spec fn root_for(roots: Seq<(Sim, Seq<char>)>, sim: Sim) -> Option<Seq<char>>
    decreases roots.len(),
{
    if roots.len() == 0 {
        None
    } else if roots[0].0 == sim {
        Some(roots[0].1)
    } else {
        root_for(roots.drop_first(), sim)
    }
}

pub open spec fn roots_view(roots: Seq<(Sim, String)>) -> Seq<(Sim, Seq<char>)> {
    roots.map_values(|p: (Sim, String)| (p.0, p.1@))
}

pub open spec fn texts(v: Seq<String>) -> Seq<Seq<char>> {
    v.map_values(|s: String| s@)
}

/// `id` is what can be inferred about the setup file at `path`, given the
/// setups folder of each sim (`roots`), the site's car names and the files
/// beside it.
pub open spec fn identifies(
    id: SetupIdentity,
    path: Seq<char>,
    roots: Seq<(Sim, Seq<char>)>,
    known: Seq<Seq<char>>,
    siblings: Seq<Seq<char>>,
) -> bool {
    let filename = match file_name(path) {
        Some(n) => n,
        None => Seq::empty(),
    };
    let sim = spec_from_filename(filename);
    let loc = match sim {
        Some(s) => located(path, s, root_for(roots, s)),
        None => (None, None),
    };
    &&& id.filename@ == filename
    &&& id.sim == sim
    &&& same_text(id.track, loc.1)
    &&& match (sim, loc.0) {
        (Some(s), Some(c)) => same_text(id.car, Some(car_resolution(s, c, known).0))
            && id.car_source == car_resolution(s, c, known).1,
        _ => same_text(id.car, loc.0) && id.car_source == CarSource::Folder,
    }
    &&& same_text(
        id.garage_export,
        match sim {
            Some(s) => garage_export_for(path, s, siblings),
            None => None,
        },
    )
}

fn root_for_exec(roots: &[(Sim, String)], sim: Sim) -> (r: Option<&str>)
    ensures
        crate::paths::opt_view(r) == root_for(roots_view(roots@), sim),
{
    let ghost rv = roots_view(roots@);
    let mut i: usize = 0;
    assert(rv.skip(0) =~= rv);
    while i < roots.len()
        invariant
            rv == roots_view(roots@),
            i <= roots@.len(),
            root_for(rv.skip(i as int), sim) == root_for(rv, sim),
        decreases roots@.len() - i,
    {
        assert(rv.skip(i as int).drop_first() =~= rv.skip(i + 1));
        assert(rv.skip(i as int)[0] == rv[i as int]);
        if roots[i].0 == sim {
            return Some(roots[i].1.as_str());
        }
        i = i + 1;
    }
    None
}

/// Infer sim, car and track for the setup file at `path`. `roots` holds
/// each sim's setups folder (override-aware), `known_cars` the site's car
/// list (empty when unavailable), and `siblings` the files beside `path`.
pub fn identify_with_cars(
    path: &str,
    roots: &[(Sim, String)],
    known_cars: &[String],
    siblings: &[String],
) -> (r: SetupIdentity)
    requires
        path@.len() < usize::MAX,
        lengths_fit(known_cars@),
    ensures
        identifies(r, path@, roots_view(roots@), views(known_cars@), texts(siblings@)),
{
    let filename = match file_name_chars(&to_chars(path)) {
        Some(n) => string_of(&n),
        None => String::new(),
    };
    let sim = Sim::from_filename(filename.as_str());
    let (car, track) = match sim {
        Some(s) => locate_in_sim_tree(path, s, root_for_exec(roots, s)),
        None => (None, None),
    };
    let (car, car_source) = match (sim, car) {
        (Some(s), Some(c)) => {
            proof {
                crate::pathstr::lemma_components_short(path@);
                let rt = root_for(roots_view(roots@), s)->0;
                let parts = relative(path@, rt)->0;
                let ps = components(path@);
                assert(parts == ps.skip(components(rt).len() as int));
                assert(forall|k: int| 0 <= k < parts.len() ==> parts[k] == ps[k + components(rt).len()]);
                let folders = parts.take(parts.len() - 1);
                lemma_assign_levels_from(spec_layout(s), folders);
                assert(c@.len() <= path@.len());
            }
            let (name, source) = resolve_car(s, c.as_str(), known_cars);
            (Some(name), source)
        },
        (_, c) => (c, CarSource::Folder),
    };
    let garage_export = match sim {
        Some(s) => pick_garage_export(path, s, siblings),
        None => None,
    };
    SetupIdentity { filename, sim, car, track, car_source, garage_export }
}

proof fn lemma_assign_levels_from(levels: Seq<Folder>, folders: Seq<Seq<char>>)
    ensures
        assign_levels(levels, folders).0 matches Some(c) ==> folders.contains(c),
        assign_levels(levels, folders).1 matches Some(t) ==> folders.contains(t),
    decreases levels.len(),
{
    if levels.len() > 0 && folders.len() > 0 {
        let f = folders.drop_first();
        lemma_assign_levels_from(levels.drop_first(), f);
        assert(folders[0] == folders[0]);
        if let Some(c) = assign_levels(levels.drop_first(), f).0 {
            let j = choose|j: int| 0 <= j < f.len() && f[j] == c;
            assert(folders[j + 1] == c);
        }
        if let Some(t) = assign_levels(levels.drop_first(), f).1 {
            let j = choose|j: int| 0 <= j < f.len() && f[j] == t;
            assert(folders[j + 1] == t);
        }
    }
}

// ---------------------------------------------------------------- uploading

/// The message for a track-filing sim given no track.
pub open spec fn needs_track_message(sim: Sim) -> Seq<char> {
    spec_display_name(sim)
        + " files setups by track, so this upload needs a track before it can be shared"@
}

/// The checks an upload passes before anything is read or sent: the path
/// must name a file, and a sim that files setups by track needs a track.
/// `Ok` holds the file name, `Err` the refusal's message.
pub open spec fn upload_check(path: Seq<char>, sim: Sim, track: Option<Seq<char>>) -> Result<
    Seq<char>,
    Seq<char>,
> {
    match file_name(path) {
        Some(f) if f.len() > 0 => if spec_layout(sim).contains(Folder::Track) && (track is None
            || trim(track->0).len() == 0) {
            Err(needs_track_message(sim))
        } else {
            Ok(f)
        },
        _ => Err("not a file: "@ + path),
    }
}

/// Refuse an upload that cannot be placed before any file is read: the file
/// name, or the error saying what is missing.
pub fn upload_precheck(path: &str, sim: Sim, track: Option<&str>) -> (r: Result<String, Error>)
    ensures
        match upload_check(path@, sim, crate::paths::opt_view(track)) {
            Ok(f) => r matches Ok(s) && s@ == f,
            Err(m) => r matches Err(Error::Api(e)) && e@ == m,
        },
{
    let filename = match file_name_chars(&to_chars(path)) {
        Some(n) => {
            if n.len() > 0 {
                Some(string_of(&n))
            } else {
                None
            }
        },
        None => None,
    };
    let filename = match filename {
        Some(f) => f,
        None => {
            let mut m = String::from_str("not a file: ");
            m.append(path);
            return Err(Error::Api(m));
        },
    };
    let no_track = match track {
        None => true,
        Some(t) => trim_chars(&to_chars(t)).len() == 0,
    };
    if sim.needs_track_folder() && no_track {
        let mut m = String::from_str(sim.display_name());
        m.append(" files setups by track, so this upload needs a track before it can be shared");
        return Err(Error::Api(m));
    }
    Ok(filename)
}

/// The refusal for an upload of `size` bytes, if it is over the limit.
pub open spec fn oversize_message(filename: Seq<char>, size: nat) -> Seq<char> {
    filename + " is "@ + decimal(size)
        + " bytes — setup files are a few KB, so this doesn't look like one (limit "@ + decimal(
        MAX_UPLOAD_BYTES as nat,
    ) + ")"@
}

/// Refuse a file larger than [`MAX_UPLOAD_BYTES`].
pub fn check_upload_size(filename: &str, size: u64) -> (r: Result<(), Error>)
    ensures
        size <= MAX_UPLOAD_BYTES ==> r is Ok,
        size > MAX_UPLOAD_BYTES ==> (r matches Err(Error::Api(m)) && m@ == oversize_message(
            filename@,
            size as nat,
        )),
{
    if size > MAX_UPLOAD_BYTES {
        let mut m = String::from_str(filename);
        m.append(" is ");
        push_decimal(&mut m, size);
        m.append(" bytes — setup files are a few KB, so this doesn't look like one (limit ");
        push_decimal(&mut m, MAX_UPLOAD_BYTES);
        m.append(")");
        assert(m@ =~= oversize_message(filename@, size as nat));
        return Err(Error::Api(m));
    }
    Ok(())
}

/// Why a garage export of `size` bytes is not sent, if it is over the limit.
pub open spec fn export_oversize_message(filename: Seq<char>, size: nat) -> Seq<char> {
    filename + " is "@ + decimal(size) + " bytes — too large for a garage export (limit "@
        + decimal(MAX_UPLOAD_BYTES as nat) + ")"@
}

/// The status of a garage export of `size` bytes that is over the limit;
/// `None` when it may be sent.
pub fn export_size_check(filename: &str, size: u64) -> (r: Option<ExportStatus>)
    ensures
        size <= MAX_UPLOAD_BYTES ==> r is None,
        size > MAX_UPLOAD_BYTES ==> (r matches Some(ExportStatus::Failed(m)) && m@
            == export_oversize_message(filename@, size as nat)),
{
    if size > MAX_UPLOAD_BYTES {
        let mut m = String::from_str(filename);
        m.append(" is ");
        push_decimal(&mut m, size);
        m.append(" bytes — too large for a garage export (limit ");
        push_decimal(&mut m, MAX_UPLOAD_BYTES);
        m.append(")");
        assert(m@ =~= export_oversize_message(filename@, size as nat));
        return Some(ExportStatus::Failed(m));
    }
    None
}


/// The file name of a garage export about to be sent, or why it is not
/// sent (the path names no file).
pub fn export_name(path: &str) -> (r: Result<String, ExportStatus>)
    ensures
        match file_name(path@) {
            Some(f) => r matches Ok(s) && s@ == f,
            None => r matches Err(ExportStatus::Failed(m)) && m@ == "not a file: "@ + path@,
        },
{
    match file_name_chars(&to_chars(path)) {
        Some(n) => Ok(string_of(&n)),
        None => {
            let mut m = String::from_str("not a file: ");
            m.append(path);
            Err(ExportStatus::Failed(m))
        },
    }
}

/// The status of a garage export that could not be read; `detail` is the
/// operating system's description.
pub fn export_unreadable(filename: &str, detail: &str) -> (r: ExportStatus)
    ensures
        r matches ExportStatus::Failed(m) && m@ == "could not read "@ + filename@ + ": "@
            + detail@,
{
    let mut m = String::from_str("could not read ");
    m.append(filename);
    m.append(": ");
    m.append(detail);
    ExportStatus::Failed(m)
}

/// What the path `dir` + `t.x` reads as, for a name with no separator and
/// an extension with no dot: its stem is `t` and its lower-cased extension
/// is `x` lower-cased.
proof fn lemma_named_file(dir: Seq<char>, t: Seq<char>, x: Seq<char>)
    requires
        dir.len() == 0 || crate::pathstr::is_sep(dir.last()),
        t.len() > 0,
        x.len() > 0,
        forall|i: int| 0 <= i < t.len() ==> !crate::pathstr::is_sep(#[trigger] t[i]),
        forall|i: int|
            0 <= i < x.len() ==> #[trigger] x[i] != '.' && !crate::pathstr::is_sep(x[i]),
    ensures
        path_stem(dir + (t + seq!['.'] + x)) == Some(t),
        lower_ext(dir + (t + seq!['.'] + x)) == lower_seq(x),
{
    let name = t + seq!['.'] + x;
    assert forall|i: int| 0 <= i < name.len() implies !crate::pathstr::is_sep(#[trigger] name[i]) by {
        if i < t.len() {
            assert(name[i] == t[i]);
        } else if i > t.len() {
            assert(name[i] == x[i - t.len() - 1]);
        }
    }
    assert(name.len() >= 3);
    assert(name != seq!['.']) by {
        if name == seq!['.'] {
            assert(name.len() == 1);
        }
    }
    assert(name != seq!['.', '.']) by {
        if name == seq!['.', '.'] {
            assert(name.len() == 2);
        }
    }
    crate::pathstr::lemma_file_name_after(dir, name);
    assert forall|i: int| 0 <= i < x.len() implies #[trigger] x[i] != '.' by {}
    crate::pathstr::lemma_extension_after_last_dot(t, x);
    assert(name.take(name.len() - x.len() - 1) =~= t);
}

/// The garage export is recognised by its extension in any ASCII case: a
/// file beside the setup whose stem is the setup's ignoring ASCII case and
/// whose extension is `htm` or `html` in any case is an export for it, and
/// offered alone it is the one picked; re-casing a file's extension never
/// changes whether it is an export, nor whether it counts as `.htm`.
pub proof fn law_export_extension_matches_in_any_case(
    stem: Seq<char>,
    dir: Seq<char>,
    t: Seq<char>,
    x: Seq<char>,
    y: Seq<char>,
)
    requires
        dir.len() == 0 || crate::pathstr::is_sep(dir.last()),
        t.len() > 0,
        x.len() > 0,
        y.len() > 0,
        forall|i: int| 0 <= i < t.len() ==> !crate::pathstr::is_sep(#[trigger] t[i]),
        forall|i: int|
            0 <= i < x.len() ==> #[trigger] x[i] != '.' && !crate::pathstr::is_sep(x[i]),
        forall|i: int|
            0 <= i < y.len() ==> #[trigger] y[i] != '.' && !crate::pathstr::is_sep(y[i]),
        lower_seq(y) == lower_seq(x),
    ensures
        lower_seq(t) == lower_seq(stem) && (lower_seq(x) == seq!['h', 't', 'm'] || lower_seq(x)
            == seq!['h', 't', 'm', 'l']) ==> is_export_for(stem, dir + (t + seq!['.'] + x))
            && export_pick(stem, seq![dir + (t + seq!['.'] + x)]) == Some(
            dir + (t + seq!['.'] + x),
        ),
        is_export_for(stem, dir + (t + seq!['.'] + x)) == is_export_for(
            stem,
            dir + (t + seq!['.'] + y),
        ),
        (lower_ext(dir + (t + seq!['.'] + x)) == htm()) == (lower_ext(dir + (t + seq!['.'] + y))
            == htm()),
{
    lemma_named_file(dir, t, x);
    lemma_named_file(dir, t, y);
    let c = dir + (t + seq!['.'] + x);
    let one = seq![c];
    assert(one.drop_last() =~= Seq::<Seq<char>>::empty());
    assert(export_pick(stem, one.drop_last()) is None);
    assert(one.last() == c);
    if lower_seq(t) == lower_seq(stem) && (lower_seq(x) == seq!['h', 't', 'm'] || lower_seq(x)
        == seq!['h', 't', 'm', 'l']) {
        assert(is_export_for(stem, c));
        assert(export_pick(stem, one) == Some(c));
    }
}

} // verus!
