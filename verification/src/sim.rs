//! The sims ParcFerme can install setups for.
//!
//! The single source of truth for *where* a sim's setups live and *how* one
//! setup is placed beneath that root.
use vstd::prelude::*;

use crate::pathstr::{components, extension_chars, file_name_chars, join, join_str, path_extension};
use crate::text::{chars_eq, lower_chars, lower_seq, to_chars, trim_chars, trim, trim_start};

verus! {

/// A racing sim ParcFerme can install setups into. Its short lowercase id
/// (`"iracing"`, `"acc"`, `"lmu"`) is both the wire form and the settings key.
#[derive(Clone, Copy, Debug, PartialEq, Eq, Structural, Hash)]
pub enum Sim {
    /// iRacing — `Documents/iRacing/setups/<car>/*.sto`.
    IRacing,
    /// Assetto Corsa Competizione — `…/Setups/<car>/<track>/*.json`.
    Acc,
    /// Le Mans Ultimate — `…/UserData/player/Settings/<track>/*.svm`.
    Lmu,
}

/// One folder level of a sim's setup layout.
#[derive(Clone, Copy, Debug, PartialEq, Eq, Structural)]
pub enum Folder {
    Car,
    Track,
}

impl Default for Sim {
    fn default() -> (r: Sim)
        ensures
            r == Sim::IRacing,
    {
        Sim::IRacing
    }
}

pub open spec fn spec_sim_id(sim: Sim) -> Seq<char> {
    match sim {
        Sim::IRacing => "iracing"@,
        Sim::Acc => "acc"@,
        Sim::Lmu => "lmu"@,
    }
}

pub open spec fn spec_display_name(sim: Sim) -> Seq<char> {
    match sim {
        Sim::IRacing => "iRacing"@,
        Sim::Acc => "Assetto Corsa Competizione"@,
        Sim::Lmu => "Le Mans Ultimate"@,
    }
}

/// The sim whose short id is `key` exactly.
pub open spec fn sim_with_id(key: Seq<char>) -> Option<Sim> {
    if key == spec_sim_id(Sim::IRacing) {
        Some(Sim::IRacing)
    } else if key == spec_sim_id(Sim::Acc) {
        Some(Sim::Acc)
    } else if key == spec_sim_id(Sim::Lmu) {
        Some(Sim::Lmu)
    } else {
        None
    }
}

/// [`Sim::from_id`]: the id trimmed and ASCII-lower-cased, then looked up.
pub open spec fn spec_from_id(id: Seq<char>) -> Option<Sim> {
    sim_with_id(lower_seq(trim(id)))
}

/// `s` with every leading `.` removed.
pub open spec fn strip_leading_dots(s: Seq<char>) -> Seq<char>
    decreases s.len(),
{
    if s.len() > 0 && s[0] == '.' {
        strip_leading_dots(s.drop_first())
    } else {
        s
    }
}

/// The sim whose file format has extension `ext` (any case, leading dots
/// ignored).
pub open spec fn spec_from_extension(ext: Seq<char>) -> Option<Sim> {
    let e = lower_seq(strip_leading_dots(ext));
    if e == "sto"@ {
        Some(Sim::IRacing)
    } else if e == "json"@ {
        Some(Sim::Acc)
    } else if e == "svm"@ {
        Some(Sim::Lmu)
    } else {
        None
    }
}

/// The sim that loads a file named `filename`, by its extension.
pub open spec fn spec_from_filename(filename: Seq<char>) -> Option<Sim> {
    match path_extension(filename) {
        Some(e) => spec_from_extension(e),
        None => None,
    }
}

pub open spec fn spec_layout(sim: Sim) -> Seq<Folder> {
    match sim {
        Sim::IRacing => seq![Folder::Car],
        Sim::Acc => seq![Folder::Car, Folder::Track],
        Sim::Lmu => seq![Folder::Track],
    }
}

/// Whether `base` is itself Le Mans Ultimate's install folder: its last
/// component names the game, in any ASCII case.
pub open spec fn names_lmu_install(base: Seq<char>) -> bool {
    let cs = components(base);
    cs.len() > 0 && lower_seq(cs.last()) == lower_seq("Le Mans Ultimate"@)
}

/// The setups root under `base`. For LMU the base is the game install (the
/// folder holding `UserData`); a base that is not already the game folder
/// gets it appended first.
pub open spec fn spec_setups_root(sim: Sim, base: Seq<char>) -> Seq<char> {
    match sim {
        Sim::IRacing => join(join(base, "iRacing"@), "setups"@),
        Sim::Acc => join(join(base, "Assetto Corsa Competizione"@), "Setups"@),
        Sim::Lmu => {
            let install = if names_lmu_install(base) {
                base
            } else {
                join(base, "Le Mans Ultimate"@)
            };
            join(join(join(install, "UserData"@), "player"@), "Settings"@)
        },
    }
}

fn is_lmu_install(base: &str) -> (r: bool)
    ensures
        r == names_lmu_install(base@),
{
    let cs = crate::pathstr::split_components(&to_chars(base));
    if cs.len() == 0 {
        return false;
    }
    let last = &cs[cs.len() - 1];
    let game = to_chars("Le Mans Ultimate");
    chars_eq(&lower_chars(last), &lower_chars(&game))
}

/// Every sim, for folder detection and enumeration in the UI.
pub fn all_sims() -> (r: Vec<Sim>)
    ensures
        r@ == seq![Sim::IRacing, Sim::Acc, Sim::Lmu],
{
    let mut v = Vec::new();
    v.push(Sim::IRacing);
    v.push(Sim::Acc);
    v.push(Sim::Lmu);
    v
}

fn id_chars(sim: Sim) -> (r: Vec<char>)
    ensures
        r@ == spec_sim_id(sim),
{
    to_chars(sim.id())
}

fn sim_with_id_chars(key: &Vec<char>) -> (r: Option<Sim>)
    ensures
        r == sim_with_id(key@),
{
    if chars_eq(key, &id_chars(Sim::IRacing)) {
        Some(Sim::IRacing)
    } else if chars_eq(key, &id_chars(Sim::Acc)) {
        Some(Sim::Acc)
    } else if chars_eq(key, &id_chars(Sim::Lmu)) {
        Some(Sim::Lmu)
    } else {
        None
    }
}

fn strip_dots(v: &Vec<char>) -> (r: Vec<char>)
    ensures
        r@ == strip_leading_dots(v@),
{
    let mut lo: usize = 0;
    assert(v@.skip(0) =~= v@);
    while lo < v.len() && v[lo] == '.'
        invariant
            lo <= v@.len(),
            strip_leading_dots(v@) == strip_leading_dots(v@.skip(lo as int)),
        decreases v@.len() - lo,
    {
        assert(v@.skip(lo as int).drop_first() =~= v@.skip(lo + 1));
        lo = lo + 1;
    }
    let r = crate::text::slice_chars(v, lo, v.len());
    assert(r@ =~= v@.skip(lo as int));
    r
}

fn from_extension_chars(ext: &Vec<char>) -> (r: Option<Sim>)
    ensures
        r == spec_from_extension(ext@),
{
    let e = lower_chars(&strip_dots(ext));
    if chars_eq(&e, &to_chars("sto")) {
        Some(Sim::IRacing)
    } else if chars_eq(&e, &to_chars("json")) {
        Some(Sim::Acc)
    } else if chars_eq(&e, &to_chars("svm")) {
        Some(Sim::Lmu)
    } else {
        None
    }
}

/// [`Sim::from_filename`] on a character vector.
pub fn sim_of_filename(filename: &Vec<char>) -> (r: Option<Sim>)
    ensures
        r == spec_from_filename(filename@),
{
    match file_name_chars(filename) {
        Some(name) => match extension_chars(&name) {
            Some(e) => from_extension_chars(&e),
            None => None,
        },
        None => None,
    }
}

impl Sim {
    /// Stable short id used on the wire and as the settings key.
    pub fn id(self) -> (r: &'static str)
        ensures
            r@ == spec_sim_id(self),
    {
        match self {
            Sim::IRacing => "iracing",
            Sim::Acc => "acc",
            Sim::Lmu => "lmu",
        }
    }

    /// Parse the short id back into a [`Sim`]; `None` for an unknown id.
    /// Tolerant of ASCII casing and surrounding whitespace.
    pub fn from_id(id: &str) -> (r: Option<Sim>)
        ensures
            r == spec_from_id(id@),
    {
        let key = lower_chars(&trim_chars(&to_chars(id)));
        sim_with_id_chars(&key)
    }

    /// Infer the sim from a setup file's extension: `.sto` iRacing, `.json`
    /// ACC, `.svm` LMU.
    pub fn from_extension(ext: &str) -> (r: Option<Sim>)
        ensures
            r == spec_from_extension(ext@),
    {
        from_extension_chars(&to_chars(ext))
    }

    /// [`Sim::from_extension`] applied to a full filename.
    pub fn from_filename(filename: &str) -> (r: Option<Sim>)
        ensures
            r == spec_from_filename(filename@),
    {
        sim_of_filename(&to_chars(filename))
    }

    /// Human-facing name for toasts and the folder list.
    pub fn display_name(self) -> (r: &'static str)
        ensures
            r@ == spec_display_name(self),
    {
        match self {
            Sim::IRacing => "iRacing",
            Sim::Acc => "Assetto Corsa Competizione",
            Sim::Lmu => "Le Mans Ultimate",
        }
    }

    /// The setups root for this sim: under the Documents folder for iRacing
    /// and ACC, under the game install (which holds `UserData`) for LMU.
    pub fn setups_root(self, base: &str) -> (r: String)
        ensures
            r@ == spec_setups_root(self, base@),
    {
        match self {
            Sim::IRacing => {
                let a = join_str(base, "iRacing");
                join_str(a.as_str(), "setups")
            },
            Sim::Acc => {
                let a = join_str(base, "Assetto Corsa Competizione");
                join_str(a.as_str(), "Setups")
            },
            Sim::Lmu => {
                let install = if is_lmu_install(base) {
                    String::from_str(base)
                } else {
                    join_str(base, "Le Mans Ultimate")
                };
                let b = join_str(install.as_str(), "UserData");
                let c = join_str(b.as_str(), "player");
                join_str(c.as_str(), "Settings")
            },
        }
    }

    /// The folder levels a setup sits under, outermost first: `<car>` for
    /// iRacing, `<car>/<track>` for ACC, `<track>` for LMU.
    pub fn layout(self) -> (r: Vec<Folder>)
        ensures
            r@ == spec_layout(self),
    {
        let mut v = Vec::new();
        match self {
            Sim::IRacing => {
                v.push(Folder::Car);
            },
            Sim::Acc => {
                v.push(Folder::Car);
                v.push(Folder::Track);
            },
            Sim::Lmu => {
                v.push(Folder::Track);
            },
        }
        assert(v@ =~= spec_layout(self));
        v
    }

    /// Whether a setup needs a `<track>` subfolder under its `<car>` folder to
    /// be visible in-game. Only ACC does.
    pub fn needs_track_subfolder(self) -> (r: bool)
        ensures
            r == (self == Sim::Acc),
    {
        match self {
            Sim::Acc => true,
            _ => false,
        }
    }

    /// Whether the sim files setups by track at all (its layout has a track
    /// level): ACC and LMU.
    pub fn needs_track_folder(self) -> (r: bool)
        ensures
            r == spec_layout(self).contains(Folder::Track),
    {
        proof {
            assert(spec_layout(Sim::IRacing)[0] == Folder::Car);
            assert(spec_layout(Sim::Acc)[1] == Folder::Track);
            assert(spec_layout(Sim::Lmu)[0] == Folder::Track);
        }
        match self {
            Sim::IRacing => false,
            _ => true,
        }
    }
}

/// The short id round-trips: every sim is found again by its own id.
pub proof fn law_id_round_trips(sim: Sim)
    ensures
        spec_from_id(spec_sim_id(sim)) == Some(sim),
{
    reveal_strlit("iracing");
    reveal_strlit("acc");
    reveal_strlit("lmu");
    let id = spec_sim_id(sim);
    assert(trim_start(id) == id);
    assert(crate::text::trim_end(id) == id);
    assert(lower_seq(id) =~= id);
}

/// A setup file's sim is read from the text after its last dot: for any
/// non-empty stem, whatever dots it holds, `stem.ext` belongs to the sim
/// whose format `ext` names (`.sto` iRacing, `.json` ACC, `.svm` LMU, in any
/// ASCII case).
pub proof fn law_sim_follows_the_last_extension(stem: Seq<char>, ext: Seq<char>)
    requires
        stem.len() > 0,
        ext.len() > 0,
        forall|i: int| 0 <= i < stem.len() ==> !crate::pathstr::is_sep(#[trigger] stem[i]),
        forall|i: int|
            0 <= i < ext.len() ==> #[trigger] ext[i] != '.' && !crate::pathstr::is_sep(ext[i]),
    ensures
        spec_from_filename(stem + seq!['.'] + ext) == spec_from_extension(ext),
        lower_seq(ext) == "sto"@ ==> spec_from_filename(stem + seq!['.'] + ext) == Some(
            Sim::IRacing,
        ),
        lower_seq(ext) == "json"@ ==> spec_from_filename(stem + seq!['.'] + ext) == Some(Sim::Acc),
        lower_seq(ext) == "svm"@ ==> spec_from_filename(stem + seq!['.'] + ext) == Some(Sim::Lmu),
{
    let name = stem + seq!['.'] + ext;
    assert forall|i: int| 0 <= i < name.len() implies !crate::pathstr::is_sep(#[trigger] name[i]) by {
        if i < stem.len() {
            assert(name[i] == stem[i]);
        } else if i > stem.len() {
            assert(name[i] == ext[i - stem.len() - 1]);
        }
    }
    assert(name.len() >= 3);
    assert(name != seq!['.']) by {
        if name == seq!['.'] {
            assert(name.len() == 1);
        }
    }
    assert(name != seq!['.', '.']) by {
        if name == seq!['.', '.'] {
            assert(name.len() == 2);
        }
    }
    crate::pathstr::lemma_file_name_after(Seq::empty(), name);
    assert(Seq::<char>::empty() + name =~= name);
    assert forall|i: int| 0 <= i < ext.len() implies #[trigger] ext[i] != '.' by {}
    crate::pathstr::lemma_extension_after_last_dot(stem, ext);
    assert(strip_leading_dots(ext) == ext);
    reveal_strlit("sto");
    reveal_strlit("json");
    reveal_strlit("svm");
    assert("json"@ != "sto"@) by {
        assert("json"@.len() != "sto"@.len());
    }
    assert("svm"@ != "sto"@) by {
        assert("svm"@[1] != "sto"@[1]);
    }
    assert("svm"@ != "json"@) by {
        assert("svm"@.len() != "json"@.len());
    }
}

} // verus!
