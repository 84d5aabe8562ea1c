//! The user's persisted settings, as values.
//!
//! Reading and writing the file is the application's business; the library
//! owns the shape, the defaults, the per-sim folder map and where the file
//! lives.
use vstd::prelude::*;

use crate::error::Error;
use crate::pathstr::{join, join_str};
use crate::sim::Sim;

verus! {

/// What a download does when the target file already exists with different
/// contents. Byte-identical contents are "already installed" under any
/// policy.
#[derive(Debug, Clone, Copy, PartialEq, Eq, Structural)]
pub enum ConflictPolicy {
    /// Keep the existing file and write the new one as `name (2).ext`, then
    /// `(3)`, and so on. The default.
    KeepBoth,
    /// Replace the existing file with the downloaded one.
    Overwrite,
}

impl Default for ConflictPolicy {
    fn default() -> (r: ConflictPolicy)
        ensures
            r == ConflictPolicy::KeepBoth,
    {
        ConflictPolicy::KeepBoth
    }
}


/// The user's settings.
#[derive(Debug, Clone)]
pub struct Settings {
    /// Per-sim setups-folder overrides; [`Settings::folder`] reads the first
    /// one for a sim, and the methods keep one per sim.
    pub sim_folders: Vec<(Sim, String)>,
    /// What to do when a downloaded file collides with an existing name.
    pub conflict_policy: ConflictPolicy,
    /// Whether sessions are recorded and pushed automatically.
    pub sync_enabled: bool,
    /// Whether new team setups are installed automatically.
    pub team_auto_install_enabled: bool,
    /// Whether the seen-set has been seeded with the team vault as it was
    /// when auto-install was first switched on.
    pub team_auto_install_seeded: bool,
    /// Team setups already seen (installed or present at seeding); the
    /// methods keep each once.
    pub team_seen_setups: Vec<String>,
}

/// The folder a list of overrides gives `sim` (its first entry for it).
pub open spec fn folder_in(folders: Seq<(Sim, String)>, sim: Sim) -> Option<Seq<char>>
    decreases folders.len(),
{
    if folders.len() == 0 {
        None
    } else if folders[0].0 == sim {
        Some(folders[0].1@)
    } else {
        folder_in(folders.drop_first(), sim)
    }
}

/// No sim appears twice.
pub open spec fn distinct_sims(folders: Seq<(Sim, String)>) -> bool {
    forall|i: int, j: int|
        0 <= i < j < folders.len() ==> #[trigger] folders[i].0 != #[trigger] folders[j].0
}

/// No id appears twice.
pub open spec fn distinct_ids(ids: Seq<String>) -> bool {
    forall|i: int, j: int| 0 <= i < j < ids.len() ==> (#[trigger] ids[i])@ != (#[trigger] ids[j])@
}

pub open spec fn seen_in(ids: Seq<String>, id: Seq<char>) -> bool {
    exists|i: int| 0 <= i < ids.len() && (#[trigger] ids[i])@ == id
}

impl Settings {
    /// The override folder for `sim`, if one is set.
    pub open spec fn folder_of(&self, sim: Sim) -> Option<Seq<char>> {
        folder_in(self.sim_folders@, sim)
    }

    /// Whether the team setup `id` has been seen.
    pub open spec fn has_seen_id(&self, id: Seq<char>) -> bool {
        seen_in(self.team_seen_setups@, id)
    }

    /// How many team setups have been seen.
    pub open spec fn seen_count(&self) -> nat {
        self.team_seen_setups@.len()
    }

    /// Each sim has at most one override and each seen id is held once.
    pub open spec fn wf(&self) -> bool {
        distinct_sims(self.sim_folders@) && distinct_ids(self.team_seen_setups@)
    }

    /// Defaults: no overrides, keep both copies on a conflict, both engines
    /// off, nothing seen.
    pub fn new() -> (r: Settings)
        ensures
            r.wf(),
            forall|sim: Sim| r.folder_of(sim) is None,
            r.conflict_policy == ConflictPolicy::KeepBoth,
            !r.sync_enabled,
            !r.team_auto_install_enabled,
            !r.team_auto_install_seeded,
            r.seen_count() == 0,
            forall|id: Seq<char>| !r.has_seen_id(id),
    {
        Settings {
            sim_folders: Vec::new(),
            conflict_policy: ConflictPolicy::KeepBoth,
            sync_enabled: false,
            team_auto_install_enabled: false,
            team_auto_install_seeded: false,
            team_seen_setups: Vec::new(),
        }
    }

    /// The override folder for `sim`, if one is set.
    pub fn folder(&self, sim: Sim) -> (r: Option<String>)
        ensures
            match self.folder_of(sim) {
                Some(d) => r matches Some(s) && s@ == d,
                None => r is None,
            },
    {
        let mut i: usize = 0;
        assert(self.sim_folders@.skip(0) =~= self.sim_folders@);
        while i < self.sim_folders.len()
            invariant
                i <= self.sim_folders@.len(),
                folder_in(self.sim_folders@.skip(i as int), sim) == folder_in(
                    self.sim_folders@,
                    sim,
                ),
            decreases self.sim_folders@.len() - i,
        {
            assert(self.sim_folders@.skip(i as int).drop_first() =~= self.sim_folders@.skip(i + 1));
            if self.sim_folders[i].0 == sim {
                return Some(self.sim_folders[i].1.clone());
            }
            i = i + 1;
        }
        None
    }

    /// Every override, one per sim, in the order they were set.
    pub fn folders(&self) -> (r: &Vec<(Sim, String)>)
        ensures
            forall|sim: Sim| folder_in(r@, sim) == self.folder_of(sim),
    {
        &self.sim_folders
    }

    /// Set `sim`'s override folder to `dir`, replacing any earlier one.
    pub fn set_folder(&mut self, sim: Sim, dir: String)
        ensures
            final(self).folder_of(sim) == Some(dir@),
            forall|other: Sim| other != sim ==> final(self).folder_of(other) == old(self).folder_of(
                other,
            ),
            old(self).wf() ==> final(self).wf(),
            final(self).conflict_policy == old(self).conflict_policy,
            final(self).sync_enabled == old(self).sync_enabled,
            final(self).team_auto_install_enabled == old(self).team_auto_install_enabled,
            final(self).team_auto_install_seeded == old(self).team_auto_install_seeded,
            final(self).team_seen_setups == old(self).team_seen_setups,
    {
        self.clear_folder(sim);
        let ghost before = self.sim_folders@;
        self.sim_folders.push((sim, dir));
        proof {
            lemma_folder_in_push(before, sim, dir);
        }
    }

    /// Remove `sim`'s override folder, if any.
    pub fn clear_folder(&mut self, sim: Sim)
        ensures
            final(self).folder_of(sim) is None,
            forall|other: Sim| other != sim ==> final(self).folder_of(other) == old(self).folder_of(
                other,
            ),
            old(self).wf() ==> final(self).wf(),
            forall|i: int|
                0 <= i < final(self).sim_folders@.len() ==> (#[trigger] final(self).sim_folders@[i]).0
                    != sim,
            final(self).conflict_policy == old(self).conflict_policy,
            final(self).sync_enabled == old(self).sync_enabled,
            final(self).team_auto_install_enabled == old(self).team_auto_install_enabled,
            final(self).team_auto_install_seeded == old(self).team_auto_install_seeded,
            final(self).team_seen_setups == old(self).team_seen_setups,
    {
        let mut kept: Vec<(Sim, String)> = Vec::new();
        let mut i: usize = 0;
        let ghost all = self.sim_folders@;
        assert(all.skip(0) =~= all);
        while i < self.sim_folders.len()
            invariant
                all == self.sim_folders@,
                i <= all.len(),
                forall|k: int| 0 <= k < kept@.len() ==> (#[trigger] kept@[k]).0 != sim,
                forall|other: Sim|
                    other != sim ==> #[trigger] folder_in(all, other) == (match folder_in(
                        kept@,
                        other,
                    ) {
                        Some(d) => Some(d),
                        None => folder_in(all.skip(i as int), other),
                    }),
                distinct_sims(all) ==> distinct_sims(kept@) && forall|k: int, j: int|
                    0 <= k < kept@.len() && i <= j < all.len() ==> #[trigger] kept@[k].0
                        != #[trigger] all[j].0,
            decreases all.len() - i,
        {
            let entry = &self.sim_folders[i];
            proof {
                assert(all.skip(i as int)[0] == all[i as int]);
                assert(all.skip(i as int).drop_first() =~= all.skip(i + 1));
            }
            if entry.0 != sim {
                let ghost before = kept@;
                kept.push((entry.0, entry.1.clone()));
                proof {
                    assert forall|other: Sim| other != sim implies #[trigger] folder_in(
                        all,
                        other,
                    ) == (match folder_in(kept@, other) {
                        Some(d) => Some(d),
                        None => folder_in(all.skip(i + 1), other),
                    }) by {
                        lemma_folder_in_append(before, entry.0, entry.1, other);
                    }
                }
            } else {
                proof {
                    assert forall|other: Sim| other != sim implies #[trigger] folder_in(
                        all,
                        other,
                    ) == (match folder_in(kept@, other) {
                        Some(d) => Some(d),
                        None => folder_in(all.skip(i + 1), other),
                    }) by {}
                }
            }
            i = i + 1;
        }
        proof {
            lemma_folder_in_absent(kept@, sim);
            assert(all.skip(all.len() as int) =~= Seq::<(Sim, String)>::empty());
        }
        self.sim_folders = kept;
    }

    /// Whether the team setup `id` has been seen.
    pub fn has_seen(&self, id: &str) -> (r: bool)
        ensures
            r == self.has_seen_id(id@),
    {
        let mut i: usize = 0;
        while i < self.team_seen_setups.len()
            invariant
                i <= self.team_seen_setups@.len(),
                forall|k: int| 0 <= k < i ==> (#[trigger] self.team_seen_setups@[k])@ != id@,
            decreases self.team_seen_setups@.len() - i,
        {
            if crate::text::chars_eq(
                &crate::text::to_chars(self.team_seen_setups[i].as_str()),
                &crate::text::to_chars(id),
            ) {
                return true;
            }
            i = i + 1;
        }
        false
    }

    /// Record the team setup `id` as seen.
    pub fn mark_seen(&mut self, id: String)
        ensures
            final(self).has_seen_id(id@),
            forall|other: Seq<char>| old(self).has_seen_id(other) ==> final(self).has_seen_id(other),
            forall|other: Seq<char>|
                final(self).has_seen_id(other) ==> old(self).has_seen_id(other) || other == id@,
            old(self).wf() ==> final(self).wf(),
            distinct_ids(old(self).team_seen_setups@) ==> distinct_ids(final(self).team_seen_setups@),
            final(self).sim_folders == old(self).sim_folders,
            final(self).conflict_policy == old(self).conflict_policy,
            final(self).sync_enabled == old(self).sync_enabled,
            final(self).team_auto_install_enabled == old(self).team_auto_install_enabled,
            final(self).team_auto_install_seeded == old(self).team_auto_install_seeded,
    {
        if !self.has_seen(id.as_str()) {
            let ghost before = self.team_seen_setups@;
            self.team_seen_setups.push(id);
            proof {
                let after = self.team_seen_setups@;
                assert(after[before.len() as int] == id);
                assert forall|other: Seq<char>| seen_in(before, other) implies seen_in(
                    after,
                    other,
                ) by {
                    let k = choose|k: int| 0 <= k < before.len() && (#[trigger] before[k])@ == other;
                    assert(after[k] == before[k]);
                }
                assert forall|other: Seq<char>| seen_in(after, other) implies seen_in(before, other)
                    || other == id@ by {
                    let k = choose|k: int| 0 <= k < after.len() && (#[trigger] after[k])@ == other;
                    if k < before.len() {
                        assert(after[k] == before[k]);
                    }
                }
                assert(forall|i: int, j: int|
                    0 <= i < j < before.len() ==> after[i] == before[i] && after[j] == before[j]);
            }
        }
    }

    /// Replace the seen-set with `ids` (duplicates dropped) and mark it
    /// seeded.
    pub fn seed_seen(&mut self, ids: &Vec<String>)
        ensures
            final(self).team_auto_install_seeded,
            forall|id: Seq<char>| final(self).has_seen_id(id) <==> seen_in(ids@, id),
            old(self).wf() ==> final(self).wf(),
            final(self).sim_folders == old(self).sim_folders,
            forall|sim: Sim| final(self).folder_of(sim) == old(self).folder_of(sim),
            final(self).conflict_policy == old(self).conflict_policy,
            final(self).sync_enabled == old(self).sync_enabled,
            final(self).team_auto_install_enabled == old(self).team_auto_install_enabled,
    {
        self.team_seen_setups = Vec::new();
        let mut i: usize = 0;
        while i < ids.len()
            invariant
                i <= ids@.len(),
                forall|id: Seq<char>| self.has_seen_id(id) <==> seen_in(ids@.take(i as int), id),
                distinct_ids(self.team_seen_setups@),
                self.sim_folders == old(self).sim_folders,
                self.conflict_policy == old(self).conflict_policy,
                self.sync_enabled == old(self).sync_enabled,
                self.team_auto_install_enabled == old(self).team_auto_install_enabled,
            decreases ids@.len() - i,
        {
            let ghost t = ids@.take(i + 1);
            assert forall|id: Seq<char>| seen_in(t, id) <==> seen_in(ids@.take(i as int), id) || id
                == ids@[i as int]@ by {
                if seen_in(t, id) {
                    let k = choose|k: int| 0 <= k < t.len() && (#[trigger] t[k])@ == id;
                    if k < i {
                        assert(ids@.take(i as int)[k] == t[k]);
                    }
                }
                if seen_in(ids@.take(i as int), id) {
                    let k = choose|k: int|
                        0 <= k < ids@.take(i as int).len() && (#[trigger] ids@.take(i as int)[k])@
                            == id;
                    assert(t[k] == ids@.take(i as int)[k]);
                }
                if id == ids@[i as int]@ {
                    assert(t[i as int] == ids@[i as int]);
                }
            }
            self.mark_seen(ids[i].clone());
            i = i + 1;
        }
        assert(ids@.take(ids@.len() as int) =~= ids@);
        assert forall|id: Seq<char>| self.has_seen_id(id) <==> seen_in(ids@, id) by {
            assert(seen_in(ids@.take(ids@.len() as int), id) == seen_in(ids@, id));
        }
        self.team_auto_install_seeded = true;
    }
}

proof fn lemma_folder_in_push(before: Seq<(Sim, String)>, sim: Sim, dir: String)
    requires
        forall|i: int| 0 <= i < before.len() ==> (#[trigger] before[i]).0 != sim,
    ensures
        folder_in(before.push((sim, dir)), sim) == Some(dir@),
        forall|other: Sim|
            other != sim ==> folder_in(before.push((sim, dir)), other) == folder_in(before, other),
        distinct_sims(before) ==> distinct_sims(before.push((sim, dir))),
    decreases before.len(),
{
    let after = before.push((sim, dir));
    if before.len() > 0 {
        assert(after[0] == before[0]);
        let t = before.drop_first();
        assert(after.drop_first() =~= t.push((sim, dir)));
        assert forall|i: int| 0 <= i < t.len() implies (#[trigger] t[i]).0 != sim by {
            assert(t[i] == before[i + 1]);
        }
        lemma_folder_in_push(t, sim, dir);
        assert(before[0].0 != sim);
        assert forall|other: Sim| other != sim implies folder_in(after, other) == folder_in(
            before,
            other,
        ) by {
            if before[0].0 == other {
                assert(folder_in(after, other) == Some(before[0].1@));
            } else {
                assert(folder_in(after, other) == folder_in(after.drop_first(), other));
                assert(folder_in(before, other) == folder_in(t, other));
            }
        }
        if distinct_sims(before) {
            assert(distinct_sims(t)) by {
                assert forall|i: int, j: int| 0 <= i < j < t.len() implies #[trigger] t[i].0
                    != #[trigger] t[j].0 by {
                    assert(t[i] == before[i + 1]);
                    assert(t[j] == before[j + 1]);
                }
            }
        }
    } else {
        assert(after[0] == (sim, dir));
        assert(after.drop_first() =~= Seq::<(Sim, String)>::empty());
        assert forall|other: Sim| other != sim implies folder_in(after, other) == folder_in(
            before,
            other,
        ) by {
            assert(folder_in(after, other) == folder_in(after.drop_first(), other));
        }
    }
}

proof fn lemma_folder_in_append(before: Seq<(Sim, String)>, s: Sim, d: String, other: Sim)
    ensures
        folder_in(before.push((s, d)), other) == (match folder_in(before, other) {
            Some(x) => Some(x),
            None => if s == other {
                Some(d@)
            } else {
                None
            },
        }),
    decreases before.len(),
{
    let after = before.push((s, d));
    if before.len() > 0 {
        assert(after[0] == before[0]);
        assert(after.drop_first() =~= before.drop_first().push((s, d)));
        lemma_folder_in_append(before.drop_first(), s, d, other);
        if before[0].0 == other {
            assert(folder_in(after, other) == Some(before[0].1@));
            assert(folder_in(before, other) == Some(before[0].1@));
        } else {
            assert(folder_in(after, other) == folder_in(after.drop_first(), other));
            assert(folder_in(before, other) == folder_in(before.drop_first(), other));
        }
    } else {
        assert(after[0] == (s, d));
        assert(after.drop_first() =~= Seq::<(Sim, String)>::empty());
    }
}

proof fn lemma_folder_in_absent(folders: Seq<(Sim, String)>, sim: Sim)
    requires
        forall|i: int| 0 <= i < folders.len() ==> (#[trigger] folders[i]).0 != sim,
    ensures
        folder_in(folders, sim) is None,
    decreases folders.len(),
{
    if folders.len() > 0 {
        let t = folders.drop_first();
        assert forall|i: int| 0 <= i < t.len() implies (#[trigger] t[i]).0 != sim by {
            assert(t[i] == folders[i + 1]);
        }
        lemma_folder_in_absent(t, sim);
    }
}

/// The settings file: `<config dir>/cc.parcferme.desktop/settings.json`.
pub fn default_path(config_dir: Option<&str>) -> (r: Result<String, Error>)
    ensures
        match config_dir {
            Some(d) => r matches Ok(p) && p@ == join(join(d@, crate::APP_ID@), "settings.json"@),
            None => r matches Err(Error::NotImplemented(what)) && what@
                == "settings::config_dir (unsupported platform)"@,
        },
{
    match config_dir {
        Some(d) => {
            let app = join_str(d, crate::APP_ID);
            Ok(join_str(app.as_str(), "settings.json"))
        },
        None => Err(Error::NotImplemented("settings::config_dir (unsupported platform)")),
    }
}

} // verus!
