//! Team auto-install: new team-vault setups installed with no button to
//! press.
//!
//! The application polls the team vault and runs each install; the
//! decisions are here. The first run only seeds the seen-set — otherwise
//! switching the toggle on would dump the whole vault into the sim folders
//! at once — and afterwards each unseen setup is installed once. A sign-out
//! mid-sweep stops the sweep without marking anything, so the batch waits
//! for the next poll.
use vstd::prelude::*;

use crate::api::SetupSummary;
use crate::download::{InstallAction, InstalledSetup};
use crate::error::Error;
use crate::settings::{seen_in, Settings};

verus! {

/// Seconds between polls of the team vault.
pub const POLL_INTERVAL_SECS: u64 = 60;

/// How many recent installs the status keeps.
pub const HISTORY_LEN: usize = 20;

/// One team setup this engine installed.
#[derive(Debug, Clone, PartialEq, Eq)]
pub struct Installed {
    pub id: String,
    pub name: String,
    pub car: String,
    pub track: Option<String>,
    pub action: InstallAction,
    pub at_unix: u64,
}

/// What the engine has installed recently, and whether it is on.
#[derive(Debug, Clone)]
pub struct Status {
    pub enabled: bool,
    /// Newest first.
    pub recent: Vec<Installed>,
}

/// Record a fresh install at the front of the history, keeping at most
/// [`HISTORY_LEN`] entries, newest first.
pub fn push_recent(recent: &mut Vec<Installed>, entry: Installed)
    ensures
        final(recent)@.len() == if old(recent)@.len() + 1 <= HISTORY_LEN {
            old(recent)@.len() + 1
        } else {
            HISTORY_LEN as nat
        },
        final(recent)@.len() <= HISTORY_LEN,
        final(recent)@[0] == entry,
        forall|i: int| 1 <= i < final(recent)@.len() ==> final(recent)@[i] == old(recent)@[i - 1],
{
    let ghost before = recent@;
    recent.insert(0, entry);
    assert(recent@ == before.insert(0, entry));
    recent.truncate(HISTORY_LEN);
}

/// What a sweep does after one install attempt.
#[derive(Debug, Clone, Copy, PartialEq, Eq, Structural)]
pub enum SweepStep {
    /// Go on with the next unseen setup.
    Continue,
    /// Stop this sweep; the rest waits for the next poll.
    Stop,
}

/// The setups of `items` not yet seen, in the order listed — the ones a
/// sweep installs once the seen-set is seeded. An id listed twice stays
/// twice: the sweep asks [`Settings::has_seen`] again before each install.
pub fn unseen(settings: &Settings, items: &Vec<SetupSummary>) -> (r: Vec<SetupSummary>)
    ensures
        r@ == items@.filter(|s: SetupSummary| !settings.has_seen_id(s.id@)),
{
    let ghost keep = |s: SetupSummary| !settings.has_seen_id(s.id@);
    let mut out: Vec<SetupSummary> = Vec::new();
    let mut i: usize = 0;
    while i < items.len()
        invariant
            i <= items@.len(),
            keep == (|s: SetupSummary| !settings.has_seen_id(s.id@)),
            out@ == items@.take(i as int).filter(keep),
        decreases items@.len() - i,
    {
        proof {
            reveal(Seq::filter);
            assert(items@.take(i + 1).drop_last() =~= items@.take(i as int));
            assert(items@.take(i + 1).last() == items@[i as int]);
        }
        if !settings.has_seen(items[i].id.as_str()) {
            let item = copy_summary(&items[i]);
            out.push(item);
        }
        i = i + 1;
    }
    assert(items@.take(items@.len() as int) =~= items@);
    out
}

fn copy_text(s: &Option<String>) -> (r: Option<String>)
    ensures
        r == *s,
{
    match s {
        Some(t) => Some(t.clone()),
        None => None,
    }
}

fn copy_summary(s: &SetupSummary) -> (r: SetupSummary)
    ensures
        r == *s,
{
    SetupSummary {
        id: s.id.clone(),
        name: s.name.clone(),
        car: s.car.clone(),
        track: copy_text(&s.track),
    }
}

/// The ids of `items`, in order.
pub fn ids_of(items: &Vec<SetupSummary>) -> (r: Vec<String>)
    ensures
        r@.len() == items@.len(),
        forall|k: int| 0 <= k < r@.len() ==> #[trigger] r@[k] == items@[k].id,
{
    let mut out: Vec<String> = Vec::new();
    let mut i: usize = 0;
    while i < items.len()
        invariant
            i <= items@.len(),
            out@.len() == i,
            forall|k: int| 0 <= k < i ==> #[trigger] out@[k] == items@[k].id,
        decreases items@.len() - i,
    {
        out.push(items[i].id.clone());
        i = i + 1;
    }
    out
}

/// First run: the seen-set becomes every id in the vault and nothing is
/// installed.
pub fn seed(settings: &mut Settings, items: &Vec<SetupSummary>)
    ensures
        final(settings).team_auto_install_seeded,
        forall|id: Seq<char>|
            final(settings).has_seen_id(id) <==> exists|j: int|
                0 <= j < items@.len() && (#[trigger] items@[j]).id@ == id,
        old(settings).wf() ==> final(settings).wf(),
        final(settings).sim_folders == old(settings).sim_folders,
        forall|sim: crate::sim::Sim| final(settings).folder_of(sim) == old(settings).folder_of(sim),
        final(settings).conflict_policy == old(settings).conflict_policy,
        final(settings).sync_enabled == old(settings).sync_enabled,
        final(settings).team_auto_install_enabled == old(settings).team_auto_install_enabled,
{
    let ids = ids_of(items);
    settings.seed_seen(&ids);
    proof {
        assert forall|id: Seq<char>| seen_in(ids@, id) <==> exists|j: int|
            0 <= j < items@.len() && (#[trigger] items@[j]).id@ == id by {
            if seen_in(ids@, id) {
                let k = choose|k: int| 0 <= k < ids@.len() && (#[trigger] ids@[k])@ == id;
                assert(ids@[k] == items@[k].id);
            }
            if exists|j: int| 0 <= j < items@.len() && (#[trigger] items@[j]).id@ == id {
                let j = choose|j: int| 0 <= j < items@.len() && (#[trigger] items@[j]).id@ == id;
                assert(ids@[j] == items@[j].id);
            }
        }
    }
}

/// Record one install attempt of the team setup `id`: an install marks it
/// seen and the sweep goes on; a sign-out stops the sweep with nothing
/// marked; any other failure leaves it unseen (retried next poll) and the
/// sweep goes on.
pub fn record_install(
    settings: &mut Settings,
    id: String,
    outcome: &Result<InstalledSetup, Error>,
) -> (r: SweepStep)
    ensures
        match outcome {
            Ok(_) => r == SweepStep::Continue && final(settings).has_seen_id(id@) && forall|
                other: Seq<char>,
            |
                #![trigger final(settings).has_seen_id(other)]
                final(settings).has_seen_id(other) <==> old(settings).has_seen_id(other) || other
                    == id@,
            Err(Error::NotLinked) => r == SweepStep::Stop && *final(settings) == *old(settings),
            Err(_) => r == SweepStep::Continue && *final(settings) == *old(settings),
        },
        old(settings).wf() ==> final(settings).wf(),
{
    match outcome {
        Ok(_) => {
            settings.mark_seen(id);
            SweepStep::Continue
        },
        Err(Error::NotLinked) => SweepStep::Stop,
        Err(_) => SweepStep::Continue,
    }
}

/// The history entry for an install.
pub fn installed_entry(item: &SetupSummary, installed: &InstalledSetup, at_unix: u64) -> (r:
    Installed)
    ensures
        r.id == item.id,
        r.name == item.name,
        r.car == item.car,
        r.track == item.track,
        r.action == installed.action,
        r.at_unix == at_unix,
{
    Installed {
        id: item.id.clone(),
        name: item.name.clone(),
        car: item.car.clone(),
        track: copy_text(&item.track),
        action: installed.action,
        at_unix,
    }
}

/// Switching auto-install on does not dump the vault into the sim folders:
/// once the seen-set is seeded from a listing (as [`seed`] leaves it), the
/// same listing holds nothing unseen, so the sweep installs nothing.
pub proof fn law_seeded_listing_installs_nothing(settings: Settings, items: Seq<SetupSummary>)
    requires
        forall|id: Seq<char>|
            settings.has_seen_id(id) <==> exists|j: int|
                0 <= j < items.len() && (#[trigger] items[j]).id@ == id,
    ensures
        items.filter(|s: SetupSummary| !settings.has_seen_id(s.id@)) =~= Seq::<SetupSummary>::empty(),
{
    let keep = |s: SetupSummary| !settings.has_seen_id(s.id@);
    assert forall|j: int| 0 <= j < items.len() implies !keep(#[trigger] items[j]) by {
        assert(settings.has_seen_id(items[j].id@));
    }
    items.lemma_all_neg_filter_empty(keep);
}

} // verus!
