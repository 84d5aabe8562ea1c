use pf_core::sim::{all_sims, Sim};

#[test]
fn id_round_trips_and_matches_all() {
    for sim in all_sims() {
        assert_eq!(Sim::from_id(sim.id()), Some(sim));
    }
    assert_eq!(Sim::from_id("nope"), None);
    assert_eq!(Sim::from_id(" ACC "), Some(Sim::Acc));
    assert_eq!(Sim::from_id("iRacing"), Some(Sim::IRacing));
}

#[test]
fn extension_maps_to_the_sim_that_loads_it() {
    assert_eq!(Sim::from_extension("sto"), Some(Sim::IRacing));
    assert_eq!(Sim::from_extension(".JSON"), Some(Sim::Acc));
    assert_eq!(Sim::from_extension("svm"), Some(Sim::Lmu));
    assert_eq!(Sim::from_extension("zip"), None);

    assert_eq!(Sim::from_filename("quali_spa.json"), Some(Sim::Acc));
    assert_eq!(Sim::from_filename("baseline.sto"), Some(Sim::IRacing));
    assert_eq!(Sim::from_filename("no_extension"), None);
}

#[test]
fn setups_root_is_sim_specific_and_under_documents() {
    let docs = "/home/u/Documents";
    let iracing = Sim::IRacing.setups_root(docs);
    assert!(iracing.ends_with("setups"));
    assert!(iracing.starts_with(docs));

    let acc = Sim::Acc.setups_root(docs);
    assert!(acc.ends_with("Setups"));
    assert!(acc.contains("Assetto Corsa Competizione"));

    let lmu = Sim::Lmu.setups_root(docs);
    assert!(lmu.ends_with("Settings"));
    assert!(lmu.contains("Le Mans Ultimate"));
}

#[test]
fn only_acc_needs_a_track_subfolder() {
    assert!(Sim::Acc.needs_track_subfolder());
    assert!(!Sim::IRacing.needs_track_subfolder());
    assert!(!Sim::Lmu.needs_track_subfolder());
}

#[test]
fn default_is_iracing() {
    assert_eq!(Sim::default(), Sim::IRacing);
}

#[test]
fn setups_roots_are_exact_paths() {
    assert_eq!(Sim::IRacing.setups_root("/d"), "/d/iRacing/setups");
    assert_eq!(
        Sim::Acc.setups_root("C:\\Users\\x\\Documents\\"),
        "C:\\Users\\x\\Documents\\Assetto Corsa Competizione/Setups"
    );
    assert_eq!(
        Sim::Lmu.setups_root("/games/LMU"),
        "/games/LMU/Le Mans Ultimate/UserData/player/Settings"
    );
    assert_eq!(
        Sim::Lmu.setups_root("/lib/steamapps/common/le mans ultimate"),
        "/lib/steamapps/common/le mans ultimate/UserData/player/Settings"
    );
    assert_eq!(Sim::IRacing.display_name(), "iRacing");
    assert_eq!(Sim::Lmu.id(), "lmu");
}

#[test]
fn track_folders_and_layouts_agree() {
    assert!(!Sim::IRacing.needs_track_folder());
    assert!(Sim::Acc.needs_track_folder());
    assert!(Sim::Lmu.needs_track_folder());
    assert_eq!(Sim::Acc.layout().len(), 2);
    assert_eq!(Sim::from_filename("dir.v2/setup"), None);
    assert_eq!(Sim::from_filename(".sto"), None);
    assert_eq!(Sim::from_filename("a\\b\\race.SVM"), Some(Sim::Lmu));
}
