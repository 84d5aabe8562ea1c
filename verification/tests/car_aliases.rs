use pf_core::car_aliases::{apply, normalize, resolve, table};
use pf_core::sim::{all_sims, Sim};

#[test]
fn abbreviated_folder_ids_alias_to_the_site_name() {
    assert_eq!(
        apply(Sim::IRacing, "mercedesw13"),
        "Mercedes-AMG W13 E Performance"
    );
    assert_eq!(apply(Sim::IRacing, "rt2000"), "Skip Barber Formula 2000");
    assert_eq!(
        apply(Sim::IRacing, "MercedesW13"),
        apply(Sim::IRacing, "mercedesw13")
    );
}

#[test]
fn normalize_matching_cars_are_left_alone() {
    for folder in ["ferrari296gt3", "bmwm4gt3", "porsche963gtp", "lotus79"] {
        assert_eq!(resolve(Sim::IRacing, folder), None, "{folder} needs no alias");
        assert_eq!(apply(Sim::IRacing, folder), folder);
    }
}

#[test]
fn unknown_values_pass_through_untouched() {
    for value in ["somenewcar2027", "Ferrari 296 GT3", ""] {
        assert_eq!(apply(Sim::IRacing, value), value);
    }
    assert_eq!(apply(Sim::Acc, "mercedesw13"), "mercedesw13");
    assert_eq!(apply(Sim::Lmu, "mercedesw13"), "mercedesw13");
}

#[test]
fn table_is_exceptions_only_and_unambiguous() {
    for sim in all_sims() {
        let rows = table(sim);
        for (folder, name) in rows.iter() {
            assert_eq!(&normalize(folder), folder, "{folder} is not normalized");
            assert_ne!(
                normalize(folder),
                normalize(name),
                "{folder} normalize-matches {name} — drop it"
            );
        }
        let mut keys: Vec<_> = rows.iter().map(|(f, _)| *f).collect();
        keys.sort_unstable();
        let count = keys.len();
        keys.dedup();
        assert_eq!(keys.len(), count, "duplicate folder id in {:?}", sim.id());
    }
}

#[test]
fn alias_lookup_folds_case_and_punctuation() {
    assert_eq!(
        resolve(Sim::IRacing, "Mercedes-W13"),
        Some("Mercedes-AMG W13 E Performance")
    );
    assert_eq!(resolve(Sim::IRacing, "LAMBORGHINIEVOGT3"), Some("Lamborghini Huracán GT3 EVO"));
    assert_eq!(normalize("Huracán GT3-EVO!"), "huracngt3evo");
}
