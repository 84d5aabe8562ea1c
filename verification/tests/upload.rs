use pf_core::error::Error;
use pf_core::sim::Sim;
use pf_core::upload::{
    check_upload_size, export_size_check, identify_with_cars, locate_in_sim_tree,
    pick_garage_export, relative_components, resolve_car, upload_precheck, CarSource,
    ExportStatus, MAX_UPLOAD_BYTES,
};

fn cars(names: &[&str]) -> Vec<String> {
    names.iter().map(|n| (*n).to_string()).collect()
}

#[test]
fn root_matching_ignores_case_and_separators() {
    let root = r"c:/steam/common/Le Mans Ultimate/UserData";
    let picked = r"C:\Steam\Common\Le Mans Ultimate\USERDATA\Fuji\q.svm";
    assert_eq!(
        relative_components(picked, root),
        Some(vec!["Fuji".to_string(), "q.svm".to_string()])
    );
    assert_eq!(relative_components(r"C:\Elsewhere\q.svm", root), None);
    assert_eq!(relative_components(root, root), None);
}

fn roots(root: &str) -> Vec<(Sim, String)> {
    vec![
        (Sim::IRacing, root.to_string()),
        (Sim::Acc, root.to_string()),
        (Sim::Lmu, root.to_string()),
    ]
}

#[test]
fn identity_reads_car_and_track_off_the_layout() {
    let r = roots("/s");
    let acc = identify_with_cars("/s/ferrari_488_gt3_evo/spa/q.json", &r, &[], &[]);
    assert_eq!(acc.sim, Some(Sim::Acc));
    assert_eq!(acc.car.as_deref(), Some("ferrari_488_gt3_evo"));
    assert_eq!(acc.track.as_deref(), Some("spa"));

    let ir = identify_with_cars("/s/ferrari296gt3/r.sto", &r, &[], &[]);
    assert_eq!(ir.sim, Some(Sim::IRacing));
    assert_eq!(ir.car.as_deref(), Some("ferrari296gt3"));
    assert_eq!(ir.track, None);

    let lmu = identify_with_cars("/s/Fuji/GT3_Balanced.svm", &r, &[], &[]);
    assert_eq!(lmu.sim, Some(Sim::Lmu));
    assert_eq!(lmu.track.as_deref(), Some("Fuji"));
    assert_eq!(lmu.car, None);

    let aliased = identify_with_cars("/s/mercedesw13/q.sto", &r, &[], &[]);
    assert_eq!(aliased.car.as_deref(), Some("Mercedes-AMG W13 E Performance"));
    assert_eq!(aliased.car_source, CarSource::Alias);

    let deep = identify_with_cars("/s/ferrari296gt3/2026s3/r.sto", &r, &[], &[]);
    assert_eq!(deep.car.as_deref(), Some("ferrari296gt3"));
    assert_eq!(deep.track, None);

    let outside = identify_with_cars(r"C:\Users\x\Desktop\q.json", &r, &[], &[]);
    assert_eq!(outside.sim, Some(Sim::Acc));
    assert_eq!(outside.car, None);
    assert_eq!(outside.car_source, CarSource::Folder);

    let zip = identify_with_cars("/s/car/pack.zip", &r, &[], &[]);
    assert_eq!(zip.sim, None);
    assert_eq!(zip.filename, "pack.zip");
}

#[test]
fn car_resolution_prefers_alias_then_exact_then_match() {
    let known = cars(&["Mercedes-AMG W14 E Performance", "Ferrari 296 GT3"]);
    assert_eq!(
        resolve_car(Sim::IRacing, "mercedesw14", &known),
        ("Mercedes-AMG W14 E Performance".to_string(), CarSource::Matched)
    );
    assert_eq!(
        resolve_car(Sim::IRacing, "ferrari296gt3", &known),
        ("Ferrari 296 GT3".to_string(), CarSource::Exact)
    );
    assert_eq!(
        resolve_car(Sim::IRacing, "somenewcar2027", &known),
        ("somenewcar2027".to_string(), CarSource::Folder)
    );
    // The alias target is on the list: the alias wins over any guess.
    let known = cars(&["Porsche 911 GT3 Cup (991)", "Porsche 911 Cup (992.2)"]);
    assert_eq!(
        resolve_car(Sim::IRacing, "porsche911cup", &known),
        ("Porsche 911 GT3 Cup (991)".to_string(), CarSource::Alias)
    );
    // Renamed on the site: the matcher gets its turn.
    let known = cars(&["Mercedes-AMG W13 E Performance (2023)", "Ferrari 296 GT3"]);
    assert_eq!(
        resolve_car(Sim::IRacing, "mercedesw13", &known),
        ("Mercedes-AMG W13 E Performance (2023)".to_string(), CarSource::Matched)
    );
    // Renamed and nothing matches: the stale alias is still closer.
    let known = cars(&["Ferrari 296 GT3"]);
    assert_eq!(
        resolve_car(Sim::IRacing, "mercedesw13", &known),
        ("Mercedes-AMG W13 E Performance".to_string(), CarSource::Alias)
    );
}

#[test]
fn garage_export_matching_ignores_case_and_prefers_htm() {
    let sibs = cars(&["/s/car/quali_spa.HTML", "/s/car/QUALI_SPA.htm", "/s/car/Quali_Spa.sto"]);
    assert_eq!(
        pick_garage_export("/s/car/Quali_Spa.sto", Sim::IRacing, &sibs),
        Some("/s/car/QUALI_SPA.htm".to_string())
    );
    let sibs = cars(&["/s/car/quali_spa.html"]);
    assert_eq!(
        pick_garage_export("/s/car/Quali_Spa.sto", Sim::IRacing, &sibs),
        Some("/s/car/quali_spa.html".to_string())
    );
    assert_eq!(pick_garage_export("/s/car/Quali_Spa.json", Sim::Acc, &sibs), None);
    assert_eq!(pick_garage_export("/s/car/q.sto", Sim::IRacing, &sibs), None);
    let id = identify_with_cars(
        "/s/ferrari296gt3/quali.sto",
        &roots("/s"),
        &[],
        &cars(&["/s/ferrari296gt3/quali.txt", "/s/ferrari296gt3/quali.htm", "/s/ferrari296gt3/race.htm"]),
    );
    assert_eq!(id.garage_export.as_deref(), Some("/s/ferrari296gt3/quali.htm"));
}

#[test]
fn upload_prechecks_refuse_before_reading() {
    assert_eq!(upload_precheck("/s/car/q.sto", Sim::IRacing, None).unwrap(), "q.sto");
    match upload_precheck("/s/q.svm", Sim::Lmu, Some("  ")) {
        Err(Error::Api(m)) => assert_eq!(
            m,
            "Le Mans Ultimate files setups by track, so this upload needs a track before it can be shared"
        ),
        other => panic!("unexpected {other:?}"),
    }
    match upload_precheck("/s/..", Sim::IRacing, None) {
        Err(Error::Api(m)) => assert_eq!(m, "not a file: /s/.."),
        other => panic!("unexpected {other:?}"),
    }
    assert!(check_upload_size("q.sto", MAX_UPLOAD_BYTES).is_ok());
    match check_upload_size("big.sto", MAX_UPLOAD_BYTES + 1) {
        Err(Error::Api(m)) => assert_eq!(
            m,
            "big.sto is 2097153 bytes — setup files are a few KB, so this doesn't look like one (limit 2097152)"
        ),
        other => panic!("unexpected {other:?}"),
    }
    assert_eq!(export_size_check("e.htm", 10), None);
    assert_eq!(
        export_size_check("big.htm", 3_000_000),
        Some(ExportStatus::Failed(
            "big.htm is 3000000 bytes — too large for a garage export (limit 2097152)".to_string()
        ))
    );
}

#[test]
fn locating_needs_a_known_root() {
    assert_eq!(locate_in_sim_tree("/s/car/q.sto", Sim::IRacing, None), (None, None));
    assert_eq!(locate_in_sim_tree("/s/q.sto", Sim::IRacing, Some("/s")), (None, None));
    assert_eq!(
        locate_in_sim_tree("/S/Car/Track/q.json", Sim::Acc, Some("/s")),
        (Some("Car".to_string()), Some("Track".to_string()))
    );
}
