use pf_core::error::Error;
use pf_core::paths::{
    default_setups_dir, parse_library_paths, resolve_setups_dir, safe_component,
    setup_target_dir, setups_dir_candidate, sim_folder_status, steam_root_candidates,
};
use pf_core::sim::Sim;

#[test]
fn default_dir_is_sim_specific() {
    let docs = Some("/home/u/Documents");
    let iracing = default_setups_dir(Sim::IRacing, docs, None).expect("home/profile dir exists in test env");
    assert!(iracing.ends_with("setups"));
    assert!(iracing.contains("iRacing"));

    let acc = default_setups_dir(Sim::Acc, docs, None).expect("home/profile dir exists in test env");
    assert!(acc.contains("Assetto Corsa Competizione"));
}

#[test]
fn target_dir_follows_per_sim_layout() {
    let base = "/setups";
    assert_eq!(
        setup_target_dir(base, Sim::IRacing, "ferrari296gt3", Some("spa")),
        "/setups/ferrari296gt3"
    );
    assert_eq!(setup_target_dir(base, Sim::Lmu, "ferrari_499p", Some("Fuji")), "/setups/Fuji");
    assert_eq!(setup_target_dir(base, Sim::Lmu, "ferrari_499p", None), base);
    assert_eq!(
        setup_target_dir(base, Sim::Acc, "ferrari_488_gt3_evo", Some("spa")),
        "/setups/ferrari_488_gt3_evo/spa"
    );
    assert_eq!(
        setup_target_dir(base, Sim::Acc, "ferrari_488_gt3_evo", None),
        "/setups/ferrari_488_gt3_evo"
    );
}

#[test]
fn library_paths_are_scraped_and_unescaped() {
    let vdf = r#"
"libraryfolders"
{
	"0"
	{
		"path"		"C:\\Program Files (x86)\\Steam"
		"totalsize"		"0"
	}
	"1"
	{
		"path"		"F:\\SteamLibrary"
	}
}"#;
    assert_eq!(
        parse_library_paths(vdf),
        vec![
            r"C:\Program Files (x86)\Steam".to_string(),
            r"F:\SteamLibrary".to_string(),
        ]
    );
    assert!(parse_library_paths("junk").is_empty());
}

#[test]
fn target_dir_sanitizes_traversal_in_car_and_track() {
    let base = "/setups";
    assert_eq!(
        setup_target_dir(base, Sim::Acc, "../../etc", Some("../../passwd")),
        "/setups/etc/passwd"
    );
    assert_eq!(setup_target_dir(base, Sim::IRacing, "", None), base);
}

#[test]
fn resolve_uses_existing_override_and_rejects_missing() {
    assert_eq!(resolve_setups_dir("/tmp".to_string(), true).unwrap(), "/tmp");
    assert!(matches!(
        resolve_setups_dir("/tmp/pf-core-definitely-missing-xyz".to_string(), false),
        Err(Error::SetupsDirNotFound(p)) if p == "/tmp/pf-core-definitely-missing-xyz"
    ));
}

#[test]
fn folder_status_reports_existence_and_override() {
    let s = sim_folder_status(Sim::Acc, Some("/tmp".to_string()), None, true);
    assert!(s.found);
    assert!(s.overridden);
    assert_eq!(s.dir.as_deref(), Some("/tmp"));

    let s = sim_folder_status(Sim::Lmu, Some("/tmp/pf-core-missing-status-xyz".to_string()), None, false);
    assert!(!s.found);
    assert!(s.overridden);

    let s = sim_folder_status(Sim::IRacing, None, None, true);
    assert!(!s.found && !s.overridden && s.dir.is_none());
}

#[test]
fn default_dirs_need_their_base() {
    assert!(matches!(
        default_setups_dir(Sim::Lmu, Some("/docs"), None),
        Err(Error::SetupsDirNotFound(m)) if m == "no Le Mans Ultimate install in any of your Steam libraries"
    ));
    assert!(matches!(
        default_setups_dir(Sim::Acc, None, Some("/games/lmu")),
        Err(Error::NotImplemented("paths::documents_dir (unsupported platform)"))
    ));
    assert_eq!(
        default_setups_dir(Sim::Lmu, None, Some("/g")).unwrap(),
        "/g/Le Mans Ultimate/UserData/player/Settings"
    );
    assert_eq!(
        setups_dir_candidate(Sim::Acc, Some("D:\\acc".to_string()), None, None).unwrap(),
        "D:\\acc"
    );
}

#[test]
fn safe_components_and_steam_roots() {
    assert_eq!(safe_component("../x"), Some("x".to_string()));
    assert_eq!(safe_component(".."), None);
    assert_eq!(
        steam_root_candidates("/home/u"),
        vec![
            "/home/u/.steam/steam".to_string(),
            "/home/u/.local/share/Steam".to_string(),
            "/home/u/.steam/root".to_string(),
        ]
    );
}
