use pf_core::api::DownloadInfo;
use pf_core::auth::token_from_lookup;
use pf_core::download::InstallAction;
use pf_core::error::Error;
use pf_core::install::{equip_start, install_next, install_start, InstallEvent, InstallStep};
use pf_core::sim::Sim;

fn info() -> DownloadInfo {
    DownloadInfo {
        url: "https://files.example/abc".to_string(),
        filename: "race.sto".to_string(),
        sim: None,
        car: "ferrari296gt3".to_string(),
        track: Some("spa".to_string()),
        name: Some("Quali".to_string()),
    }
}

#[test]
fn no_stored_token_ends_before_any_request() {
    let step = install_start("abc");
    assert!(matches!(&step, InstallStep::ReadToken { setup_id } if setup_id == "abc"));
    let end = install_next(step, InstallEvent::Token(Ok(None)));
    assert!(matches!(end, InstallStep::Done(Err(Error::NotLinked))));
}

#[test]
fn an_install_walks_token_info_folder_and_write() {
    let token = token_from_lookup(Ok("tok".to_string())).unwrap().unwrap();
    let step = install_next(install_start("abc"), InstallEvent::Token(Ok(Some(token))));
    match &step {
        InstallStep::FetchInfo { setup_id, token } => {
            assert_eq!(setup_id, "abc");
            assert_eq!(token.as_str(), "tok");
        }
        _ => panic!("a token leads to the server request"),
    }
    let step = install_next(step, InstallEvent::Info(Ok(info())));
    assert!(matches!(&step, InstallStep::FindDir { sim: Sim::IRacing, .. }));
    let step = install_next(step, InstallEvent::Dir(Ok("/setups".to_string())));
    match &step {
        InstallStep::Write { target_dir, sim, .. } => {
            assert_eq!(target_dir, "/setups/ferrari296gt3");
            assert_eq!(*sim, Sim::IRacing);
        }
        _ => panic!("the folder leads to the write"),
    }
    let end = install_next(
        step,
        InstallEvent::Written(Ok(("/setups/ferrari296gt3/race.sto".to_string(), InstallAction::Installed))),
    );
    match end {
        InstallStep::Done(Ok(s)) => {
            assert_eq!(s.path, "/setups/ferrari296gt3/race.sto");
            assert_eq!(s.action, InstallAction::Installed);
            assert_eq!(s.sim, Sim::IRacing);
            assert_eq!(s.car, "ferrari296gt3");
            assert_eq!(s.track.as_deref(), Some("spa"));
            assert_eq!(s.name.as_deref(), Some("Quali"));
        }
        _ => panic!("the write ends the install"),
    }
}

#[test]
fn outside_errors_end_the_install_and_stray_answers_change_nothing() {
    let end = install_next(install_start("abc"), InstallEvent::Token(Err(Error::Keychain("locked".into()))));
    assert!(matches!(end, InstallStep::Done(Err(Error::Keychain(m))) if m == "locked"));
    let same = install_next(install_start("abc"), InstallEvent::Dir(Ok("/x".into())));
    assert!(matches!(same, InstallStep::ReadToken { setup_id } if setup_id == "abc"));
    let done = install_next(InstallStep::Done(Err(Error::NotLinked)), InstallEvent::Token(Ok(None)));
    assert!(matches!(done, InstallStep::Done(Err(Error::NotLinked))));
}

#[test]
fn an_equip_link_starts_the_install_it_names_or_ends_with_its_error() {
    let id = "0b8f6a9e-5c2d-4e7f-9a1b-3c4d5e6f7a8b";
    let step = equip_start(&format!("parcferme://equip?setup={id}"));
    assert!(matches!(&step, InstallStep::ReadToken { setup_id } if setup_id == id));
    let step = equip_start("https://example.com");
    assert!(matches!(step, InstallStep::Done(Err(Error::Api(_)))));
}
