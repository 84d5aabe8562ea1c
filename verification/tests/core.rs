use pf_core::auth::{
    delete_outcome, flow_outcome, linked_from_lookup, require_token, secret_from_lookup, sign_out,
    store_outcome, store_token, token_from_lookup, FlowOutcome, KeychainError,
};
use pf_core::api::TokenPoll;
use pf_core::cars::{names_for_rows, CarRow};
use pf_core::commands::{equip_outcome, invalid_link_error, CmdError, EquipOutcome, InstalledSetupDto};
use pf_core::download::{InstallAction, InstalledSetup};
use pf_core::error::Error;
use pf_core::lmu::{frame_is_due, lap_limit, PitMenuItem, PitMenuSetting};
use pf_core::session::{
    check_share_name, dir, gzip, list, recording_name, session_start_of, Session, Tally,
};
use pf_core::settings::{default_path, Settings};
use pf_core::sim::Sim;
use pf_core::sync::{
    pending_sessions, push_step, record_step, worth_pushing, Live, PushStep, RecordAction,
    RecordEvent,
};
use pf_core::team_sync::{push_recent, record_install, seed, unseen, Installed, SweepStep, HISTORY_LEN};
use pf_core::api::{SetupSummary, UploadResult};
use pf_core::{ping, CORE_VERSION};

#[test]
fn ping_echoes_message_and_tags_version() {
    let pong = ping("hello from React");
    assert!(pong.message.contains("hello from React"));
    assert_eq!(pong.core_version, "0.2.6");
    assert_eq!(pong.message, "pong: hello from React");
    assert_eq!(CORE_VERSION, "0.2.6");
}

#[test]
fn errors_have_stable_kinds_and_messages() {
    assert_eq!(Error::NotLinked.kind(), "not_linked");
    assert_eq!(Error::Http("x".into()).kind(), "network");
    assert_eq!(Error::Io("disk".into()).message(), "i/o error: disk");
    assert_eq!(
        Error::NotLinked.message(),
        "not connected — link this device to your Parc Fermé account first"
    );
    assert_eq!(
        Error::NotImplemented("f").message(),
        "not yet implemented: f"
    );
    let e = CmdError::from_error(&Error::SetupsDirNotFound("/x".into()));
    assert_eq!(e.kind, "setups_dir_not_found");
    assert_eq!(e.message, "setups folder not found: /x");
    assert_eq!(invalid_link_error().kind, "invalid_link");
}

#[test]
fn frame_pacing_is_independent_of_the_games_event_rate() {
    let period: u64 = 100_000_000;
    let start: u64 = 1_000_000_000;
    let mut next_due = start;
    let mut frames = 0;
    for tick in 0..50u64 {
        let now = start + 20_000_000 * tick;
        if frame_is_due(&mut next_due, now, period) {
            frames += 1;
        }
    }
    assert_eq!(frames, 10, "one second of 50 Hz events must yield 10 frames");
}

#[test]
fn a_stall_does_not_fire_a_burst_of_catch_up_frames() {
    let period: u64 = 100_000_000;
    let start: u64 = 7;
    let mut next_due = start;
    assert!(frame_is_due(&mut next_due, start, period));
    let after = start + 5_000_000_000;
    assert!(frame_is_due(&mut next_due, after, period));
    assert!(!frame_is_due(&mut next_due, after, period));
    assert!(frame_is_due(&mut next_due, after + period, period));
}

#[test]
fn lap_limit_reads_the_no_limit_sentinel() {
    assert_eq!(lap_limit(Some(u32::MAX)), None);
    assert_eq!(lap_limit(Some(0)), None);
    assert_eq!(lap_limit(Some(24)), Some(24));
    assert_eq!(lap_limit(None), None);
}

#[test]
fn the_pit_menu_selection_resolves_to_text() {
    let item = PitMenuItem {
        name: Some("TIRES:".into()),
        current_setting: Some(1),
        settings: vec![
            PitMenuSetting { text: Some("No Change".into()) },
            PitMenuSetting { text: Some("New Medium".into()) },
        ],
    };
    assert_eq!(item.selected(), Some("New Medium"));
    let empty = PitMenuItem { name: None, current_setting: Some(0), settings: vec![] };
    assert_eq!(empty.selected(), None);
}

#[test]
fn session_names_are_parsed_and_listed_newest_first() {
    assert_eq!(recording_name(1757203200), "session-1757203200.jsonl");
    assert_eq!(session_start_of("session-1757203200.jsonl"), Some(1757203200));
    assert_eq!(session_start_of("session-+5.jsonl"), Some(5));
    assert_eq!(session_start_of("session-.jsonl"), None);
    assert_eq!(session_start_of("session-99999999999999999999.jsonl"), None);
    assert_eq!(session_start_of("notes.txt"), None);
    let listed = list(vec![
        ("session-10.jsonl".to_string(), 5),
        ("other.jsonl".to_string(), 1),
        ("session-30.jsonl".to_string(), 7),
        ("session-20.jsonl".to_string(), 6),
    ]);
    let starts: Vec<u64> = listed.iter().map(|s| s.started_unix).collect();
    assert_eq!(starts, vec![30, 20, 10]);
    assert_eq!(listed[0].bytes, 7);
    assert_eq!(dir(Some("/la")).unwrap(), "/la/cc.parcferme.desktop/sessions");
    assert!(matches!(dir(None), Err(Error::Io(m)) if m == "LOCALAPPDATA is not set"));
}

#[test]
fn share_refuses_anything_that_is_not_a_bare_file_name() {
    for name in ["", "..", "../secrets.jsonl", "sub/dir.jsonl", r"a\b.jsonl"] {
        let err = check_share_name(name).expect_err(name);
        assert!(matches!(err, Error::Api(_)), "{name} should be rejected by name, got {err:?}");
    }
    assert!(check_share_name("session-1.jsonl").is_ok());
}

#[test]
fn settings_folders_read_back_what_was_written() {
    let mut s = Settings::new();
    assert_eq!(s.folder(Sim::Acc), None);
    s.set_folder(Sim::Acc, "D:\\sims\\acc\\Setups".to_string());
    s.set_folder(Sim::Lmu, "/lmu".to_string());
    s.set_folder(Sim::Acc, "E:\\acc".to_string());
    assert_eq!(s.folder(Sim::Acc).as_deref(), Some("E:\\acc"));
    assert_eq!(s.folder(Sim::Lmu).as_deref(), Some("/lmu"));
    assert_eq!(s.folders().len(), 2);
    s.clear_folder(Sim::Lmu);
    assert_eq!(s.folder(Sim::Lmu), None);
    assert_eq!(
        default_path(Some("/home/u/.config")).unwrap(),
        "/home/u/.config/cc.parcferme.desktop/settings.json"
    );
    assert!(matches!(default_path(None), Err(Error::NotImplemented(_))));
}

fn summary(id: &str) -> SetupSummary {
    SetupSummary { id: id.into(), name: format!("n{id}"), car: "c".into(), track: None }
}

fn installed() -> InstalledSetup {
    InstalledSetup {
        path: "/s/c/q.sto".into(),
        action: InstallAction::Installed,
        sim: Sim::IRacing,
        car: "c".into(),
        track: None,
        name: None,
    }
}

#[test]
fn team_sweep_seeds_then_installs_only_new_setups() {
    let mut s = Settings::new();
    let vault = vec![summary("a"), summary("b")];
    seed(&mut s, &vault);
    assert!(s.team_auto_install_seeded);
    assert!(s.has_seen("a") && s.has_seen("b"));
    assert!(unseen(&s, &vault).is_empty());
    let later = vec![summary("a"), summary("c"), summary("b"), summary("d")];
    let fresh: Vec<String> = unseen(&s, &later).into_iter().map(|x| x.id).collect();
    assert_eq!(fresh, vec!["c".to_string(), "d".to_string()]);
    assert_eq!(record_install(&mut s, "c".into(), &Ok(installed())), SweepStep::Continue);
    assert!(s.has_seen("c"));
    assert_eq!(record_install(&mut s, "d".into(), &Err(Error::NotLinked)), SweepStep::Stop);
    assert!(!s.has_seen("d"));
    assert_eq!(record_install(&mut s, "d".into(), &Err(Error::Http("x".into()))), SweepStep::Continue);
    assert!(!s.has_seen("d"));
}

#[test]
fn recent_history_is_newest_first_and_bounded() {
    let mut recent: Vec<Installed> = Vec::new();
    for i in 0..25u64 {
        push_recent(
            &mut recent,
            Installed {
                id: i.to_string(),
                name: "n".into(),
                car: "c".into(),
                track: None,
                action: InstallAction::Installed,
                at_unix: i,
            },
        );
    }
    assert_eq!(recent.len(), HISTORY_LEN);
    assert_eq!(recent[0].at_unix, 24);
    assert_eq!(recent[HISTORY_LEN - 1].at_unix, 5);
}

#[test]
fn sync_pushes_and_waits_as_it_should() {
    let sessions = vec![
        Session { file: "session-2.jsonl".into(), started_unix: 2, bytes: 9000 },
        Session { file: "session-1.jsonl".into(), started_unix: 1, bytes: 10 },
    ];
    let pending = pending_sessions(sessions, Some("session-2.jsonl"));
    assert_eq!(pending.len(), 1);
    assert_eq!(pending[0].file, "session-1.jsonl");
    assert!(!worth_pushing(10));
    assert!(worth_pushing(4096));
    match push_step("f", 3, Ok(UploadResult { id: "i".into(), url: "https://u".into() })) {
        PushStep::Pushed(p) => assert_eq!(p.url.as_deref(), Some("https://u")),
        other => panic!("unexpected {other:?}"),
    }
    assert!(matches!(push_step("f", 3, Err(Error::NotLinked)), PushStep::Wait));
    match push_step("f", 3, Err(Error::Api("down".into()))) {
        PushStep::Failed(p) => assert_eq!(p.error.as_deref(), Some("api error: down")),
        other => panic!("unexpected {other:?}"),
    }
}

#[test]
fn toasts_word_each_outcome() {
    let mut dto = InstalledSetupDto::from_installed(installed());
    assert_eq!(dto.sim, "iRacing");
    assert_eq!(dto.sim_id, "iracing");
    assert_eq!(
        dto.toast(),
        ("Equipped ✓".to_string(), "“q.sto” → iRacing · c".to_string())
    );
    dto.action = InstallAction::AlreadyInstalled;
    dto.name = Some("Baseline".into());
    dto.track = Some("spa".into());
    assert_eq!(
        dto.toast(),
        (
            "Already in your garage ✓".to_string(),
            "“Baseline” is already installed — iRacing · c · spa.".to_string()
        )
    );
    dto.action = InstallAction::KeptBoth;
    dto.car = String::new();
    assert_eq!(dto.toast().0, "Equipped ✓ (kept your existing file)");
    assert_eq!(dto.toast().1, "“Baseline” → iRacing · spa");
    match equip_outcome(Err(Error::AccessDenied)) {
        EquipOutcome::Error { kind, message } => {
            assert_eq!(kind, "access_denied");
            assert_eq!(message, "you don't have access to this setup");
        }
        EquipOutcome::Installed(_) => panic!("expected an error"),
    }
}

#[test]
fn car_suggestions_are_filtered_sorted_and_unique() {
    let row = |sim: Option<&str>, name: &str| CarRow {
        sim: sim.map(|s| s.to_string()),
        name: name.to_string(),
    };
    let rows = vec![
        row(Some("iracing"), "ARCA Chevrolet SS"),
        row(Some("iracing"), "Acura ARX-06 GTP"),
        row(Some("acc"), "Ferrari 488 GT3 Evo"),
        row(None, "Untagged Car"),
        row(Some("iracing"), "ARCA Chevrolet SS"),
        row(Some("iracing"), "   "),
        row(Some("lemans"), "Mystery"),
    ];
    assert_eq!(
        names_for_rows(&rows, Sim::IRacing),
        vec![
            "ARCA Chevrolet SS".to_string(),
            "Acura ARX-06 GTP".to_string(),
            "Mystery".to_string(),
            "Untagged Car".to_string(),
        ]
    );
    assert_eq!(
        names_for_rows(&rows, Sim::Acc),
        vec![
            "Ferrari 488 GT3 Evo".to_string(),
            "Mystery".to_string(),
            "Untagged Car".to_string()
        ]
    );
}

#[test]
fn keychain_answers_are_read_exactly() {
    assert!(matches!(secret_from_lookup(Ok("s".into())), Ok(Some(t)) if t == "s"));
    assert!(matches!(secret_from_lookup(Err(KeychainError::NoEntry)), Ok(None)));
    assert!(matches!(
        secret_from_lookup(Err(KeychainError::Failed("locked".into()))),
        Err(Error::Keychain(m)) if m == "locked"
    ));
    assert!(delete_outcome(Err(KeychainError::NoEntry)).is_ok());
    assert!(matches!(require_token(None), Err(Error::NotLinked)));
    assert!(matches!(flow_outcome(TokenPoll::SlowDown), FlowOutcome::SlowDown));
    // Whatever the platform store does, the only failure is a keychain one.
    for r in [store_token("secret-123"), sign_out()] {
        assert!(matches!(r, Ok(()) | Err(Error::Keychain(_))));
    }
}

#[test]
fn keychain_lookups_mean_token_link_and_write_outcomes() {
    match token_from_lookup(Ok("tok-1".into())) {
        Ok(Some(t)) => assert_eq!(t.as_str(), "tok-1"),
        _ => panic!("a stored secret is the token"),
    }
    assert!(matches!(token_from_lookup(Err(KeychainError::NoEntry)), Ok(None)));
    assert!(matches!(
        token_from_lookup(Err(KeychainError::Failed("denied".into()))),
        Err(Error::Keychain(m)) if m == "denied"
    ));
    assert!(matches!(linked_from_lookup(Ok("tok-1".into())), Ok(true)));
    assert!(matches!(linked_from_lookup(Err(KeychainError::NoEntry)), Ok(false)));
    assert!(matches!(
        linked_from_lookup(Err(KeychainError::Failed("denied".into()))),
        Err(Error::Keychain(m)) if m == "denied"
    ));
    assert!(store_outcome(Ok(())).is_ok());
    assert!(matches!(store_outcome(Err("full".into())), Err(Error::Keychain(m)) if m == "full"));
    assert!(matches!(
        delete_outcome(Err(KeychainError::Failed("busy".into()))),
        Err(Error::Keychain(m)) if m == "busy"
    ));
}

#[test]
fn gzip_compresses_and_round_trips() {
    let data = b"{\"t_ms\":0}\n{\"t_ms\":100}\n".repeat(50);
    let z = gzip(&data);
    assert_eq!(&z[..2], &[0x1f, 0x8b]);
    assert!(z.len() < data.len());
    let mut back = Vec::new();
    std::io::Read::read_to_end(&mut flate2::read::GzDecoder::new(&z[..]), &mut back).unwrap();
    assert_eq!(back, data);
}

#[test]
fn unseen_keeps_the_listed_order() {
    let mut s = Settings::new();
    seed(&mut s, &vec![summary("b")]);
    let later = vec![summary("c"), summary("b"), summary("a"), summary("c")];
    let fresh: Vec<String> = unseen(&s, &later).into_iter().map(|x| x.id).collect();
    assert_eq!(fresh, vec!["c".to_string(), "a".to_string(), "c".to_string()]);
}

#[test]
fn recording_keeps_the_first_names_and_stops_when_it_should() {
    let live = Live {
        file: "session-1.jsonl".into(),
        started_unix: 1,
        frames: 0,
        car: String::new(),
        track: String::new(),
    };
    let (live, act) = record_step(
        live,
        RecordEvent::Frame { frames: 1, car: String::new(), track: String::new() },
    );
    assert_eq!(act, RecordAction::Continue);
    assert_eq!(live.car, "");
    let (live, _) = record_step(
        live,
        RecordEvent::Frame { frames: 2, car: "Ferrari 499P".into(), track: "Le Mans".into() },
    );
    let (live, _) = record_step(
        live,
        RecordEvent::Frame { frames: 3, car: "Other".into(), track: "Elsewhere".into() },
    );
    assert_eq!((live.frames, live.car.as_str(), live.track.as_str()), (3, "Ferrari 499P", "Le Mans"));
    assert_eq!(live.file, "session-1.jsonl");
    let (live, act) = record_step(live, RecordEvent::Quiet { running: true });
    assert_eq!(act, RecordAction::Continue);
    let (live, act) = record_step(live, RecordEvent::Quiet { running: false });
    assert_eq!(act, RecordAction::Stop);
    let (_, act) = record_step(live, RecordEvent::WriteFailed);
    assert_eq!(act, RecordAction::Stop);
}

#[test]
fn tally_reads_names_frames_and_duration() {
    let mut t = Tally::new();
    assert_eq!(t.duration_ms(), 0);
    t.add_frame(0, "", "");
    t.add_frame(1_000, "Ferrari 499P", "Le Mans 24h");
    t.add_frame(2_500, "", "Other");
    assert_eq!(t.frames, 3);
    assert_eq!(t.car, "Ferrari 499P");
    assert_eq!(t.track, "Le Mans 24h");
    assert_eq!(t.first_t_ms, Some(0));
    assert_eq!(t.duration_ms(), 2_500);
}

#[test]
fn a_frame_not_yet_due_needs_no_headroom() {
    let mut next = u64::MAX;
    assert!(!frame_is_due(&mut next, 5, u64::MAX));
    assert_eq!(next, u64::MAX);
}
