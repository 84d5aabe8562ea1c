use pf_core::download::{
    checked_filename, extract_setup_uuid, next_placement, numbered_name, sanitize_filename,
    slot_name, temp_name, too_many_copies, InstallAction, Placement, Probe,
};
use pf_core::error::Error;
use pf_core::settings::ConflictPolicy;

#[test]
fn sanitize_strips_path_traversal() {
    assert_eq!(sanitize_filename("../../evil.sto"), "evil.sto");
    assert_eq!(sanitize_filename(r"C:\Windows\system32\x.sto"), "x.sto");
    assert_eq!(sanitize_filename("setup.sto"), "setup.sto");
}

#[test]
fn numbered_name_handles_extensions() {
    assert_eq!(numbered_name("q.sto", 2), "q (2).sto");
    assert_eq!(numbered_name("no_ext", 3), "no_ext (3)");
    assert_eq!(numbered_name(".hidden", 2), ".hidden (2)");
}

#[test]
fn extract_setup_uuid_from_url_or_bare() {
    let uuid = "3f8a1c2d-1234-4abc-89ef-0123456789ab";
    assert_eq!(
        extract_setup_uuid(&format!("https://www.parcferme.cc/setups/{uuid}")),
        Some(uuid.to_string())
    );
    assert_eq!(
        extract_setup_uuid(&format!("https://www.parcferme.cc/setups/{uuid}?v=2#notes")),
        Some(uuid.to_string())
    );
    assert_eq!(extract_setup_uuid(&format!("  {uuid}  ")), Some(uuid.to_string()));
    assert_eq!(extract_setup_uuid("https://www.parcferme.cc/setups/"), None);
    assert_eq!(extract_setup_uuid("not a setup link"), None);
}

#[test]
fn sanitized_names_never_hold_separators_or_dot_pairs() {
    for name in ["a/b\\..\\...sto", "....", " ..x.. ", "..\\..\\", "x/../y", ".. ..."] {
        let safe = sanitize_filename(name);
        assert!(!safe.contains('/') && !safe.contains('\\'), "{name:?} -> {safe:?}");
        assert!(!safe.contains(".."), "{name:?} -> {safe:?}");
    }
    assert_eq!(sanitize_filename("...."), "");
    assert_eq!(sanitize_filename("a...b"), "a.b");
    assert_eq!(sanitize_filename("  spaced.sto  "), "spaced.sto");
}

#[test]
fn unusable_filenames_are_refused_by_name() {
    match checked_filename("///") {
        Err(Error::Api(m)) => assert_eq!(m, "server supplied an unusable filename: \"///\""),
        other => panic!("unexpected {other:?}"),
    }
    assert_eq!(checked_filename("../q.sto").unwrap(), "q.sto");
    assert_eq!(temp_name("q.sto"), ".q.sto.part");
}

#[test]
fn placement_walks_numbered_siblings_under_keep_both() {
    let p = ConflictPolicy::KeepBoth;
    assert_eq!(
        next_placement(p, 1, Probe::Missing),
        Placement::Move { slot: 1, action: InstallAction::Installed }
    );
    assert_eq!(next_placement(p, 1, Probe::Identical), Placement::Discard { slot: 1 });
    assert_eq!(next_placement(p, 1, Probe::Different), Placement::Next { slot: 2 });
    assert_eq!(next_placement(p, 2, Probe::Identical), Placement::Discard { slot: 2 });
    assert_eq!(
        next_placement(p, 3, Probe::Missing),
        Placement::Move { slot: 3, action: InstallAction::KeptBoth }
    );
    assert_eq!(next_placement(p, 999, Probe::Different), Placement::GiveUp);
    assert_eq!(slot_name("q.sto", 1), "q.sto");
    assert_eq!(slot_name("q.sto", 3), "q (3).sto");
}

#[test]
fn placement_replaces_only_under_overwrite() {
    let p = ConflictPolicy::Overwrite;
    assert_eq!(
        next_placement(p, 1, Probe::Different),
        Placement::Move { slot: 1, action: InstallAction::Replaced }
    );
    assert_eq!(next_placement(p, 1, Probe::Identical), Placement::Discard { slot: 1 });
    assert_eq!(ConflictPolicy::default(), ConflictPolicy::KeepBoth);
}

#[test]
fn too_many_copies_names_the_file_and_folder() {
    match too_many_copies("q.sto", "/s") {
        Error::Api(m) => assert_eq!(
            m,
            "too many copies of \"q.sto\" in /s — clean up the folder or switch the conflict policy to overwrite"
        ),
        other => panic!("unexpected {other:?}"),
    }
}

#[test]
fn numbered_names_count_in_decimal() {
    assert_eq!(numbered_name("a.b.c", 10), "a.b (10).c");
    assert_eq!(numbered_name("x", 999), "x (999)");
    assert_eq!(numbered_name("x", 0), "x (0)");
}

/// Walk the placement steps over a folder whose slot `n` holds `probes[n - 1]`.
fn walk(policy: ConflictPolicy, probes: &[Probe]) -> Placement {
    let mut slot = 1u32;
    loop {
        match next_placement(policy, slot, probes[(slot - 1) as usize]) {
            Placement::Next { slot: n } => slot = n,
            other => return other,
        }
    }
}

#[test]
fn keep_both_lands_on_the_first_open_slot_and_repeats_are_idempotent() {
    let mut probes = vec![Probe::Missing; 999];
    probes[0] = Probe::Different;
    probes[1] = Probe::Different;
    let first = walk(ConflictPolicy::KeepBoth, &probes);
    assert_eq!(first, Placement::Move { slot: 3, action: InstallAction::KeptBoth });
    // The same bytes again: already installed on that slot.
    probes[2] = Probe::Identical;
    assert_eq!(walk(ConflictPolicy::KeepBoth, &probes), Placement::Discard { slot: 3 });
    // Different bytes again: the next slot.
    probes[2] = Probe::Different;
    assert_eq!(
        walk(ConflictPolicy::KeepBoth, &probes),
        Placement::Move { slot: 4, action: InstallAction::KeptBoth }
    );
    let full = vec![Probe::Different; 999];
    assert_eq!(walk(ConflictPolicy::KeepBoth, &full), Placement::GiveUp);
}
